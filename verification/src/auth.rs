//! Who someone is: signed tokens, and signing in through GitHub.

use std::collections::HashMap;

use jsonwebtoken::errors::ErrorKind;
use jsonwebtoken::DecodingKey;
use jsonwebtoken::Validation;
use serde_json::from_str;
use serde_json::value::RawValue;
use vstd::prelude::*;

use crate::database::User;
use crate::files;
use crate::files::Rejection;
use crate::ids;
use crate::sql;
use crate::sql::SqlView;
use crate::text;

verus! {

/// The secret that signs tokens where none is configured.
pub const DEV_SECRET: &'static str = "default-dev-secret-change-in-production-please";

/// How long a token is good for, in seconds: 24 hours.
pub const TOKEN_LIFETIME: u64 = 86400;

/// The text for a request without a token.
pub const MISSING_TOKEN: &'static str = "Missing authentication token";

/// The text for a request with a token that is no good.
pub const INVALID_TOKEN: &'static str = "Invalid or expired token";

/// The text for a token of someone who is not recorded.
pub const USER_NOT_FOUND: &'static str = "User not found";

/// Where GitHub exchanges a code for an access token.
pub const TOKEN_URL: &'static str = "https://github.com/login/oauth/access_token";

/// Where GitHub hands out the profile of a user.
pub const PROFILE_URL: &'static str = "https://api.github.com/user";

/// How the server presents itself to GitHub.
pub const USER_AGENT: &'static str = "anna-sync/1.0";

/// Where the browser goes back to where no other place is configured.
pub const DEFAULT_APP_URL: &'static str = "http://localhost:3000";

// ---- tokens ----

/// What a token says.
#[derive(Debug)]
pub struct Claims {
    /// The identifier of the user.
    pub sub: String,
    pub name: String,
    /// When the token expires, in seconds since 1970.
    pub exp: usize,
}

impl Clone for Claims {
    fn clone(&self) -> (r: Self)
        ensures
            r == *self,
    {
        Claims { sub: self.sub.clone(), name: self.name.clone(), exp: self.exp }
    }
}

/// What a token says, as plain values: the user's identifier and name, and when it
/// expires.
pub type TokenContent = (Seq<char>, Seq<char>, nat);

/// What claims say.
pub open spec fn content(claims: Claims) -> TokenContent {
    (claims.sub@, claims.name@, claims.exp as nat)
}

/// The token that `jsonwebtoken::encode` makes of what is to be said and of a secret, or
/// the words of its error.
pub uninterp spec fn jwt_encoded(
    sub: Seq<char>,
    name: Seq<char>,
    exp: u64,
    secret: Seq<char>,
) -> Result<Seq<char>, Seq<char>>;

/// What `jsonwebtoken::decode` reads out of a token that has not expired, if it reads
/// anything: the token has the form of one, was signed with the secret, and names no
/// audience.
pub uninterp spec fn jwt_content(token: Seq<char>, secret: Seq<char>) -> Option<
    (Seq<char>, Seq<char>, nat),
>;

/// Whether a token never expires: it says something, and gives the last second there is as
/// the time of its expiry.
pub open spec fn never_expires(said: Option<TokenContent>) -> bool {
    said.is_some() && said.unwrap().2 == u64::MAX
}

/// Calls `jsonwebtoken::encode` with the default header, which signs with HS256. The token
/// depends on the arguments alone, and it says what was put into it.
#[verifier::external_body]
fn jwt_encode(sub: &str, name: &str, exp: u64, secret: &str) -> (r: Result<String, String>)
    ensures
        r.is_ok() == jwt_encoded(sub@, name@, exp, secret@).is_ok(),
        r.is_ok() ==> r.unwrap()@ == jwt_encoded(sub@, name@, exp, secret@)->Ok_0,
        r.is_err() ==> r->Err_0@ == jwt_encoded(sub@, name@, exp, secret@)->Err_0,
        r.is_ok() ==> jwt_content(r.unwrap()@, secret@) == Some((sub@, name@, exp as nat)),
{
    let mut claims = serde_json::Map::new();
    claims.insert("sub".to_string(), serde_json::Value::from(sub));
    claims.insert("name".to_string(), serde_json::Value::from(name));
    claims.insert("exp".to_string(), serde_json::Value::from(exp));
    let key = jsonwebtoken::EncodingKey::from_secret(secret.as_bytes());
    jsonwebtoken::encode(&jsonwebtoken::Header::default(), &claims, &key).map_err(|e| e.to_string())
}

/// Why a token is not read.
#[derive(Debug, Clone, Copy, PartialEq, Eq, Structural)]
pub enum TokenFault {
    /// It has expired.
    Expired,
    /// It is no token, or was not signed with the secret, or does not say what is asked.
    Invalid,
}

/// Whether a token was turned away, and not for its age.
spec fn is_invalid(r: Result<(String, String, u64), TokenFault>) -> bool {
    r.is_err() && r->Err_0 is Invalid
}

/// Calls `jsonwebtoken::decode` with the default checks. What it hands out was signed with
/// the secret. A good token is turned away for its age and for nothing else, and that only
/// where its expiry is less than the time on the clock, some leeway taken off. No second is
/// greater than the last: a token that expires then is handed out whatever the clock shows.
/// Nothing is said of when another good token has expired, which depends on the clock. The
/// values of the three claims are taken as they stand in the token and read by
/// `serde_json::from_str`; other claims are passed over unread. Where a token gives the name
/// twice, the second is handed out.
#[verifier::external_body]
fn jwt_decode(token: &str, secret: &str) -> (r: Result<(String, String, u64), TokenFault>)
    ensures
        r.is_ok() ==> jwt_content(token@, secret@) == Some(
            (r.unwrap().0@, r.unwrap().1@, r.unwrap().2 as nat),
        ),
        is_invalid(r) ==> jwt_content(token@, secret@).is_none(),
        never_expires(jwt_content(token@, secret@)) ==> r.is_ok(),
{
    let key = DecodingKey::from_secret(secret.as_bytes());
    let checks = Validation::default();
    let claims = jsonwebtoken::decode::<HashMap<String, Box<RawValue>>>(token, &key, &checks)
        .map_err(|e| match e.kind() {
            ErrorKind::ExpiredSignature => TokenFault::Expired,
            _ => TokenFault::Invalid,
        })?.claims;
    let sub = claims.get("sub").and_then(|v| from_str(v.get()).ok()).ok_or(TokenFault::Invalid)?;
    let name = claims.get("name").and_then(|v| from_str(v.get()).ok()).ok_or(TokenFault::Invalid)?;
    let exp = claims.get("exp").and_then(|v| from_str(v.get()).ok()).ok_or(TokenFault::Invalid)?;
    Ok((sub, name, exp))
}

/// The secret that signs tokens: the configured one, or one for development.
pub fn jwt_secret(configured: Option<String>) -> (r: String)
    ensures
        r@ == (if configured.is_some() {
            configured.unwrap()@
        } else {
            DEV_SECRET@
        }),
{
    match configured {
        Some(secret) => secret,
        None => DEV_SECRET.to_owned(),
    }
}

/// Issues a token for a user that expires in 24 hours.
pub fn create_jwt(user_id: &str, name: &str, now: u64, secret: &str) -> (r: Result<
    String,
    String,
>)
    requires
        now + TOKEN_LIFETIME <= usize::MAX,
    ensures
        r.is_ok() == jwt_encoded(user_id@, name@, (now + TOKEN_LIFETIME) as u64, secret@).is_ok(),
        r.is_ok() ==> r.unwrap()@ == jwt_encoded(
            user_id@,
            name@,
            (now + TOKEN_LIFETIME) as u64,
            secret@,
        )->Ok_0,
        r.is_err() ==> r->Err_0@ == jwt_encoded(
            user_id@,
            name@,
            (now + TOKEN_LIFETIME) as u64,
            secret@,
        )->Err_0,
        r.is_ok() ==> jwt_content(r.unwrap()@, secret@) == Some(
            (user_id@, name@, (now + TOKEN_LIFETIME) as nat),
        ),
{
    jwt_encode(user_id, name, now + TOKEN_LIFETIME, secret)
}

/// Whether this is what came of decoding a token: what a call of [`jwt_decode`] with that token
/// and that secret gave, at whatever time.
pub closed spec fn was_decoded_as(
    token: Seq<char>,
    secret: Seq<char>,
    decoded: Result<(String, String, u64), TokenFault>,
) -> bool {
    exists|t: &str, s: &str| #[trigger]
        call_ensures(jwt_decode, (t, s), decoded) && t@ == token && s@ == secret
}

/// The claims that the outside values of a token are.
pub fn claims_of(decoded: Result<(String, String, u64), TokenFault>) -> (r: Result<
    Claims,
    TokenFault,
>)
    ensures
        r.is_ok() <==> decoded.is_ok() && decoded.unwrap().2 <= usize::MAX,
        r.is_ok() ==> content(r.unwrap()) == (
            decoded.unwrap().0@,
            decoded.unwrap().1@,
            decoded.unwrap().2 as nat,
        ),
        r.is_err() ==> r->Err_0 == (if decoded.is_err() {
            decoded->Err_0
        } else {
            TokenFault::Invalid
        }),
{
    match decoded {
        Ok((sub, name, exp)) => {
            if exp <= usize::MAX as u64 {
                Ok(Claims { sub, name, exp: exp as usize })
            } else {
                Err(TokenFault::Invalid)
            }
        },
        Err(fault) => Err(fault),
    }
}

/// Whether a token, which says the given, can be read so, whatever the time. A token that says
/// something which fits the claims is read as that, or has expired.
pub open spec fn is_reading(said: Option<TokenContent>, r: Result<Claims, TokenFault>) -> bool {
    &&& r.is_ok() ==> said == Some(content(r.unwrap()))
    &&& said.is_none() || said.unwrap().2 > usize::MAX ==> r.is_err()
    &&& said.is_some() && said.unwrap().2 <= usize::MAX && r.is_err() ==> r->Err_0 is Expired
    &&& never_expires(said) && u64::MAX <= usize::MAX ==> r.is_ok()
}

/// Reads a token. What comes back was signed with the secret; a token that was not, or that
/// has expired, gives the reason. One that never expires is read whatever the time, where its
/// expiry fits the claims.
pub fn read_token(token: &str, secret: &str) -> (r: Result<Claims, TokenFault>)
    ensures
        is_reading(jwt_content(token@, secret@), r),
        exists|decoded: Result<(String, String, u64), TokenFault>|
            {
                &&& #[trigger] was_decoded_as(token@, secret@, decoded)
                &&& r.is_ok() <==> decoded.is_ok() && decoded.unwrap().2 <= usize::MAX
                &&& r.is_ok() ==> r.unwrap().sub@ == decoded.unwrap().0@ && r.unwrap().name@
                    == decoded.unwrap().1@ && r.unwrap().exp == decoded.unwrap().2
                &&& r.is_err() && decoded.is_err() ==> r->Err_0 == decoded->Err_0
                &&& r.is_err() && decoded.is_ok() ==> r->Err_0 is Invalid
            },
{
    let decoded = jwt_decode(token, secret);
    assert(was_decoded_as(token@, secret@, decoded));
    claims_of(decoded)
}

/// Reads a token, as [`read_token`] does; one that is not read gives nothing. Whatever decoding
/// hands out is handed on, where its expiry fits the claims.
pub fn decode_jwt(token: &str, secret: &str) -> (r: Option<Claims>)
    ensures
        exists|read: Result<Claims, TokenFault>|
            {
                &&& #[trigger] call_ensures(read_token, (token, secret), read)
                &&& r.is_some() <==> read.is_ok()
                &&& r.is_some() ==> r.unwrap() == read.unwrap()
            },
        exists|decoded: Result<(String, String, u64), TokenFault>|
            {
                &&& #[trigger] was_decoded_as(token@, secret@, decoded)
                &&& r.is_some() <==> decoded.is_ok() && decoded.unwrap().2 <= usize::MAX
                &&& r.is_some() ==> r.unwrap().sub@ == decoded.unwrap().0@ && r.unwrap().name@
                    == decoded.unwrap().1@ && r.unwrap().exp == decoded.unwrap().2
            },
        r.is_some() ==> jwt_content(token@, secret@) == Some(content(r.unwrap())),
        jwt_content(token@, secret@).is_none() ==> r.is_none(),
        never_expires(jwt_content(token@, secret@)) && u64::MAX <= usize::MAX ==> r.is_some(),
        jwt_content(token@, secret@).is_some() && jwt_content(token@, secret@).unwrap().2
            > usize::MAX ==> r.is_none(),
{
    match read_token(token, secret) {
        Ok(claims) => Some(claims),
        Err(_) => None,
    }
}

// ---- who a request is from ----

/// An authenticated user.
#[derive(Debug)]
pub struct CurrentUser(pub User);

/// A user who may have been authenticated.
#[derive(Debug)]
pub struct OptionalUser(pub Option<User>);

/// The token of a request: what stands behind `Bearer ` in the header `authorization`, or
/// else the header `x-auth-token`.
pub open spec fn token_of(
    authorization: Option<Seq<char>>,
    x_auth_token: Option<Seq<char>>,
) -> Option<Seq<char>> {
    if authorization.is_some() && text::begins_with(authorization.unwrap(), "Bearer "@) {
        Some(authorization.unwrap().skip("Bearer "@.len() as int))
    } else {
        x_auth_token
    }
}

/// Finds the token of a request, given the two headers where they are there and text.
pub fn extract_bearer_token(authorization: Option<&str>, x_auth_token: Option<&str>) -> (r: Option<
    String,
>)
    ensures
        r.is_some() == token_of(text::seen(authorization), text::seen(x_auth_token)).is_some(),
        r.is_some() ==> r.unwrap()@ == token_of(
            text::seen(authorization),
            text::seen(x_auth_token),
        ).unwrap(),
{
    match authorization {
        Some(value) => {
            match text::after_prefix(value, "Bearer ") {
                Some(token) => {
                    return Some(token);
                },
                None => {},
            }
        },
        None => {},
    }
    match x_auth_token {
        Some(value) => Some(value.to_owned()),
        None => None,
    }
}

/// The claims of a request that has to have some, given whether it had a token and what the
/// token said.
pub fn let_in(token: bool, claims: Option<Claims>) -> (r: Result<Claims, Rejection>)
    ensures
        r.is_ok() <==> token && claims.is_some(),
        r.is_ok() ==> r.unwrap() == claims.unwrap(),
        !token ==> r->Err_0.is(files::UNAUTHORIZED, MISSING_TOKEN@),
        token && claims.is_none() ==> r->Err_0.is(files::UNAUTHORIZED, INVALID_TOKEN@),
{
    if !token {
        return Err(Rejection::new(files::UNAUTHORIZED, MISSING_TOKEN));
    }
    match claims {
        Some(claims) => Ok(claims),
        None => Err(Rejection::new(files::UNAUTHORIZED, INVALID_TOKEN)),
    }
}

/// Finds out whom a request is from, given its headers. Whoever it is holds a token that was
/// signed with the secret.
pub fn authenticate(authorization: Option<&str>, x_auth_token: Option<&str>, secret: &str) -> (r:
    Result<Claims, Rejection>)
    ensures
        token_of(text::seen(authorization), text::seen(x_auth_token)).is_none() ==> r.is_err()
            && r->Err_0.is(files::UNAUTHORIZED, MISSING_TOKEN@),
        r.is_ok() ==> (token_of(text::seen(authorization), text::seen(x_auth_token)) matches Some(
            token,
        ) && jwt_content(token, secret@) == Some(content(r.unwrap()))),
        token_of(text::seen(authorization), text::seen(x_auth_token)).is_some() && r.is_err()
            ==> r->Err_0.is(files::UNAUTHORIZED, INVALID_TOKEN@),
        (token_of(text::seen(authorization), text::seen(x_auth_token)) matches Some(token)
            && never_expires(jwt_content(token, secret@)) && u64::MAX <= usize::MAX) ==> r.is_ok(),
        token_of(text::seen(authorization), text::seen(x_auth_token)) matches Some(token)
            ==> exists|decoded: Result<(String, String, u64), TokenFault>|
            {
                &&& #[trigger] was_decoded_as(token, secret@, decoded)
                &&& r.is_ok() <==> decoded.is_ok() && decoded.unwrap().2 <= usize::MAX
                &&& r.is_ok() ==> r.unwrap().sub@ == decoded.unwrap().0@ && r.unwrap().name@
                    == decoded.unwrap().1@ && r.unwrap().exp == decoded.unwrap().2
            },
{
    match extract_bearer_token(authorization, x_auth_token) {
        Some(token) => let_in(true, decode_jwt(token.as_str(), secret)),
        None => let_in(false, None),
    }
}

/// The user of a request that has to be from one, given whether the user of its claims was
/// found.
pub fn current_user(found: Option<User>) -> (r: Result<CurrentUser, Rejection>)
    ensures
        found.is_some() ==> r == Ok::<CurrentUser, Rejection>(CurrentUser(found.unwrap())),
        found.is_none() ==> r.is_err() && r->Err_0.is(files::UNAUTHORIZED, USER_NOT_FOUND@),
{
    match found {
        Some(user) => Ok(CurrentUser(user)),
        None => Err(Rejection::new(files::UNAUTHORIZED, USER_NOT_FOUND)),
    }
}

/// The user of a request that may be from one: the one who was found, if the request was
/// authenticated and its user was found.
pub fn optional_user(authenticated: bool, found: Option<User>) -> (r: OptionalUser)
    ensures
        r.0 == (if authenticated {
            found
        } else {
            None
        }),
{
    if authenticated {
        OptionalUser(found)
    } else {
        OptionalUser(None)
    }
}

// ---- signing in ----

/// What GitHub sends the browser back with.
#[derive(Debug)]
pub struct OAuthCallback {
    pub code: String,
}

/// The profile of a user at GitHub.
#[derive(Debug)]
pub struct GitHubUser {
    pub id: i64,
    pub login: String,
    pub name: Option<String>,
    pub email: Option<String>,
    pub avatar_url: Option<String>,
}

/// What GitHub is sent for an access token.
#[derive(Debug)]
pub struct TokenRequest {
    pub client_id: String,
    pub client_secret: String,
    pub code: String,
}

/// A configured text, or an empty one.
fn or_empty(configured: Option<String>) -> (r: String)
    ensures
        r@ == (if configured.is_some() {
            configured.unwrap()@
        } else {
            Seq::empty()
        }),
{
    match configured {
        Some(value) => value,
        None => {
            let r = String::new();
            assert(r@ =~= Seq::empty());
            r
        },
    }
}

/// Where the browser is sent to sign in.
pub fn github_login(client_id: Option<String>) -> (r: String)
    ensures
        r@ == "https://github.com/login/oauth/authorize?client_id="@ + (if client_id.is_some() {
            client_id.unwrap()@
        } else {
            Seq::empty()
        }) + "&scope=read:user,user:email"@,
{
    let client_id = or_empty(client_id);
    text::joined3(
        "https://github.com/login/oauth/authorize?client_id=",
        client_id.as_str(),
        "&scope=read:user,user:email",
    )
}

/// The header that shows an access token.
pub fn bearer(access_token: &str) -> (r: String)
    ensures
        r@ == "Bearer "@ + access_token@,
{
    text::joined("Bearer ", access_token)
}

/// The identifier under which a GitHub user is looked up.
pub fn github_id(profile: &GitHubUser) -> (r: String)
    ensures
        r@ == text::signed_decimal(profile.id as int),
{
    text::signed_decimal_text(profile.id)
}

/// Whether this is the record that a GitHub profile makes. One who has no name goes by the
/// login.
pub open spec fn makes_user(r: User, profile: GitHubUser, id: Seq<char>, now: i64) -> bool {
    &&& r.id@ == id
    &&& sql::optional(r.github_id) == SqlView::Text(text::signed_decimal(profile.id as int))
    &&& r.email == profile.email
    &&& r.name@ == (if profile.name.is_some() {
        profile.name.unwrap()@
    } else {
        profile.login@
    })
    &&& r.avatar_url == profile.avatar_url
    &&& r.created_at == now
}

/// The record of someone who signs in for the first time, under the given identifier.
pub fn new_user(profile: GitHubUser, id: &str, now: i64) -> (r: User)
    ensures
        makes_user(r, profile, id@, now),
{
    let github_id = Some(github_id(&profile));
    let name = match profile.name {
        Some(name) => name,
        None => profile.login,
    };
    User {
        id: id.to_owned(),
        github_id,
        email: profile.email,
        name,
        avatar_url: profile.avatar_url,
        created_at: now,
    }
}

/// Where the browser is sent back to, with its token.
pub fn signed_in_url(app_url: Option<String>, token: &str) -> (r: String)
    ensures
        r@ == (if app_url.is_some() {
            app_url.unwrap()@
        } else {
            DEFAULT_APP_URL@
        }) + "/?token="@ + token@,
{
    match app_url {
        Some(url) => text::joined3(url.as_str(), "/?token=", token),
        None => text::joined3(DEFAULT_APP_URL, "/?token=", token),
    }
}

/// The work that signing in asks for, and that can fail.
#[derive(Debug, Clone, Copy, PartialEq, Eq, Structural)]
pub enum SignInStage {
    /// Exchanging the code for an access token.
    ExchangeCode,
    /// Reading the access token.
    ReadToken,
    /// Fetching the profile.
    FetchProfile,
    /// Reading the profile.
    ReadProfile,
    /// Looking the user up.
    FindUser,
    /// Recording the user.
    SaveUser,
    /// Issuing the token.
    IssueToken,
}

/// The words that say what failed.
pub open spec fn failed_at(stage: SignInStage) -> Seq<char> {
    match stage {
        SignInStage::ExchangeCode => "GitHub token exchange failed: "@,
        SignInStage::ReadToken => "GitHub token response parse error: "@,
        SignInStage::FetchProfile => "GitHub user fetch failed: "@,
        SignInStage::ReadProfile => "GitHub user parse error: "@,
        SignInStage::FindUser => "DB error: "@,
        SignInStage::SaveUser => "Failed to save user: "@,
        SignInStage::IssueToken => "Failed to create JWT: "@,
    }
}

/// The HTTP status that goes with a failure: GitHub's failures are those of another
/// server.
pub open spec fn failed_status(stage: SignInStage) -> u16 {
    match stage {
        SignInStage::ExchangeCode => files::BAD_GATEWAY,
        SignInStage::ReadToken => files::BAD_GATEWAY,
        SignInStage::FetchProfile => files::BAD_GATEWAY,
        SignInStage::ReadProfile => files::BAD_GATEWAY,
        SignInStage::FindUser => files::INTERNAL_SERVER_ERROR,
        SignInStage::SaveUser => files::INTERNAL_SERVER_ERROR,
        SignInStage::IssueToken => files::INTERNAL_SERVER_ERROR,
    }
}

/// Whether this is the answer to a failure of the given stage.
pub open spec fn is_failure(r: Rejection, stage: SignInStage, why: Seq<char>) -> bool {
    r.is(failed_status(stage), failed_at(stage) + why)
}

/// The answer when the work of a stage failed.
pub fn failed(stage: SignInStage, why: &str) -> (r: Rejection)
    ensures
        is_failure(r, stage, why@),
{
    match stage {
        SignInStage::ExchangeCode => Rejection::because(
            files::BAD_GATEWAY,
            "GitHub token exchange failed: ",
            why,
        ),
        SignInStage::ReadToken => Rejection::because(
            files::BAD_GATEWAY,
            "GitHub token response parse error: ",
            why,
        ),
        SignInStage::FetchProfile => Rejection::because(
            files::BAD_GATEWAY,
            "GitHub user fetch failed: ",
            why,
        ),
        SignInStage::ReadProfile => Rejection::because(
            files::BAD_GATEWAY,
            "GitHub user parse error: ",
            why,
        ),
        SignInStage::FindUser => Rejection::because(
            files::INTERNAL_SERVER_ERROR,
            "DB error: ",
            why,
        ),
        SignInStage::SaveUser => Rejection::because(
            files::INTERNAL_SERVER_ERROR,
            "Failed to save user: ",
            why,
        ),
        SignInStage::IssueToken => Rejection::because(
            files::INTERNAL_SERVER_ERROR,
            "Failed to create JWT: ",
            why,
        ),
    }
}

// ---- signing in, step by step ----

/// What kept GitHub's answer back.
#[derive(Debug)]
pub enum GitHubError {
    /// The request failed.
    Unreachable(String),
    /// The answer could not be read.
    Unreadable(String),
}

/// Signing in has begun: the code is to be exchanged for an access token.
#[derive(Debug)]
pub struct ExchangingCode {
    pub request: TokenRequest,
}

/// The access token is there: the profile is to be fetched with it.
#[derive(Debug)]
pub struct FetchingProfile {
    pub authorization: String,
}

/// The profile is there: the user is to be looked up.
#[derive(Debug)]
pub struct FindingUser {
    pub github_id: String,
    pub profile: GitHubUser,
}

/// The user is new and is to be recorded.
#[derive(Debug)]
pub struct SavingUser {
    user: User,
}

/// The user is recorded and can be given a token.
#[derive(Debug)]
pub struct SignedIn {
    user: User,
}

/// What looking a user up came to.
#[derive(Debug)]
pub enum Identified {
    Known(SignedIn),
    New(SavingUser),
}

/// Begins to sign in, with what GitHub sent the browser back with.
pub fn sign_in(
    client_id: Option<String>,
    client_secret: Option<String>,
    callback: OAuthCallback,
) -> (r: ExchangingCode)
    ensures
        r.request.client_id@ == (if client_id.is_some() {
            client_id.unwrap()@
        } else {
            Seq::empty()
        }),
        r.request.client_secret@ == (if client_secret.is_some() {
            client_secret.unwrap()@
        } else {
            Seq::empty()
        }),
        r.request.code == callback.code,
{
    ExchangingCode {
        request: TokenRequest {
            client_id: or_empty(client_id),
            client_secret: or_empty(client_secret),
            code: callback.code,
        },
    }
}

impl ExchangingCode {
    /// Takes the access token.
    pub fn token(self, reply: Result<String, GitHubError>) -> (r: Result<
        FetchingProfile,
        Rejection,
    >)
        ensures
            match reply {
                Ok(token) => r.is_ok() && r.unwrap().authorization@ == "Bearer "@ + token@,
                Err(GitHubError::Unreachable(why)) => r.is_err() && is_failure(
                    r->Err_0,
                    SignInStage::ExchangeCode,
                    why@,
                ),
                Err(GitHubError::Unreadable(why)) => r.is_err() && is_failure(
                    r->Err_0,
                    SignInStage::ReadToken,
                    why@,
                ),
            },
    {
        match reply {
            Ok(token) => Ok(FetchingProfile { authorization: bearer(token.as_str()) }),
            Err(GitHubError::Unreachable(why)) => Err(
                failed(SignInStage::ExchangeCode, why.as_str()),
            ),
            Err(GitHubError::Unreadable(why)) => Err(failed(SignInStage::ReadToken, why.as_str())),
        }
    }
}

impl FetchingProfile {
    /// Takes the profile.
    pub fn profile(self, reply: Result<GitHubUser, GitHubError>) -> (r: Result<
        FindingUser,
        Rejection,
    >)
        ensures
            match reply {
                Ok(profile) => r.is_ok() && r.unwrap().profile == profile && r.unwrap().github_id@
                    == text::signed_decimal(profile.id as int),
                Err(GitHubError::Unreachable(why)) => r.is_err() && is_failure(
                    r->Err_0,
                    SignInStage::FetchProfile,
                    why@,
                ),
                Err(GitHubError::Unreadable(why)) => r.is_err() && is_failure(
                    r->Err_0,
                    SignInStage::ReadProfile,
                    why@,
                ),
            },
    {
        match reply {
            Ok(profile) => Ok(FindingUser { github_id: github_id(&profile), profile }),
            Err(GitHubError::Unreachable(why)) => Err(
                failed(SignInStage::FetchProfile, why.as_str()),
            ),
            Err(GitHubError::Unreadable(why)) => Err(
                failed(SignInStage::ReadProfile, why.as_str()),
            ),
        }
    }
}

impl FindingUser {
    /// Takes the user who was found under the identifier at GitHub, if there is one. One who
    /// is not recorded gets a record under the given identifier.
    pub fn found_or(self, found: Result<Option<User>, String>, id: &str, now: i64) -> (r: Result<
        Identified,
        Rejection,
    >)
        ensures
            match found {
                Ok(Some(user)) => r matches Ok(Identified::Known(known)) && known.who() == user,
                Ok(None) => r matches Ok(Identified::New(new)) && makes_user(
                    new.who(),
                    self.profile,
                    id@,
                    now,
                ),
                Err(why) => r.is_err() && is_failure(r->Err_0, SignInStage::FindUser, why@),
            },
    {
        match found {
            Ok(Some(user)) => Ok(Identified::Known(SignedIn { user })),
            Ok(None) => Ok(Identified::New(SavingUser { user: new_user(self.profile, id, now) })),
            Err(why) => Err(failed(SignInStage::FindUser, why.as_str())),
        }
    }

    /// Takes the user who was found under the identifier at GitHub, if there is one. One who
    /// is not recorded gets a record under an identifier of its own.
    pub fn found(self, found: Result<Option<User>, String>, now: i64) -> (r: Result<
        Identified,
        Rejection,
    >)
        ensures
            match found {
                Ok(Some(user)) => r matches Ok(Identified::Known(known)) && known.who() == user,
                Ok(None) => r matches Ok(Identified::New(new)) && ids::is_random_uuid(
                    new.who().id@,
                ) && ids::is_drawn(new.who().id@)
                    && makes_user(new.who(), self.profile, new.who().id@, now),
                Err(why) => r.is_err() && is_failure(r->Err_0, SignInStage::FindUser, why@),
            },
    {
        let id = ids::draw();
        self.found_or(found, id.as_str(), now)
    }
}

impl SavingUser {
    /// Who is to be recorded.
    pub closed spec fn who(self) -> User {
        self.user
    }

    /// The record.
    pub fn user(&self) -> (r: &User)
        ensures
            *r == self.who(),
    {
        &self.user
    }

    /// Takes whether the record was made.
    pub fn saved(self, outcome: Result<(), String>) -> (r: Result<SignedIn, Rejection>)
        ensures
            match outcome {
                Ok(_) => r.is_ok() && r.unwrap().who() == self.who(),
                Err(why) => r.is_err() && is_failure(r->Err_0, SignInStage::SaveUser, why@),
            },
    {
        match outcome {
            Ok(_) => Ok(SignedIn { user: self.user }),
            Err(why) => Err(failed(SignInStage::SaveUser, why.as_str())),
        }
    }
}

impl SignedIn {
    /// Who has signed in.
    pub closed spec fn who(self) -> User {
        self.user
    }

    /// Issues a token and says where the browser is sent back to with it.
    pub fn issue(self, now: u64, secret: &str, app_url: Option<String>) -> (r: Result<
        String,
        Rejection,
    >)
        requires
            now + TOKEN_LIFETIME <= usize::MAX,
        ensures
            match jwt_encoded(
                self.who().id@,
                self.who().name@,
                (now + TOKEN_LIFETIME) as u64,
                secret@,
            ) {
                Ok(token) => r.is_ok() && r.unwrap()@ == (if app_url.is_some() {
                    app_url.unwrap()@
                } else {
                    DEFAULT_APP_URL@
                }) + "/?token="@ + token && jwt_content(token, secret@) == Some(
                    (self.who().id@, self.who().name@, (now + TOKEN_LIFETIME) as nat),
                ),
                Err(why) => r.is_err() && is_failure(r->Err_0, SignInStage::IssueToken, why),
            },
    {
        match create_jwt(self.user.id.as_str(), self.user.name.as_str(), now, secret) {
            Ok(token) => Ok(signed_in_url(app_url, token.as_str())),
            Err(why) => Err(failed(SignInStage::IssueToken, why.as_str())),
        }
    }
}

// ---- laws ----

/// A token that was issued says whom it was issued to and when it expires, 24 hours after
/// it was issued; whatever it is read as, it is read as that.
pub proof fn law_issued_token_names_its_user(
    user_id: Seq<char>,
    name: Seq<char>,
    now: u64,
    token: Seq<char>,
    secret: Seq<char>,
    claims: Claims,
)
    requires
        jwt_content(token, secret) == Some((user_id, name, (now + TOKEN_LIFETIME) as nat)),
        jwt_content(token, secret) == Some(content(claims)),
    ensures
        claims.sub@ == user_id,
        claims.name@ == name,
        claims.exp == now + 24 * 3600,
{
}

/// A token that was issued is read as the claims it was issued for, until it has expired, 24
/// hours after it was issued: no other fault is ever found in it.
pub proof fn law_issued_token_is_read_until_it_expires(
    user_id: Seq<char>,
    name: Seq<char>,
    now: u64,
    token: Seq<char>,
    secret: Seq<char>,
    r: Result<Claims, TokenFault>,
)
    requires
        now + TOKEN_LIFETIME <= usize::MAX,
        jwt_content(token, secret) == Some((user_id, name, (now + TOKEN_LIFETIME) as nat)),
        is_reading(jwt_content(token, secret), r),
    ensures
        r != Err::<Claims, TokenFault>(TokenFault::Expired) ==> r.is_ok() && r.unwrap().sub@
            == user_id && r.unwrap().name@ == name && r.unwrap().exp == now + 24 * 3600,
{
}

/// The header that is sent for a token is read back as that token, whatever else the request
/// carries.
pub proof fn law_bearer_header_carries_the_token(token: Seq<char>, other: Option<Seq<char>>)
    ensures
        token_of(Some("Bearer "@ + token), other) == Some(token),
{
    let header = "Bearer "@ + token;
    assert(header.take("Bearer "@.len() as int) =~= "Bearer "@);
    assert(header.skip("Bearer "@.len() as int) =~= token);
}

/// What came of decoding a token came of a call with that token and that secret.
proof fn law_decoding_is_a_call(
    token: Seq<char>,
    secret: Seq<char>,
    decoded: Result<(String, String, u64), TokenFault>,
)
    requires
        was_decoded_as(token, secret, decoded),
    ensures
        exists|t: &str, s: &str| #[trigger]
            call_ensures(jwt_decode, (t, s), decoded) && t@ == token && s@ == secret,
{
}

/// Nothing but its age turns away a token that was issued. Decoding it gives the user that it
/// was issued to and an expiry 24 hours after it was issued, or finds that it has expired;
/// and with another secret, or where it was not issued at all, nothing is ever handed out that
/// the token does not say.
pub proof fn law_only_age_turns_an_issued_token_away(
    user_id: Seq<char>,
    name: Seq<char>,
    now: u64,
    token: Seq<char>,
    secret: Seq<char>,
    decoded: Result<(String, String, u64), TokenFault>,
)
    requires
        was_decoded_as(token, secret, decoded),
    ensures
        jwt_content(token, secret) == Some((user_id, name, (now + TOKEN_LIFETIME) as nat)) ==> {
            &&& decoded.is_ok() || decoded->Err_0 is Expired
            &&& decoded.is_ok() ==> decoded.unwrap().0@ == user_id && decoded.unwrap().1@ == name
                && decoded.unwrap().2 == now + 24 * 3600
        },
        jwt_content(token, secret).is_none() ==> decoded.is_err(),
        decoded.is_ok() ==> jwt_content(token, secret) == Some(
            (decoded.unwrap().0@, decoded.unwrap().1@, decoded.unwrap().2 as nat),
        ),
{
}

/// What claims say is the user, the name and the expiry in them, and two claims that say the
/// same have the same in them.
pub proof fn law_claims_say_what_is_in_them(a: Claims, b: Claims)
    ensures
        content(a).0 == a.sub@,
        content(a).1 == a.name@,
        content(a).2 == a.exp,
        content(a) == content(b) ==> a.sub@ == b.sub@ && a.name@ == b.name@ && a.exp == b.exp,
{
}

/// The token of a request stands in the header `authorization` behind `Bearer `, if that is how
/// the header begins, and otherwise in the other header. A request with neither has none.
pub proof fn law_token_is_found_in_the_headers(
    authorization: Option<Seq<char>>,
    other: Option<Seq<char>>,
    token: Seq<char>,
)
    ensures
        token_of(None, other) == other,
        token_of(authorization, other) == Some(token) ==> authorization == Some(
            "Bearer "@ + token,
        ) || other == Some(token),
        (forall|t: Seq<char>| authorization != Some(#[trigger] ("Bearer "@ + t))) ==> token_of(
            authorization,
            other,
        ) == other,
{
    if authorization.is_some() {
        let header = authorization.unwrap();
        text::law_prefix("Bearer "@, header.skip("Bearer "@.len() as int), header);
        if text::begins_with(header, "Bearer "@) {
            let t = header.skip("Bearer "@.len() as int);
            assert(authorization == Some("Bearer "@ + t));
        }
    }
}

/// Who signs in for the first time is recorded under the identifier that was drawn, with the
/// number at GitHub written out, the mail address and the picture of the profile, and the name
/// of the profile or else its login.
pub proof fn law_new_user_takes_after_the_profile(
    r: User,
    profile: GitHubUser,
    id: Seq<char>,
    now: i64,
)
    requires
        makes_user(r, profile, id, now),
    ensures
        r.id@ == id,
        r.created_at == now,
        r.github_id.is_some() && r.github_id.unwrap()@ == text::signed_decimal(profile.id as int),
        r.email == profile.email,
        r.avatar_url == profile.avatar_url,
        profile.name.is_some() ==> r.name@ == profile.name.unwrap()@,
        profile.name.is_none() ==> r.name@ == profile.login@,
{
}

/// What fails at GitHub is told as the failure of another server, and what fails here as the
/// server's own; either way the reason stands at the end.
pub proof fn law_sign_in_failures_say_whose_they_are(
    r: Rejection,
    stage: SignInStage,
    why: Seq<char>,
)
    requires
        is_failure(r, stage, why),
    ensures
        stage is ExchangeCode || stage is ReadToken || stage is FetchProfile
            || stage is ReadProfile ==> r.status == 502,
        stage is FindUser || stage is SaveUser || stage is IssueToken ==> r.status == 500,
        r.error.error@.len() >= why.len(),
        r.error.error@.skip(r.error.error@.len() - why.len()) == why,
{
    let text = r.error.error@;
    assert(text == failed_at(stage) + why);
    assert(text.skip(text.len() - why.len()) =~= why);
}

} // verus!
