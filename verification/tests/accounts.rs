use std::collections::HashMap;
use std::time::{SystemTime, UNIX_EPOCH};

use anna_sync::auth::{
    self, Claims, CurrentUser, GitHubError, GitHubUser, Identified, OAuthCallback, OptionalUser, SignInStage,
    TokenFault,
};
use anna_sync::database::{Group, Label, User, VirtualFolder};
use anna_sync::folders::{self, CreateFolderRequest, FolderStage};
use anna_sync::groups::{self, AddMemberRequest, CreateGroupRequest, GroupStage, ShareRequest};
use anna_sync::labels::{self, CreateLabelRequest, LabelStage};
use serde_json::value::RawValue;

fn now() -> u64 {
    SystemTime::now().duration_since(UNIX_EPOCH).unwrap().as_secs()
}

fn user(id: &str) -> User {
    User {
        id: id.to_string(),
        github_id: None,
        email: None,
        name: "Ann".to_string(),
        avatar_url: None,
        created_at: 1,
    }
}

fn group(owner: &str) -> Group {
    Group {
        id: "g".to_string(),
        owner_id: owner.to_string(),
        name: "G".to_string(),
        description: None,
        created_at: 1,
    }
}

#[test]
fn a_token_is_read_back() {
    let issued = now();
    let token = auth::create_jwt("u1", "Ann ü", issued, "secret").unwrap();
    assert_eq!(token.split('.').count(), 3);
    let claims = auth::decode_jwt(&token, "secret").unwrap();
    assert_eq!(claims.sub, "u1");
    assert_eq!(claims.name, "Ann ü");
    assert_eq!(claims.exp as u64, issued + 86_400);
    assert_eq!(claims.clone().sub, claims.sub);
    assert_eq!(auth::create_jwt("u1", "Ann ü", issued, "secret").unwrap(), token);
}

#[test]
fn a_token_is_good_for_its_secret_and_its_day_only() {
    let token = auth::create_jwt("u1", "Ann", now(), "secret").unwrap();
    assert!(auth::decode_jwt(&token, "another").is_none());
    assert!(auth::decode_jwt("no token", "secret").is_none());
    let stale = auth::create_jwt("u1", "Ann", now() - 2 * 86_400, "secret").unwrap();
    assert!(auth::decode_jwt(&stale, "secret").is_none());
    let fresh = auth::create_jwt("u1", "Ann", now() - 86_000, "secret").unwrap();
    assert!(auth::decode_jwt(&fresh, "secret").is_some());
}

#[test]
fn a_token_of_the_last_second_never_expires() {
    let latest = usize::MAX as u64;
    let token = auth::create_jwt("u1", "Ann", latest - 86_400, "secret").unwrap();
    let claims = auth::decode_jwt(&token, "secret").unwrap();
    assert_eq!((claims.sub.as_str(), claims.name.as_str()), ("u1", "Ann"));
    assert_eq!(claims.exp as u64, latest);
    assert_eq!(auth::authenticate(None, Some(&token), "secret").unwrap().sub, "u1");
    assert!(auth::decode_jwt(&token, "another").is_none());
}

#[test]
fn a_token_that_is_not_read_has_a_fault() {
    let fresh = auth::create_jwt("u1", "Ann", now(), "secret").unwrap();
    assert_eq!(auth::read_token(&fresh, "secret").unwrap().sub, "u1");
    assert_eq!(auth::read_token(&fresh, "another").err(), Some(TokenFault::Invalid));
    assert_eq!(auth::read_token("a.b.c", "secret").err(), Some(TokenFault::Invalid));
    let stale = auth::create_jwt("u1", "Ann", now() - 2 * 86_400, "secret").unwrap();
    assert_eq!(auth::read_token(&stale, "secret").err(), Some(TokenFault::Expired));
    let claims = auth::claims_of(Ok(("s".to_string(), "n".to_string(), 5))).unwrap();
    assert_eq!((claims.sub.as_str(), claims.name.as_str(), claims.exp), ("s", "n", 5));
    for fault in [TokenFault::Expired, TokenFault::Invalid] {
        assert_eq!(auth::claims_of(Err(fault)).err(), Some(fault));
    }
}

fn signed(claims: &[(&str, String)]) -> String {
    let claims: HashMap<String, Box<RawValue>> = claims
        .iter()
        .map(|(name, value)| (name.to_string(), RawValue::from_string(value.clone()).unwrap()))
        .collect();
    let key = jsonwebtoken::EncodingKey::from_secret(b"secret");
    jsonwebtoken::encode(&jsonwebtoken::Header::default(), &claims, &key).unwrap()
}

#[test]
fn claims_that_are_not_asked_for_are_passed_over() {
    let deep = "[".repeat(300) + &"]".repeat(300);
    let exp = (now() + 100).to_string();
    let good = |name: &str| {
        signed(&[
            ("sub", "\"u1\"".to_string()),
            ("name", name.to_string()),
            ("exp", exp.clone()),
            ("deep", deep.clone()),
            ("large", "1e999".to_string()),
        ])
    };
    let claims = auth::read_token(&good("\"A\\u006en\""), "secret").unwrap();
    assert_eq!((claims.sub.as_str(), claims.name.as_str(), claims.exp.to_string()), ("u1", "Ann", exp.clone()));
    assert_eq!(auth::read_token(&good("5"), "secret").err(), Some(TokenFault::Invalid));
    let nameless = signed(&[("sub", "\"u1\"".to_string()), ("exp", exp.clone())]);
    assert_eq!(auth::read_token(&nameless, "secret").err(), Some(TokenFault::Invalid));
    let undated = signed(&[("sub", "\"u1\"".to_string()), ("name", "\"Ann\"".to_string())]);
    assert_eq!(auth::read_token(&undated, "secret").err(), Some(TokenFault::Invalid));
}

#[test]
fn the_secret_has_a_default_for_development() {
    assert_eq!(auth::jwt_secret(None), "default-dev-secret-change-in-production-please");
    assert_eq!(auth::jwt_secret(Some("s".to_string())), "s");
}

#[test]
fn the_token_of_a_request_is_found() {
    assert_eq!(auth::extract_bearer_token(Some("Bearer t"), Some("x")).unwrap(), "t");
    assert_eq!(auth::extract_bearer_token(Some("bearer t"), Some("x")).unwrap(), "x");
    assert_eq!(auth::extract_bearer_token(Some("Bearer "), None).unwrap(), "");
    assert_eq!(auth::extract_bearer_token(None, Some("x")).unwrap(), "x");
    assert!(auth::extract_bearer_token(Some("Basic t"), None).is_none());
    assert!(auth::extract_bearer_token(None, None).is_none());
}

#[test]
fn requests_are_authenticated() {
    let token = auth::create_jwt("u1", "Ann", now(), "secret").unwrap();
    let header = auth::bearer(&token);
    assert_eq!(auth::authenticate(Some(&header), None, "secret").unwrap().sub, "u1");
    assert_eq!(auth::authenticate(None, Some(&token), "secret").unwrap().sub, "u1");
    let refused = auth::authenticate(None, None, "secret").err().unwrap();
    assert_eq!((refused.status, refused.error.error.as_str()), (401, "Missing authentication token"));
    let refused = auth::authenticate(Some("Bearer x"), None, "secret").err().unwrap();
    assert_eq!((refused.status, refused.error.error.as_str()), (401, "Invalid or expired token"));
    let refused = auth::let_in(true, None).err().unwrap();
    assert_eq!(refused.error.error, "Invalid or expired token");
    let claims = Claims { sub: "s".to_string(), name: "n".to_string(), exp: 1 };
    assert_eq!(auth::let_in(true, Some(claims)).unwrap().sub, "s");
}

#[test]
fn users_are_required_or_optional() {
    assert_eq!(auth::current_user(Some(user("u"))).unwrap().0.id, "u");
    let refused = auth::current_user(None).err().unwrap();
    assert_eq!((refused.status, refused.error.error.as_str()), (401, "User not found"));
    assert_eq!(auth::optional_user(true, Some(user("u"))).0.unwrap().id, "u");
    assert!(auth::optional_user(false, Some(user("u"))).0.is_none());
    assert!(auth::optional_user(true, None).0.is_none());
}

fn profile(name: Option<&str>) -> GitHubUser {
    GitHubUser {
        id: -42,
        login: "ann".to_string(),
        name: name.map(str::to_string),
        email: Some("a@b".to_string()),
        avatar_url: None,
    }
}

#[test]
fn signing_in_goes_through_github() {
    assert_eq!(
        auth::github_login(Some("cid".to_string())),
        "https://github.com/login/oauth/authorize?client_id=cid&scope=read:user,user:email"
    );
    assert_eq!(
        auth::github_login(None),
        "https://github.com/login/oauth/authorize?client_id=&scope=read:user,user:email"
    );
    let request = auth::sign_in(Some("cid".to_string()), None, OAuthCallback { code: "c".to_string() }).request;
    assert_eq!((request.client_id.as_str(), request.client_secret.as_str(), request.code.as_str()), ("cid", "", "c"));
    assert_eq!(auth::signed_in_url(None, "t"), "http://localhost:3000/?token=t");
    assert_eq!(auth::signed_in_url(Some("https://x".to_string()), "t"), "https://x/?token=t");
}

fn exchanging() -> auth::ExchangingCode {
    auth::sign_in(None, None, OAuthCallback { code: "c".to_string() })
}

fn finding(name: Option<&str>) -> auth::FindingUser {
    let fetching = exchanging().token(Ok("tok".to_string())).unwrap();
    assert_eq!(fetching.authorization, "Bearer tok");
    fetching.profile(Ok(profile(name))).unwrap()
}

#[test]
fn a_known_user_is_given_a_token() {
    let issued = now();
    let found = finding(None);
    assert_eq!(found.github_id, "-42");
    let signed_in = match found.found(Ok(Some(user("old"))), 9).unwrap() {
        Identified::Known(known) => known,
        other => panic!("expected a known user, got {other:?}"),
    };
    let url = signed_in.issue(issued, "secret", None).unwrap();
    let token = url.strip_prefix("http://localhost:3000/?token=").unwrap();
    let claims = auth::decode_jwt(token, "secret").unwrap();
    assert_eq!((claims.sub.as_str(), claims.name.as_str()), ("old", "Ann"));
    assert_eq!(claims.exp as u64, issued + 86_400);
}

#[test]
fn a_new_user_is_recorded_first() {
    let saving = match finding(None).found(Ok(None), 9).unwrap() {
        Identified::New(saving) => saving,
        other => panic!("expected a new user, got {other:?}"),
    };
    let made = saving.user();
    assert_eq!(made.id.len(), 36);
    assert_eq!(made.github_id.as_deref(), Some("-42"));
    assert_eq!(made.name, "ann");
    assert_eq!(made.email.as_deref(), Some("a@b"));
    assert_eq!(made.created_at, 9);
    assert!(saving.saved(Ok(())).unwrap().issue(now(), "secret", Some("https://x".to_string())).unwrap().starts_with("https://x/?token="));
    let saving = match finding(Some("Ann")).found_or(Ok(None), "id", 9).unwrap() {
        Identified::New(saving) => saving,
        other => panic!("expected a new user, got {other:?}"),
    };
    assert_eq!((saving.user().id.as_str(), saving.user().name.as_str()), ("id", "Ann"));
    let refused = saving.saved(Err("e".to_string())).err().unwrap();
    assert_eq!((refused.status, refused.error.error.as_str()), (500, "Failed to save user: e"));
    assert_eq!(auth::new_user(profile(Some("Ann")), "id", 9).name, "Ann");
}

#[test]
fn signing_in_stops_where_it_fails() {
    let gone = || GitHubError::Unreachable("e".to_string());
    let odd = || GitHubError::Unreadable("e".to_string());
    let refused = exchanging().token(Err(gone())).err().unwrap();
    assert_eq!((refused.status, refused.error.error.as_str()), (502, "GitHub token exchange failed: e"));
    let refused = exchanging().token(Err(odd())).err().unwrap();
    assert_eq!(refused.error.error, "GitHub token response parse error: e");
    let fetching = || exchanging().token(Ok("t".to_string())).unwrap();
    assert_eq!(fetching().profile(Err(gone())).err().unwrap().error.error, "GitHub user fetch failed: e");
    assert_eq!(fetching().profile(Err(odd())).err().unwrap().error.error, "GitHub user parse error: e");
    let refused = finding(None).found(Err("e".to_string()), 1).err().unwrap();
    assert_eq!((refused.status, refused.error.error.as_str()), (500, "DB error: e"));
}

#[test]
fn failures_of_signing_in_are_told_apart() {
    let cases = [
        (SignInStage::ExchangeCode, 502, "GitHub token exchange failed: e"),
        (SignInStage::ReadToken, 502, "GitHub token response parse error: e"),
        (SignInStage::FetchProfile, 502, "GitHub user fetch failed: e"),
        (SignInStage::ReadProfile, 502, "GitHub user parse error: e"),
        (SignInStage::FindUser, 500, "DB error: e"),
        (SignInStage::SaveUser, 500, "Failed to save user: e"),
        (SignInStage::IssueToken, 500, "Failed to create JWT: e"),
    ];
    for (stage, status, text) in cases {
        let failure = auth::failed(stage, "e");
        assert_eq!((failure.status, failure.error.error.as_str()), (status, text));
    }
}

#[test]
fn a_group_belongs_to_its_maker() {
    let body = CreateGroupRequest { name: "G".to_string(), description: Some("d".to_string()) };
    let made = groups::create_group(&CurrentUser(user("u")), body, 4);
    assert_eq!(made.group.id.len(), 36);
    assert_eq!(made.group.owner_id, "u");
    assert_eq!(made.group.description.as_deref(), Some("d"));
    assert_eq!(made.owner.group_id, made.group.id);
    assert_eq!((made.owner.user_id.as_str(), made.owner.role.as_str(), made.owner.joined_at), ("u", "owner", 4));
}

#[test]
fn only_the_owner_changes_a_group() {
    let owner = CurrentUser(user("o"));
    let other = CurrentUser(user("x"));
    assert!(groups::may_delete(Some(group("o")), &owner).is_ok());
    let refused = groups::may_delete(Some(group("o")), &other).err().unwrap();
    assert_eq!((refused.status, refused.error.error.as_str()), (403, "Only the group owner can delete this group"));
    let refused = groups::may_delete(None, &owner).err().unwrap();
    assert_eq!((refused.status, refused.error.error.as_str()), (404, "Group not found"));
    assert!(groups::may_add_member(Some(group("o")), &owner).is_ok());
    let refused = groups::may_add_member(Some(group("o")), &other).err().unwrap();
    assert_eq!((refused.status, refused.error.error.as_str()), (403, "Only the group owner can add members"));
    assert_eq!(groups::may_add_member(None, &owner).err().unwrap().status, 404);
}

#[test]
fn a_member_may_leave() {
    let owner = CurrentUser(user("o"));
    let member = CurrentUser(user("m"));
    assert!(groups::may_remove_member(Some(group("o")), &owner, "m").is_ok());
    assert!(groups::may_remove_member(Some(group("o")), &member, "m").is_ok());
    let refused = groups::may_remove_member(Some(group("o")), &member, "n").err().unwrap();
    assert_eq!((refused.status, refused.error.error.as_str()), (403, "Insufficient permissions"));
    assert_eq!(groups::may_remove_member(None, &owner, "m").err().unwrap().status, 404);
}

#[test]
fn members_and_shares_are_made_of_requests() {
    let made = groups::new_member("g", AddMemberRequest { user_id: "m".to_string(), role: None }, 3);
    assert_eq!((made.group_id.as_str(), made.user_id.as_str(), made.role.as_str(), made.joined_at), ("g", "m", "member", 3));
    let made = groups::new_member("g", AddMemberRequest { user_id: "m".to_string(), role: Some("r".to_string()) }, 3);
    assert_eq!(made.role, "r");
    let body = ShareRequest { visibility: "group".to_string(), group_id: Some("g".to_string()) };
    let share = groups::share_file(&CurrentUser(user("u")), "f", body, 5);
    assert_eq!((share.file_hash.as_str(), share.owner_id.as_deref(), share.visibility.as_str()), ("f", Some("u"), "group"));
    assert_eq!((share.group_id.as_deref(), share.created_at), (Some("g"), 5));
    assert_eq!(groups::require_group(Some(group("o"))).unwrap().id, "g");
    assert_eq!(groups::with_members(group("o"), vec![made]).members.len(), 1);
    assert_eq!(groups::viewer_id(OptionalUser(Some(user("u")))), "u");
    assert_eq!(groups::viewer_id(OptionalUser(None)), "");
}

#[test]
fn failures_about_groups_are_told_apart() {
    let cases = [
        (GroupStage::Create, "Failed to create group: e"),
        (GroupStage::AddOwner, "Failed to add owner as member: e"),
        (GroupStage::List, "Failed to list groups: e"),
        (GroupStage::Members, "Failed to get members: e"),
        (GroupStage::Delete, "Failed to delete group: e"),
        (GroupStage::AddMember, "Failed to add member: e"),
        (GroupStage::RemoveMember, "Failed to remove member: e"),
        (GroupStage::Share, "Failed to share file: e"),
    ];
    for (stage, text) in cases {
        let failure = groups::failed(stage, "e");
        assert_eq!((failure.status, failure.error.error.as_str()), (500, text));
    }
}

fn label(id: &str) -> Label {
    Label {
        id: id.to_string(),
        owner_id: "u".to_string(),
        name: "n".to_string(),
        color: "c".to_string(),
        created_at: 1,
    }
}

#[test]
fn a_label_is_used_by_its_owner_only() {
    let own = vec![label("a"), label("b")];
    assert!(labels::check_ownership(&own, "b").is_ok());
    let refused = labels::check_ownership(&own, "c").err().unwrap();
    assert_eq!((refused.status, refused.error.error.as_str()), (403, "Label not found or does not belong to you"));
    assert!(labels::check_ownership(&vec![], "a").is_err());
}

#[test]
fn a_label_has_a_colour() {
    let me = CurrentUser(user("u"));
    let made = labels::create_label(&me, CreateLabelRequest { name: "n".to_string(), color: None }, 2);
    assert_eq!((made.owner_id.as_str(), made.name.as_str(), made.color.as_str(), made.created_at), ("u", "n", "#6366f1", 2));
    assert_eq!(made.id.len(), 36);
    let body = CreateLabelRequest { name: "n".to_string(), color: Some("#fff".to_string()) };
    let made = labels::new_label(&me, body, "id", 2);
    assert_eq!((made.id.as_str(), made.color.as_str()), ("id", "#fff"));
}

#[test]
fn failures_about_labels_are_told_apart() {
    let cases = [
        (LabelStage::Create, "Failed to create label: e"),
        (LabelStage::List, "Failed to list labels: e"),
        (LabelStage::Delete, "Failed to delete label: e"),
        (LabelStage::Verify, "Failed to verify label ownership: e"),
        (LabelStage::AddToFile, "Failed to add label to file: e"),
        (LabelStage::RemoveFromFile, "Failed to remove label from file: e"),
        (LabelStage::ListOfFile, "Failed to get file labels: e"),
    ];
    for (stage, text) in cases {
        let failure = labels::failed(stage, "e");
        assert_eq!((failure.status, failure.error.error.as_str()), (500, text));
    }
}

#[test]
fn folders_may_have_no_owner() {
    let body = CreateFolderRequest { name: "n".to_string(), parent_id: Some("p".to_string()) };
    let made = folders::create_folder(OptionalUser(Some(user("u"))), body, 6);
    assert_eq!(made.id.len(), 36);
    assert_eq!((made.owner_id.as_deref(), made.parent_id.as_deref(), made.created_at), (Some("u"), Some("p"), 6));
    let body = CreateFolderRequest { name: "n".to_string(), parent_id: None };
    let made = folders::new_folder(OptionalUser(None), body, "id", 6);
    assert_eq!((made.id.as_str(), made.owner_id.as_deref(), made.parent_id.as_deref()), ("id", None, None));
    assert_eq!(folders::owner_id(OptionalUser(Some(user("u")))).as_deref(), Some("u"));
}

#[test]
fn a_folder_has_to_be_there() {
    let folder = || VirtualFolder {
        id: "f".to_string(),
        owner_id: None,
        name: "n".to_string(),
        parent_id: None,
        created_at: 1,
    };
    assert_eq!(folders::require_folder(Some(folder())).unwrap().id, "f");
    let refused = folders::require_folder(None).err().unwrap();
    assert_eq!((refused.status, refused.error.error.as_str()), (404, "Folder not found"));
    let whole = folders::contents(folder(), vec![folder()], vec!["h".to_string()]);
    assert_eq!((whole.folder.id.as_str(), whole.subfolders.len(), whole.file_hashes.len()), ("f", 1, 1));
    let cases = [
        (FolderStage::Create, "Failed to create folder: e"),
        (FolderStage::List, "Failed to list folders: e"),
        (FolderStage::Subfolders, "Failed to list subfolders: e"),
        (FolderStage::Files, "Failed to list files in folder: e"),
        (FolderStage::AddFile, "Failed to add file to folder: e"),
    ];
    for (stage, text) in cases {
        let failure = folders::failed(stage, "e");
        assert_eq!((failure.status, failure.error.error.as_str()), (500, text));
    }
}
