//! The QUIC listener: its certificate, its limits, and when it stops.

use vstd::prelude::*;

use crate::text;

verus! {

/// How many bytes of one stream may be on their way.
pub const STREAM_RECEIVE_WINDOW: u32 = 1000000;

/// How many bytes of one connection may be on their way.
pub const RECEIVE_WINDOW: u32 = 8000000;

/// After how many seconds without traffic a connection is given up.
pub const MAX_IDLE_SECS: u64 = 30;

/// The protocol that is spoken over QUIC.
pub const ALPN: &'static str = "h3";

/// The host that a self-signed certificate is for where none is configured.
pub const DEFAULT_HOSTNAME: &'static str = "localhost";

/// The text for a certificate that cannot be read.
pub const BAD_CERTIFICATE: &'static str = "Failed to parse QUIC certificate PEM";

/// The text for a file without a private key.
pub const NO_KEY: &'static str = "No PKCS8 private key found in QUIC_KEY_PEM";

/// The text for a private key that cannot be read.
pub const BAD_KEY: &'static str = "Failed to parse QUIC private key";

/// The text for a certificate that could not be made.
pub const NOT_GENERATED: &'static str = "Failed to generate self-signed TLS certificate";

// ---- the certificate ----

/// Where the certificate comes from.
#[derive(Debug)]
pub enum TlsSource {
    /// From two files.
    Files { cert_path: String, key_path: String },
    /// It is made when the server starts.
    SelfSigned,
}

/// A certificate chain with its private key, both in DER.
#[derive(Debug)]
pub struct TlsMaterial {
    pub certs: Vec<Vec<u8>>,
    pub key: Vec<u8>,
}

/// Settles where the certificate comes from: from files if both are configured, and it is
/// made otherwise.
pub fn tls_source(cert_path: Option<String>, key_path: Option<String>) -> (r: TlsSource)
    ensures
        cert_path.is_some() && key_path.is_some() ==> r == (TlsSource::Files {
            cert_path: cert_path.unwrap(),
            key_path: key_path.unwrap(),
        }),
        cert_path.is_none() || key_path.is_none() ==> r is SelfSigned,
{
    match (cert_path, key_path) {
        (Some(cert_path), Some(key_path)) => TlsSource::Files { cert_path, key_path },
        _ => TlsSource::SelfSigned,
    }
}

/// The contents of a list of byte strings.
pub open spec fn contents(list: Seq<Vec<u8>>) -> Seq<Seq<u8>> {
    list.map_values(|v: Vec<u8>| v@)
}

/// The certificates in PEM data, in DER, or nothing where a part of the data is no PEM.
pub uninterp spec fn pem_certs(pem: Seq<u8>) -> Option<Seq<Seq<u8>>>;

/// The first PKCS8 private key in PEM data, in DER: nothing where the data holds neither such
/// a key nor a broken part, and nothing inside where a broken part comes first.
pub uninterp spec fn pem_first_key(pem: Seq<u8>) -> Option<Option<Seq<u8>>>;

/// Calls `rustls_pemfile::certs` and takes what it yields, up to the first error. The result
/// depends on the data alone.
#[verifier::external_body]
fn read_certs(pem: &[u8]) -> (r: Option<Vec<Vec<u8>>>)
    ensures
        r.is_some() == pem_certs(pem@).is_some(),
        r.is_some() ==> contents(r.unwrap()@) == pem_certs(pem@).unwrap(),
{
    let mut rest = pem;
    rustls_pemfile::certs(&mut rest).map(|cert| cert.map(|der| der.to_vec()).ok()).collect()
}

/// Calls `rustls_pemfile::pkcs8_private_keys` and takes the first thing that it yields. The
/// result depends on the data alone.
#[verifier::external_body]
fn read_first_key(pem: &[u8]) -> (r: Option<Option<Vec<u8>>>)
    ensures
        r.is_some() == pem_first_key(pem@).is_some(),
        r.is_some() ==> r.unwrap().is_some() == pem_first_key(pem@).unwrap().is_some(),
        r.is_some() && r.unwrap().is_some() ==> r.unwrap().unwrap()@ == pem_first_key(
            pem@,
        ).unwrap().unwrap(),
{
    let mut rest = pem;
    let first = rustls_pemfile::pkcs8_private_keys(&mut rest).next();
    first.map(|key| key.map(|der| der.secret_pkcs8_der().to_vec()).ok())
}

/// Puts together what was read from the two files: the certificates, and the first key.
pub fn tls_material(certs: Option<Vec<Vec<u8>>>, key: Option<Option<Vec<u8>>>) -> (r: Result<
    TlsMaterial,
    String,
>)
    ensures
        r.is_ok() <==> certs.is_some() && key.is_some() && key.unwrap().is_some(),
        r.is_ok() ==> r.unwrap().certs == certs.unwrap() && r.unwrap().key
            == key.unwrap().unwrap(),
        certs.is_none() ==> r->Err_0@ == BAD_CERTIFICATE@,
        certs.is_some() && key.is_none() ==> r->Err_0@ == NO_KEY@,
        certs.is_some() && key.is_some() && key.unwrap().is_none() ==> r->Err_0@ == BAD_KEY@,
{
    match certs {
        None => Err(BAD_CERTIFICATE.to_owned()),
        Some(certs) => match key {
            None => Err(NO_KEY.to_owned()),
            Some(None) => Err(BAD_KEY.to_owned()),
            Some(Some(key)) => Ok(TlsMaterial { certs, key }),
        },
    }
}

/// Reads the certificate chain and the private key from the contents of two files.
pub fn load_tls(cert_pem: &[u8], key_pem: &[u8]) -> (r: Result<TlsMaterial, String>)
    ensures
        r.is_ok() <==> pem_certs(cert_pem@).is_some() && pem_first_key(key_pem@).is_some()
            && pem_first_key(key_pem@).unwrap().is_some(),
        r.is_ok() ==> contents(r.unwrap().certs@) == pem_certs(cert_pem@).unwrap()
            && r.unwrap().key@ == pem_first_key(key_pem@).unwrap().unwrap(),
        pem_certs(cert_pem@).is_none() ==> r->Err_0@ == BAD_CERTIFICATE@,
        pem_certs(cert_pem@).is_some() && pem_first_key(key_pem@).is_none() ==> r->Err_0@
            == NO_KEY@,
        pem_certs(cert_pem@).is_some() && pem_first_key(key_pem@).is_some() && pem_first_key(
            key_pem@,
        ).unwrap().is_none() ==> r->Err_0@ == BAD_KEY@,
{
    tls_material(read_certs(cert_pem), read_first_key(key_pem))
}

/// Calls `rcgen::generate_simple_self_signed` for one host and takes certificate and key in
/// DER. Nothing is said of them: the key is random.
#[verifier::external_body]
fn self_signed(hostname: &str) -> (r: Option<(Vec<u8>, Vec<u8>)>) {
    let made = rcgen::generate_simple_self_signed([hostname.to_string()]).ok()?;
    Some((made.cert.der().to_vec(), made.key_pair.serialize_der()))
}

/// The host that a self-signed certificate is for.
pub fn tls_hostname(configured: Option<String>) -> (r: String)
    ensures
        r@ == (if configured.is_some() {
            configured.unwrap()@
        } else {
            DEFAULT_HOSTNAME@
        }),
{
    match configured {
        Some(hostname) => hostname,
        None => DEFAULT_HOSTNAME.to_owned(),
    }
}

/// A chain of the one certificate that was made, with its key.
pub fn single_certificate(made: Option<(Vec<u8>, Vec<u8>)>) -> (r: Result<TlsMaterial, String>)
    ensures
        r.is_ok() == made.is_some(),
        r.is_ok() ==> r.unwrap().certs@ == seq![made.unwrap().0] && r.unwrap().key
            == made.unwrap().1,
        r.is_err() ==> r->Err_0@ == NOT_GENERATED@,
{
    match made {
        Some((cert, key)) => {
            let mut certs: Vec<Vec<u8>> = Vec::new();
            certs.push(cert);
            assert(certs@ =~= seq![cert]);
            Ok(TlsMaterial { certs, key })
        },
        None => Err(NOT_GENERATED.to_owned()),
    }
}

/// Whether this is what came of making a certificate for a host: what a call of
/// [`self_signed`] for that host gave.
pub closed spec fn was_made_for(hostname: Seq<char>, made: Option<(Vec<u8>, Vec<u8>)>) -> bool {
    exists|host: &str| #[trigger] call_ensures(self_signed, (host,), made) && host@ == hostname
}

/// Makes a certificate for a host, signed by itself. It is handed on, alone in its chain and
/// with its key, whenever it could be made.
pub fn generate_self_signed(hostname: &str) -> (r: Result<TlsMaterial, String>)
    ensures
        exists|made: Option<(Vec<u8>, Vec<u8>)>|
            {
                &&& #[trigger] was_made_for(hostname@, made)
                &&& r.is_ok() <==> made.is_some()
                &&& r.is_ok() ==> r.unwrap().certs@.len() == 1 && r.unwrap().certs@[0]
                    == made.unwrap().0 && r.unwrap().key == made.unwrap().1
            },
        r.is_ok() ==> r.unwrap().certs@.len() == 1,
        r.is_err() ==> r->Err_0@ == NOT_GENERATED@,
{
    let made = self_signed(hostname);
    assert(was_made_for(hostname@, made));
    single_certificate(made)
}

// ---- accepting requests ----

/// What waiting for the next request of a connection came to.
#[derive(Debug, Clone, Copy, PartialEq, Eq, Structural)]
pub enum Accepted {
    /// A request came.
    Request,
    /// The other side has closed the connection.
    Closed,
    /// The connection is broken.
    ConnectionError,
    /// One stream is broken, and the connection is not.
    StreamError,
}

/// What is to be done about it.
#[derive(Debug, Clone, Copy, PartialEq, Eq, Structural)]
pub enum Reply {
    /// Answer the request, and wait for the next one.
    Serve,
    /// Wait for the next request.
    Wait,
    /// Leave the connection.
    Leave,
}

/// Settles what is to be done: a broken stream costs its request, and a connection is left
/// when it is closed or broken.
pub fn after_accept(accepted: Accepted) -> (r: Reply)
    ensures
        r is Serve <==> accepted is Request,
        r is Wait <==> accepted is StreamError,
        r is Leave <==> accepted is Closed || accepted is ConnectionError,
{
    match accepted {
        Accepted::Request => Reply::Serve,
        Accepted::StreamError => Reply::Wait,
        Accepted::Closed => Reply::Leave,
        Accepted::ConnectionError => Reply::Leave,
    }
}

/// The text for a listener that cannot take its address.
pub fn bind_failed(address: &str) -> (r: String)
    ensures
        r@ == "Failed to bind QUIC endpoint on "@ + address@,
{
    text::joined("Failed to bind QUIC endpoint on ", address)
}

// ---- laws ----

/// What was made for a host came of a call for that host.
proof fn law_certificates_are_made_for_their_host(
    hostname: Seq<char>,
    made: Option<(Vec<u8>, Vec<u8>)>,
)
    requires
        was_made_for(hostname, made),
    ensures
        exists|host: &str| #[trigger] call_ensures(self_signed, (host,), made) && host@
            == hostname,
{
}

/// The contents of a list of byte strings are those of its items, one for one and in order.
pub proof fn law_contents_are_those_of_the_list(list: Seq<Vec<u8>>)
    ensures
        contents(list).len() == list.len(),
        forall|i: int| 0 <= i < list.len() ==> #[trigger] contents(list)[i] == list[i]@,
{
}

} // verus!
