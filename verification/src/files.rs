//! What the server keeps of a file, and what it answers with.

use vstd::prelude::*;

use crate::text;

verus! {

/// The largest upload that is taken, in bytes.
pub const MAX_UPLOAD_SIZE: u64 = 10 * 1024 * 1024 * 1024;

/// The media type of a file of which no other is known.
pub const OCTET_STREAM: &'static str = "application/octet-stream";

/// What is kept of a stored file.
#[derive(Debug)]
pub struct FileMetadata {
    pub hash: String,
    pub name: String,
    pub size: u64,
    pub mime_type: String,
    pub uploaded_at: i64,
    pub chunk_count: u32,
    pub compressed: bool,
}

/// The answer to an upload.
#[derive(Debug)]
pub struct UploadResponse {
    pub status: String,
    pub hash: String,
    pub size: u64,
    pub chunk_count: u32,
}

/// The answer to a question for a file.
#[derive(Debug)]
pub struct CheckResponse {
    pub exists: bool,
    pub chunks: Option<Vec<u32>>,
    pub bitfield: Option<Vec<u8>>,
}

/// The answer to a request that is turned down.
#[derive(Debug)]
pub struct ErrorResponse {
    pub error: String,
}

impl ErrorResponse {
    /// An answer with the given text.
    pub fn new(error: &str) -> (r: Self)
        ensures
            r.error@ == error@,
    {
        ErrorResponse { error: error.to_owned() }
    }

    /// An answer that says what failed, and why.
    pub fn because(what: &str, why: &str) -> (r: Self)
        ensures
            r.error@ == what@ + why@,
    {
        ErrorResponse { error: text::joined(what, why) }
    }

    /// The HTTP status that goes with every such answer: bad request.
    pub fn status(&self) -> (r: u16)
        ensures
            r == 400,
    {
        400
    }
}

/// The HTTP status for a request that was met.
pub const OK: u16 = 200;

/// The HTTP status for a request that created something.
pub const CREATED: u16 = 201;

/// The HTTP status for a request that was met with nothing to hand out.
pub const NO_CONTENT: u16 = 204;

/// The HTTP status for a request from someone who is not known.
pub const UNAUTHORIZED: u16 = 401;

/// The HTTP status for a request from someone who may not make it.
pub const FORBIDDEN: u16 = 403;

/// The HTTP status for a request about something that is not there.
pub const NOT_FOUND: u16 = 404;

/// The HTTP status for a request that the server failed at.
pub const INTERNAL_SERVER_ERROR: u16 = 500;

/// The HTTP status for a request that another server failed at.
pub const BAD_GATEWAY: u16 = 502;

/// A request that is turned down with a status of its own.
#[derive(Debug)]
pub struct Rejection {
    pub status: u16,
    pub error: ErrorResponse,
}

impl Rejection {
    /// Whether this is the given status with the given text.
    pub open spec fn is(self, status: u16, error: Seq<char>) -> bool {
        self.status == status && self.error.error@ == error
    }

    /// The given status with the given text.
    pub fn new(status: u16, error: &str) -> (r: Self)
        ensures
            r.is(status, error@),
            r.status == status,
            r.error.error@ == error@,
    {
        Rejection { status, error: ErrorResponse::new(error) }
    }

    /// The given status with a text that says what failed, and why.
    pub fn because(status: u16, what: &str, why: &str) -> (r: Self)
        ensures
            r.is(status, what@ + why@),
            r.status == status,
            r.error.error@ == what@ + why@,
    {
        Rejection { status, error: ErrorResponse::because(what, why) }
    }
}

/// A rejection has one status and one text.
pub proof fn law_rejection_has_one_status_and_text(
    r: Rejection,
    status: u16,
    error: Seq<char>,
)
    ensures
        r.is(status, error) <==> status == r.status && error == r.error.error@,
{
}

} // verus!
