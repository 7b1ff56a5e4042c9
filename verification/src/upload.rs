//! Taking in a file that a client backs up.
//!
//! An upload goes through fixed stages, and each stage is a type of its own: the
//! request is let in ([`begin_upload`]), the form is searched for its file
//! ([`UploadForm`]), the file's bytes arrive ([`IncomingFile`]), the whole file is
//! known by its hash ([`ReceivedFile`]) and, unless it is stored already, it is
//! chunked ([`NewFile`]), moved to its place ([`ChunkedFile`]), recorded
//! ([`StoredFile`], [`RecordedFile`]) and made known ([`CompleteFile`]). What can fail
//! ends in an [`UploadFailure`].

use vstd::prelude::*;

use crate::cdc;
use crate::cdc::ChunkBoundary;
use crate::database;
use crate::files;
use crate::files::ErrorResponse;
use crate::files::FileMetadata;
use crate::files::UploadResponse;
use crate::hashing;
use crate::hashing::StreamHasher;
use crate::ids;
use crate::sql::SqlView;
use crate::sql::Statement;
use crate::text;
use crate::tracker;
use crate::tracker::ChunkTracker;
use crate::tracker::Holders;

verus! {

/// The text that turns away an upload without the backup flag.
pub const UPLOADS_DISABLED: &'static str =
    "Direct uploads are disabled. Use ?backup=true to explicitly back up a file.";

/// The text for a form without a file.
pub const NO_FILE_FIELD: &'static str = "No file field in upload";

/// The status of an upload whose content was stored before.
pub const STATUS_EXISTS: &'static str = "exists";

/// The status of an upload that was stored.
pub const STATUS_SUCCESS: &'static str = "success";

/// The name of the form field that holds the file.
pub const FILE_FIELD: &'static str = "file";

/// The name of a file that was sent without one.
pub const UNNAMED: &'static str = "unnamed";

// ---- letting a request in ----

/// Whether the backup flag of a request says that a file is to be backed up.
pub open spec fn is_backup(flag: Option<Seq<char>>) -> bool {
    flag == Some("true"@)
}

/// Lets an upload in if and only if its backup flag is `true`.
pub fn begin_upload(flag: Option<&str>) -> (r: Result<UploadForm, ErrorResponse>)
    ensures
        r.is_ok() <==> is_backup(text::seen(flag)),
        r.is_err() ==> r->Err_0.error@ == UPLOADS_DISABLED@,
{
    match flag {
        Some(value) => {
            if text::same_text(value, "true") {
                return Ok(UploadForm { backup: true });
            }
        },
        None => {},
    }
    Err(ErrorResponse::new(UPLOADS_DISABLED))
}

// ---- searching the form ----

/// A form that was let in. Only [`begin_upload`] makes one.
#[derive(Debug)]
pub struct UploadForm {
    backup: bool,
}

impl UploadForm {
    /// The form is that of a backup.
    #[verifier::type_invariant]
    spec fn was_let_in(&self) -> bool {
        self.backup
    }

    /// Whether a field of the form, which may have a name, is the one with the file.
    pub fn is_file_field(&self, name: Option<&str>) -> (r: bool)
        ensures
            r <==> name.is_some() && name.unwrap()@ == FILE_FIELD@,
    {
        match name {
            Some(name) => text::same_text(name, FILE_FIELD),
            None => false,
        }
    }

    /// The answer when the form has ended without a file.
    pub fn without_file(self) -> (r: ErrorResponse)
        ensures
            r.error@ == NO_FILE_FIELD@,
    {
        ErrorResponse::new(NO_FILE_FIELD)
    }

    /// The file field was found; its bytes are to come. A file without a name is
    /// called `unnamed`, and one without a media type is a stream of octets.
    pub fn file(self, file_name: Option<String>, content_type: Option<String>) -> (r: IncomingFile)
        ensures
            r@ == Seq::<u8>::empty(),
            r.name() == (if file_name.is_some() {
                file_name.unwrap()@
            } else {
                UNNAMED@
            }),
            r.mime_type() == (if content_type.is_some() {
                content_type.unwrap()@
            } else {
                files::OCTET_STREAM@
            }),
    {
        let name = match file_name {
            Some(name) => name,
            None => UNNAMED.to_owned(),
        };
        let mime_type = match content_type {
            Some(mime_type) => mime_type,
            None => files::OCTET_STREAM.to_owned(),
        };
        let hasher = StreamHasher::new();
        IncomingFile { form: self, name, mime_type, hasher, size: 0 }
    }
}

// ---- receiving the bytes ----

/// A file whose bytes are arriving.
pub struct IncomingFile {
    form: UploadForm,
    name: String,
    mime_type: String,
    hasher: StreamHasher,
    size: u64,
}

impl View for IncomingFile {
    type V = Seq<u8>;

    /// The bytes that have arrived.
    closed spec fn view(&self) -> Seq<u8> {
        self.hasher@
    }
}

impl IncomingFile {
    /// The size is the number of bytes that have arrived.
    #[verifier::type_invariant]
    spec fn counted(&self) -> bool {
        self.size == self.hasher@.len()
    }

    /// The name of the file.
    pub closed spec fn name(&self) -> Seq<char> {
        self.name@
    }

    /// The media type of the file.
    pub closed spec fn mime_type(&self) -> Seq<char> {
        self.mime_type@
    }

    /// How many bytes have arrived.
    pub fn size(&self) -> (r: u64)
        ensures
            r == self@.len(),
    {
        proof {
            use_type_invariant(self);
        }
        self.size
    }

    /// Takes one more piece of the file.
    pub fn absorb(self, piece: &[u8]) -> (r: Self)
        requires
            self@.len() + piece@.len() <= u64::MAX,
        ensures
            r@ == self@ + piece@,
            r.name() == self.name(),
            r.mime_type() == self.mime_type(),
    {
        proof {
            use_type_invariant(&self);
        }
        let mut hasher = self.hasher;
        hasher.update(piece);
        IncomingFile {
            form: self.form,
            name: self.name,
            mime_type: self.mime_type,
            hasher,
            size: self.size + piece.len() as u64,
        }
    }

    /// All bytes have arrived: the file is known by the hash of its content.
    pub fn finish(self) -> (r: ReceivedFile)
        ensures
            r.hash@ == hashing::content_hash(self@),
            hashing::is_content_hash(r.hash@),
            r.size == self@.len(),
            r.name@ == self.name(),
            r.mime_type@ == self.mime_type(),
    {
        proof {
            use_type_invariant(&self);
        }
        let hash = self.hasher.finish();
        ReceivedFile {
            hash,
            size: self.size,
            name: self.name,
            mime_type: self.mime_type,
            form: self.form,
        }
    }
}

// ---- settling what is to be done with the file ----

/// A file that has arrived in full.
#[derive(Debug)]
pub struct ReceivedFile {
    pub hash: String,
    pub size: u64,
    pub name: String,
    pub mime_type: String,
    /// The form that it arrived with.
    pub form: UploadForm,
}

/// What is to be done with a file that has arrived.
#[derive(Debug)]
pub enum Settled {
    /// Its content is stored already.
    Exists {
        /// What the client is told.
        answer: UploadResponse,
        /// Whether the temporary file is to be deleted.
        discard_temp: bool,
    },
    /// It is to be chunked and stored.
    New(NewFile),
}

impl ReceivedFile {
    /// Settles what is to be done, given whether the content is stored already. The
    /// answer for content that is counts the chunks that are known of it, and the copy that
    /// has arrived is deleted.
    pub fn settle(self, exists: bool, tracker: &ChunkTracker) -> (r: Settled)
        requires
            tracker.wf(),
        ensures
            exists ==> (r matches Settled::Exists { answer, discard_temp } && discard_temp
                && answer.status@ == STATUS_EXISTS@ && answer.hash@ == self.hash@ && answer.size == self.size && answer.chunk_count
                == tracker::chunks_of(tracker@, self.hash@).dom().len() as u32),
            !exists ==> (r matches Settled::New(file) && file.content() == self),
    {
        if !exists {
            return Settled::New(NewFile { file: self });
        }
        let known = tracker.get_available_chunks(self.hash.as_str());
        proof {
            known@.unique_seq_to_set();
        }
        let chunk_count: u32 = #[verifier::truncate] (known.len() as u32);
        Settled::Exists {
            answer: UploadResponse {
                status: STATUS_EXISTS.to_owned(),
                hash: self.hash,
                size: self.size,
                chunk_count,
            },
            discard_temp: true,
        }
    }
}

// ---- storing and recording a new file ----

/// A new file: its chunks are to be found.
#[derive(Debug)]
pub struct NewFile {
    file: ReceivedFile,
}

/// A file with its chunks: it is to be moved to its place.
#[derive(Debug)]
pub struct ChunkedFile {
    file: ReceivedFile,
    boundaries: Vec<ChunkBoundary>,
}

/// A file at its place: it is to be recorded.
#[derive(Debug)]
pub struct StoredFile {
    file: ReceivedFile,
    boundaries: Vec<ChunkBoundary>,
}

/// A file that is recorded: its chunks are to be recorded too.
#[derive(Debug)]
pub struct RecordedFile {
    file: ReceivedFile,
    boundaries: Vec<ChunkBoundary>,
}

/// A file that is stored and recorded with its chunks: they are to be made known.
#[derive(Debug)]
pub struct CompleteFile {
    file: ReceivedFile,
    boundaries: Vec<ChunkBoundary>,
}

/// The chunks of a file after it was stored: each of its chunks is known and held by
/// no peer yet, and those that were known besides stay as they are.
pub open spec fn with_stored(chunks: Holders, boundaries: Seq<ChunkBoundary>) -> Holders
    decreases boundaries.len(),
{
    if boundaries.len() == 0 {
        chunks
    } else {
        with_stored(chunks, boundaries.drop_last()).insert(
            boundaries.last().chunk_id,
            Set::empty(),
        )
    }
}

/// All files after one of them was stored.
pub open spec fn file_stored(
    known: Map<Seq<char>, Holders>,
    hash: Seq<char>,
    boundaries: Seq<ChunkBoundary>,
) -> Map<Seq<char>, Holders> {
    if boundaries.len() == 0 {
        known
    } else {
        known.insert(hash, with_stored(tracker::chunks_of(known, hash), boundaries))
    }
}

/// Whether the upload has failed at the given stage.
pub open spec fn is_failure(r: UploadFailure, stage: UploadStage, why: Seq<char>) -> bool {
    &&& r.answer.error@ == failed_at(stage) + why
    &&& r.discard_temp == has_temp(stage)
}

impl NewFile {
    /// The file.
    pub closed spec fn content(self) -> ReceivedFile {
        self.file
    }

    /// Takes the chunks of the file.
    pub fn chunked(self, found: Result<Vec<ChunkBoundary>, String>) -> (r: Result<
        ChunkedFile,
        UploadFailure,
    >)
        requires
            found.is_ok() ==> found.unwrap()@.len() <= u32::MAX,
        ensures
            match found {
                Ok(boundaries) => r.is_ok() && r.unwrap().content() == self.content()
                    && r.unwrap().chunks() == boundaries@,
                Err(why) => r.is_err() && is_failure(r->Err_0, UploadStage::Chunk, why@),
            },
    {
        match found {
            Ok(boundaries) => Ok(ChunkedFile { file: self.file, boundaries }),
            Err(why) => Err(upload_failed(UploadStage::Chunk, why.as_str())),
        }
    }
}

impl ChunkedFile {
    /// The number of chunks fits into 32 bits.
    #[verifier::type_invariant]
    spec fn numbered(&self) -> bool {
        self.boundaries@.len() <= u32::MAX
    }

    /// The file.
    pub closed spec fn content(self) -> ReceivedFile {
        self.file
    }

    /// Its chunks.
    pub closed spec fn chunks(self) -> Seq<ChunkBoundary> {
        self.boundaries@
    }

    /// The hash of the file, which says where its place is.
    pub fn hash(&self) -> (r: &str)
        ensures
            r@ == self.content().hash@,
    {
        self.file.hash.as_str()
    }

    /// Takes whether the file was moved to its place.
    pub fn stored(self, outcome: Result<(), String>) -> (r: Result<StoredFile, UploadFailure>)
        ensures
            match outcome {
                Ok(_) => r.is_ok() && r.unwrap().content() == self.content() && r.unwrap().chunks()
                    == self.chunks(),
                Err(why) => r.is_err() && is_failure(r->Err_0, UploadStage::Store, why@),
            },
    {
        proof {
            use_type_invariant(&self);
        }
        match outcome {
            Ok(_) => Ok(StoredFile { file: self.file, boundaries: self.boundaries }),
            Err(why) => Err(upload_failed(UploadStage::Store, why.as_str())),
        }
    }
}

impl StoredFile {
    /// The number of chunks fits into 32 bits.
    #[verifier::type_invariant]
    spec fn numbered(&self) -> bool {
        self.boundaries@.len() <= u32::MAX
    }

    /// The file.
    pub closed spec fn content(self) -> ReceivedFile {
        self.file
    }

    /// Its chunks.
    pub closed spec fn chunks(self) -> Seq<ChunkBoundary> {
        self.boundaries@
    }

    /// What is kept of the file. Files are stored as they came, not compressed.
    pub fn metadata(&self, now: i64) -> (r: FileMetadata)
        ensures
            r.hash@ == self.content().hash@,
            r.name@ == self.content().name@,
            r.size == self.content().size,
            r.mime_type@ == self.content().mime_type@,
            r.uploaded_at == now,
            r.chunk_count == self.chunks().len(),
            !r.compressed,
    {
        proof {
            use_type_invariant(self);
        }
        FileMetadata {
            hash: self.file.hash.clone(),
            name: self.file.name.clone(),
            size: self.file.size,
            mime_type: self.file.mime_type.clone(),
            uploaded_at: now,
            chunk_count: self.boundaries.len() as u32,
            compressed: false,
        }
    }

    /// Takes whether the file was recorded.
    pub fn recorded(self, outcome: Result<(), String>) -> (r: Result<RecordedFile, UploadFailure>)
        ensures
            match outcome {
                Ok(_) => r.is_ok() && r.unwrap().content() == self.content() && r.unwrap().chunks()
                    == self.chunks(),
                Err(why) => r.is_err() && is_failure(r->Err_0, UploadStage::SaveMetadata, why@),
            },
    {
        proof {
            use_type_invariant(&self);
        }
        match outcome {
            Ok(_) => Ok(RecordedFile { file: self.file, boundaries: self.boundaries }),
            Err(why) => Err(upload_failed(UploadStage::SaveMetadata, why.as_str())),
        }
    }
}

impl RecordedFile {
    /// The number of chunks fits into 32 bits.
    #[verifier::type_invariant]
    spec fn numbered(&self) -> bool {
        self.boundaries@.len() <= u32::MAX
    }

    /// The file.
    pub closed spec fn content(self) -> ReceivedFile {
        self.file
    }

    /// Its chunks.
    pub closed spec fn chunks(self) -> Seq<ChunkBoundary> {
        self.boundaries@
    }

    /// The statements that record the chunks.
    pub fn chunk_statements(&self) -> (r: Vec<Statement>)
        ensures
            r@.len() == self.chunks().len(),
            forall|i: int|
                0 <= i < r@.len() ==> (#[trigger] r@[i]).is(
                    database::SAVE_CHUNK@,
                    seq![SqlView::Text(self.content().hash@)] + database::chunk_row(
                        self.chunks()[i],
                    ),
                ),
    {
        database::save_chunks(self.file.hash.as_str(), &self.boundaries)
    }

    /// Takes whether the chunks were recorded.
    pub fn chunks_recorded(self, outcome: Result<(), String>) -> (r: Result<
        CompleteFile,
        UploadFailure,
    >)
        ensures
            match outcome {
                Ok(_) => r.is_ok() && r.unwrap().content() == self.content() && r.unwrap().chunks()
                    == self.chunks(),
                Err(why) => r.is_err() && is_failure(r->Err_0, UploadStage::SaveChunks, why@),
            },
    {
        proof {
            use_type_invariant(&self);
        }
        match outcome {
            Ok(_) => Ok(CompleteFile { file: self.file, boundaries: self.boundaries }),
            Err(why) => Err(upload_failed(UploadStage::SaveChunks, why.as_str())),
        }
    }
}

impl CompleteFile {
    /// The number of chunks fits into 32 bits.
    #[verifier::type_invariant]
    spec fn numbered(&self) -> bool {
        self.boundaries@.len() <= u32::MAX
    }

    /// The file.
    pub closed spec fn content(self) -> ReceivedFile {
        self.file
    }

    /// Its chunks.
    pub closed spec fn chunks(self) -> Seq<ChunkBoundary> {
        self.boundaries@
    }

    /// Makes the chunks known, and says what the client is told.
    pub fn complete(self, tracker: &mut ChunkTracker) -> (r: UploadResponse)
        requires
            old(tracker).wf(),
        ensures
            final(tracker).wf(),
            final(tracker)@ == file_stored(old(tracker)@, self.content().hash@, self.chunks()),
            r.status@ == STATUS_SUCCESS@,
            r.hash@ == self.content().hash@,
            r.size == self.content().size,
            r.chunk_count == self.chunks().len(),
    {
        proof {
            use_type_invariant(&self);
        }
        let ghost known = tracker@;
        let ghost hash = self.file.hash@;
        let mut n: usize = 0;
        assert(self.boundaries@.take(0) =~= Seq::empty());
        while n < self.boundaries.len()
            invariant
                n <= self.boundaries@.len(),
                hash == self.file.hash@,
                tracker.wf(),
                tracker@ == file_stored(known, hash, self.boundaries@.take(n as int)),
            decreases self.boundaries.len() - n,
        {
            let ghost done = self.boundaries@.take(n as int);
            let ghost more = self.boundaries@.take(n + 1);
            assert(more.drop_last() =~= done);
            assert(more.last() == self.boundaries@[n as int]);
            tracker.add_chunk(self.file.hash.as_str(), self.boundaries[n].chunk_id);
            assert(tracker::chunks_of(file_stored(known, hash, done), hash) == with_stored(
                tracker::chunks_of(known, hash),
                done,
            ));
            assert(tracker@ =~= file_stored(known, hash, more));
            n = n + 1;
        }
        assert(self.boundaries@.take(n as int) =~= self.boundaries@);
        UploadResponse {
            status: STATUS_SUCCESS.to_owned(),
            hash: self.file.hash,
            size: self.file.size,
            chunk_count: self.boundaries.len() as u32,
        }
    }
}

// ---- what goes wrong ----

/// The work that an upload asks for, and that can fail.
#[derive(Debug, Clone, Copy, PartialEq, Eq, Structural)]
pub enum UploadStage {
    /// Reading the form.
    ReadForm,
    /// Creating the temporary file.
    CreateTemp,
    /// Reading a piece of the file field.
    ReadPiece,
    /// Writing a piece into the temporary file.
    WriteTemp,
    /// Writing the temporary file through to the disk.
    SyncTemp,
    /// Finding the chunks.
    Chunk,
    /// Moving the temporary file to its place.
    Store,
    /// Recording the file.
    SaveMetadata,
    /// Recording the chunks.
    SaveChunks,
}

/// The words that say at which stage an upload failed.
pub open spec fn failed_at(stage: UploadStage) -> Seq<char> {
    match stage {
        UploadStage::ReadForm => "Multipart error: "@,
        UploadStage::CreateTemp => "Failed to create temp file: "@,
        UploadStage::ReadPiece => "Failed to read upload chunk: "@,
        UploadStage::WriteTemp => "Failed to write temp file: "@,
        UploadStage::SyncTemp => "Failed to sync temp file: "@,
        UploadStage::Chunk => "CDC failed: "@,
        UploadStage::Store => "Failed to store file: "@,
        UploadStage::SaveMetadata => "Failed to save metadata: "@,
        UploadStage::SaveChunks => "Failed to save chunk boundaries: "@,
    }
}

/// Whether there is a temporary file when the work of a stage fails: from its creation
/// until it has been moved to its place.
pub open spec fn has_temp(stage: UploadStage) -> bool {
    match stage {
        UploadStage::ReadForm => false,
        UploadStage::CreateTemp => false,
        UploadStage::ReadPiece => true,
        UploadStage::WriteTemp => true,
        UploadStage::SyncTemp => true,
        UploadStage::Chunk => true,
        UploadStage::Store => true,
        UploadStage::SaveMetadata => false,
        UploadStage::SaveChunks => false,
    }
}

/// The end of an upload that failed.
#[derive(Debug)]
pub struct UploadFailure {
    /// What the client is told.
    pub answer: ErrorResponse,
    /// Whether the temporary file is to be deleted.
    pub discard_temp: bool,
}

/// Ends an upload whose work failed at a stage. No temporary file is left behind.
pub fn upload_failed(stage: UploadStage, why: &str) -> (r: UploadFailure)
    ensures
        is_failure(r, stage, why@),
{
    match stage {
        UploadStage::ReadForm => UploadFailure {
            answer: ErrorResponse::because("Multipart error: ", why),
            discard_temp: false,
        },
        UploadStage::CreateTemp => UploadFailure {
            answer: ErrorResponse::because("Failed to create temp file: ", why),
            discard_temp: false,
        },
        UploadStage::ReadPiece => UploadFailure {
            answer: ErrorResponse::because("Failed to read upload chunk: ", why),
            discard_temp: true,
        },
        UploadStage::WriteTemp => UploadFailure {
            answer: ErrorResponse::because("Failed to write temp file: ", why),
            discard_temp: true,
        },
        UploadStage::SyncTemp => UploadFailure {
            answer: ErrorResponse::because("Failed to sync temp file: ", why),
            discard_temp: true,
        },
        UploadStage::Chunk => UploadFailure {
            answer: ErrorResponse::because("CDC failed: ", why),
            discard_temp: true,
        },
        UploadStage::Store => UploadFailure {
            answer: ErrorResponse::because("Failed to store file: ", why),
            discard_temp: true,
        },
        UploadStage::SaveMetadata => UploadFailure {
            answer: ErrorResponse::because("Failed to save metadata: ", why),
            discard_temp: false,
        },
        UploadStage::SaveChunks => UploadFailure {
            answer: ErrorResponse::because("Failed to save chunk boundaries: ", why),
            discard_temp: false,
        },
    }
}

/// The name of the temporary file with the given identifier.
pub fn temp_name(id: &str) -> (r: String)
    ensures
        r@ == "anna-sync-upload-"@ + id@ + ".tmp"@,
{
    text::joined3("anna-sync-upload-", id, ".tmp")
}

/// A name for a new temporary file.
pub fn new_temp_name() -> (r: String)
    ensures
        exists|id: Seq<char>| #[trigger]
            ids::is_random_uuid(id) && r@ == "anna-sync-upload-"@ + id + ".tmp"@,
        exists|id: Seq<char>| #[trigger]
            ids::is_drawn(id) && r@ == "anna-sync-upload-"@ + id + ".tmp"@,
{
    let id = ids::draw();
    temp_name(id.as_str())
}

// ---- laws ----

/// Selects the first `count` chunk numbers.
spec fn first_ids(count: nat) -> Seq<u32> {
    Seq::new(count, |i: int| i as u32)
}

proof fn lemma_stored(chunks: Holders, boundaries: Seq<ChunkBoundary>)
    requires
        forall|i: int| 0 <= i < boundaries.len() ==> (#[trigger] boundaries[i]).chunk_id == i,
        boundaries.len() <= u32::MAX,
    ensures
        with_stored(chunks, boundaries) == Map::new(
            |id: u32| chunks.contains_key(id) || id < boundaries.len(),
            |id: u32|
                if id < boundaries.len() {
                    Set::empty()
                } else {
                    chunks[id]
                },
        ),
    decreases boundaries.len(),
{
    if boundaries.len() > 0 {
        let front = boundaries.drop_last();
        assert forall|i: int| 0 <= i < front.len() implies (#[trigger] front[i]).chunk_id == i by {
            assert(front[i] == boundaries[i]);
        }
        lemma_stored(chunks, front);
        assert(boundaries.last().chunk_id == boundaries.len() - 1);
    }
    assert(with_stored(chunks, boundaries) =~= Map::new(
        |id: u32| chunks.contains_key(id) || id < boundaries.len(),
        |id: u32|
            if id < boundaries.len() {
                Set::empty()
            } else {
                chunks[id]
            },
    ));
}

/// Storing one file leaves what is known of every other as it was.
pub proof fn law_storing_concerns_one_file(
    known: Map<Seq<char>, Holders>,
    hash: Seq<char>,
    boundaries: Seq<ChunkBoundary>,
    other: Seq<char>,
)
    requires
        other != hash,
    ensures
        tracker::chunks_of(file_stored(known, hash, boundaries), other) == tracker::chunks_of(
            known,
            other,
        ),
{
}

/// Once a file that was not known has been stored, exactly its chunks are known of
/// it, and no peer holds them yet. A second upload of the same content is then told
/// the same number of chunks as the first.
pub proof fn law_stored_chunks_are_known(
    known: Map<Seq<char>, Holders>,
    hash: Seq<char>,
    boundaries: Seq<ChunkBoundary>,
    data: Seq<u8>,
    id: u32,
)
    requires
        cdc::partitions(boundaries, data),
        boundaries.len() <= u32::MAX,
        !known.contains_key(hash),
    ensures
        tracker::chunks_of(file_stored(known, hash, boundaries), hash).contains_key(id) <==> id
            < boundaries.len(),
        tracker::peers_of(file_stored(known, hash, boundaries), hash, id) == Set::<
            Seq<char>,
        >::empty(),
        tracker::chunks_of(file_stored(known, hash, boundaries), hash).dom().len() as u32
            == boundaries.len(),
{
    let chunks = tracker::chunks_of(file_stored(known, hash, boundaries), hash);
    assert forall|i: int| 0 <= i < boundaries.len() implies (
    #[trigger] boundaries[i]).chunk_id == i by {
        assert(boundaries[i].describes(i, data));
    }
    lemma_stored(Map::empty(), boundaries);
    let ids = first_ids(boundaries.len());
    assert(ids.no_duplicates());
    ids.unique_seq_to_set();
    assert(chunks.dom() =~= ids.to_set()) by {
        assert forall|k: u32| chunks.dom().contains(k) <==> ids.to_set().contains(k) by {
            if k < boundaries.len() {
                assert(ids[k as int] == k);
            }
            if ids.contains(k) {
                let i = choose|i: int| 0 <= i < ids.len() && ids[i] == k;
                assert(k == i as u32);
            }
        }
    }
    assert(tracker::peers_of(file_stored(known, hash, boundaries), hash, id) =~= Set::<
        Seq<char>,
    >::empty());
}

/// Only the flag `true`, in these four letters, lets an upload in.
pub proof fn law_only_true_is_a_backup(flag: Option<Seq<char>>)
    ensures
        is_backup(flag) <==> flag.is_some() && flag.unwrap() == seq!['t', 'r', 'u', 'e'],
{
    reveal_strlit("true");
    assert("true"@ =~= seq!['t', 'r', 'u', 'e']);
}

/// Storing a file makes its chunks known and forgets none that was known. Nobody holds the
/// chunks that were stored, and what is known of the holders of other chunks stays.
pub proof fn law_storing_makes_chunks_known(
    known: Map<Seq<char>, Holders>,
    hash: Seq<char>,
    boundaries: Seq<ChunkBoundary>,
    id: u32,
    peer: Seq<char>,
)
    ensures
        tracker::chunks_of(file_stored(known, hash, boundaries), hash).contains_key(id) <==> (
        tracker::chunks_of(known, hash).contains_key(id) || exists|i: int|
            0 <= i < boundaries.len() && (#[trigger] boundaries[i]).chunk_id == id),
        (exists|i: int| 0 <= i < boundaries.len() && (#[trigger] boundaries[i]).chunk_id == id)
            ==> !tracker::peers_of(file_stored(known, hash, boundaries), hash, id).contains(peer),
        !(exists|i: int| 0 <= i < boundaries.len() && (#[trigger] boundaries[i]).chunk_id == id)
            ==> (tracker::peers_of(file_stored(known, hash, boundaries), hash, id).contains(peer)
            <==> tracker::peers_of(known, hash, id).contains(peer)),
{
    lemma_with_stored(tracker::chunks_of(known, hash), boundaries, id);
}

proof fn lemma_with_stored(chunks: Holders, boundaries: Seq<ChunkBoundary>, id: u32)
    ensures
        (exists|i: int| 0 <= i < boundaries.len() && (#[trigger] boundaries[i]).chunk_id == id)
            ==> with_stored(chunks, boundaries).contains_key(id) && with_stored(
            chunks,
            boundaries,
        )[id] == Set::<Seq<char>>::empty(),
        !(exists|i: int| 0 <= i < boundaries.len() && (#[trigger] boundaries[i]).chunk_id == id)
            ==> (with_stored(chunks, boundaries).contains_key(id) <==> chunks.contains_key(id))
            && with_stored(chunks, boundaries)[id] == chunks[id],
    decreases boundaries.len(),
{
    if boundaries.len() > 0 {
        let front = boundaries.drop_last();
        lemma_with_stored(chunks, front, id);
        if boundaries.last().chunk_id == id {
            assert(boundaries[boundaries.len() - 1].chunk_id == id);
        } else {
            if exists|i: int| 0 <= i < boundaries.len() && (#[trigger] boundaries[i]).chunk_id
                == id {
                let i = choose|i: int|
                    0 <= i < boundaries.len() && (#[trigger] boundaries[i]).chunk_id == id;
                assert(front[i].chunk_id == id);
            }
            if exists|i: int| 0 <= i < front.len() && (#[trigger] front[i]).chunk_id == id {
                let i = choose|i: int| 0 <= i < front.len() && (#[trigger] front[i]).chunk_id == id;
                assert(boundaries[i].chunk_id == id);
            }
        }
    }
}

/// An upload that failed leaves no temporary file: where there is one when the work of a stage
/// fails, which is from its creation until it has been moved, it is deleted. The reason stands
/// at the end of the answer.
pub proof fn law_failed_upload_leaves_no_temporary_file(
    r: UploadFailure,
    stage: UploadStage,
    why: Seq<char>,
)
    requires
        is_failure(r, stage, why),
    ensures
        r.discard_temp <==> stage is ReadPiece || stage is WriteTemp || stage is SyncTemp
            || stage is Chunk || stage is Store,
        r.answer.error@.len() >= why.len(),
        r.answer.error@.skip(r.answer.error@.len() - why.len()) == why,
{
    let text = r.answer.error@;
    assert(text == failed_at(stage) + why);
    assert(text.skip(text.len() - why.len()) =~= why);
}

} // verus!
