//! Handing out stored files and their chunks.

use vstd::prelude::*;

use vstd::slice::slice_subrange;

use crate::bitfield;
use crate::cdc;
use crate::cdc::ChunkBoundary;
use crate::files;
use crate::files::CheckResponse;
use crate::files::ErrorResponse;
use crate::files::FileMetadata;
use crate::hashing;
use crate::text;
use crate::tracker;
use crate::tracker::ChunkTracker;

verus! {

/// The text for a file that is not recorded.
pub const FILE_NOT_FOUND: &'static str = "File not found";

/// The text for a list of files that could not be read.
pub const LISTING_FAILED: &'static str = "Failed to list files";

/// The size of a chunk of a file that is stored compressed, 256 KB.
pub const LEGACY_CHUNK_SIZE: u64 = 262144;

// ---- asking for a file ----

/// Answers whether a file is there, given whether its content is stored, and which of
/// its chunks are known.
pub fn check_file(hash: &str, exists: bool, tracker: &ChunkTracker) -> (r: CheckResponse)
    requires
        tracker.wf(),
    ensures
        r.exists == exists,
        r.chunks.is_some() == exists,
        r.bitfield.is_some() == exists,
        exists ==> {
            let known = tracker::chunks_of(tracker@, hash@).dom();
            &&& r.chunks.unwrap()@.no_duplicates()
            &&& r.chunks.unwrap()@.to_set() == known
            &&& bitfield::marks_exactly(r.bitfield.unwrap()@, known)
            &&& bitfield::shortest_for(r.bitfield.unwrap()@, known)
        },
{
    if exists {
        CheckResponse {
            exists: true,
            chunks: Some(tracker.get_available_chunks(hash)),
            bitfield: Some(tracker.get_server_bitfield(hash)),
        }
    } else {
        CheckResponse { exists: false, chunks: None, bitfield: None }
    }
}

/// Answers with the recorded files, or says that they could not be read.
pub fn list_files(found: Option<Vec<FileMetadata>>) -> (r: Result<
    Vec<FileMetadata>,
    ErrorResponse,
>)
    ensures
        found.is_some() ==> r == Ok::<Vec<FileMetadata>, ErrorResponse>(found.unwrap()),
        found.is_none() ==> r.is_err() && r->Err_0.error@ == LISTING_FAILED@,
{
    match found {
        Some(list) => Ok(list),
        None => Err(ErrorResponse::new(LISTING_FAILED)),
    }
}

/// Answers with the chunks of a file, or says why they could not be read.
pub fn list_chunks(found: Result<Vec<ChunkBoundary>, String>) -> (r: Result<
    Vec<ChunkBoundary>,
    ErrorResponse,
>)
    ensures
        found.is_ok() ==> r == Ok::<Vec<ChunkBoundary>, ErrorResponse>(found.unwrap()),
        found.is_err() ==> r.is_err() && r->Err_0.error@ == "Chunks not found: "@
            + found->Err_0@,
{
    match found {
        Ok(list) => Ok(list),
        Err(why) => Err(ErrorResponse::because("Chunks not found: ", why.as_str())),
    }
}

// ---- a whole file ----

/// How a stored file is handed out.
#[derive(Debug)]
pub enum Download {
    /// As it is stored.
    Stream { mime_type: String },
    /// Decompressed.
    Decompress { mime_type: String },
}

/// Says how a file is handed out, given what is recorded of it.
pub fn plan_download(found: Option<FileMetadata>) -> (r: Result<Download, ErrorResponse>)
    ensures
        r.is_ok() == found.is_some(),
        r.is_err() ==> r->Err_0.error@ == FILE_NOT_FOUND@,
        r.is_ok() ==> r.unwrap() == (if found.unwrap().compressed {
            Download::Decompress { mime_type: found.unwrap().mime_type }
        } else {
            Download::Stream { mime_type: found.unwrap().mime_type }
        }),
{
    match found {
        Some(metadata) => {
            if metadata.compressed {
                Ok(Download::Decompress { mime_type: metadata.mime_type })
            } else {
                Ok(Download::Stream { mime_type: metadata.mime_type })
            }
        },
        None => Err(ErrorResponse::new(FILE_NOT_FOUND)),
    }
}

/// What the Brotli decoder makes of `data`: the decompressed bytes, or the words of
/// its error.
pub uninterp spec fn brotli_decoded(data: Seq<u8>) -> Result<Seq<u8>, Seq<char>>;

/// Reads `data` through `async_compression::tokio::bufread::BrotliDecoder` to its
/// end. The result depends on the data alone. All bytes are in memory, so the read
/// never waits, and it has ended when it is first polled.
#[verifier::external_body]
fn brotli_read_to_end(data: &[u8]) -> (r: Result<Vec<u8>, String>)
    ensures
        r.is_ok() == brotli_decoded(data@).is_ok(),
        r.is_ok() ==> r.unwrap()@ == brotli_decoded(data@)->Ok_0,
        r.is_err() ==> r->Err_0@ == brotli_decoded(data@)->Err_0,
{
    let source = tokio::io::BufReader::new(std::io::Cursor::new(data));
    let mut decoder = async_compression::tokio::bufread::BrotliDecoder::new(source);
    let mut out = Vec::new();
    let read = tokio::io::AsyncReadExt::read_to_end(&mut decoder, &mut out);
    match futures_util::FutureExt::now_or_never(read).unwrap() {
        Ok(_) => Ok(out),
        Err(e) => Err(e.to_string()),
    }
}

/// Decompresses a file that is stored compressed.
pub fn decompress_brotli(data: &[u8]) -> (r: Result<Vec<u8>, ErrorResponse>)
    ensures
        r.is_ok() == brotli_decoded(data@).is_ok(),
        r.is_ok() ==> r.unwrap()@ == brotli_decoded(data@)->Ok_0,
        r.is_err() ==> r->Err_0.error@ == "Decompression failed: "@ + brotli_decoded(
            data@,
        )->Err_0,
{
    match brotli_read_to_end(data) {
        Ok(out) => Ok(out),
        Err(why) => Err(ErrorResponse::because("Decompression failed: ", why.as_str())),
    }
}

// ---- one chunk ----

/// The text for a chunk that a file does not have.
pub open spec fn out_of_range(chunk_id: u32, chunk_count: u32) -> Seq<char> {
    "Chunk "@ + text::decimal(chunk_id as nat) + " out of range (file has "@ + text::decimal(
        chunk_count as nat,
    ) + " chunks)"@
}

/// The work that handing out a file or a chunk asks for, and that can fail.
#[derive(Debug, Clone, Copy, PartialEq, Eq, Structural)]
pub enum ServeStage {
    /// Opening a stored file.
    OpenFile,
    /// Reading a stored file that is compressed.
    ReadFile,
    /// Looking up a chunk's boundary.
    FindBoundary,
    /// Reading a chunk from a stored file.
    ReadChunk,
    /// Reading a compressed file for one of its chunks.
    ReadLegacy,
}

/// The words that say what failed.
pub open spec fn failed_at(stage: ServeStage) -> Seq<char> {
    match stage {
        ServeStage::OpenFile => "Failed to open file: "@,
        ServeStage::ReadFile => "Failed to read file: "@,
        ServeStage::FindBoundary => "Chunk boundary not found: "@,
        ServeStage::ReadChunk => "Failed to read chunk: "@,
        ServeStage::ReadLegacy => "Failed to read legacy file: "@,
    }
}

/// The answer when the work of a stage failed.
pub fn serve_failed(stage: ServeStage, why: &str) -> (r: ErrorResponse)
    ensures
        r.error@ == failed_at(stage) + why@,
{
    match stage {
        ServeStage::OpenFile => ErrorResponse::because("Failed to open file: ", why),
        ServeStage::ReadFile => ErrorResponse::because("Failed to read file: ", why),
        ServeStage::FindBoundary => ErrorResponse::because("Chunk boundary not found: ", why),
        ServeStage::ReadChunk => ErrorResponse::because("Failed to read chunk: ", why),
        ServeStage::ReadLegacy => ErrorResponse::because("Failed to read legacy file: ", why),
    }
}

/// A chunk that is handed out.
#[derive(Debug)]
pub struct ChunkResponse {
    pub content_type: String,
    /// The hash of the bytes, which goes along as the header `x-chunk-hash`. A chunk of
    /// a compressed file goes without.
    pub chunk_hash: Option<String>,
    pub data: Vec<u8>,
}

/// Whether this is the answer with the bytes that were read for a chunk: they are handed out
/// if and only if their hash is the one in the boundary.
pub open spec fn answers_chunk(
    r: Result<ChunkResponse, ErrorResponse>,
    chunk_id: u32,
    boundary: ChunkBoundary,
    data: Seq<u8>,
) -> bool {
    if hashing::content_hash(data) == boundary.hash@ {
        r matches Ok(answer) && answer.data@ == data && answer.content_type@
            == files::OCTET_STREAM@ && answer.chunk_hash.is_some()
            && answer.chunk_hash.unwrap()@ == boundary.hash@
    } else {
        r matches Err(answer) && answer.error@ == "Chunk "@ + text::decimal(chunk_id as nat)
            + " integrity check failed"@
    }
}

/// Hands out the bytes that were read for a chunk, if and only if their hash is the
/// one that was recorded when the file was stored.
pub fn chunk_response(chunk_id: u32, boundary: &ChunkBoundary, data: Vec<u8>) -> (r: Result<
    ChunkResponse,
    ErrorResponse,
>)
    ensures
        answers_chunk(r, chunk_id, *boundary, data@),
{
    let actual = hashing::hash_hex(data.as_slice());
    if !text::same_text(actual.as_str(), boundary.hash.as_str()) {
        return Err(
            ErrorResponse {
                error: text::joined3(
                    "Chunk ",
                    text::decimal_text(chunk_id as u64).as_str(),
                    " integrity check failed",
                ),
            },
        );
    }
    Ok(
        ChunkResponse {
            content_type: files::OCTET_STREAM.to_owned(),
            chunk_hash: Some(boundary.hash.clone()),
            data,
        },
    )
}

/// Where a chunk of a compressed file begins in the decompressed bytes.
pub open spec fn legacy_start(chunk_id: int) -> int {
    chunk_id * LEGACY_CHUNK_SIZE
}

/// A chunk of a compressed file: 256 KB of the decompressed bytes, or what is left.
pub open spec fn legacy_bytes(data: Seq<u8>, chunk_id: int) -> Seq<u8> {
    let end = legacy_start(chunk_id) + LEGACY_CHUNK_SIZE;
    data.subrange(
        legacy_start(chunk_id),
        if end < data.len() {
            end
        } else {
            data.len() as int
        },
    )
}

/// The text for a chunk that begins behind the end of the decompressed bytes.
pub open spec fn beyond_the_end(chunk_id: int, size: nat) -> Seq<char> {
    "Chunk start offset "@ + text::decimal(legacy_start(chunk_id) as nat) + " exceeds file size "@
        + text::decimal(size)
}

/// Whether this is the answer with a chunk of a compressed file: it is handed out if and only
/// if it begins before the end of the decompressed bytes.
pub open spec fn answers_legacy_chunk(
    r: Result<ChunkResponse, ErrorResponse>,
    chunk_id: u32,
    data: Seq<u8>,
) -> bool {
    if legacy_start(chunk_id as int) < data.len() {
        r matches Ok(answer) && answer.data@ == legacy_bytes(data, chunk_id as int)
            && answer.content_type@ == files::OCTET_STREAM@ && answer.chunk_hash.is_none()
    } else {
        r matches Err(answer) && answer.error@ == beyond_the_end(chunk_id as int, data.len())
    }
}

/// Cuts a chunk out of the decompressed bytes of its file.
pub fn legacy_chunk(decompressed: &[u8], chunk_id: u32) -> (r: Result<
    ChunkResponse,
    ErrorResponse,
>)
    ensures
        answers_legacy_chunk(r, chunk_id, decompressed@),
{
    let size: usize = decompressed.len();
    let start: u64 = chunk_id as u64 * LEGACY_CHUNK_SIZE;
    if start >= size as u64 {
        let mut text = text::joined("Chunk start offset ", text::decimal_text(start).as_str());
        text.append(" exceeds file size ");
        text.append(text::decimal_text(size as u64).as_str());
        return Err(ErrorResponse { error: text });
    }
    let end: u64 = if LEGACY_CHUNK_SIZE < size as u64 - start {
        start + LEGACY_CHUNK_SIZE
    } else {
        size as u64
    };
    let piece = slice_subrange(decompressed, start as usize, end as usize);
    Ok(
        ChunkResponse {
            content_type: files::OCTET_STREAM.to_owned(),
            chunk_hash: None,
            data: copied(piece),
        },
    )
}

fn copied(data: &[u8]) -> (r: Vec<u8>)
    ensures
        r@ == data@,
{
    let mut r: Vec<u8> = Vec::new();
    let size: usize = data.len();
    let mut n: usize = 0;
    while n < size
        invariant
            n <= size,
            size == data@.len(),
            r@ == data@.take(n as int),
        decreases size - n,
    {
        r.push(data[n]);
        assert(r@ =~= data@.take(n + 1));
        n = n + 1;
    }
    assert(data@.take(n as int) =~= data@);
    r
}

/// Hands out a chunk of a file that is stored compressed.
pub fn get_chunk_legacy(stored: &[u8], chunk_id: u32) -> (r: Result<ChunkResponse, ErrorResponse>)
    ensures
        match brotli_decoded(stored@) {
            Ok(data) => answers_legacy_chunk(r, chunk_id, data),
            Err(why) => r.is_err() && r->Err_0.error@ == "Decompression failed: "@ + why,
        },
{
    match decompress_brotli(stored) {
        Ok(data) => legacy_chunk(data.as_slice(), chunk_id),
        Err(answer) => Err(answer),
    }
}

// ---- one chunk, step by step ----

/// Where the bytes of a chunk come from.
#[derive(Debug)]
pub enum ChunkSource {
    /// From its place in the stored file, which its boundary gives.
    Boundary(FindingBoundary),
    /// From the file once it has been decompressed.
    Legacy(ReadingLegacy),
}

/// The boundary of the chunk is to be looked up.
#[derive(Debug)]
pub struct FindingBoundary {
    chunk_id: u32,
}

/// The bytes of the chunk are to be read from the stored file.
#[derive(Debug)]
pub struct ReadingChunk {
    chunk_id: u32,
    boundary: ChunkBoundary,
}

/// The whole stored file is to be read, which is compressed.
#[derive(Debug)]
pub struct ReadingLegacy {
    chunk_id: u32,
}

/// Says where a chunk comes from, given what is recorded of its file.
pub fn get_chunk(found: Option<&FileMetadata>, chunk_id: u32) -> (r: Result<
    ChunkSource,
    ErrorResponse,
>)
    ensures
        r.is_ok() <==> found.is_some() && chunk_id < found.unwrap().chunk_count,
        r.is_ok() ==> if found.unwrap().compressed {
            r.unwrap() matches ChunkSource::Legacy(next) && next.of() == chunk_id
        } else {
            r.unwrap() matches ChunkSource::Boundary(next) && next.of() == chunk_id
        },
        found.is_none() ==> r->Err_0.error@ == FILE_NOT_FOUND@,
        found.is_some() && r.is_err() ==> r->Err_0.error@ == out_of_range(
            chunk_id,
            found.unwrap().chunk_count,
        ),
{
    match found {
        None => Err(ErrorResponse::new(FILE_NOT_FOUND)),
        Some(metadata) => {
            if chunk_id >= metadata.chunk_count {
                let mut text = text::joined("Chunk ", text::decimal_text(chunk_id as u64).as_str());
                text.append(" out of range (file has ");
                text.append(text::decimal_text(metadata.chunk_count as u64).as_str());
                text.append(" chunks)");
                Err(ErrorResponse { error: text })
            } else if metadata.compressed {
                Ok(ChunkSource::Legacy(ReadingLegacy { chunk_id }))
            } else {
                Ok(ChunkSource::Boundary(FindingBoundary { chunk_id }))
            }
        },
    }
}

impl FindingBoundary {
    /// The chunk that was asked for.
    pub closed spec fn of(self) -> u32 {
        self.chunk_id
    }

    /// Takes the boundary.
    pub fn boundary(self, found: Result<ChunkBoundary, String>) -> (r: Result<
        ReadingChunk,
        ErrorResponse,
    >)
        ensures
            match found {
                Ok(boundary) => r.is_ok() && r.unwrap().of() == self.of() && r.unwrap().within()
                    == boundary,
                Err(why) => r.is_err() && r->Err_0.error@ == failed_at(ServeStage::FindBoundary)
                    + why@,
            },
    {
        match found {
            Ok(boundary) => Ok(ReadingChunk { chunk_id: self.chunk_id, boundary }),
            Err(why) => Err(serve_failed(ServeStage::FindBoundary, why.as_str())),
        }
    }
}

impl ReadingChunk {
    /// The chunk that was asked for.
    pub closed spec fn of(self) -> u32 {
        self.chunk_id
    }

    /// Its boundary.
    pub closed spec fn within(self) -> ChunkBoundary {
        self.boundary
    }

    /// Where the chunk begins in the stored file.
    pub fn offset(&self) -> (r: u64)
        ensures
            r == self.within().offset,
    {
        self.boundary.offset
    }

    /// How many bytes the chunk has.
    pub fn length(&self) -> (r: u32)
        ensures
            r == self.within().length,
    {
        self.boundary.length
    }

    /// Takes the bytes, and hands them out if they are those that were stored.
    pub fn bytes(self, read: Result<Vec<u8>, String>) -> (r: Result<ChunkResponse, ErrorResponse>)
        ensures
            match read {
                Ok(data) => answers_chunk(r, self.of(), self.within(), data@),
                Err(why) => r.is_err() && r->Err_0.error@ == failed_at(ServeStage::ReadChunk)
                    + why@,
            },
    {
        match read {
            Ok(data) => chunk_response(self.chunk_id, &self.boundary, data),
            Err(why) => Err(serve_failed(ServeStage::ReadChunk, why.as_str())),
        }
    }
}

impl ReadingLegacy {
    /// The chunk that was asked for.
    pub closed spec fn of(self) -> u32 {
        self.chunk_id
    }

    /// Takes the stored file, and cuts the chunk out of what it decompresses to.
    pub fn bytes(self, read: Result<Vec<u8>, String>) -> (r: Result<ChunkResponse, ErrorResponse>)
        ensures
            match read {
                Ok(stored) => match brotli_decoded(stored@) {
                    Ok(data) => answers_legacy_chunk(r, self.of(), data),
                    Err(why) => r.is_err() && r->Err_0.error@ == "Decompression failed: "@ + why,
                },
                Err(why) => r.is_err() && r->Err_0.error@ == failed_at(ServeStage::ReadLegacy)
                    + why@,
            },
    {
        match read {
            Ok(stored) => get_chunk_legacy(stored.as_slice(), self.chunk_id),
            Err(why) => Err(serve_failed(ServeStage::ReadLegacy, why.as_str())),
        }
    }
}

// ---- laws ----

/// A chunk that is read back as it was stored is always handed out, and bytes with
/// another hash never are.
pub proof fn law_only_intact_chunks_are_served(
    boundaries: Seq<ChunkBoundary>,
    file: Seq<u8>,
    i: int,
    read: Seq<u8>,
)
    requires
        cdc::partitions(boundaries, file),
        0 <= i < boundaries.len(),
    ensures
        read == file.subrange(boundaries[i].offset as int, boundaries[i].end())
            ==> hashing::content_hash(read) == boundaries[i].hash@,
        hashing::content_hash(read) != hashing::content_hash(
            file.subrange(boundaries[i].offset as int, boundaries[i].end()),
        ) ==> hashing::content_hash(read) != boundaries[i].hash@,
{
    assert(boundaries[i].describes(i, file));
}

/// What comes out when the first `n` chunks of a compressed file are put behind one
/// another.
pub open spec fn legacy_joined(data: Seq<u8>, n: nat) -> Seq<u8>
    decreases n,
{
    if n == 0 {
        Seq::empty()
    } else {
        legacy_joined(data, (n - 1) as nat) + legacy_bytes(data, n - 1)
    }
}

/// The chunks of a compressed file, up to the first that begins behind its end, give
/// the decompressed bytes when they are put behind one another.
pub proof fn law_legacy_chunks_give_the_file_back(data: Seq<u8>, n: nat)
    requires
        legacy_start(n as int) >= data.len(),
        forall|i: int| 0 <= i < n ==> #[trigger] legacy_start(i) < data.len(),
    ensures
        legacy_joined(data, n) == data,
{
    if n == 0 {
        assert(data =~= Seq::empty());
    } else {
        lemma_legacy_prefix(data, n);
        assert(data.take(data.len() as int) =~= data);
    }
}

proof fn lemma_legacy_prefix(data: Seq<u8>, n: nat)
    requires
        forall|i: int| 0 <= i < n ==> #[trigger] legacy_start(i) < data.len(),
    ensures
        legacy_joined(data, n) == data.take(
            if legacy_start(n as int) < data.len() {
                legacy_start(n as int)
            } else {
                data.len() as int
            },
        ),
    decreases n,
{
    if n > 0 {
        lemma_legacy_prefix(data, (n - 1) as nat);
        assert(legacy_start(n - 1) < data.len());
    }
    assert(legacy_joined(data, n) =~= data.take(
        if legacy_start(n as int) < data.len() {
            legacy_start(n as int)
        } else {
            data.len() as int
        },
    ));
}

/// The bytes that were read for a chunk are handed out, unchanged and with their hash, if and
/// only if their hash is the one that is kept in the boundary. So bytes that were read back as
/// they were stored are handed out, and damaged ones never.
pub proof fn law_served_bytes_have_the_hash_of_their_chunk(
    r: Result<ChunkResponse, ErrorResponse>,
    chunk_id: u32,
    boundary: ChunkBoundary,
    data: Seq<u8>,
)
    requires
        answers_chunk(r, chunk_id, boundary, data),
    ensures
        r.is_ok() <==> hashing::content_hash(data) == boundary.hash@,
        r.is_ok() ==> r.unwrap().data@ == data && r.unwrap().chunk_hash.is_some()
            && r.unwrap().chunk_hash.unwrap()@ == hashing::content_hash(data)
            && r.unwrap().content_type@ == files::OCTET_STREAM@,
        r.is_err() ==> r->Err_0.error@ == "Chunk "@ + text::decimal(chunk_id as nat)
            + " integrity check failed"@,
{
}

/// A chunk of a file is served from the file that was stored, whichever chunk it is.
pub proof fn law_stored_chunks_are_served(
    boundaries: Seq<ChunkBoundary>,
    file: Seq<u8>,
    i: int,
    r: Result<ChunkResponse, ErrorResponse>,
    chunk_id: u32,
)
    requires
        cdc::partitions(boundaries, file),
        0 <= i < boundaries.len(),
        answers_chunk(
            r,
            chunk_id,
            boundaries[i],
            file.subrange(
                boundaries[i].offset as int,
                boundaries[i].offset + boundaries[i].length,
            ),
        ),
    ensures
        r.is_ok(),
        r.unwrap().data@ == file.subrange(
            boundaries[i].offset as int,
            boundaries[i].offset + boundaries[i].length,
        ),
{
    cdc::law_chunks_describe_their_bytes(boundaries, file, i);
    law_served_bytes_have_the_hash_of_their_chunk(
        r,
        chunk_id,
        boundaries[i],
        file.subrange(boundaries[i].offset as int, boundaries[i].offset + boundaries[i].length),
    );
}

/// A chunk of a compressed file is 256 KB of the decompressed bytes, or what is left of them,
/// from its number times 256 KB on; it is handed out if and only if it begins before their end.
pub proof fn law_legacy_chunks_are_slices(
    r: Result<ChunkResponse, ErrorResponse>,
    chunk_id: u32,
    data: Seq<u8>,
    place: int,
)
    requires
        answers_legacy_chunk(r, chunk_id, data),
    ensures
        r.is_ok() <==> chunk_id * 262144 < data.len(),
        r.is_ok() ==> {
            let left = data.len() - chunk_id * 262144;
            &&& r.unwrap().data@.len() == if left < 262144 {
                left
            } else {
                262144
            }
            &&& 0 <= place < r.unwrap().data@.len() ==> r.unwrap().data@[place]
                == data[chunk_id * 262144 + place]
            &&& r.unwrap().chunk_hash.is_none()
        },
        r.is_err() ==> r->Err_0.error@ == "Chunk start offset "@ + text::decimal(
            (chunk_id * 262144) as nat,
        ) + " exceeds file size "@ + text::decimal(data.len()),
{
}

/// The text for a chunk that a file does not have names the chunk and says how many there are.
pub proof fn law_out_of_range_names_the_chunk(chunk_id: u32, chunk_count: u32)
    ensures
        out_of_range(chunk_id, chunk_count) == "Chunk "@ + text::decimal(chunk_id as nat)
            + " out of range (file has "@ + text::decimal(chunk_count as nat) + " chunks)"@,
{
}

} // verus!
