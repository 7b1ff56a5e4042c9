//! The desktop client: the files on this device, backing them up and getting them back.

use vstd::prelude::*;

use vstd::string::*;
use vstd::utf8::*;

use crate::cdc;
use crate::cdc::ChunkBoundary;
use crate::database;
use crate::files;
use crate::sql;
use crate::sql::SqlValue;
use crate::sql::SqlView;
use crate::sql::Statement;
use crate::storage;
use crate::storage::FilePath;
use crate::text;
use crate::upload;

verus! {

/// The tables of the local database.
pub const LOCAL_SCHEMA: &'static str = "PRAGMA journal_mode=WAL;
CREATE TABLE IF NOT EXISTS files (
  hash TEXT PRIMARY KEY,
  name TEXT NOT NULL,
  size INTEGER NOT NULL,
  mime_type TEXT NOT NULL,
  uploaded_at INTEGER NOT NULL,
  chunk_count INTEGER NOT NULL
);
CREATE TABLE IF NOT EXISTS chunks (
  file_hash TEXT NOT NULL,
  chunk_id INTEGER NOT NULL,
  offset INTEGER NOT NULL,
  length INTEGER NOT NULL,
  hash TEXT NOT NULL,
  PRIMARY KEY (file_hash, chunk_id)
);";

/// How many connections to the local database are kept open at most.
pub const LOCAL_CONNECTIONS: u32 = 8;

/// The server where none is configured.
pub const DEFAULT_SERVER_URL: &'static str = "http://localhost:3000";

/// The text for a file that the server does not have.
pub const NOT_ON_SERVER: &'static str = "File not found on server";

/// The name of a file of which the server tells no name.
pub const UNKNOWN_NAME: &'static str = "unknown";

/// A file on this device.
#[derive(Debug)]
pub struct LocalFile {
    pub hash: String,
    pub name: String,
    pub size: u64,
    pub mime_type: String,
    pub uploaded_at: i64,
    pub chunk_count: u32,
}

impl Clone for LocalFile {
    fn clone(&self) -> (r: Self)
        ensures
            r == *self,
    {
        LocalFile {
            hash: self.hash.clone(),
            name: self.name.clone(),
            size: self.size,
            mime_type: self.mime_type.clone(),
            uploaded_at: self.uploaded_at,
            chunk_count: self.chunk_count,
        }
    }
}

/// Where other devices reach this one.
#[derive(Debug)]
pub struct P2pAddress {
    pub addr: String,
}

// ---- media types ----

/// The media type that `mime_guess` knows for an extension, or that of a stream of octets.
pub uninterp spec fn mime_of_extension(extension: Seq<char>) -> Seq<char>;

/// Calls `mime_guess::from_ext` and takes the first type, or that of a stream of octets where
/// there is none. The result depends on the extension alone.
#[verifier::external_body]
fn guess_mime(extension: &str) -> (r: String)
    ensures
        r@ == mime_of_extension(extension@),
{
    mime_guess::from_ext(extension).first_or_octet_stream().to_string()
}

/// Where the last dot stands in a name, if there is one.
pub open spec fn last_dot(name: Seq<char>) -> Option<int>
    decreases name.len(),
{
    if name.len() == 0 {
        None
    } else if name.last() == '.' {
        Some(name.len() - 1)
    } else {
        last_dot(name.drop_last())
    }
}

/// The extension of a file name: what stands behind its last dot, unless that is the first
/// character.
pub open spec fn extension(name: Seq<char>) -> Option<Seq<char>> {
    match last_dot(name) {
        Some(dot) => if dot > 0 {
            Some(name.skip(dot + 1))
        } else {
            None
        },
        None => None,
    }
}

/// Finds the extension of a file name.
pub fn extension_of(name: &str) -> (r: Option<String>)
    ensures
        r.is_some() == extension(name@).is_some(),
        r.is_some() ==> r.unwrap()@ == extension(name@).unwrap(),
{
    let size: usize = name.unicode_len();
    let mut n: usize = size;
    assert(name@.take(n as int) =~= name@);
    while n > 0
        invariant
            n <= size,
            size == name@.len(),
            last_dot(name@) == last_dot(name@.take(n as int)),
        decreases n,
    {
        let ghost head = name@.take(n as int);
        if name.get_char(n - 1) == '.' {
            assert(head.last() == '.');
            if n == 1 {
                return None;
            }
            let rest = name.substring_char(n, size).to_owned();
            assert(rest@ =~= name@.skip(n as int));
            return Some(rest);
        }
        assert(head.drop_last() =~= name@.take(n - 1));
        n = n - 1;
    }
    None
}

/// The media type of a file with the given name.
pub fn mime_type_of(name: &str) -> (r: String)
    ensures
        r@ == (match extension(name@) {
            Some(extension) => mime_of_extension(extension),
            None => files::OCTET_STREAM@,
        }),
{
    match extension_of(name) {
        Some(extension) => guess_mime(extension.as_str()),
        None => files::OCTET_STREAM.to_owned(),
    }
}

// ---- places ----

/// The place of the content with the given hash in the local store.
pub fn file_path(files_dir: &str, hash: &str) -> (r: FilePath)
    requires
        encode_utf8(hash@).len() >= 2,
        is_char_boundary(encode_utf8(hash@), 2),
    ensures
        storage::is_place_of(r, files_dir@, hash@),
        r.shard.is_some(),
{
    storage::FileStorage::new(files_dir).get_file_path(hash)
}

/// The place of the content with the given hash in the local store, if it has one.
pub fn find_file_path(files_dir: &str, hash: &str) -> (r: Option<FilePath>)
    ensures
        r.is_some() <==> encode_utf8(hash@).len() >= 2 && is_char_boundary(encode_utf8(hash@), 2),
        r.is_some() ==> storage::is_place_of(r.unwrap(), files_dir@, hash@),
{
    if hash.as_bytes().len() >= 2 && hash.is_char_boundary(2) {
        Some(file_path(files_dir, hash))
    } else {
        None
    }
}

// ---- records in rows ----

/// The columns of a local file, as they are stored.
pub open spec fn local_file_row(r: LocalFile) -> Seq<SqlView> {
    seq![
        SqlView::Text(r.hash@),
        SqlView::Text(r.name@),
        SqlView::Integer(r.size as i64),
        SqlView::Text(r.mime_type@),
        SqlView::Integer(r.uploaded_at),
        SqlView::Integer(r.chunk_count as i64),
    ]
}

/// Whether a row holds a local file.
pub open spec fn is_local_file_row(row: Seq<SqlView>) -> bool {
    &&& row.len() >= 6
    &&& row[0] is Text
    &&& row[1] is Text
    &&& row[2] is Integer
    &&& row[3] is Text
    &&& row[4] is Integer
    &&& row[5] is Integer
}

/// Whether this is the local file that a row holds.
pub open spec fn reads_local_file(row: Seq<SqlView>, r: LocalFile) -> bool {
    &&& row[0] == SqlView::Text(r.hash@)
    &&& row[1] == SqlView::Text(r.name@)
    &&& r.size == row[2]->Integer_0 as u64
    &&& row[3] == SqlView::Text(r.mime_type@)
    &&& row[4] == SqlView::Integer(r.uploaded_at)
    &&& r.chunk_count == row[5]->Integer_0 as u32
}

/// Reads a local file from a row.
pub fn read_local_file(row: &Vec<SqlValue>) -> (r: Option<LocalFile>)
    ensures
        r.is_some() == is_local_file_row(sql::values(row@)),
        r.is_some() ==> reads_local_file(sql::values(row@), r.unwrap()),
{
    if row.len() < 6 {
        return None;
    }
    let ghost columns = sql::values(row@);
    assert(columns[0] == row@[0]@
        && columns[1] == row@[1]@
        && columns[2] == row@[2]@
        && columns[3] == row@[3]@
        && columns[4] == row@[4]@
        && columns[5] == row@[5]@);
    match (
        sql::text_at(row, 0),
        sql::text_at(row, 1),
        sql::integer_at(row, 2),
        sql::text_at(row, 3),
        sql::integer_at(row, 4),
        sql::integer_at(row, 5),
    ) {
        (
            Some(hash),
            Some(name),
            Some(size),
            Some(mime_type),
            Some(uploaded_at),
            Some(chunk_count),
        ) => Some(
            LocalFile {
                hash,
                name,
                size: #[verifier::truncate] (size as u64),
                mime_type,
                uploaded_at,
                chunk_count: #[verifier::truncate] (chunk_count as u32),
            },
        ),
        _ => None,
    }
}

/// Whether a row holds a chunk boundary.
pub open spec fn is_local_chunk_row(row: Seq<SqlView>) -> bool {
    &&& row.len() >= 4
    &&& row[0] is Integer
    &&& row[1] is Integer
    &&& row[2] is Integer
    &&& row[3] is Text
}

/// Whether this is the chunk boundary that a row holds.
pub open spec fn reads_local_chunk(row: Seq<SqlView>, r: ChunkBoundary) -> bool {
    &&& r.chunk_id == row[0]->Integer_0 as u32
    &&& r.offset == row[1]->Integer_0 as u64
    &&& r.length == row[2]->Integer_0 as u32
    &&& row[3] == SqlView::Text(r.hash@)
}

/// Reads a chunk boundary from a row.
pub fn read_local_chunk(row: &Vec<SqlValue>) -> (r: Option<ChunkBoundary>)
    ensures
        r.is_some() == is_local_chunk_row(sql::values(row@)),
        r.is_some() ==> reads_local_chunk(sql::values(row@), r.unwrap()),
{
    if row.len() < 4 {
        return None;
    }
    let ghost columns = sql::values(row@);
    assert(columns[0] == row@[0]@
        && columns[1] == row@[1]@
        && columns[2] == row@[2]@
        && columns[3] == row@[3]@);
    match (
        sql::integer_at(row, 0),
        sql::integer_at(row, 1),
        sql::integer_at(row, 2),
        sql::text_at(row, 3),
    ) {
        (Some(chunk_id), Some(offset), Some(length), Some(hash)) => Some(
            ChunkBoundary {
                chunk_id: #[verifier::truncate] (chunk_id as u32),
                offset: #[verifier::truncate] (offset as u64),
                length: #[verifier::truncate] (length as u32),
                hash,
            },
        ),
        _ => None,
    }
}

// ---- statements ----

/// Says whether a file is recorded.
pub const LOCAL_EXISTS: &'static str = "SELECT 1 FROM files WHERE hash = ?1";

/// The statement that says whether a file is recorded.
pub fn local_exists(hash: &str) -> (r: Statement)
    ensures
        r.is(LOCAL_EXISTS@, seq![SqlView::Text(hash@)]),
{
    let r = Statement::plain(LOCAL_EXISTS).text(hash);
    assert(sql::values(r.params@) =~= seq![SqlView::Text(hash@)]);
    r
}

/// Records a file.
pub const INSERT_LOCAL_FILE: &'static str =
    "INSERT INTO files (hash, name, size, mime_type, uploaded_at, chunk_count)
 VALUES (?1,?2,?3,?4,?5,?6)";

/// Records a file, unless it is recorded.
pub const INSERT_OR_IGNORE_LOCAL_FILE: &'static str =
    "INSERT OR IGNORE INTO files (hash, name, size, mime_type, uploaded_at, chunk_count)
 VALUES (?1,?2,?3,?4,?5,?6)";

fn bind_local_file(statement: Statement, file: &LocalFile) -> (r: Statement)
    requires
        sql::values(statement.params@) == Seq::<SqlView>::empty(),
    ensures
        r.is(statement.sql@, local_file_row(*file)),
{
    let r = statement
        .text(file.hash.as_str())
        .text(file.name.as_str())
        .integer(#[verifier::truncate] (file.size as i64))
        .text(file.mime_type.as_str())
        .integer(file.uploaded_at)
        .integer(file.chunk_count as i64);
    assert(sql::values(r.params@) =~= local_file_row(*file));
    r
}

/// The statement that records a new file.
pub fn insert_local_file(file: &LocalFile) -> (r: Statement)
    ensures
        r.is(INSERT_LOCAL_FILE@, local_file_row(*file)),
{
    bind_local_file(Statement::plain(INSERT_LOCAL_FILE), file)
}

/// The statement that records a file unless it is recorded.
pub fn insert_or_ignore_local_file(file: &LocalFile) -> (r: Statement)
    ensures
        r.is(INSERT_OR_IGNORE_LOCAL_FILE@, local_file_row(*file)),
{
    bind_local_file(Statement::plain(INSERT_OR_IGNORE_LOCAL_FILE), file)
}

/// Records a chunk of a file, unless it is recorded.
pub const INSERT_LOCAL_CHUNK: &'static str =
    "INSERT OR IGNORE INTO chunks (file_hash, chunk_id, offset, length, hash)
 VALUES (?1,?2,?3,?4,?5)";

/// Whether these are the statements that record the chunks of a file, in order.
pub open spec fn records_chunks(
    statements: Seq<Statement>,
    hash: Seq<char>,
    chunks: Seq<ChunkBoundary>,
) -> bool {
    &&& statements.len() == chunks.len()
    &&& forall|i: int|
        0 <= i < statements.len() ==> (#[trigger] statements[i]).is(
            INSERT_LOCAL_CHUNK@,
            seq![SqlView::Text(hash)] + database::chunk_row(chunks[i]),
        )
}

/// The statements that record the chunks of a file, in order.
pub fn insert_local_chunks(hash: &str, chunks: &Vec<ChunkBoundary>) -> (r: Vec<Statement>)
    ensures
        records_chunks(r@, hash@, chunks@),
{
    let mut r: Vec<Statement> = Vec::new();
    let mut n: usize = 0;
    while n < chunks.len()
        invariant
            n <= chunks@.len(),
            r@.len() == n,
            forall|i: int|
                0 <= i < n ==> (#[trigger] r@[i]).is(
                    INSERT_LOCAL_CHUNK@,
                    seq![SqlView::Text(hash@)] + database::chunk_row(chunks@[i]),
                ),
        decreases chunks.len() - n,
    {
        let chunk = &chunks[n];
        let statement = Statement::plain(INSERT_LOCAL_CHUNK)
            .text(hash)
            .integer(chunk.chunk_id as i64)
            .integer(#[verifier::truncate] (chunk.offset as i64))
            .integer(chunk.length as i64)
            .text(chunk.hash.as_str());
        assert(sql::values(statement.params@) =~= seq![SqlView::Text(hash@)]
            + database::chunk_row(chunks@[n as int]));
        r.push(statement);
        n = n + 1;
    }
    r
}

/// Finds a file by its hash.
pub const GET_LOCAL_FILE: &'static str =
    "SELECT hash,name,size,mime_type,uploaded_at,chunk_count FROM files WHERE hash=?1";

/// The statement that finds a file by its hash.
pub fn get_local_file(hash: &str) -> (r: Statement)
    ensures
        r.is(GET_LOCAL_FILE@, seq![SqlView::Text(hash@)]),
{
    let r = Statement::plain(GET_LOCAL_FILE).text(hash);
    assert(sql::values(r.params@) =~= seq![SqlView::Text(hash@)]);
    r
}

/// Lists all files, the latest first.
pub const LIST_LOCAL_FILES: &'static str =
    "SELECT hash,name,size,mime_type,uploaded_at,chunk_count
 FROM files ORDER BY uploaded_at DESC";

/// The statement that lists all files, the latest first.
pub fn list_local_files() -> (r: Statement)
    ensures
        r.is(LIST_LOCAL_FILES@, Seq::empty()),
{
    Statement::plain(LIST_LOCAL_FILES)
}

/// Deletes the chunks of a file.
pub const DELETE_LOCAL_CHUNKS: &'static str = "DELETE FROM chunks WHERE file_hash=?1";

/// Deletes the record of a file.
pub const DELETE_LOCAL_FILE: &'static str = "DELETE FROM files WHERE hash=?1";

/// The statements that forget a file, its chunks first.
pub fn delete_local_file(hash: &str) -> (r: Vec<Statement>)
    ensures
        r@.len() == 2,
        r@[0].is(DELETE_LOCAL_CHUNKS@, seq![SqlView::Text(hash@)]),
        r@[1].is(DELETE_LOCAL_FILE@, seq![SqlView::Text(hash@)]),
{
    let chunks = Statement::plain(DELETE_LOCAL_CHUNKS).text(hash);
    let file = Statement::plain(DELETE_LOCAL_FILE).text(hash);
    assert(sql::values(chunks.params@) =~= seq![SqlView::Text(hash@)]);
    assert(sql::values(file.params@) =~= seq![SqlView::Text(hash@)]);
    let mut r: Vec<Statement> = Vec::new();
    r.push(chunks);
    r.push(file);
    r
}

/// Lists the chunks of a file in order.
pub const GET_LOCAL_CHUNKS: &'static str = "SELECT chunk_id,offset,length,hash FROM chunks
 WHERE file_hash=?1 ORDER BY chunk_id";

/// The statement that lists the chunks of a file in order.
pub fn get_local_chunks(hash: &str) -> (r: Statement)
    ensures
        r.is(GET_LOCAL_CHUNKS@, seq![SqlView::Text(hash@)]),
{
    let r = Statement::plain(GET_LOCAL_CHUNKS).text(hash);
    assert(sql::values(r.params@) =~= seq![SqlView::Text(hash@)]);
    r
}

// ---- taking a file in ----

/// A file that was read and chunked, with the name and type that it goes by.
#[derive(Debug)]
pub struct ReadFile {
    pub name: String,
    pub mime_type: String,
    pub hash: String,
    pub size: u64,
    pub chunks: Vec<ChunkBoundary>,
}

/// Reads a file that holds `data` and goes by the given name; its type goes by its name.
pub fn read_file(name: &str, data: &[u8]) -> (r: ReadFile)
    ensures
        r.name@ == name@,
        r.mime_type@ == (match extension(name@) {
            Some(extension) => mime_of_extension(extension),
            None => files::OCTET_STREAM@,
        }),
        r.hash@ == crate::hashing::content_hash(data@),
        r.size == data@.len(),
        cdc::partitions(r.chunks@, data@),
        cdc::sized(r.chunks@),
        cdc::follows_cuts(r.chunks@, data@),
{
    let (hash, size, chunks) = cdc::process_file(data);
    ReadFile { name: name.to_owned(), mime_type: mime_type_of(name), hash, size, chunks }
}

/// What is to be recorded of a file.
#[derive(Debug)]
pub struct StorePlan {
    pub file: LocalFile,
    pub statements: Vec<Statement>,
}

/// Whether this is the record that a file makes. The number of its chunks is kept in 32 bits.
pub open spec fn makes_record(r: LocalFile, file: ReadFile, now: i64) -> bool {
    &&& r.hash@ == file.hash@
    &&& r.name@ == file.name@
    &&& r.size == file.size
    &&& r.mime_type@ == file.mime_type@
    &&& r.uploaded_at == now
    &&& r.chunk_count == file.chunks@.len() as u32
}

fn record(file: &ReadFile, now: i64) -> (r: LocalFile)
    ensures
        makes_record(r, *file, now),
{
    LocalFile {
        hash: file.hash.clone(),
        name: file.name.clone(),
        size: file.size,
        mime_type: file.mime_type.clone(),
        uploaded_at: now,
        chunk_count: #[verifier::truncate] (file.chunks.len() as u32),
    }
}

/// Settles what storing a file takes: nothing where its content is recorded already, and
/// otherwise that it is copied to its place and recorded with its chunks.
pub fn plan_store(exists: bool, file: &ReadFile, now: i64) -> (r: Option<StorePlan>)
    ensures
        r.is_some() == !exists,
        r.is_some() ==> {
            let plan = r.unwrap();
            &&& file.chunks@.len() <= u32::MAX ==> plan.file.chunk_count
                == plan.statements@.len() - 1
            &&& plan.file.hash@ == file.hash@
            &&& plan.file.name@ == file.name@
            &&& plan.file.size == file.size
            &&& plan.file.mime_type@ == file.mime_type@
            &&& plan.file.uploaded_at == now
            &&& makes_record(plan.file, *file, now)
            &&& plan.statements@.len() == 1 + file.chunks@.len()
            &&& plan.statements@[0].is(INSERT_LOCAL_FILE@, local_file_row(plan.file))
            &&& records_chunks(plan.statements@.skip(1), file.hash@, file.chunks@)
        },
{
    if exists {
        return None;
    }
    let kept = record(file, now);
    let first = insert_local_file(&kept);
    let rest = insert_local_chunks(file.hash.as_str(), &file.chunks);
    Some(StorePlan { file: kept, statements: in_order(first, rest) })
}

/// Settles what recording a file takes that was got back from a server: that it is recorded
/// with its chunks where it was not.
pub fn plan_restore(file: &ReadFile, now: i64) -> (r: StorePlan)
    ensures
        file.chunks@.len() <= u32::MAX ==> r.file.chunk_count == r.statements@.len() - 1,
        r.file.hash@ == file.hash@,
        r.file.name@ == file.name@,
        r.file.size == file.size,
        r.file.mime_type@ == file.mime_type@,
        r.file.uploaded_at == now,
        makes_record(r.file, *file, now),
        r.statements@.len() == 1 + file.chunks@.len(),
        r.statements@[0].is(INSERT_OR_IGNORE_LOCAL_FILE@, local_file_row(r.file)),
        records_chunks(r.statements@.skip(1), file.hash@, file.chunks@),
{
    let kept = record(file, now);
    let first = insert_or_ignore_local_file(&kept);
    let rest = insert_local_chunks(file.hash.as_str(), &file.chunks);
    StorePlan { file: kept, statements: in_order(first, rest) }
}

fn in_order(first: Statement, rest: Vec<Statement>) -> (r: Vec<Statement>)
    ensures
        r@.len() == 1 + rest@.len(),
        r@[0] == first,
        r@.skip(1) == rest@,
{
    let mut r = rest;
    r.insert(0, first);
    assert(r@.skip(1) =~= rest@);
    r
}

// ---- the server ----

/// A file as the server lists it, as far as it tells.
#[derive(Debug)]
pub struct RemoteFile {
    pub hash: Option<String>,
    pub name: Option<String>,
    pub mime_type: Option<String>,
}

/// Where a file is sent to be backed up.
pub fn backup_url(server_url: &str) -> (r: String)
    ensures
        r@ == text::without_end_slashes(server_url@) + "/api/upload?backup=true"@,
{
    text::joined(text::trim_end_slashes(server_url).as_str(), "/api/upload?backup=true")
}

/// Where the server lists its files.
pub fn listing_url(server_url: &str) -> (r: String)
    ensures
        r@ == text::without_end_slashes(server_url@) + "/api/files"@,
{
    text::joined(text::trim_end_slashes(server_url).as_str(), "/api/files")
}

/// Where the server hands out a file.
pub fn download_url(server_url: &str, hash: &str) -> (r: String)
    ensures
        r@ == text::without_end_slashes(server_url@) + "/api/download/"@ + hash@,
{
    text::joined3(text::trim_end_slashes(server_url).as_str(), "/api/download/", hash)
}

/// The name of the temporary file in which content with the given hash is got back.
pub fn restore_temp_name(hash: &str) -> (r: String)
    ensures
        r@ == "anna_restore_"@ + hash@,
{
    text::joined("anna_restore_", hash)
}

/// Finds what is sent along with a file that is backed up.
pub const GET_BACKUP_INFO: &'static str = "SELECT name, mime_type FROM files WHERE hash=?1";

/// The statement that finds the name and the media type of a file.
pub fn get_backup_info(hash: &str) -> (r: Statement)
    ensures
        r.is(GET_BACKUP_INFO@, seq![SqlView::Text(hash@)]),
{
    let r = Statement::plain(GET_BACKUP_INFO).text(hash);
    assert(sql::values(r.params@) =~= seq![SqlView::Text(hash@)]);
    r
}

/// Reads the name and the media type of a file from a row.
pub fn read_backup_info(row: &Vec<SqlValue>) -> (r: Option<(String, String)>)
    ensures
        r.is_some() <==> row@.len() >= 2 && row@[0]@ is Text && row@[1]@ is Text,
        r.is_some() ==> row@[0]@ == SqlView::Text(r.unwrap().0@) && row@[1]@ == SqlView::Text(
            r.unwrap().1@,
        ),
{
    match (sql::text_at(row, 0), sql::text_at(row, 1)) {
        (Some(name), Some(mime_type)) => Some((name, mime_type)),
        _ => None,
    }
}

/// Settles how a backup ended, given the HTTP status that the server answered with and how it
/// is written.
pub fn backup_outcome(status: u16, shown: &str) -> (r: Result<(), String>)
    ensures
        r.is_ok() <==> 200 <= status < 300,
        r.is_err() ==> r->Err_0@ == "Server returned "@ + shown@,
{
    if 200 <= status && status < 300 {
        Ok(())
    } else {
        Err(text::joined("Server returned ", shown))
    }
}

/// Whether the server lists this file under the given hash.
pub open spec fn is_listed_as(file: RemoteFile, hash: Seq<char>) -> bool {
    file.hash.is_some() && file.hash.unwrap()@ == hash
}

/// Finds name and media type of a file in the list of the server: those of the first file
/// with the hash. Where the server does not tell them, they are `unknown` and a stream of
/// octets.
pub fn find_remote(list: &Vec<RemoteFile>, hash: &str) -> (r: Result<(String, String), String>)
    ensures
        r.is_ok() <==> exists|i: int|
            0 <= i < list@.len() && is_listed_as(#[trigger] list@[i], hash@),
        r.is_err() ==> r->Err_0@ == NOT_ON_SERVER@,
        r.is_ok() ==> exists|i: int|
            {
                &&& 0 <= i < list@.len()
                &&& is_listed_as(#[trigger] list@[i], hash@)
                &&& forall|j: int| 0 <= j < i ==> !is_listed_as(#[trigger] list@[j], hash@)
                &&& r.unwrap().0@ == (if list@[i].name.is_some() {
                    list@[i].name.unwrap()@
                } else {
                    UNKNOWN_NAME@
                })
                &&& r.unwrap().1@ == (if list@[i].mime_type.is_some() {
                    list@[i].mime_type.unwrap()@
                } else {
                    files::OCTET_STREAM@
                })
            },
{
    let mut n: usize = 0;
    while n < list.len()
        invariant
            n <= list@.len(),
            forall|j: int| 0 <= j < n ==> !is_listed_as(#[trigger] list@[j], hash@),
        decreases list.len() - n,
    {
        let file = &list[n];
        let found = match &file.hash {
            Some(listed) => text::same_text(listed.as_str(), hash),
            None => false,
        };
        if found {
            assert(is_listed_as(list@[n as int], hash@));
            let name = match &file.name {
                Some(name) => name.clone(),
                None => UNKNOWN_NAME.to_owned(),
            };
            let mime_type = match &file.mime_type {
                Some(mime_type) => mime_type.clone(),
                None => files::OCTET_STREAM.to_owned(),
            };
            return Ok((name, mime_type));
        }
        n = n + 1;
    }
    Err(NOT_ON_SERVER.to_owned())
}

/// A file that was got back from the server: its content as it came, with the name and the
/// type that the server told.
pub fn restored_file(name: String, mime_type: String, data: &[u8]) -> (r: ReadFile)
    ensures
        r.name == name,
        r.mime_type == mime_type,
        r.hash@ == crate::hashing::content_hash(data@),
        r.size == data@.len(),
        cdc::partitions(r.chunks@, data@),
        cdc::sized(r.chunks@),
        cdc::follows_cuts(r.chunks@, data@),
{
    let (hash, size, chunks) = cdc::process_file(data);
    ReadFile { name, mime_type, hash, size, chunks }
}

/// The server that is configured.
pub fn server_url(configured: Option<String>) -> (r: String)
    ensures
        r@ == (if configured.is_some() {
            configured.unwrap()@
        } else {
            DEFAULT_SERVER_URL@
        }),
{
    match configured {
        Some(url) => url,
        None => DEFAULT_SERVER_URL.to_owned(),
    }
}

// ---- serving other devices ----

/// Finds the place of a chunk.
pub const GET_CHUNK_PLACE: &'static str =
    "SELECT offset, length, hash FROM chunks WHERE file_hash=?1 AND chunk_id=?2";

/// The statement that finds the place of a chunk.
pub fn get_chunk_place(hash: &str, chunk_id: u32) -> (r: Statement)
    ensures
        r.is(
            GET_CHUNK_PLACE@,
            seq![SqlView::Text(hash@), SqlView::Integer(chunk_id as i64)],
        ),
{
    let r = Statement::plain(GET_CHUNK_PLACE).text(hash).integer(chunk_id as i64);
    assert(sql::values(r.params@) =~= seq![
        SqlView::Text(hash@),
        SqlView::Integer(chunk_id as i64),
    ]);
    r
}

/// Reads the place of a chunk from a row: where it begins, how long it is, and its hash.
pub fn read_chunk_place(row: &Vec<SqlValue>) -> (r: Option<(i64, i64, String)>)
    ensures
        r.is_some() <==> row@.len() >= 3 && row@[0]@ is Integer && row@[1]@ is Integer
            && row@[2]@ is Text,
        r.is_some() ==> row@[0]@ == SqlView::Integer(r.unwrap().0) && row@[1]@
            == SqlView::Integer(r.unwrap().1) && row@[2]@ == SqlView::Text(r.unwrap().2@),
{
    match (sql::integer_at(row, 0), sql::integer_at(row, 1), sql::text_at(row, 2)) {
        (Some(offset), Some(length), Some(hash)) => Some((offset, length, hash)),
        _ => None,
    }
}

/// What looking for a chunk came to.
#[derive(Debug)]
pub enum ChunkSearch {
    /// The database could not be reached.
    NoDatabase,
    /// The chunk is not recorded.
    NotRecorded,
    /// The file could not be opened.
    NoFile,
    /// The file is shorter than it should be, or could not be read.
    NotReadable,
    /// The bytes were read, and this is the hash that was recorded of them.
    Found { hash: String, data: Vec<u8> },
}

/// The answer to a device that asks for a chunk.
#[derive(Debug)]
pub struct PeerAnswer {
    pub status: u16,
    pub chunk_hash: Option<String>,
    pub content_type: Option<String>,
    pub data: Vec<u8>,
}

/// Answers a device that asks for a chunk.
pub fn answer_chunk(search: ChunkSearch) -> (r: PeerAnswer)
    ensures
        match search {
            ChunkSearch::Found { hash, data } => r.status == files::OK && r.chunk_hash.is_some()
                && r.chunk_hash.unwrap() == hash && r.content_type.is_some()
                && r.content_type.unwrap()@ == files::OCTET_STREAM@ && r.data == data,
            _ => {
                &&& r.status == (if search is NoDatabase || search is NotReadable {
                    files::INTERNAL_SERVER_ERROR
                } else {
                    files::NOT_FOUND
                })
                &&& r.chunk_hash.is_none()
                &&& r.content_type.is_none()
                &&& r.data@.len() == 0
            },
        },
{
    let status: u16 = match search {
        ChunkSearch::Found { hash, data } => {
            return PeerAnswer {
                status: files::OK,
                chunk_hash: Some(hash),
                content_type: Some(files::OCTET_STREAM.to_owned()),
                data,
            };
        },
        ChunkSearch::NoDatabase => files::INTERNAL_SERVER_ERROR,
        ChunkSearch::NotReadable => files::INTERNAL_SERVER_ERROR,
        ChunkSearch::NotRecorded => files::NOT_FOUND,
        ChunkSearch::NoFile => files::NOT_FOUND,
    };
    PeerAnswer { status, chunk_hash: None, content_type: None, data: Vec::new() }
}

/// A file as it is listed for other devices.
#[derive(Debug)]
pub struct SharedFile {
    pub hash: String,
    pub name: String,
    pub size: i64,
    pub chunk_count: i64,
}

/// Lists the files for other devices, the latest first.
pub const LIST_SHARED_FILES: &'static str =
    "SELECT hash, name, size, chunk_count FROM files ORDER BY uploaded_at DESC";

/// The statement that lists the files for other devices.
pub fn list_shared_files() -> (r: Statement)
    ensures
        r.is(LIST_SHARED_FILES@, Seq::empty()),
{
    Statement::plain(LIST_SHARED_FILES)
}

/// Reads a file for other devices from a row.
pub fn read_shared_file(row: &Vec<SqlValue>) -> (r: Option<SharedFile>)
    ensures
        r.is_some() <==> row@.len() >= 4 && row@[0]@ is Text && row@[1]@ is Text
            && row@[2]@ is Integer && row@[3]@ is Integer,
        r.is_some() ==> row@[0]@ == SqlView::Text(r.unwrap().hash@) && row@[1]@ == SqlView::Text(
            r.unwrap().name@,
        ) && row@[2]@ == SqlView::Integer(r.unwrap().size) && row@[3]@ == SqlView::Integer(
            r.unwrap().chunk_count,
        ),
{
    match (
        sql::text_at(row, 0),
        sql::text_at(row, 1),
        sql::integer_at(row, 2),
        sql::integer_at(row, 3),
    ) {
        (Some(hash), Some(name), Some(size), Some(chunk_count)) => Some(
            SharedFile { hash, name, size, chunk_count },
        ),
        _ => None,
    }
}

/// Where this device is reached, given its address in the network and its port.
pub fn p2p_address(ip: &str, port: u16) -> (r: P2pAddress)
    ensures
        r.addr@ == ip@ + ":"@ + text::decimal(port as nat),
{
    P2pAddress { addr: text::joined3(ip, ":", text::decimal_text(port as u64).as_str()) }
}

/// Where this device is reached, once that is known. It is set once and not changed.
pub struct AddressSlot {
    addr: Option<String>,
}

impl View for AddressSlot {
    type V = Option<Seq<char>>;

    closed spec fn view(&self) -> Option<Seq<char>> {
        match self.addr {
            Some(addr) => Some(addr@),
            None => None,
        }
    }
}

/// The address after one was set where one may have been set before.
pub open spec fn after_set(before: Option<Seq<char>>, addr: Seq<char>) -> Option<Seq<char>> {
    if before.is_none() {
        Some(addr)
    } else {
        before
    }
}

impl AddressSlot {
    /// A slot without an address.
    pub fn new() -> (r: Self)
        ensures
            r@.is_none(),
    {
        AddressSlot { addr: None }
    }

    /// Sets the address, if none is set. Says whether it did.
    pub fn set(&mut self, address: P2pAddress) -> (r: bool)
        ensures
            r == old(self)@.is_none(),
            final(self)@ == after_set(old(self)@, address.addr@),
    {
        match self.addr {
            Some(_) => false,
            None => {
                self.addr = Some(address.addr);
                true
            },
        }
    }

    /// The address, or an empty text where none is set.
    pub fn get(&self) -> (r: String)
        ensures
            r@ == (if self@.is_some() {
                self@.unwrap()
            } else {
                Seq::empty()
            }),
    {
        match &self.addr {
            Some(addr) => addr.clone(),
            None => {
                let r = String::new();
                assert(r@ =~= Seq::empty());
                r
            },
        }
    }
}

// ---- laws ----

/// What is stored of a local file is read back, and nothing else.
pub proof fn law_local_file_round_trip(stored: LocalFile, read: LocalFile)
    ensures
        is_local_file_row(local_file_row(stored)),
        reads_local_file(local_file_row(stored), read) ==> {
            &&& read.hash@ == stored.hash@
            &&& read.name@ == stored.name@
            &&& read.size == stored.size
            &&& read.mime_type@ == stored.mime_type@
            &&& read.uploaded_at == stored.uploaded_at
            &&& read.chunk_count == stored.chunk_count
        },
{
    let size = stored.size;
    assert((size as i64) as u64 == size) by (bit_vector);
    let count = stored.chunk_count;
    assert((count as i64) as u32 == count) by (bit_vector);
}

/// What is stored of a chunk is read back by the client and by the server alike.
pub proof fn law_chunks_read_alike(
    stored: ChunkBoundary,
    by_client: ChunkBoundary,
    by_server: ChunkBoundary,
)
    requires
        reads_local_chunk(database::chunk_row(stored), by_client),
        database::reads_chunk(database::chunk_row(stored), by_server),
    ensures
        by_client.chunk_id == by_server.chunk_id == stored.chunk_id,
        by_client.offset == by_server.offset == stored.offset,
        by_client.length == by_server.length == stored.length,
        by_client.hash@ == stored.hash@,
        by_server.hash@ == stored.hash@,
{
    database::law_chunk_round_trip(stored, by_server);
    let id = stored.chunk_id;
    assert((id as i64) as u32 == id) by (bit_vector);
    let offset = stored.offset;
    assert((offset as i64) as u64 == offset) by (bit_vector);
    let length = stored.length;
    assert((length as i64) as u32 == length) by (bit_vector);
}

/// The address that files are backed up to ends in a query with the flag that the server
/// asks for, whatever the address of the server is.
pub proof fn law_backup_passes_the_gate(server_url: Seq<char>)
    ensures
        exists|path: Seq<char>, flag: Seq<char>|
            upload::is_backup(Some(flag)) && text::without_end_slashes(server_url)
                + "/api/upload?backup=true"@ == #[trigger] (path + "?backup="@ + flag),
{
    reveal_strlit("?backup=");
    reveal_strlit("true");
    reveal_strlit("/api/upload");
    reveal_strlit("/api/upload?backup=true");
    let path = text::without_end_slashes(server_url) + "/api/upload"@;
    let flag = "true"@;
    assert(upload::is_backup(Some(flag)));
    assert("/api/upload?backup=true"@ =~= "/api/upload"@ + "?backup="@ + flag);
    assert(text::without_end_slashes(server_url) + "/api/upload?backup=true"@ =~= path
        + "?backup="@ + flag);
}

/// An address that is set stays, whatever is set after it.
pub proof fn law_address_is_set_once(before: Option<Seq<char>>, first: Seq<char>, later: Seq<char>)
    ensures
        after_set(after_set(before, first), later) == after_set(before, first),
{
}

/// What is recorded of a file agrees with what is recorded of its chunks: its number of chunks
/// is the number of the statements that record them, one for each, under its hash and with the
/// number, the place and the hash of the chunk.
pub proof fn law_record_counts_the_recorded_chunks(
    record: LocalFile,
    file: ReadFile,
    now: i64,
    statements: Seq<Statement>,
    i: int,
)
    requires
        makes_record(record, file, now),
        records_chunks(statements, file.hash@, file.chunks@),
        file.chunks@.len() <= u32::MAX,
    ensures
        record.chunk_count == statements.len(),
        record.chunk_count == file.chunks@.len(),
        0 <= i < statements.len() ==> {
            let s = statements[i];
            let chunk = file.chunks@[i];
            &&& s.sql@ == INSERT_LOCAL_CHUNK@
            &&& s.params@.len() == 5
            &&& s.params@[0]@ == SqlView::Text(record.hash@)
            &&& s.params@[1]@ == SqlView::Integer(chunk.chunk_id as i64)
            &&& s.params@[2]@ == SqlView::Integer(chunk.offset as i64)
            &&& s.params@[3]@ == SqlView::Integer(chunk.length as i64)
            &&& s.params@[4]@ == SqlView::Text(chunk.hash@)
        },
{
    if 0 <= i < statements.len() {
        let s = statements[i];
        let row = seq![SqlView::Text(file.hash@)] + database::chunk_row(file.chunks@[i]);
        assert(s.is(INSERT_LOCAL_CHUNK@, row));
        sql::law_statement_binds_in_order(s, INSERT_LOCAL_CHUNK@, row);
        database::law_columns_of_chunks(file.chunks@[i]);
    }
}

/// A record of a file has the hash, the name, the size and the type of the file, and the time.
pub proof fn law_record_takes_after_the_file(record: LocalFile, file: ReadFile, now: i64)
    requires
        makes_record(record, file, now),
    ensures
        record.hash@ == file.hash@,
        record.name@ == file.name@,
        record.size == file.size,
        record.mime_type@ == file.mime_type@,
        record.uploaded_at == now,
{
}

/// The columns of a local file come in the order of the statements that record it.
pub proof fn law_columns_of_local_files(r: LocalFile)
    ensures
        local_file_row(r).len() == 6,
        local_file_row(r)[0] == SqlView::Text(r.hash@),
        local_file_row(r)[1] == SqlView::Text(r.name@),
        local_file_row(r)[2] == SqlView::Integer(r.size as i64),
        local_file_row(r)[3] == SqlView::Text(r.mime_type@),
        local_file_row(r)[4] == SqlView::Integer(r.uploaded_at),
        local_file_row(r)[5] == SqlView::Integer(r.chunk_count as i64),
{
}

/// What is stored of a chunk can be read.
pub proof fn law_stored_chunks_can_be_read(stored: ChunkBoundary)
    ensures
        is_local_chunk_row(database::chunk_row(stored)),
{
}

/// The extension of a name is what stands behind a dot that is not its first character, where
/// no dot stands behind that one. A name that has such a dot has an extension.
pub proof fn law_extension_stands_behind_the_last_dot(
    stem: Seq<char>,
    ending: Seq<char>,
    name: Seq<char>,
)
    ensures
        stem.len() > 0 && !ending.contains('.') ==> extension(stem.push('.') + ending) == Some(
            ending,
        ),
        !ending.contains('.') ==> extension(seq!['.'] + ending).is_none() && extension(
            ending,
        ).is_none(),
        extension(name).is_some() ==> !extension(name).unwrap().contains('.'),
        extension(name).is_some() ==> exists|s: Seq<char>|
            s.len() > 0 && name == #[trigger] s.push('.') + extension(name).unwrap(),
{
    if !ending.contains('.') {
        lemma_last_dot(stem.push('.'), ending);
        lemma_last_dot(seq!['.'], ending);
        lemma_no_dot(ending);
        assert((stem.push('.') + ending).skip(stem.len() as int + 1) =~= ending);
    }
    if extension(name).is_some() {
        lemma_dot_found(name);
        let dot = last_dot(name).unwrap();
        let s = name.take(dot);
        let e = name.skip(dot + 1);
        assert(name =~= s.push('.') + e);
        assert(extension(name) == Some(e));
        assert(s.len() > 0 && name == s.push('.') + e);
        assert(!e.contains('.')) by {
            if e.contains('.') {
                let k = choose|k: int| 0 <= k < e.len() && e[k] == '.';
                assert(name[dot + 1 + k] == e[k]);
            }
        }
    }
}

/// A text without a dot has no last dot.
proof fn lemma_no_dot(s: Seq<char>)
    requires
        !s.contains('.'),
    ensures
        last_dot(s).is_none(),
    decreases s.len(),
{
    if s.len() > 0 {
        assert(s[s.len() - 1] == s.last());
        assert forall|i: int| 0 <= i < s.drop_last().len() implies s.drop_last()[i] != '.' by {
            assert(s[i] == s.drop_last()[i]);
        }
        lemma_no_dot(s.drop_last());
    }
}

/// The last dot stays the last dot when something without a dot comes behind it.
proof fn lemma_last_dot(head: Seq<char>, ending: Seq<char>)
    requires
        head.len() > 0,
        head.last() == '.',
        !ending.contains('.'),
    ensures
        last_dot(head + ending) == Some(head.len() - 1),
    decreases ending.len(),
{
    let s = head + ending;
    if ending.len() == 0 {
        assert(s =~= head);
    } else {
        let front = ending.drop_last();
        assert(ending[ending.len() - 1] == s.last());
        assert forall|i: int| 0 <= i < front.len() implies front[i] != '.' by {
            assert(ending[i] == front[i]);
        }
        assert(s.drop_last() =~= head + front);
        lemma_last_dot(head, front);
    }
}

/// Where the last dot is said to stand there is a dot, and none behind it.
proof fn lemma_dot_found(s: Seq<char>)
    ensures
        last_dot(s) matches Some(dot) ==> 0 <= dot < s.len() && s[dot] == '.' && forall|i: int|
            dot < i < s.len() ==> #[trigger] s[i] != '.',
    decreases s.len(),
{
    if s.len() > 0 && s.last() != '.' {
        let front = s.drop_last();
        lemma_dot_found(front);
        if last_dot(s).is_some() {
            let dot = last_dot(s).unwrap();
            assert forall|i: int| dot < i < s.len() implies #[trigger] s[i] != '.' by {
                if i < front.len() {
                    assert(front[i] == s[i]);
                }
            }
        }
    }
}

/// The server lists a file under one hash at most, the one that it tells.
pub proof fn law_listed_under_its_hash(file: RemoteFile, hash: Seq<char>)
    ensures
        is_listed_as(file, hash) ==> file.hash.is_some() && file.hash.unwrap()@ == hash,
        file.hash.is_some() ==> is_listed_as(file, file.hash.unwrap()@),
{
}

/// Setting the address sets it where there is none, and leaves it where there is one.
pub proof fn law_first_address_counts(addr: Seq<char>, other: Seq<char>)
    ensures
        after_set(None, addr) == Some(addr),
        after_set(Some(addr), other) == Some(addr),
{
}

/// On a device files are listed with the latest first and chunks by their numbers, and a file or
/// a chunk is found, and deleted, by what it goes by.
pub proof fn law_local_statements_select_and_order()
    ensures
        LIST_LOCAL_FILES@.skip(
            LIST_LOCAL_FILES@.len() - " ORDER BY uploaded_at DESC"@.len(),
        ) == " ORDER BY uploaded_at DESC"@,
        LIST_SHARED_FILES@.skip(
            LIST_SHARED_FILES@.len() - " ORDER BY uploaded_at DESC"@.len(),
        ) == " ORDER BY uploaded_at DESC"@,
        GET_LOCAL_CHUNKS@.skip(
            GET_LOCAL_CHUNKS@.len() - " WHERE file_hash=?1 ORDER BY chunk_id"@.len(),
        ) == " WHERE file_hash=?1 ORDER BY chunk_id"@,
        GET_CHUNK_PLACE@.skip(
            GET_CHUNK_PLACE@.len() - " WHERE file_hash=?1 AND chunk_id=?2"@.len(),
        ) == " WHERE file_hash=?1 AND chunk_id=?2"@,
        GET_LOCAL_FILE@.skip(
            GET_LOCAL_FILE@.len() - " FROM files WHERE hash=?1"@.len(),
        ) == " FROM files WHERE hash=?1"@,
        GET_BACKUP_INFO@.skip(
            GET_BACKUP_INFO@.len() - " FROM files WHERE hash=?1"@.len(),
        ) == " FROM files WHERE hash=?1"@,
        LOCAL_EXISTS@.skip(
            LOCAL_EXISTS@.len() - " FROM files WHERE hash = ?1"@.len(),
        ) == " FROM files WHERE hash = ?1"@,
        DELETE_LOCAL_CHUNKS@.skip(
            DELETE_LOCAL_CHUNKS@.len() - "DELETE FROM chunks WHERE file_hash=?1"@.len(),
        ) == "DELETE FROM chunks WHERE file_hash=?1"@,
        DELETE_LOCAL_FILE@.skip(
            DELETE_LOCAL_FILE@.len() - "DELETE FROM files WHERE hash=?1"@.len(),
        ) == "DELETE FROM files WHERE hash=?1"@,
{
    reveal_strlit("SELECT hash,name,size,mime_type,uploaded_at,chunk_count
 FROM files ORDER BY uploaded_at DESC");
    reveal_strlit(" ORDER BY uploaded_at DESC");
    reveal_strlit("SELECT hash, name, size, chunk_count FROM files ORDER BY uploaded_at DESC");
    reveal_strlit("SELECT chunk_id,offset,length,hash FROM chunks
 WHERE file_hash=?1 ORDER BY chunk_id");
    reveal_strlit(" WHERE file_hash=?1 ORDER BY chunk_id");
    reveal_strlit("SELECT offset, length, hash FROM chunks WHERE file_hash=?1 AND chunk_id=?2");
    reveal_strlit(" WHERE file_hash=?1 AND chunk_id=?2");
    reveal_strlit("SELECT hash,name,size,mime_type,uploaded_at,chunk_count FROM files WHERE hash=?1");
    reveal_strlit(" FROM files WHERE hash=?1");
    reveal_strlit("SELECT name, mime_type FROM files WHERE hash=?1");
    reveal_strlit("SELECT 1 FROM files WHERE hash = ?1");
    reveal_strlit(" FROM files WHERE hash = ?1");
    reveal_strlit("DELETE FROM chunks WHERE file_hash=?1");
    reveal_strlit("DELETE FROM files WHERE hash=?1");
    assert(LIST_LOCAL_FILES@.skip(
        LIST_LOCAL_FILES@.len() - " ORDER BY uploaded_at DESC"@.len(),
    ) =~= " ORDER BY uploaded_at DESC"@);
    assert(LIST_SHARED_FILES@.skip(
        LIST_SHARED_FILES@.len() - " ORDER BY uploaded_at DESC"@.len(),
    ) =~= " ORDER BY uploaded_at DESC"@);
    assert(GET_LOCAL_CHUNKS@.skip(
        GET_LOCAL_CHUNKS@.len() - " WHERE file_hash=?1 ORDER BY chunk_id"@.len(),
    ) =~= " WHERE file_hash=?1 ORDER BY chunk_id"@);
    assert(GET_CHUNK_PLACE@.skip(
        GET_CHUNK_PLACE@.len() - " WHERE file_hash=?1 AND chunk_id=?2"@.len(),
    ) =~= " WHERE file_hash=?1 AND chunk_id=?2"@);
    assert(GET_LOCAL_FILE@.skip(
        GET_LOCAL_FILE@.len() - " FROM files WHERE hash=?1"@.len(),
    ) =~= " FROM files WHERE hash=?1"@);
    assert(GET_BACKUP_INFO@.skip(
        GET_BACKUP_INFO@.len() - " FROM files WHERE hash=?1"@.len(),
    ) =~= " FROM files WHERE hash=?1"@);
    assert(LOCAL_EXISTS@.skip(
        LOCAL_EXISTS@.len() - " FROM files WHERE hash = ?1"@.len(),
    ) =~= " FROM files WHERE hash = ?1"@);
    assert(DELETE_LOCAL_CHUNKS@.skip(
        DELETE_LOCAL_CHUNKS@.len() - "DELETE FROM chunks WHERE file_hash=?1"@.len(),
    ) =~= "DELETE FROM chunks WHERE file_hash=?1"@);
    assert(DELETE_LOCAL_FILE@.skip(
        DELETE_LOCAL_FILE@.len() - "DELETE FROM files WHERE hash=?1"@.len(),
    ) =~= "DELETE FROM files WHERE hash=?1"@);
}

/// A row holds a local file if and only if it has the columns, each of its kind. Every field is
/// read from its own column.
pub proof fn law_rows_of_local_files(row: Seq<SqlView>, r: LocalFile)
    ensures
        is_local_file_row(row) <==> row.len() >= 6 && row[0] is Text && row[1] is Text
            && row[2] is Integer && row[3] is Text && row[4] is Integer && row[5] is Integer,
        is_local_file_row(row) && reads_local_file(row, r) ==> {
            &&& row[0]->Text_0 == r.hash@
            &&& row[1]->Text_0 == r.name@
            &&& r.size == row[2]->Integer_0 as u64
            &&& row[3]->Text_0 == r.mime_type@
            &&& row[4]->Integer_0 == r.uploaded_at
            &&& r.chunk_count == row[5]->Integer_0 as u32
        },
{
}

/// A row holds a chunk boundary if and only if it has the columns, each of its kind. Every field is
/// read from its own column.
pub proof fn law_rows_of_local_chunks(row: Seq<SqlView>, r: ChunkBoundary)
    ensures
        is_local_chunk_row(row) <==> row.len() >= 4 && row[0] is Integer && row[1] is Integer
            && row[2] is Integer && row[3] is Text,
        is_local_chunk_row(row) && reads_local_chunk(row, r) ==> {
            &&& r.chunk_id == row[0]->Integer_0 as u32
            &&& r.offset == row[1]->Integer_0 as u64
            &&& r.length == row[2]->Integer_0 as u32
            &&& row[3]->Text_0 == r.hash@
        },
{
}

/// A new file is recorded once, and one that was got back only where it is not recorded; chunks
/// that are recorded stay as they are. The values go to the columns in their order.
pub proof fn law_restoring_keeps_what_is_recorded()
    ensures
        INSERT_LOCAL_FILE@ == "INSERT INTO files (hash, name, size, mime_type, uploaded_at, chunk_count)
 VALUES (?1,?2,?3,?4,?5,?6)"@,
        INSERT_OR_IGNORE_LOCAL_FILE@ == "INSERT OR IGNORE INTO files (hash, name, size, mime_type, uploaded_at, chunk_count)
 VALUES (?1,?2,?3,?4,?5,?6)"@,
        INSERT_LOCAL_CHUNK@ == "INSERT OR IGNORE INTO chunks (file_hash, chunk_id, offset, length, hash)
 VALUES (?1,?2,?3,?4,?5)"@,
{
}

} // verus!
