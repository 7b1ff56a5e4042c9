//! The database of the server: its tables, the statements on them and the records in
//! them.
//!
//! Each statement is a function from what it is about to the SQL text and the values
//! that are bound to it. Each kind of record has a function that reads it from a row.

use vstd::prelude::*;

use crate::cdc::ChunkBoundary;
use crate::files::FileMetadata;
use crate::sql;
use crate::sql::SqlValue;
use crate::sql::SqlView;
use crate::sql::Statement;

verus! {

/// What every connection is set to: readers and the writer do not block each other, a
/// write is durable at the next checkpoint, and references between tables hold.
pub const PRAGMAS: &'static str = "PRAGMA journal_mode=WAL;
PRAGMA synchronous=NORMAL;
PRAGMA cache_size=10000;
PRAGMA busy_timeout=5000;
PRAGMA foreign_keys=ON;";

/// How many connections are kept open at most.
pub const MAX_CONNECTIONS: u32 = 16;

/// The tables and their indexes.
pub const SCHEMA: &'static str = "CREATE TABLE IF NOT EXISTS files (
    hash        TEXT    PRIMARY KEY,
    name        TEXT    NOT NULL,
    size        INTEGER NOT NULL,
    mime_type   TEXT    NOT NULL,
    uploaded_at INTEGER NOT NULL,
    chunk_count INTEGER NOT NULL,
    compressed  INTEGER NOT NULL
);
CREATE INDEX IF NOT EXISTS idx_uploaded_at
    ON files(uploaded_at DESC);

-- One row per CDC chunk: stores the byte range within the
-- stored file so chunks can be served with a single seek.
CREATE TABLE IF NOT EXISTS chunks (
    file_hash  TEXT    NOT NULL REFERENCES files(hash) ON DELETE CASCADE,
    chunk_id   INTEGER NOT NULL,
    offset     INTEGER NOT NULL,
    length     INTEGER NOT NULL,
    chunk_hash TEXT    NOT NULL,
    PRIMARY KEY (file_hash, chunk_id)
);
CREATE INDEX IF NOT EXISTS idx_chunks_file
    ON chunks(file_hash);
CREATE INDEX IF NOT EXISTS idx_chunk_hash
    ON chunks(chunk_hash);

-- Users (created via OAuth)
CREATE TABLE IF NOT EXISTS users (
    id          TEXT    PRIMARY KEY,
    github_id   TEXT    UNIQUE,
    email       TEXT,
    name        TEXT    NOT NULL,
    avatar_url  TEXT,
    created_at  INTEGER NOT NULL
);

-- Groups owned by users
CREATE TABLE IF NOT EXISTS groups (
    id          TEXT    PRIMARY KEY,
    owner_id    TEXT    NOT NULL REFERENCES users(id) ON DELETE CASCADE,
    name        TEXT    NOT NULL,
    description TEXT,
    created_at  INTEGER NOT NULL
);
CREATE INDEX IF NOT EXISTS idx_groups_owner ON groups(owner_id);

-- Group membership
CREATE TABLE IF NOT EXISTS group_members (
    group_id    TEXT    NOT NULL REFERENCES groups(id) ON DELETE CASCADE,
    user_id     TEXT    NOT NULL REFERENCES users(id) ON DELETE CASCADE,
    role        TEXT    NOT NULL DEFAULT 'member',
    joined_at   INTEGER NOT NULL,
    PRIMARY KEY (group_id, user_id)
);
CREATE INDEX IF NOT EXISTS idx_group_members_user ON group_members(user_id);

-- Labels owned by users
CREATE TABLE IF NOT EXISTS labels (
    id          TEXT    PRIMARY KEY,
    owner_id    TEXT    NOT NULL REFERENCES users(id) ON DELETE CASCADE,
    name        TEXT    NOT NULL,
    color       TEXT    NOT NULL DEFAULT '#6366f1',
    created_at  INTEGER NOT NULL
);
CREATE INDEX IF NOT EXISTS idx_labels_owner ON labels(owner_id);

-- File to label associations
CREATE TABLE IF NOT EXISTS file_labels (
    file_hash   TEXT    NOT NULL REFERENCES files(hash) ON DELETE CASCADE,
    label_id    TEXT    NOT NULL REFERENCES labels(id) ON DELETE CASCADE,
    PRIMARY KEY (file_hash, label_id)
);

-- Per-file sharing settings
CREATE TABLE IF NOT EXISTS file_shares (
    file_hash   TEXT    PRIMARY KEY REFERENCES files(hash) ON DELETE CASCADE,
    owner_id    TEXT    REFERENCES users(id) ON DELETE SET NULL,
    visibility  TEXT    NOT NULL DEFAULT 'public',
    group_id    TEXT    REFERENCES groups(id) ON DELETE SET NULL,
    created_at  INTEGER NOT NULL
);

-- Virtual folders (tree structure)
CREATE TABLE IF NOT EXISTS virtual_folders (
    id          TEXT    PRIMARY KEY,
    owner_id    TEXT    REFERENCES users(id) ON DELETE CASCADE,
    name        TEXT    NOT NULL,
    parent_id   TEXT    REFERENCES virtual_folders(id) ON DELETE CASCADE,
    created_at  INTEGER NOT NULL
);
CREATE INDEX IF NOT EXISTS idx_folders_owner  ON virtual_folders(owner_id);
CREATE INDEX IF NOT EXISTS idx_folders_parent ON virtual_folders(parent_id);

-- File to folder associations
CREATE TABLE IF NOT EXISTS folder_files (
    folder_id   TEXT    NOT NULL REFERENCES virtual_folders(id) ON DELETE CASCADE,
    file_hash   TEXT    NOT NULL REFERENCES files(hash) ON DELETE CASCADE,
    PRIMARY KEY (folder_id, file_hash)
);";

// ---- records ----

/// A person who has signed in.
#[derive(Debug)]
pub struct User {
    pub id: String,
    pub github_id: Option<String>,
    pub email: Option<String>,
    pub name: String,
    pub avatar_url: Option<String>,
    pub created_at: i64,
}

/// A set of users who share files.
#[derive(Debug)]
pub struct Group {
    pub id: String,
    pub owner_id: String,
    pub name: String,
    pub description: Option<String>,
    pub created_at: i64,
}

/// One user's place in one group.
#[derive(Debug)]
pub struct GroupMember {
    pub group_id: String,
    pub user_id: String,
    pub role: String,
    pub joined_at: i64,
}

/// A coloured tag of one user.
#[derive(Debug)]
pub struct Label {
    pub id: String,
    pub owner_id: String,
    pub name: String,
    pub color: String,
    pub created_at: i64,
}

/// Who may see a file.
#[derive(Debug)]
pub struct FileShare {
    pub file_hash: String,
    pub owner_id: Option<String>,
    /// `public`, `private` or `group`.
    pub visibility: String,
    pub group_id: Option<String>,
    pub created_at: i64,
}

/// A named container of files, which may lie in another.
#[derive(Debug)]
pub struct VirtualFolder {
    pub id: String,
    pub owner_id: Option<String>,
    pub name: String,
    pub parent_id: Option<String>,
    pub created_at: i64,
}

// ---- recorded files in rows ----

/// The columns of a recorded file, as they are stored.
pub open spec fn file_row(r: FileMetadata) -> Seq<SqlView> {
    seq![
        SqlView::Text(r.hash@),
        SqlView::Text(r.name@),
        SqlView::Integer(r.size as i64),
        SqlView::Text(r.mime_type@),
        SqlView::Integer(r.uploaded_at),
        SqlView::Integer(r.chunk_count as i64),
        SqlView::Integer(if r.compressed {
            1
        } else {
            0
        }),
    ]
}

/// Whether a row holds a recorded file.
pub open spec fn is_file_row(row: Seq<SqlView>) -> bool {
    &&& row.len() >= 7
    &&& row[0] is Text
    &&& row[1] is Text
    &&& row[2] is Integer
    &&& row[3] is Text
    &&& row[4] is Integer
    &&& sql::is_u32(row[5])
    &&& sql::is_i32(row[6])
}

/// Whether this is a recorded file that a row holds.
pub open spec fn reads_file(row: Seq<SqlView>, r: FileMetadata) -> bool {
    &&& row[0] == SqlView::Text(r.hash@)
    &&& row[1] == SqlView::Text(r.name@)
    &&& r.size == row[2]->Integer_0 as u64
    &&& row[3] == SqlView::Text(r.mime_type@)
    &&& row[4] == SqlView::Integer(r.uploaded_at)
    &&& row[5] == SqlView::Integer(r.chunk_count as i64)
    &&& r.compressed == (row[6] != SqlView::Integer(0))
}

/// Reads a recorded file from a row.
pub fn read_file(row: &Vec<SqlValue>) -> (r: Option<FileMetadata>)
    ensures
        r.is_some() == is_file_row(sql::values(row@)),
        r.is_some() ==> reads_file(sql::values(row@), r.unwrap()),
{
    if row.len() < 7 {
        return None;
    }
    let ghost columns = sql::values(row@);
    assert(columns[0] == row@[0]@
        && columns[1] == row@[1]@
        && columns[2] == row@[2]@
        && columns[3] == row@[3]@
        && columns[4] == row@[4]@
        && columns[5] == row@[5]@
        && columns[6] == row@[6]@);
    match (
        sql::text_at(row, 0),
        sql::text_at(row, 1),
        sql::integer_at(row, 2),
        sql::text_at(row, 3),
        sql::integer_at(row, 4),
        sql::u32_at(row, 5),
        sql::flag_at(row, 6),
    ) {
        (
            Some(hash),
            Some(name),
            Some(size),
            Some(mime_type),
            Some(uploaded_at),
            Some(chunk_count),
            Some(compressed),
        ) => Some(
            FileMetadata {
                hash,
                name,
                size: #[verifier::truncate] (size as u64),
                mime_type,
                uploaded_at,
                chunk_count,
                compressed,
            },
        ),
        _ => None,
    }
}

// ---- chunk boundaries in rows ----

/// The columns of a chunk boundary, as they are stored.
pub open spec fn chunk_row(r: ChunkBoundary) -> Seq<SqlView> {
    seq![
        SqlView::Integer(r.chunk_id as i64),
        SqlView::Integer(r.offset as i64),
        SqlView::Integer(r.length as i64),
        SqlView::Text(r.hash@),
    ]
}

/// Whether a row holds a chunk boundary.
pub open spec fn is_chunk_row(row: Seq<SqlView>) -> bool {
    &&& row.len() >= 4
    &&& sql::is_u32(row[0])
    &&& row[1] is Integer
    &&& sql::is_u32(row[2])
    &&& row[3] is Text
}

/// Whether this is a chunk boundary that a row holds.
pub open spec fn reads_chunk(row: Seq<SqlView>, r: ChunkBoundary) -> bool {
    &&& row[0] == SqlView::Integer(r.chunk_id as i64)
    &&& r.offset == row[1]->Integer_0 as u64
    &&& row[2] == SqlView::Integer(r.length as i64)
    &&& row[3] == SqlView::Text(r.hash@)
}

/// Reads a chunk boundary from a row.
pub fn read_chunk(row: &Vec<SqlValue>) -> (r: Option<ChunkBoundary>)
    ensures
        r.is_some() == is_chunk_row(sql::values(row@)),
        r.is_some() ==> reads_chunk(sql::values(row@), r.unwrap()),
{
    if row.len() < 4 {
        return None;
    }
    let ghost columns = sql::values(row@);
    assert(columns[0] == row@[0]@
        && columns[1] == row@[1]@
        && columns[2] == row@[2]@
        && columns[3] == row@[3]@);
    match (
        sql::u32_at(row, 0),
        sql::integer_at(row, 1),
        sql::u32_at(row, 2),
        sql::text_at(row, 3),
    ) {
        (
            Some(chunk_id),
            Some(offset),
            Some(length),
            Some(hash),
        ) => Some(
            ChunkBoundary {
                chunk_id,
                offset: #[verifier::truncate] (offset as u64),
                length,
                hash,
            },
        ),
        _ => None,
    }
}

// ---- users in rows ----

/// The columns of a user, as they are stored.
pub open spec fn user_row(r: User) -> Seq<SqlView> {
    seq![
        SqlView::Text(r.id@),
        sql::optional(r.github_id),
        sql::optional(r.email),
        SqlView::Text(r.name@),
        sql::optional(r.avatar_url),
        SqlView::Integer(r.created_at),
    ]
}

/// Whether a row holds a user.
pub open spec fn is_user_row(row: Seq<SqlView>) -> bool {
    &&& row.len() >= 6
    &&& row[0] is Text
    &&& (row[1] is Text || row[1] is Null)
    &&& (row[2] is Text || row[2] is Null)
    &&& row[3] is Text
    &&& (row[4] is Text || row[4] is Null)
    &&& row[5] is Integer
}

/// Whether this is a user that a row holds.
pub open spec fn reads_user(row: Seq<SqlView>, r: User) -> bool {
    &&& row[0] == SqlView::Text(r.id@)
    &&& row[1] == sql::optional(r.github_id)
    &&& row[2] == sql::optional(r.email)
    &&& row[3] == SqlView::Text(r.name@)
    &&& row[4] == sql::optional(r.avatar_url)
    &&& row[5] == SqlView::Integer(r.created_at)
}

/// Reads a user from a row.
pub fn read_user(row: &Vec<SqlValue>) -> (r: Option<User>)
    ensures
        r.is_some() == is_user_row(sql::values(row@)),
        r.is_some() ==> reads_user(sql::values(row@), r.unwrap()),
{
    if row.len() < 6 {
        return None;
    }
    let ghost columns = sql::values(row@);
    assert(columns[0] == row@[0]@
        && columns[1] == row@[1]@
        && columns[2] == row@[2]@
        && columns[3] == row@[3]@
        && columns[4] == row@[4]@
        && columns[5] == row@[5]@);
    match (
        sql::text_at(row, 0),
        sql::optional_at(row, 1),
        sql::optional_at(row, 2),
        sql::text_at(row, 3),
        sql::optional_at(row, 4),
        sql::integer_at(row, 5),
    ) {
        (
            Some(id),
            Some(github_id),
            Some(email),
            Some(name),
            Some(avatar_url),
            Some(created_at),
        ) => Some(
            User {
                id,
                github_id,
                email,
                name,
                avatar_url,
                created_at,
            },
        ),
        _ => None,
    }
}

// ---- groups in rows ----

/// The columns of a group, as they are stored.
pub open spec fn group_row(r: Group) -> Seq<SqlView> {
    seq![
        SqlView::Text(r.id@),
        SqlView::Text(r.owner_id@),
        SqlView::Text(r.name@),
        sql::optional(r.description),
        SqlView::Integer(r.created_at),
    ]
}

/// Whether a row holds a group.
pub open spec fn is_group_row(row: Seq<SqlView>) -> bool {
    &&& row.len() >= 5
    &&& row[0] is Text
    &&& row[1] is Text
    &&& row[2] is Text
    &&& (row[3] is Text || row[3] is Null)
    &&& row[4] is Integer
}

/// Whether this is a group that a row holds.
pub open spec fn reads_group(row: Seq<SqlView>, r: Group) -> bool {
    &&& row[0] == SqlView::Text(r.id@)
    &&& row[1] == SqlView::Text(r.owner_id@)
    &&& row[2] == SqlView::Text(r.name@)
    &&& row[3] == sql::optional(r.description)
    &&& row[4] == SqlView::Integer(r.created_at)
}

/// Reads a group from a row.
pub fn read_group(row: &Vec<SqlValue>) -> (r: Option<Group>)
    ensures
        r.is_some() == is_group_row(sql::values(row@)),
        r.is_some() ==> reads_group(sql::values(row@), r.unwrap()),
{
    if row.len() < 5 {
        return None;
    }
    let ghost columns = sql::values(row@);
    assert(columns[0] == row@[0]@
        && columns[1] == row@[1]@
        && columns[2] == row@[2]@
        && columns[3] == row@[3]@
        && columns[4] == row@[4]@);
    match (
        sql::text_at(row, 0),
        sql::text_at(row, 1),
        sql::text_at(row, 2),
        sql::optional_at(row, 3),
        sql::integer_at(row, 4),
    ) {
        (
            Some(id),
            Some(owner_id),
            Some(name),
            Some(description),
            Some(created_at),
        ) => Some(
            Group {
                id,
                owner_id,
                name,
                description,
                created_at,
            },
        ),
        _ => None,
    }
}

// ---- memberships in rows ----

/// The columns of a membership, as they are stored.
pub open spec fn member_row(r: GroupMember) -> Seq<SqlView> {
    seq![
        SqlView::Text(r.group_id@),
        SqlView::Text(r.user_id@),
        SqlView::Text(r.role@),
        SqlView::Integer(r.joined_at),
    ]
}

/// Whether a row holds a membership.
pub open spec fn is_member_row(row: Seq<SqlView>) -> bool {
    &&& row.len() >= 4
    &&& row[0] is Text
    &&& row[1] is Text
    &&& row[2] is Text
    &&& row[3] is Integer
}

/// Whether this is a membership that a row holds.
pub open spec fn reads_member(row: Seq<SqlView>, r: GroupMember) -> bool {
    &&& row[0] == SqlView::Text(r.group_id@)
    &&& row[1] == SqlView::Text(r.user_id@)
    &&& row[2] == SqlView::Text(r.role@)
    &&& row[3] == SqlView::Integer(r.joined_at)
}

/// Reads a membership from a row.
pub fn read_member(row: &Vec<SqlValue>) -> (r: Option<GroupMember>)
    ensures
        r.is_some() == is_member_row(sql::values(row@)),
        r.is_some() ==> reads_member(sql::values(row@), r.unwrap()),
{
    if row.len() < 4 {
        return None;
    }
    let ghost columns = sql::values(row@);
    assert(columns[0] == row@[0]@
        && columns[1] == row@[1]@
        && columns[2] == row@[2]@
        && columns[3] == row@[3]@);
    match (
        sql::text_at(row, 0),
        sql::text_at(row, 1),
        sql::text_at(row, 2),
        sql::integer_at(row, 3),
    ) {
        (
            Some(group_id),
            Some(user_id),
            Some(role),
            Some(joined_at),
        ) => Some(
            GroupMember {
                group_id,
                user_id,
                role,
                joined_at,
            },
        ),
        _ => None,
    }
}

// ---- labels in rows ----

/// The columns of a label, as they are stored.
pub open spec fn label_row(r: Label) -> Seq<SqlView> {
    seq![
        SqlView::Text(r.id@),
        SqlView::Text(r.owner_id@),
        SqlView::Text(r.name@),
        SqlView::Text(r.color@),
        SqlView::Integer(r.created_at),
    ]
}

/// Whether a row holds a label.
pub open spec fn is_label_row(row: Seq<SqlView>) -> bool {
    &&& row.len() >= 5
    &&& row[0] is Text
    &&& row[1] is Text
    &&& row[2] is Text
    &&& row[3] is Text
    &&& row[4] is Integer
}

/// Whether this is a label that a row holds.
pub open spec fn reads_label(row: Seq<SqlView>, r: Label) -> bool {
    &&& row[0] == SqlView::Text(r.id@)
    &&& row[1] == SqlView::Text(r.owner_id@)
    &&& row[2] == SqlView::Text(r.name@)
    &&& row[3] == SqlView::Text(r.color@)
    &&& row[4] == SqlView::Integer(r.created_at)
}

/// Reads a label from a row.
pub fn read_label(row: &Vec<SqlValue>) -> (r: Option<Label>)
    ensures
        r.is_some() == is_label_row(sql::values(row@)),
        r.is_some() ==> reads_label(sql::values(row@), r.unwrap()),
{
    if row.len() < 5 {
        return None;
    }
    let ghost columns = sql::values(row@);
    assert(columns[0] == row@[0]@
        && columns[1] == row@[1]@
        && columns[2] == row@[2]@
        && columns[3] == row@[3]@
        && columns[4] == row@[4]@);
    match (
        sql::text_at(row, 0),
        sql::text_at(row, 1),
        sql::text_at(row, 2),
        sql::text_at(row, 3),
        sql::integer_at(row, 4),
    ) {
        (
            Some(id),
            Some(owner_id),
            Some(name),
            Some(color),
            Some(created_at),
        ) => Some(
            Label {
                id,
                owner_id,
                name,
                color,
                created_at,
            },
        ),
        _ => None,
    }
}

// ---- sharing settings in rows ----

/// The columns of a sharing setting, as they are stored.
pub open spec fn share_row(r: FileShare) -> Seq<SqlView> {
    seq![
        SqlView::Text(r.file_hash@),
        sql::optional(r.owner_id),
        SqlView::Text(r.visibility@),
        sql::optional(r.group_id),
        SqlView::Integer(r.created_at),
    ]
}

/// Whether a row holds a sharing setting.
pub open spec fn is_share_row(row: Seq<SqlView>) -> bool {
    &&& row.len() >= 5
    &&& row[0] is Text
    &&& (row[1] is Text || row[1] is Null)
    &&& row[2] is Text
    &&& (row[3] is Text || row[3] is Null)
    &&& row[4] is Integer
}

/// Whether this is a sharing setting that a row holds.
pub open spec fn reads_share(row: Seq<SqlView>, r: FileShare) -> bool {
    &&& row[0] == SqlView::Text(r.file_hash@)
    &&& row[1] == sql::optional(r.owner_id)
    &&& row[2] == SqlView::Text(r.visibility@)
    &&& row[3] == sql::optional(r.group_id)
    &&& row[4] == SqlView::Integer(r.created_at)
}

/// Reads a sharing setting from a row.
pub fn read_share(row: &Vec<SqlValue>) -> (r: Option<FileShare>)
    ensures
        r.is_some() == is_share_row(sql::values(row@)),
        r.is_some() ==> reads_share(sql::values(row@), r.unwrap()),
{
    if row.len() < 5 {
        return None;
    }
    let ghost columns = sql::values(row@);
    assert(columns[0] == row@[0]@
        && columns[1] == row@[1]@
        && columns[2] == row@[2]@
        && columns[3] == row@[3]@
        && columns[4] == row@[4]@);
    match (
        sql::text_at(row, 0),
        sql::optional_at(row, 1),
        sql::text_at(row, 2),
        sql::optional_at(row, 3),
        sql::integer_at(row, 4),
    ) {
        (
            Some(file_hash),
            Some(owner_id),
            Some(visibility),
            Some(group_id),
            Some(created_at),
        ) => Some(
            FileShare {
                file_hash,
                owner_id,
                visibility,
                group_id,
                created_at,
            },
        ),
        _ => None,
    }
}

// ---- folders in rows ----

/// The columns of a folder, as they are stored.
pub open spec fn folder_row(r: VirtualFolder) -> Seq<SqlView> {
    seq![
        SqlView::Text(r.id@),
        sql::optional(r.owner_id),
        SqlView::Text(r.name@),
        sql::optional(r.parent_id),
        SqlView::Integer(r.created_at),
    ]
}

/// Whether a row holds a folder.
pub open spec fn is_folder_row(row: Seq<SqlView>) -> bool {
    &&& row.len() >= 5
    &&& row[0] is Text
    &&& (row[1] is Text || row[1] is Null)
    &&& row[2] is Text
    &&& (row[3] is Text || row[3] is Null)
    &&& row[4] is Integer
}

/// Whether this is a folder that a row holds.
pub open spec fn reads_folder(row: Seq<SqlView>, r: VirtualFolder) -> bool {
    &&& row[0] == SqlView::Text(r.id@)
    &&& row[1] == sql::optional(r.owner_id)
    &&& row[2] == SqlView::Text(r.name@)
    &&& row[3] == sql::optional(r.parent_id)
    &&& row[4] == SqlView::Integer(r.created_at)
}

/// Reads a folder from a row.
pub fn read_folder(row: &Vec<SqlValue>) -> (r: Option<VirtualFolder>)
    ensures
        r.is_some() == is_folder_row(sql::values(row@)),
        r.is_some() ==> reads_folder(sql::values(row@), r.unwrap()),
{
    if row.len() < 5 {
        return None;
    }
    let ghost columns = sql::values(row@);
    assert(columns[0] == row@[0]@
        && columns[1] == row@[1]@
        && columns[2] == row@[2]@
        && columns[3] == row@[3]@
        && columns[4] == row@[4]@);
    match (
        sql::text_at(row, 0),
        sql::optional_at(row, 1),
        sql::text_at(row, 2),
        sql::optional_at(row, 3),
        sql::integer_at(row, 4),
    ) {
        (
            Some(id),
            Some(owner_id),
            Some(name),
            Some(parent_id),
            Some(created_at),
        ) => Some(
            VirtualFolder {
                id,
                owner_id,
                name,
                parent_id,
                created_at,
            },
        ),
        _ => None,
    }
}

// ---- statements ----

// files

/// Records a file, in place of what was recorded under its hash.
pub const SAVE_FILE: &'static str = "INSERT OR REPLACE INTO files
 (hash, name, size, mime_type, uploaded_at, chunk_count, compressed)
 VALUES (?1, ?2, ?3, ?4, ?5, ?6, ?7)";

/// The statement that records a file, in place of what was recorded under its hash.
pub fn save_file(metadata: &FileMetadata) -> (r: Statement)
    ensures
        r.is(SAVE_FILE@, file_row(*metadata)),
{
    let r = Statement::plain(SAVE_FILE)
        .text(metadata.hash.as_str())
        .text(metadata.name.as_str())
        .integer(#[verifier::truncate] (metadata.size as i64))
        .text(metadata.mime_type.as_str())
        .integer(metadata.uploaded_at)
        .integer(metadata.chunk_count as i64)
        .integer(if metadata.compressed {
            1
        } else {
            0
        });
    assert(sql::values(r.params@) =~= file_row(*metadata));
    r
}

/// Finds a file by its hash.
pub const GET_FILE: &'static str =
    "SELECT hash, name, size, mime_type, uploaded_at, chunk_count, compressed
 FROM files WHERE hash = ?1";

/// The statement that finds a file by its hash.
pub fn get_file(hash: &str) -> (r: Statement)
    ensures
        r.is(GET_FILE@, seq![SqlView::Text(hash@)]),
{
    let r = Statement::plain(GET_FILE).text(hash);
    assert(sql::values(r.params@) =~= seq![SqlView::Text(hash@)]);
    r
}

/// Lists all files, the latest first.
pub const LIST_FILES: &'static str =
    "SELECT hash, name, size, mime_type, uploaded_at, chunk_count, compressed
 FROM files ORDER BY uploaded_at DESC";

/// The statement that lists all files, the latest first.
pub fn list_files() -> (r: Statement)
    ensures
        r.is(LIST_FILES@, Seq::empty()),
{
    let r = Statement::plain(LIST_FILES);
    r
}

/// Deletes the record of a file.
pub const DELETE_FILE: &'static str = "DELETE FROM files WHERE hash = ?1";

/// The statement that deletes the record of a file.
pub fn delete_file(hash: &str) -> (r: Statement)
    ensures
        r.is(DELETE_FILE@, seq![SqlView::Text(hash@)]),
{
    let r = Statement::plain(DELETE_FILE).text(hash);
    assert(sql::values(r.params@) =~= seq![SqlView::Text(hash@)]);
    r
}

// chunks

/// Records a chunk of a file, in place of what was recorded under its number.
pub const SAVE_CHUNK: &'static str = "INSERT OR REPLACE INTO chunks
 (file_hash, chunk_id, offset, length, chunk_hash)
 VALUES (?1, ?2, ?3, ?4, ?5)";

/// The statement that records a chunk of a file, in place of what was recorded under its number.
pub fn save_chunk(file_hash: &str, chunk: &ChunkBoundary) -> (r: Statement)
    ensures
        r.is(SAVE_CHUNK@, seq![SqlView::Text(file_hash@)] + chunk_row(*chunk)),
{
    let r = Statement::plain(SAVE_CHUNK)
        .text(file_hash)
        .integer(chunk.chunk_id as i64)
        .integer(#[verifier::truncate] (chunk.offset as i64))
        .integer(chunk.length as i64)
        .text(chunk.hash.as_str());
    assert(sql::values(r.params@) =~= seq![SqlView::Text(file_hash@)] + chunk_row(*chunk));
    r
}

/// The statements that record the chunks of a file, in order. They are to be run in one
/// transaction.
pub fn save_chunks(file_hash: &str, chunks: &Vec<ChunkBoundary>) -> (r: Vec<Statement>)
    ensures
        r@.len() == chunks@.len(),
        forall|i: int|
            0 <= i < r@.len() ==> (#[trigger] r@[i]).is(
                SAVE_CHUNK@,
                seq![SqlView::Text(file_hash@)] + chunk_row(chunks@[i]),
            ),
{
    let mut r: Vec<Statement> = Vec::new();
    let mut n: usize = 0;
    while n < chunks.len()
        invariant
            n <= chunks@.len(),
            r@.len() == n,
            forall|i: int|
                0 <= i < n ==> (#[trigger] r@[i]).is(
                    SAVE_CHUNK@,
                    seq![SqlView::Text(file_hash@)] + chunk_row(chunks@[i]),
                ),
        decreases chunks.len() - n,
    {
        r.push(save_chunk(file_hash, &chunks[n]));
        n = n + 1;
    }
    r
}

/// Lists the chunks of a file in order.
pub const GET_CHUNKS: &'static str = "SELECT chunk_id, offset, length, chunk_hash
 FROM chunks WHERE file_hash = ?1
 ORDER BY chunk_id";

/// The statement that lists the chunks of a file in order.
pub fn get_chunks(file_hash: &str) -> (r: Statement)
    ensures
        r.is(GET_CHUNKS@, seq![SqlView::Text(file_hash@)]),
{
    let r = Statement::plain(GET_CHUNKS).text(file_hash);
    assert(sql::values(r.params@) =~= seq![SqlView::Text(file_hash@)]);
    r
}

/// Finds one chunk of a file.
pub const GET_CHUNK_BOUNDARY: &'static str = "SELECT chunk_id, offset, length, chunk_hash
 FROM chunks WHERE file_hash = ?1 AND chunk_id = ?2";

/// The statement that finds one chunk of a file.
pub fn get_chunk_boundary(file_hash: &str, chunk_id: u32) -> (r: Statement)
    ensures
        r.is(
            GET_CHUNK_BOUNDARY@,
            seq![SqlView::Text(file_hash@), SqlView::Integer(chunk_id as i64)],
        ),
{
    let r = Statement::plain(GET_CHUNK_BOUNDARY).text(file_hash).integer(chunk_id as i64);
    assert(sql::values(r.params@) =~= seq![
        SqlView::Text(file_hash@),
        SqlView::Integer(chunk_id as i64),
    ]);
    r
}

// users

/// Records a user, in place of what was recorded under the identifier.
pub const SAVE_USER: &'static str =
    "INSERT OR REPLACE INTO users (id, github_id, email, name, avatar_url, created_at)
 VALUES (?1, ?2, ?3, ?4, ?5, ?6)";

/// The statement that records a user, in place of what was recorded under the identifier.
pub fn save_user(user: &User) -> (r: Statement)
    ensures
        r.is(SAVE_USER@, user_row(*user)),
{
    let r = Statement::plain(SAVE_USER)
        .text(user.id.as_str())
        .optional(&user.github_id)
        .optional(&user.email)
        .text(user.name.as_str())
        .optional(&user.avatar_url)
        .integer(user.created_at);
    assert(sql::values(r.params@) =~= user_row(*user));
    r
}

/// Finds a user.
pub const GET_USER_BY_ID: &'static str =
    "SELECT id, github_id, email, name, avatar_url, created_at FROM users WHERE id = ?1";

/// The statement that finds a user.
pub fn get_user_by_id(id: &str) -> (r: Statement)
    ensures
        r.is(GET_USER_BY_ID@, seq![SqlView::Text(id@)]),
{
    let r = Statement::plain(GET_USER_BY_ID).text(id);
    assert(sql::values(r.params@) =~= seq![SqlView::Text(id@)]);
    r
}

/// Finds a user by the identifier at GitHub.
pub const GET_USER_BY_GITHUB_ID: &'static str =
    "SELECT id, github_id, email, name, avatar_url, created_at FROM users WHERE github_id = ?1";

/// The statement that finds a user by the identifier at GitHub.
pub fn get_user_by_github_id(github_id: &str) -> (r: Statement)
    ensures
        r.is(GET_USER_BY_GITHUB_ID@, seq![SqlView::Text(github_id@)]),
{
    let r = Statement::plain(GET_USER_BY_GITHUB_ID).text(github_id);
    assert(sql::values(r.params@) =~= seq![SqlView::Text(github_id@)]);
    r
}

// groups

/// Adds a group.
pub const CREATE_GROUP: &'static str =
    "INSERT INTO groups (id, owner_id, name, description, created_at)
 VALUES (?1, ?2, ?3, ?4, ?5)";

/// The statement that adds a group.
pub fn create_group(group: &Group) -> (r: Statement)
    ensures
        r.is(CREATE_GROUP@, group_row(*group)),
{
    let r = Statement::plain(CREATE_GROUP)
        .text(group.id.as_str())
        .text(group.owner_id.as_str())
        .text(group.name.as_str())
        .optional(&group.description)
        .integer(group.created_at);
    assert(sql::values(r.params@) =~= group_row(*group));
    r
}

/// Finds a group.
pub const GET_GROUP: &'static str =
    "SELECT id, owner_id, name, description, created_at FROM groups WHERE id = ?1";

/// The statement that finds a group.
pub fn get_group(id: &str) -> (r: Statement)
    ensures
        r.is(GET_GROUP@, seq![SqlView::Text(id@)]),
{
    let r = Statement::plain(GET_GROUP).text(id);
    assert(sql::values(r.params@) =~= seq![SqlView::Text(id@)]);
    r
}

/// Lists the groups that a user owns or belongs to, the latest first.
pub const LIST_GROUPS_FOR_USER: &'static str =
    "SELECT DISTINCT g.id, g.owner_id, g.name, g.description, g.created_at
 FROM groups g
 LEFT JOIN group_members gm ON g.id = gm.group_id
 WHERE g.owner_id = ?1 OR gm.user_id = ?1
 ORDER BY g.created_at DESC";

/// The statement that lists the groups that a user owns or belongs to, the latest first.
pub fn list_groups_for_user(user_id: &str) -> (r: Statement)
    ensures
        r.is(LIST_GROUPS_FOR_USER@, seq![SqlView::Text(user_id@)]),
{
    let r = Statement::plain(LIST_GROUPS_FOR_USER).text(user_id);
    assert(sql::values(r.params@) =~= seq![SqlView::Text(user_id@)]);
    r
}

/// Deletes a group.
pub const DELETE_GROUP: &'static str = "DELETE FROM groups WHERE id = ?1";

/// The statement that deletes a group.
pub fn delete_group(id: &str) -> (r: Statement)
    ensures
        r.is(DELETE_GROUP@, seq![SqlView::Text(id@)]),
{
    let r = Statement::plain(DELETE_GROUP).text(id);
    assert(sql::values(r.params@) =~= seq![SqlView::Text(id@)]);
    r
}

/// Records a member of a group, in place of what was recorded of the two.
pub const ADD_GROUP_MEMBER: &'static str =
    "INSERT OR REPLACE INTO group_members (group_id, user_id, role, joined_at)
 VALUES (?1, ?2, ?3, ?4)";

/// The statement that records a member of a group, in place of what was recorded of the two.
pub fn add_group_member(member: &GroupMember) -> (r: Statement)
    ensures
        r.is(ADD_GROUP_MEMBER@, member_row(*member)),
{
    let r = Statement::plain(ADD_GROUP_MEMBER)
        .text(member.group_id.as_str())
        .text(member.user_id.as_str())
        .text(member.role.as_str())
        .integer(member.joined_at);
    assert(sql::values(r.params@) =~= member_row(*member));
    r
}

/// Lists the members of a group.
pub const GET_GROUP_MEMBERS: &'static str =
    "SELECT group_id, user_id, role, joined_at FROM group_members WHERE group_id = ?1";

/// The statement that lists the members of a group.
pub fn get_group_members(group_id: &str) -> (r: Statement)
    ensures
        r.is(GET_GROUP_MEMBERS@, seq![SqlView::Text(group_id@)]),
{
    let r = Statement::plain(GET_GROUP_MEMBERS).text(group_id);
    assert(sql::values(r.params@) =~= seq![SqlView::Text(group_id@)]);
    r
}

/// Takes a member out of a group.
pub const REMOVE_GROUP_MEMBER: &'static str =
    "DELETE FROM group_members WHERE group_id = ?1 AND user_id = ?2";

/// The statement that takes a member out of a group.
pub fn remove_group_member(group_id: &str, user_id: &str) -> (r: Statement)
    ensures
        r.is(REMOVE_GROUP_MEMBER@, seq![SqlView::Text(group_id@), SqlView::Text(user_id@)]),
{
    let r = Statement::plain(REMOVE_GROUP_MEMBER).text(group_id).text(user_id);
    assert(sql::values(r.params@) =~= seq![SqlView::Text(group_id@), SqlView::Text(user_id@)]);
    r
}

/// Counts how often a user is a member of a group.
pub const COUNT_GROUP_MEMBER: &'static str =
    "SELECT COUNT(*) FROM group_members WHERE group_id = ?1 AND user_id = ?2";

/// The statement that counts how often a user is a member of a group.
pub fn count_group_member(group_id: &str, user_id: &str) -> (r: Statement)
    ensures
        r.is(COUNT_GROUP_MEMBER@, seq![SqlView::Text(group_id@), SqlView::Text(user_id@)]),
{
    let r = Statement::plain(COUNT_GROUP_MEMBER).text(group_id).text(user_id);
    assert(sql::values(r.params@) =~= seq![SqlView::Text(group_id@), SqlView::Text(user_id@)]);
    r
}

/// Reads from the row of [`count_group_member`] whether the user is a member.
pub fn is_group_member(row: &Vec<SqlValue>) -> (r: Option<bool>)
    ensures
        r.is_some() <==> row@.len() >= 1 && row@[0]@ is Integer,
        r.is_some() ==> r.unwrap() == (row@[0]@->Integer_0 > 0),
{
    match sql::integer_at(row, 0) {
        Some(count) => Some(count > 0),
        None => None,
    }
}

// labels

/// Adds a label.
pub const CREATE_LABEL: &'static str =
    "INSERT INTO labels (id, owner_id, name, color, created_at) VALUES (?1, ?2, ?3, ?4, ?5)";

/// The statement that adds a label.
pub fn create_label(label: &Label) -> (r: Statement)
    ensures
        r.is(CREATE_LABEL@, label_row(*label)),
{
    let r = Statement::plain(CREATE_LABEL)
        .text(label.id.as_str())
        .text(label.owner_id.as_str())
        .text(label.name.as_str())
        .text(label.color.as_str())
        .integer(label.created_at);
    assert(sql::values(r.params@) =~= label_row(*label));
    r
}

/// Lists the labels of a user, the latest first.
pub const LIST_LABELS_FOR_USER: &'static str =
    "SELECT id, owner_id, name, color, created_at FROM labels WHERE owner_id = ?1
 ORDER BY created_at DESC";

/// The statement that lists the labels of a user, the latest first.
pub fn list_labels_for_user(user_id: &str) -> (r: Statement)
    ensures
        r.is(LIST_LABELS_FOR_USER@, seq![SqlView::Text(user_id@)]),
{
    let r = Statement::plain(LIST_LABELS_FOR_USER).text(user_id);
    assert(sql::values(r.params@) =~= seq![SqlView::Text(user_id@)]);
    r
}

/// Deletes a label of an owner, and none of another.
pub const DELETE_LABEL: &'static str = "DELETE FROM labels WHERE id = ?1 AND owner_id = ?2";

/// The statement that deletes a label of an owner, and none of another.
pub fn delete_label(id: &str, owner_id: &str) -> (r: Statement)
    ensures
        r.is(DELETE_LABEL@, seq![SqlView::Text(id@), SqlView::Text(owner_id@)]),
{
    let r = Statement::plain(DELETE_LABEL).text(id).text(owner_id);
    assert(sql::values(r.params@) =~= seq![SqlView::Text(id@), SqlView::Text(owner_id@)]);
    r
}

/// Puts a label on a file, unless it is there.
pub const ADD_FILE_LABEL: &'static str =
    "INSERT OR IGNORE INTO file_labels (file_hash, label_id) VALUES (?1, ?2)";

/// The statement that puts a label on a file, unless it is there.
pub fn add_file_label(file_hash: &str, label_id: &str) -> (r: Statement)
    ensures
        r.is(ADD_FILE_LABEL@, seq![SqlView::Text(file_hash@), SqlView::Text(label_id@)]),
{
    let r = Statement::plain(ADD_FILE_LABEL).text(file_hash).text(label_id);
    assert(sql::values(r.params@) =~= seq![SqlView::Text(file_hash@), SqlView::Text(label_id@)]);
    r
}

/// Takes a label off a file.
pub const REMOVE_FILE_LABEL: &'static str =
    "DELETE FROM file_labels WHERE file_hash = ?1 AND label_id = ?2";

/// The statement that takes a label off a file.
pub fn remove_file_label(file_hash: &str, label_id: &str) -> (r: Statement)
    ensures
        r.is(REMOVE_FILE_LABEL@, seq![SqlView::Text(file_hash@), SqlView::Text(label_id@)]),
{
    let r = Statement::plain(REMOVE_FILE_LABEL).text(file_hash).text(label_id);
    assert(sql::values(r.params@) =~= seq![SqlView::Text(file_hash@), SqlView::Text(label_id@)]);
    r
}

/// Lists the labels on a file.
pub const GET_FILE_LABELS: &'static str = "SELECT l.id, l.owner_id, l.name, l.color, l.created_at
 FROM labels l
 JOIN file_labels fl ON l.id = fl.label_id
 WHERE fl.file_hash = ?1";

/// The statement that lists the labels on a file.
pub fn get_file_labels(file_hash: &str) -> (r: Statement)
    ensures
        r.is(GET_FILE_LABELS@, seq![SqlView::Text(file_hash@)]),
{
    let r = Statement::plain(GET_FILE_LABELS).text(file_hash);
    assert(sql::values(r.params@) =~= seq![SqlView::Text(file_hash@)]);
    r
}

// sharing

/// Sets who may see a file.
pub const SET_FILE_SHARE: &'static str =
    "INSERT OR REPLACE INTO file_shares (file_hash, owner_id, visibility, group_id, created_at)
 VALUES (?1, ?2, ?3, ?4, ?5)";

/// The statement that sets who may see a file.
pub fn set_file_share(share: &FileShare) -> (r: Statement)
    ensures
        r.is(SET_FILE_SHARE@, share_row(*share)),
{
    let r = Statement::plain(SET_FILE_SHARE)
        .text(share.file_hash.as_str())
        .optional(&share.owner_id)
        .text(share.visibility.as_str())
        .optional(&share.group_id)
        .integer(share.created_at);
    assert(sql::values(r.params@) =~= share_row(*share));
    r
}

/// Finds who may see a file.
pub const GET_FILE_SHARE: &'static str =
    "SELECT file_hash, owner_id, visibility, group_id, created_at
 FROM file_shares WHERE file_hash = ?1";

/// The statement that finds who may see a file.
pub fn get_file_share(file_hash: &str) -> (r: Statement)
    ensures
        r.is(GET_FILE_SHARE@, seq![SqlView::Text(file_hash@)]),
{
    let r = Statement::plain(GET_FILE_SHARE).text(file_hash);
    assert(sql::values(r.params@) =~= seq![SqlView::Text(file_hash@)]);
    r
}

// folders

/// Adds a folder.
pub const CREATE_FOLDER: &'static str =
    "INSERT INTO virtual_folders (id, owner_id, name, parent_id, created_at)
 VALUES (?1, ?2, ?3, ?4, ?5)";

/// The statement that adds a folder.
pub fn create_folder(folder: &VirtualFolder) -> (r: Statement)
    ensures
        r.is(CREATE_FOLDER@, folder_row(*folder)),
{
    let r = Statement::plain(CREATE_FOLDER)
        .text(folder.id.as_str())
        .optional(&folder.owner_id)
        .text(folder.name.as_str())
        .optional(&folder.parent_id)
        .integer(folder.created_at);
    assert(sql::values(r.params@) =~= folder_row(*folder));
    r
}

/// Finds a folder.
pub const GET_FOLDER: &'static str =
    "SELECT id, owner_id, name, parent_id, created_at FROM virtual_folders WHERE id = ?1";

/// The statement that finds a folder.
pub fn get_folder(id: &str) -> (r: Statement)
    ensures
        r.is(GET_FOLDER@, seq![SqlView::Text(id@)]),
{
    let r = Statement::plain(GET_FOLDER).text(id);
    assert(sql::values(r.params@) =~= seq![SqlView::Text(id@)]);
    r
}

/// Lists an owner's folders in a folder, by name.
pub const LIST_OWNED_SUBFOLDERS: &'static str = "SELECT id, owner_id, name, parent_id, created_at
 FROM virtual_folders WHERE owner_id = ?1 AND parent_id = ?2
 ORDER BY name";

/// Lists an owner's folders that lie in no other, by name.
pub const LIST_OWNED_ROOTS: &'static str = "SELECT id, owner_id, name, parent_id, created_at
 FROM virtual_folders WHERE owner_id = ?1 AND parent_id IS NULL
 ORDER BY name";

/// Lists the folders in a folder, by name.
pub const LIST_SUBFOLDERS: &'static str = "SELECT id, owner_id, name, parent_id, created_at
 FROM virtual_folders WHERE parent_id = ?1
 ORDER BY name";

/// Lists the folders that lie in no other, by name.
pub const LIST_ROOTS: &'static str = "SELECT id, owner_id, name, parent_id, created_at
 FROM virtual_folders WHERE parent_id IS NULL
 ORDER BY name";

/// The statement that lists the folders in the given folder, or those that lie in no other
/// where none is given; only those of the given owner, or those of everyone and of no one
/// where none is given.
pub fn list_folders(owner_id: Option<&str>, parent_id: Option<&str>) -> (r: Statement)
    ensures
        match (owner_id, parent_id) {
            (Some(owner), Some(parent)) => r.is(
                LIST_OWNED_SUBFOLDERS@,
                seq![SqlView::Text(owner@), SqlView::Text(parent@)],
            ),
            (Some(owner), None) => r.is(LIST_OWNED_ROOTS@, seq![SqlView::Text(owner@)]),
            (None, Some(parent)) => r.is(LIST_SUBFOLDERS@, seq![SqlView::Text(parent@)]),
            (None, None) => r.is(LIST_ROOTS@, Seq::empty()),
        },
{
    match (owner_id, parent_id) {
        (Some(owner), Some(parent)) => {
            let r = Statement::plain(LIST_OWNED_SUBFOLDERS).text(owner).text(parent);
            assert(sql::values(r.params@) =~= seq![SqlView::Text(owner@), SqlView::Text(parent@)]);
            r
        },
        (Some(owner), None) => {
            let r = Statement::plain(LIST_OWNED_ROOTS).text(owner);
            assert(sql::values(r.params@) =~= seq![SqlView::Text(owner@)]);
            r
        },
        (None, Some(parent)) => {
            let r = Statement::plain(LIST_SUBFOLDERS).text(parent);
            assert(sql::values(r.params@) =~= seq![SqlView::Text(parent@)]);
            r
        },
        (None, None) => Statement::plain(LIST_ROOTS),
    }
}

/// Lists the folders in a folder that no one owns, by name.
pub const LIST_UNOWNED_SUBFOLDERS: &'static str =
    "SELECT id, owner_id, name, parent_id, created_at
 FROM virtual_folders WHERE owner_id IS NULL AND parent_id = ?1
 ORDER BY name";

/// Lists the folders that lie in no other and that no one owns, by name.
pub const LIST_UNOWNED_ROOTS: &'static str = "SELECT id, owner_id, name, parent_id, created_at
 FROM virtual_folders WHERE owner_id IS NULL AND parent_id IS NULL
 ORDER BY name";

/// The statement that lists the folders that no one owns: those in the given folder, or those
/// that lie in no other where none is given.
pub fn list_unowned_folders(parent_id: Option<&str>) -> (r: Statement)
    ensures
        match parent_id {
            Some(parent) => r.is(LIST_UNOWNED_SUBFOLDERS@, seq![SqlView::Text(parent@)]),
            None => r.is(LIST_UNOWNED_ROOTS@, Seq::empty()),
        },
{
    match parent_id {
        Some(parent) => {
            let r = Statement::plain(LIST_UNOWNED_SUBFOLDERS).text(parent);
            assert(sql::values(r.params@) =~= seq![SqlView::Text(parent@)]);
            r
        },
        None => Statement::plain(LIST_UNOWNED_ROOTS),
    }
}

/// Puts a file into a folder, unless it is there.
pub const ADD_FILE_TO_FOLDER: &'static str =
    "INSERT OR IGNORE INTO folder_files (folder_id, file_hash) VALUES (?1, ?2)";

/// The statement that puts a file into a folder, unless it is there.
pub fn add_file_to_folder(folder_id: &str, file_hash: &str) -> (r: Statement)
    ensures
        r.is(ADD_FILE_TO_FOLDER@, seq![SqlView::Text(folder_id@), SqlView::Text(file_hash@)]),
{
    let r = Statement::plain(ADD_FILE_TO_FOLDER).text(folder_id).text(file_hash);
    assert(sql::values(r.params@) =~= seq![SqlView::Text(folder_id@), SqlView::Text(file_hash@)]);
    r
}

/// Lists the hashes of the files in a folder.
pub const LIST_FILES_IN_FOLDER: &'static str =
    "SELECT file_hash FROM folder_files WHERE folder_id = ?1";

/// The statement that lists the hashes of the files in a folder.
pub fn list_files_in_folder(folder_id: &str) -> (r: Statement)
    ensures
        r.is(LIST_FILES_IN_FOLDER@, seq![SqlView::Text(folder_id@)]),
{
    let r = Statement::plain(LIST_FILES_IN_FOLDER).text(folder_id);
    assert(sql::values(r.params@) =~= seq![SqlView::Text(folder_id@)]);
    r
}

/// Reads a file's hash from a row of [`list_files_in_folder`].
pub fn read_file_hash(row: &Vec<SqlValue>) -> (r: Option<String>)
    ensures
        r.is_some() <==> row@.len() >= 1 && row@[0]@ is Text,
        r.is_some() ==> row@[0]@ == SqlView::Text(r.unwrap()@),
{
    sql::text_at(row, 0)
}

/// Takes a file out of a folder.
pub const REMOVE_FILE_FROM_FOLDER: &'static str =
    "DELETE FROM folder_files WHERE folder_id = ?1 AND file_hash = ?2";

/// The statement that takes a file out of a folder.
pub fn remove_file_from_folder(folder_id: &str, file_hash: &str) -> (r: Statement)
    ensures
        r.is(REMOVE_FILE_FROM_FOLDER@, seq![SqlView::Text(folder_id@), SqlView::Text(file_hash@)]),
{
    let r = Statement::plain(REMOVE_FILE_FROM_FOLDER).text(folder_id).text(file_hash);
    assert(sql::values(r.params@) =~= seq![SqlView::Text(folder_id@), SqlView::Text(file_hash@)]);
    r
}

// ---- laws ----

/// What is stored of a recorded file is read back, and nothing else.
pub proof fn law_file_round_trip(stored: FileMetadata, read: FileMetadata)
    ensures
        is_file_row(file_row(stored)),
        reads_file(file_row(stored), read) ==> {
            &&& read.hash@ == stored.hash@
            &&& read.name@ == stored.name@
            &&& read.size == stored.size
            &&& read.mime_type@ == stored.mime_type@
            &&& read.uploaded_at == stored.uploaded_at
            &&& read.chunk_count == stored.chunk_count
            &&& read.compressed == stored.compressed
        },
{
    let n = stored.size;
    assert((n as i64) as u64 == n) by (bit_vector);
}

/// What is stored of a chunk boundary is read back, and nothing else.
pub proof fn law_chunk_round_trip(stored: ChunkBoundary, read: ChunkBoundary)
    ensures
        is_chunk_row(chunk_row(stored)),
        reads_chunk(chunk_row(stored), read) ==> {
            &&& read.chunk_id == stored.chunk_id
            &&& read.offset == stored.offset
            &&& read.length == stored.length
            &&& read.hash@ == stored.hash@
        },
{
    let n = stored.offset;
    assert((n as i64) as u64 == n) by (bit_vector);
}

/// What is stored of a user is read back, and nothing else.
pub proof fn law_user_round_trip(stored: User, read: User)
    ensures
        is_user_row(user_row(stored)),
        reads_user(user_row(stored), read) ==> {
            &&& read.id@ == stored.id@
            &&& sql::optional(read.github_id) == sql::optional(stored.github_id)
            &&& sql::optional(read.email) == sql::optional(stored.email)
            &&& read.name@ == stored.name@
            &&& sql::optional(read.avatar_url) == sql::optional(stored.avatar_url)
            &&& read.created_at == stored.created_at
        },
{
}

/// What is stored of a group is read back, and nothing else.
pub proof fn law_group_round_trip(stored: Group, read: Group)
    ensures
        is_group_row(group_row(stored)),
        reads_group(group_row(stored), read) ==> {
            &&& read.id@ == stored.id@
            &&& read.owner_id@ == stored.owner_id@
            &&& read.name@ == stored.name@
            &&& sql::optional(read.description) == sql::optional(stored.description)
            &&& read.created_at == stored.created_at
        },
{
}

/// What is stored of a membership is read back, and nothing else.
pub proof fn law_member_round_trip(stored: GroupMember, read: GroupMember)
    ensures
        is_member_row(member_row(stored)),
        reads_member(member_row(stored), read) ==> {
            &&& read.group_id@ == stored.group_id@
            &&& read.user_id@ == stored.user_id@
            &&& read.role@ == stored.role@
            &&& read.joined_at == stored.joined_at
        },
{
}

/// What is stored of a label is read back, and nothing else.
pub proof fn law_label_round_trip(stored: Label, read: Label)
    ensures
        is_label_row(label_row(stored)),
        reads_label(label_row(stored), read) ==> {
            &&& read.id@ == stored.id@
            &&& read.owner_id@ == stored.owner_id@
            &&& read.name@ == stored.name@
            &&& read.color@ == stored.color@
            &&& read.created_at == stored.created_at
        },
{
}

/// What is stored of a sharing setting is read back, and nothing else.
pub proof fn law_share_round_trip(stored: FileShare, read: FileShare)
    ensures
        is_share_row(share_row(stored)),
        reads_share(share_row(stored), read) ==> {
            &&& read.file_hash@ == stored.file_hash@
            &&& sql::optional(read.owner_id) == sql::optional(stored.owner_id)
            &&& read.visibility@ == stored.visibility@
            &&& sql::optional(read.group_id) == sql::optional(stored.group_id)
            &&& read.created_at == stored.created_at
        },
{
}

/// What is stored of a folder is read back, and nothing else.
pub proof fn law_folder_round_trip(stored: VirtualFolder, read: VirtualFolder)
    ensures
        is_folder_row(folder_row(stored)),
        reads_folder(folder_row(stored), read) ==> {
            &&& read.id@ == stored.id@
            &&& sql::optional(read.owner_id) == sql::optional(stored.owner_id)
            &&& read.name@ == stored.name@
            &&& sql::optional(read.parent_id) == sql::optional(stored.parent_id)
            &&& read.created_at == stored.created_at
        },
{
}

/// The columns of a recorded file come in the order of the statement that records it.
pub proof fn law_columns_of_files(r: FileMetadata)
    ensures
        file_row(r).len() == 7,
        file_row(r)[0] == SqlView::Text(r.hash@),
        file_row(r)[1] == SqlView::Text(r.name@),
        file_row(r)[2] == SqlView::Integer(r.size as i64),
        file_row(r)[3] == SqlView::Text(r.mime_type@),
        file_row(r)[4] == SqlView::Integer(r.uploaded_at),
        file_row(r)[5] == SqlView::Integer(r.chunk_count as i64),
        file_row(r)[6] == SqlView::Integer(1) <==> r.compressed,
        file_row(r)[6] == SqlView::Integer(0) <==> !r.compressed,
{
}

/// The columns of a chunk boundary come in the order of the statement that records it.
pub proof fn law_columns_of_chunks(r: ChunkBoundary)
    ensures
        chunk_row(r).len() == 4,
        chunk_row(r)[0] == SqlView::Integer(r.chunk_id as i64),
        chunk_row(r)[1] == SqlView::Integer(r.offset as i64),
        chunk_row(r)[2] == SqlView::Integer(r.length as i64),
        chunk_row(r)[3] == SqlView::Text(r.hash@),
{
}

/// The columns of a user come in the order of the statement that records it.
pub proof fn law_columns_of_users(r: User)
    ensures
        user_row(r).len() == 6,
        user_row(r)[0] == SqlView::Text(r.id@),
        user_row(r)[1] == sql::optional(r.github_id),
        user_row(r)[2] == sql::optional(r.email),
        user_row(r)[3] == SqlView::Text(r.name@),
        user_row(r)[4] == sql::optional(r.avatar_url),
        user_row(r)[5] == SqlView::Integer(r.created_at),
{
}

/// The columns of a group come in the order of the statement that records it.
pub proof fn law_columns_of_groups(r: Group)
    ensures
        group_row(r).len() == 5,
        group_row(r)[0] == SqlView::Text(r.id@),
        group_row(r)[1] == SqlView::Text(r.owner_id@),
        group_row(r)[2] == SqlView::Text(r.name@),
        group_row(r)[3] == sql::optional(r.description),
        group_row(r)[4] == SqlView::Integer(r.created_at),
{
}

/// The columns of a membership come in the order of the statement that records it.
pub proof fn law_columns_of_members(r: GroupMember)
    ensures
        member_row(r).len() == 4,
        member_row(r)[0] == SqlView::Text(r.group_id@),
        member_row(r)[1] == SqlView::Text(r.user_id@),
        member_row(r)[2] == SqlView::Text(r.role@),
        member_row(r)[3] == SqlView::Integer(r.joined_at),
{
}

/// The columns of a label come in the order of the statement that records it.
pub proof fn law_columns_of_labels(r: Label)
    ensures
        label_row(r).len() == 5,
        label_row(r)[0] == SqlView::Text(r.id@),
        label_row(r)[1] == SqlView::Text(r.owner_id@),
        label_row(r)[2] == SqlView::Text(r.name@),
        label_row(r)[3] == SqlView::Text(r.color@),
        label_row(r)[4] == SqlView::Integer(r.created_at),
{
}

/// The columns of a sharing setting come in the order of the statement that records it.
pub proof fn law_columns_of_shares(r: FileShare)
    ensures
        share_row(r).len() == 5,
        share_row(r)[0] == SqlView::Text(r.file_hash@),
        share_row(r)[1] == sql::optional(r.owner_id),
        share_row(r)[2] == SqlView::Text(r.visibility@),
        share_row(r)[3] == sql::optional(r.group_id),
        share_row(r)[4] == SqlView::Integer(r.created_at),
{
}

/// The columns of a folder come in the order of the statement that records it.
pub proof fn law_columns_of_folders(r: VirtualFolder)
    ensures
        folder_row(r).len() == 5,
        folder_row(r)[0] == SqlView::Text(r.id@),
        folder_row(r)[1] == sql::optional(r.owner_id),
        folder_row(r)[2] == SqlView::Text(r.name@),
        folder_row(r)[3] == sql::optional(r.parent_id),
        folder_row(r)[4] == SqlView::Integer(r.created_at),
{
}

/// Files, groups and labels are listed with the latest first, and chunks by their numbers; groups
/// are those that someone owns or is in, and labels those that someone owns.
pub proof fn law_listings_are_in_order()
    ensures
        LIST_FILES@.skip(
            LIST_FILES@.len() - " ORDER BY uploaded_at DESC"@.len(),
        ) == " ORDER BY uploaded_at DESC"@,
        GET_CHUNKS@.skip(
            GET_CHUNKS@.len() - " WHERE file_hash = ?1
 ORDER BY chunk_id"@.len(),
        ) == " WHERE file_hash = ?1
 ORDER BY chunk_id"@,
        LIST_GROUPS_FOR_USER@.skip(
            LIST_GROUPS_FOR_USER@.len() - " WHERE g.owner_id = ?1 OR gm.user_id = ?1
 ORDER BY g.created_at DESC"@.len(),
        ) == " WHERE g.owner_id = ?1 OR gm.user_id = ?1
 ORDER BY g.created_at DESC"@,
        LIST_LABELS_FOR_USER@.skip(
            LIST_LABELS_FOR_USER@.len() - " WHERE owner_id = ?1
 ORDER BY created_at DESC"@.len(),
        ) == " WHERE owner_id = ?1
 ORDER BY created_at DESC"@,
{
    reveal_strlit("SELECT hash, name, size, mime_type, uploaded_at, chunk_count, compressed
 FROM files ORDER BY uploaded_at DESC");
    reveal_strlit(" ORDER BY uploaded_at DESC");
    reveal_strlit("SELECT chunk_id, offset, length, chunk_hash
 FROM chunks WHERE file_hash = ?1
 ORDER BY chunk_id");
    reveal_strlit(" WHERE file_hash = ?1
 ORDER BY chunk_id");
    reveal_strlit("SELECT DISTINCT g.id, g.owner_id, g.name, g.description, g.created_at
 FROM groups g
 LEFT JOIN group_members gm ON g.id = gm.group_id
 WHERE g.owner_id = ?1 OR gm.user_id = ?1
 ORDER BY g.created_at DESC");
    reveal_strlit(" WHERE g.owner_id = ?1 OR gm.user_id = ?1
 ORDER BY g.created_at DESC");
    reveal_strlit("SELECT id, owner_id, name, color, created_at FROM labels WHERE owner_id = ?1
 ORDER BY created_at DESC");
    reveal_strlit(" WHERE owner_id = ?1
 ORDER BY created_at DESC");
    assert(LIST_FILES@.skip(
        LIST_FILES@.len() - " ORDER BY uploaded_at DESC"@.len(),
    ) =~= " ORDER BY uploaded_at DESC"@);
    assert(GET_CHUNKS@.skip(
        GET_CHUNKS@.len() - " WHERE file_hash = ?1
 ORDER BY chunk_id"@.len(),
    ) =~= " WHERE file_hash = ?1
 ORDER BY chunk_id"@);
    assert(LIST_GROUPS_FOR_USER@.skip(
        LIST_GROUPS_FOR_USER@.len() - " WHERE g.owner_id = ?1 OR gm.user_id = ?1
 ORDER BY g.created_at DESC"@.len(),
    ) =~= " WHERE g.owner_id = ?1 OR gm.user_id = ?1
 ORDER BY g.created_at DESC"@);
    assert(LIST_LABELS_FOR_USER@.skip(
        LIST_LABELS_FOR_USER@.len() - " WHERE owner_id = ?1
 ORDER BY created_at DESC"@.len(),
    ) =~= " WHERE owner_id = ?1
 ORDER BY created_at DESC"@);
}

/// Listings of folders select by the owner and by the folder around, as far as they are given,
/// and are in the order of the names.
pub proof fn law_folders_are_selected_by_owner_and_parent()
    ensures
        LIST_OWNED_SUBFOLDERS@.skip(
            LIST_OWNED_SUBFOLDERS@.len() - " WHERE owner_id = ?1 AND parent_id = ?2
 ORDER BY name"@.len(),
        ) == " WHERE owner_id = ?1 AND parent_id = ?2
 ORDER BY name"@,
        LIST_OWNED_ROOTS@.skip(
            LIST_OWNED_ROOTS@.len() - " WHERE owner_id = ?1 AND parent_id IS NULL
 ORDER BY name"@.len(),
        ) == " WHERE owner_id = ?1 AND parent_id IS NULL
 ORDER BY name"@,
        LIST_SUBFOLDERS@.skip(
            LIST_SUBFOLDERS@.len() - " WHERE parent_id = ?1
 ORDER BY name"@.len(),
        ) == " WHERE parent_id = ?1
 ORDER BY name"@,
        LIST_ROOTS@.skip(
            LIST_ROOTS@.len() - " WHERE parent_id IS NULL
 ORDER BY name"@.len(),
        ) == " WHERE parent_id IS NULL
 ORDER BY name"@,
        LIST_UNOWNED_SUBFOLDERS@.skip(
            LIST_UNOWNED_SUBFOLDERS@.len() - " WHERE owner_id IS NULL AND parent_id = ?1
 ORDER BY name"@.len(),
        ) == " WHERE owner_id IS NULL AND parent_id = ?1
 ORDER BY name"@,
        LIST_UNOWNED_ROOTS@.skip(
            LIST_UNOWNED_ROOTS@.len() - " WHERE owner_id IS NULL AND parent_id IS NULL
 ORDER BY name"@.len(),
        ) == " WHERE owner_id IS NULL AND parent_id IS NULL
 ORDER BY name"@,
{
    reveal_strlit("SELECT id, owner_id, name, parent_id, created_at
 FROM virtual_folders WHERE owner_id = ?1 AND parent_id = ?2
 ORDER BY name");
    reveal_strlit(" WHERE owner_id = ?1 AND parent_id = ?2
 ORDER BY name");
    reveal_strlit("SELECT id, owner_id, name, parent_id, created_at
 FROM virtual_folders WHERE owner_id = ?1 AND parent_id IS NULL
 ORDER BY name");
    reveal_strlit(" WHERE owner_id = ?1 AND parent_id IS NULL
 ORDER BY name");
    reveal_strlit("SELECT id, owner_id, name, parent_id, created_at
 FROM virtual_folders WHERE parent_id = ?1
 ORDER BY name");
    reveal_strlit(" WHERE parent_id = ?1
 ORDER BY name");
    reveal_strlit("SELECT id, owner_id, name, parent_id, created_at
 FROM virtual_folders WHERE parent_id IS NULL
 ORDER BY name");
    reveal_strlit(" WHERE parent_id IS NULL
 ORDER BY name");
    reveal_strlit("SELECT id, owner_id, name, parent_id, created_at
 FROM virtual_folders WHERE owner_id IS NULL AND parent_id = ?1
 ORDER BY name");
    reveal_strlit(" WHERE owner_id IS NULL AND parent_id = ?1
 ORDER BY name");
    reveal_strlit("SELECT id, owner_id, name, parent_id, created_at
 FROM virtual_folders WHERE owner_id IS NULL AND parent_id IS NULL
 ORDER BY name");
    reveal_strlit(" WHERE owner_id IS NULL AND parent_id IS NULL
 ORDER BY name");
    assert(LIST_OWNED_SUBFOLDERS@.skip(
        LIST_OWNED_SUBFOLDERS@.len() - " WHERE owner_id = ?1 AND parent_id = ?2
 ORDER BY name"@.len(),
    ) =~= " WHERE owner_id = ?1 AND parent_id = ?2
 ORDER BY name"@);
    assert(LIST_OWNED_ROOTS@.skip(
        LIST_OWNED_ROOTS@.len() - " WHERE owner_id = ?1 AND parent_id IS NULL
 ORDER BY name"@.len(),
    ) =~= " WHERE owner_id = ?1 AND parent_id IS NULL
 ORDER BY name"@);
    assert(LIST_SUBFOLDERS@.skip(
        LIST_SUBFOLDERS@.len() - " WHERE parent_id = ?1
 ORDER BY name"@.len(),
    ) =~= " WHERE parent_id = ?1
 ORDER BY name"@);
    assert(LIST_ROOTS@.skip(
        LIST_ROOTS@.len() - " WHERE parent_id IS NULL
 ORDER BY name"@.len(),
    ) =~= " WHERE parent_id IS NULL
 ORDER BY name"@);
    assert(LIST_UNOWNED_SUBFOLDERS@.skip(
        LIST_UNOWNED_SUBFOLDERS@.len() - " WHERE owner_id IS NULL AND parent_id = ?1
 ORDER BY name"@.len(),
    ) =~= " WHERE owner_id IS NULL AND parent_id = ?1
 ORDER BY name"@);
    assert(LIST_UNOWNED_ROOTS@.skip(
        LIST_UNOWNED_ROOTS@.len() - " WHERE owner_id IS NULL AND parent_id IS NULL
 ORDER BY name"@.len(),
    ) =~= " WHERE owner_id IS NULL AND parent_id IS NULL
 ORDER BY name"@);
}

/// Deleting takes away what is named and nothing else: a label only where it is its owner's, and
/// a membership, a label on a file or a file in a folder only where both sides are named.
pub proof fn law_deletions_name_what_goes()
    ensures
        DELETE_FILE@ == "DELETE FROM files WHERE hash = ?1"@,
        DELETE_GROUP@ == "DELETE FROM groups WHERE id = ?1"@,
        DELETE_LABEL@ == "DELETE FROM labels WHERE id = ?1 AND owner_id = ?2"@,
        REMOVE_GROUP_MEMBER@ == "DELETE FROM group_members WHERE group_id = ?1 AND user_id = ?2"@,
        REMOVE_FILE_LABEL@ == "DELETE FROM file_labels WHERE file_hash = ?1 AND label_id = ?2"@,
        REMOVE_FILE_FROM_FOLDER@ == "DELETE FROM folder_files WHERE folder_id = ?1 AND file_hash = ?2"@,
{
}

/// Looking something up selects it by what it goes by: a user by the identifier here or by the
/// one at GitHub, a chunk by its file and its number.
pub proof fn law_lookups_name_what_is_found()
    ensures
        GET_FILE@.skip(
            GET_FILE@.len() - " FROM files WHERE hash = ?1"@.len(),
        ) == " FROM files WHERE hash = ?1"@,
        GET_CHUNK_BOUNDARY@.skip(
            GET_CHUNK_BOUNDARY@.len() - " FROM chunks WHERE file_hash = ?1 AND chunk_id = ?2"@.len(),
        ) == " FROM chunks WHERE file_hash = ?1 AND chunk_id = ?2"@,
        GET_USER_BY_ID@.skip(
            GET_USER_BY_ID@.len() - " FROM users WHERE id = ?1"@.len(),
        ) == " FROM users WHERE id = ?1"@,
        GET_USER_BY_GITHUB_ID@.skip(
            GET_USER_BY_GITHUB_ID@.len() - " FROM users WHERE github_id = ?1"@.len(),
        ) == " FROM users WHERE github_id = ?1"@,
        GET_GROUP@.skip(
            GET_GROUP@.len() - " FROM groups WHERE id = ?1"@.len(),
        ) == " FROM groups WHERE id = ?1"@,
        GET_GROUP_MEMBERS@.skip(
            GET_GROUP_MEMBERS@.len() - " FROM group_members WHERE group_id = ?1"@.len(),
        ) == " FROM group_members WHERE group_id = ?1"@,
        COUNT_GROUP_MEMBER@.skip(
            COUNT_GROUP_MEMBER@.len() - " FROM group_members WHERE group_id = ?1 AND user_id = ?2"@.len(),
        ) == " FROM group_members WHERE group_id = ?1 AND user_id = ?2"@,
        GET_FILE_LABELS@.skip(
            GET_FILE_LABELS@.len() - " WHERE fl.file_hash = ?1"@.len(),
        ) == " WHERE fl.file_hash = ?1"@,
        GET_FILE_SHARE@.skip(
            GET_FILE_SHARE@.len() - " FROM file_shares WHERE file_hash = ?1"@.len(),
        ) == " FROM file_shares WHERE file_hash = ?1"@,
        GET_FOLDER@.skip(
            GET_FOLDER@.len() - " FROM virtual_folders WHERE id = ?1"@.len(),
        ) == " FROM virtual_folders WHERE id = ?1"@,
        LIST_FILES_IN_FOLDER@.skip(
            LIST_FILES_IN_FOLDER@.len() - " FROM folder_files WHERE folder_id = ?1"@.len(),
        ) == " FROM folder_files WHERE folder_id = ?1"@,
{
    reveal_strlit("SELECT hash, name, size, mime_type, uploaded_at, chunk_count, compressed
 FROM files WHERE hash = ?1");
    reveal_strlit(" FROM files WHERE hash = ?1");
    reveal_strlit("SELECT chunk_id, offset, length, chunk_hash
 FROM chunks WHERE file_hash = ?1 AND chunk_id = ?2");
    reveal_strlit(" FROM chunks WHERE file_hash = ?1 AND chunk_id = ?2");
    reveal_strlit("SELECT id, github_id, email, name, avatar_url, created_at FROM users WHERE id = ?1");
    reveal_strlit(" FROM users WHERE id = ?1");
    reveal_strlit("SELECT id, github_id, email, name, avatar_url, created_at FROM users WHERE github_id = ?1");
    reveal_strlit(" FROM users WHERE github_id = ?1");
    reveal_strlit("SELECT id, owner_id, name, description, created_at FROM groups WHERE id = ?1");
    reveal_strlit(" FROM groups WHERE id = ?1");
    reveal_strlit("SELECT group_id, user_id, role, joined_at FROM group_members WHERE group_id = ?1");
    reveal_strlit(" FROM group_members WHERE group_id = ?1");
    reveal_strlit("SELECT COUNT(*) FROM group_members WHERE group_id = ?1 AND user_id = ?2");
    reveal_strlit(" FROM group_members WHERE group_id = ?1 AND user_id = ?2");
    reveal_strlit("SELECT l.id, l.owner_id, l.name, l.color, l.created_at
 FROM labels l
 JOIN file_labels fl ON l.id = fl.label_id
 WHERE fl.file_hash = ?1");
    reveal_strlit(" WHERE fl.file_hash = ?1");
    reveal_strlit("SELECT file_hash, owner_id, visibility, group_id, created_at
 FROM file_shares WHERE file_hash = ?1");
    reveal_strlit(" FROM file_shares WHERE file_hash = ?1");
    reveal_strlit("SELECT id, owner_id, name, parent_id, created_at FROM virtual_folders WHERE id = ?1");
    reveal_strlit(" FROM virtual_folders WHERE id = ?1");
    reveal_strlit("SELECT file_hash FROM folder_files WHERE folder_id = ?1");
    reveal_strlit(" FROM folder_files WHERE folder_id = ?1");
    assert(GET_FILE@.skip(
        GET_FILE@.len() - " FROM files WHERE hash = ?1"@.len(),
    ) =~= " FROM files WHERE hash = ?1"@);
    assert(GET_CHUNK_BOUNDARY@.skip(
        GET_CHUNK_BOUNDARY@.len() - " FROM chunks WHERE file_hash = ?1 AND chunk_id = ?2"@.len(),
    ) =~= " FROM chunks WHERE file_hash = ?1 AND chunk_id = ?2"@);
    assert(GET_USER_BY_ID@.skip(
        GET_USER_BY_ID@.len() - " FROM users WHERE id = ?1"@.len(),
    ) =~= " FROM users WHERE id = ?1"@);
    assert(GET_USER_BY_GITHUB_ID@.skip(
        GET_USER_BY_GITHUB_ID@.len() - " FROM users WHERE github_id = ?1"@.len(),
    ) =~= " FROM users WHERE github_id = ?1"@);
    assert(GET_GROUP@.skip(
        GET_GROUP@.len() - " FROM groups WHERE id = ?1"@.len(),
    ) =~= " FROM groups WHERE id = ?1"@);
    assert(GET_GROUP_MEMBERS@.skip(
        GET_GROUP_MEMBERS@.len() - " FROM group_members WHERE group_id = ?1"@.len(),
    ) =~= " FROM group_members WHERE group_id = ?1"@);
    assert(COUNT_GROUP_MEMBER@.skip(
        COUNT_GROUP_MEMBER@.len() - " FROM group_members WHERE group_id = ?1 AND user_id = ?2"@.len(),
    ) =~= " FROM group_members WHERE group_id = ?1 AND user_id = ?2"@);
    assert(GET_FILE_LABELS@.skip(
        GET_FILE_LABELS@.len() - " WHERE fl.file_hash = ?1"@.len(),
    ) =~= " WHERE fl.file_hash = ?1"@);
    assert(GET_FILE_SHARE@.skip(
        GET_FILE_SHARE@.len() - " FROM file_shares WHERE file_hash = ?1"@.len(),
    ) =~= " FROM file_shares WHERE file_hash = ?1"@);
    assert(GET_FOLDER@.skip(
        GET_FOLDER@.len() - " FROM virtual_folders WHERE id = ?1"@.len(),
    ) =~= " FROM virtual_folders WHERE id = ?1"@);
    assert(LIST_FILES_IN_FOLDER@.skip(
        LIST_FILES_IN_FOLDER@.len() - " FROM folder_files WHERE folder_id = ?1"@.len(),
    ) =~= " FROM folder_files WHERE folder_id = ?1"@);
}

/// A row holds a recorded file if and only if it has the columns, each of its kind. Every field is
/// read from its own column.
pub proof fn law_rows_of_recorded_files(row: Seq<SqlView>, r: FileMetadata)
    ensures
        is_file_row(row) <==> row.len() >= 7 && row[0] is Text && row[1] is Text
            && row[2] is Integer && row[3] is Text && row[4] is Integer && sql::is_u32(row[5])
            && sql::is_i32(row[6]),
        is_file_row(row) && reads_file(row, r) ==> {
            &&& row[0]->Text_0 == r.hash@
            &&& row[1]->Text_0 == r.name@
            &&& r.size == row[2]->Integer_0 as u64
            &&& row[3]->Text_0 == r.mime_type@
            &&& row[4]->Integer_0 == r.uploaded_at
            &&& row[5]->Integer_0 == r.chunk_count
            &&& (r.compressed <==> row[6]->Integer_0 != 0)
        },
{
}

/// A row holds a chunk boundary if and only if it has the columns, each of its kind. Every field is
/// read from its own column.
pub proof fn law_rows_of_chunks(row: Seq<SqlView>, r: ChunkBoundary)
    ensures
        is_chunk_row(row) <==> row.len() >= 4 && sql::is_u32(row[0]) && row[1] is Integer
            && sql::is_u32(row[2]) && row[3] is Text,
        is_chunk_row(row) && reads_chunk(row, r) ==> {
            &&& row[0]->Integer_0 == r.chunk_id
            &&& r.offset == row[1]->Integer_0 as u64
            &&& row[2]->Integer_0 == r.length
            &&& row[3]->Text_0 == r.hash@
        },
{
}

/// A row holds a user if and only if it has the columns, each of its kind. Every field is
/// read from its own column.
pub proof fn law_rows_of_users(row: Seq<SqlView>, r: User)
    ensures
        is_user_row(row) <==> row.len() >= 6 && row[0] is Text
            && (row[1] is Text || row[1] is Null) && (row[2] is Text || row[2] is Null)
            && row[3] is Text && (row[4] is Text || row[4] is Null) && row[5] is Integer,
        is_user_row(row) && reads_user(row, r) ==> {
            &&& row[0]->Text_0 == r.id@
            &&& (r.github_id.is_none() <==> row[1] is Null)
            &&& (r.github_id.is_some() ==> row[1]->Text_0 == r.github_id.unwrap()@)
            &&& (r.email.is_none() <==> row[2] is Null)
            &&& (r.email.is_some() ==> row[2]->Text_0 == r.email.unwrap()@)
            &&& row[3]->Text_0 == r.name@
            &&& (r.avatar_url.is_none() <==> row[4] is Null)
            &&& (r.avatar_url.is_some() ==> row[4]->Text_0 == r.avatar_url.unwrap()@)
            &&& row[5]->Integer_0 == r.created_at
        },
{
}

/// A row holds a group if and only if it has the columns, each of its kind. Every field is
/// read from its own column.
pub proof fn law_rows_of_groups(row: Seq<SqlView>, r: Group)
    ensures
        is_group_row(row) <==> row.len() >= 5 && row[0] is Text && row[1] is Text
            && row[2] is Text && (row[3] is Text || row[3] is Null) && row[4] is Integer,
        is_group_row(row) && reads_group(row, r) ==> {
            &&& row[0]->Text_0 == r.id@
            &&& row[1]->Text_0 == r.owner_id@
            &&& row[2]->Text_0 == r.name@
            &&& (r.description.is_none() <==> row[3] is Null)
            &&& (r.description.is_some() ==> row[3]->Text_0 == r.description.unwrap()@)
            &&& row[4]->Integer_0 == r.created_at
        },
{
}

/// A row holds a membership if and only if it has the columns, each of its kind. Every field is
/// read from its own column.
pub proof fn law_rows_of_members(row: Seq<SqlView>, r: GroupMember)
    ensures
        is_member_row(row) <==> row.len() >= 4 && row[0] is Text && row[1] is Text
            && row[2] is Text && row[3] is Integer,
        is_member_row(row) && reads_member(row, r) ==> {
            &&& row[0]->Text_0 == r.group_id@
            &&& row[1]->Text_0 == r.user_id@
            &&& row[2]->Text_0 == r.role@
            &&& row[3]->Integer_0 == r.joined_at
        },
{
}

/// A row holds a label if and only if it has the columns, each of its kind. Every field is
/// read from its own column.
pub proof fn law_rows_of_labels(row: Seq<SqlView>, r: Label)
    ensures
        is_label_row(row) <==> row.len() >= 5 && row[0] is Text && row[1] is Text
            && row[2] is Text && row[3] is Text && row[4] is Integer,
        is_label_row(row) && reads_label(row, r) ==> {
            &&& row[0]->Text_0 == r.id@
            &&& row[1]->Text_0 == r.owner_id@
            &&& row[2]->Text_0 == r.name@
            &&& row[3]->Text_0 == r.color@
            &&& row[4]->Integer_0 == r.created_at
        },
{
}

/// A row holds a sharing setting if and only if it has the columns, each of its kind. Every field is
/// read from its own column.
pub proof fn law_rows_of_shares(row: Seq<SqlView>, r: FileShare)
    ensures
        is_share_row(row) <==> row.len() >= 5 && row[0] is Text
            && (row[1] is Text || row[1] is Null) && row[2] is Text
            && (row[3] is Text || row[3] is Null) && row[4] is Integer,
        is_share_row(row) && reads_share(row, r) ==> {
            &&& row[0]->Text_0 == r.file_hash@
            &&& (r.owner_id.is_none() <==> row[1] is Null)
            &&& (r.owner_id.is_some() ==> row[1]->Text_0 == r.owner_id.unwrap()@)
            &&& row[2]->Text_0 == r.visibility@
            &&& (r.group_id.is_none() <==> row[3] is Null)
            &&& (r.group_id.is_some() ==> row[3]->Text_0 == r.group_id.unwrap()@)
            &&& row[4]->Integer_0 == r.created_at
        },
{
}

/// A row holds a folder if and only if it has the columns, each of its kind. Every field is
/// read from its own column.
pub proof fn law_rows_of_folders(row: Seq<SqlView>, r: VirtualFolder)
    ensures
        is_folder_row(row) <==> row.len() >= 5 && row[0] is Text
            && (row[1] is Text || row[1] is Null) && row[2] is Text
            && (row[3] is Text || row[3] is Null) && row[4] is Integer,
        is_folder_row(row) && reads_folder(row, r) ==> {
            &&& row[0]->Text_0 == r.id@
            &&& (r.owner_id.is_none() <==> row[1] is Null)
            &&& (r.owner_id.is_some() ==> row[1]->Text_0 == r.owner_id.unwrap()@)
            &&& row[2]->Text_0 == r.name@
            &&& (r.parent_id.is_none() <==> row[3] is Null)
            &&& (r.parent_id.is_some() ==> row[3]->Text_0 == r.parent_id.unwrap()@)
            &&& row[4]->Integer_0 == r.created_at
        },
{
}

/// A file, a chunk, a user, a membership or a sharing setting that is recorded again takes the
/// place of what was recorded; a label on a file and a file in a folder stay as they are; and a
/// group, a label or a folder is recorded once. The values go to the columns in their order.
pub proof fn law_recording_again_replaces_or_keeps()
    ensures
        SAVE_FILE@ == "INSERT OR REPLACE INTO files
 (hash, name, size, mime_type, uploaded_at, chunk_count, compressed)
 VALUES (?1, ?2, ?3, ?4, ?5, ?6, ?7)"@,
        SAVE_CHUNK@ == "INSERT OR REPLACE INTO chunks
 (file_hash, chunk_id, offset, length, chunk_hash)
 VALUES (?1, ?2, ?3, ?4, ?5)"@,
        SAVE_USER@ == "INSERT OR REPLACE INTO users (id, github_id, email, name, avatar_url, created_at)
 VALUES (?1, ?2, ?3, ?4, ?5, ?6)"@,
        ADD_GROUP_MEMBER@ == "INSERT OR REPLACE INTO group_members (group_id, user_id, role, joined_at)
 VALUES (?1, ?2, ?3, ?4)"@,
        SET_FILE_SHARE@ == "INSERT OR REPLACE INTO file_shares (file_hash, owner_id, visibility, group_id, created_at)
 VALUES (?1, ?2, ?3, ?4, ?5)"@,
        ADD_FILE_LABEL@ == "INSERT OR IGNORE INTO file_labels (file_hash, label_id) VALUES (?1, ?2)"@,
        ADD_FILE_TO_FOLDER@ == "INSERT OR IGNORE INTO folder_files (folder_id, file_hash) VALUES (?1, ?2)"@,
        CREATE_GROUP@ == "INSERT INTO groups (id, owner_id, name, description, created_at)
 VALUES (?1, ?2, ?3, ?4, ?5)"@,
        CREATE_LABEL@ == "INSERT INTO labels (id, owner_id, name, color, created_at) VALUES (?1, ?2, ?3, ?4, ?5)"@,
        CREATE_FOLDER@ == "INSERT INTO virtual_folders (id, owner_id, name, parent_id, created_at)
 VALUES (?1, ?2, ?3, ?4, ?5)"@,
{
}

} // verus!
