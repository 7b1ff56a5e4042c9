//! Virtual folders: named containers of files, without moving a file.

use vstd::prelude::*;

use crate::auth::OptionalUser;
use crate::database;
use crate::database::VirtualFolder;
use crate::files;
use crate::files::Rejection;
use crate::ids;
use crate::sql;
use crate::sql::SqlView;
use crate::sql::Statement;

verus! {

/// The text for a folder that is not there.
pub const FOLDER_NOT_FOUND: &'static str = "Folder not found";

/// A request for a new folder.
#[derive(Debug)]
pub struct CreateFolderRequest {
    pub name: String,
    pub parent_id: Option<String>,
}

/// A request to put a file into a folder.
#[derive(Debug)]
pub struct AddFileRequest {
    pub file_hash: String,
}

/// Which folders are to be listed: those in the given one, or those that lie in no other.
#[derive(Debug)]
pub struct ListFoldersQuery {
    pub parent_id: Option<String>,
}

/// A folder with what lies in it.
#[derive(Debug)]
pub struct FolderContents {
    pub folder: VirtualFolder,
    pub subfolders: Vec<VirtualFolder>,
    pub file_hashes: Vec<String>,
}

/// The identifier of someone who may have signed in, as it is stored.
pub open spec fn owner_of(user: OptionalUser) -> SqlView {
    match user.0 {
        Some(user) => SqlView::Text(user.id@),
        None => SqlView::Null,
    }
}

/// Whether this is the folder that a request makes. A folder that someone makes without
/// signing in has no owner.
pub open spec fn makes_folder(
    r: VirtualFolder,
    user: OptionalUser,
    body: CreateFolderRequest,
    id: Seq<char>,
    now: i64,
) -> bool {
    &&& r.id@ == id
    &&& sql::optional(r.owner_id) == owner_of(user)
    &&& r.name == body.name
    &&& r.parent_id == body.parent_id
    &&& r.created_at == now
}

/// Makes a folder under the given identifier.
pub fn new_folder(user: OptionalUser, body: CreateFolderRequest, id: &str, now: i64) -> (r:
    VirtualFolder)
    ensures
        makes_folder(r, user, body, id@, now),
{
    VirtualFolder {
        id: id.to_owned(),
        owner_id: owner_id(user),
        name: body.name,
        parent_id: body.parent_id,
        created_at: now,
    }
}

/// Makes a folder under an identifier of its own.
pub fn create_folder(user: OptionalUser, body: CreateFolderRequest, now: i64) -> (r: VirtualFolder)
    ensures
        ids::is_random_uuid(r.id@),
        ids::is_drawn(r.id@),
        makes_folder(r, user, body, r.id@, now),
{
    let id = ids::draw();
    new_folder(user, body, id.as_str(), now)
}

/// Who owns what someone makes: the maker, or no one where the maker has not signed in.
pub fn owner_id(user: OptionalUser) -> (r: Option<String>)
    ensures
        sql::optional(r) == owner_of(user),
{
    match user.0 {
        Some(user) => Some(user.id),
        None => None,
    }
}

/// The statement that lists the folders that someone is shown: one's own, or those that no
/// one owns for one who has not signed in. Of these it lists the ones in the folder that was
/// asked for, or the ones that lie in no other where none was.
pub fn list_folders(user: &OptionalUser, query: &ListFoldersQuery) -> (r: Statement)
    ensures
        match (user.0, query.parent_id) {
            (Some(user), Some(parent)) => r.is(
                database::LIST_OWNED_SUBFOLDERS@,
                seq![SqlView::Text(user.id@), SqlView::Text(parent@)],
            ),
            (Some(user), None) => r.is(
                database::LIST_OWNED_ROOTS@,
                seq![SqlView::Text(user.id@)],
            ),
            (None, Some(parent)) => r.is(
                database::LIST_UNOWNED_SUBFOLDERS@,
                seq![SqlView::Text(parent@)],
            ),
            (None, None) => r.is(database::LIST_UNOWNED_ROOTS@, Seq::empty()),
        },
{
    let parent = match &query.parent_id {
        Some(parent) => Some(parent.as_str()),
        None => None,
    };
    match &user.0 {
        Some(user) => database::list_folders(Some(user.id.as_str()), parent),
        None => database::list_unowned_folders(parent),
    }
}

/// The statement that lists what lies in a folder: the folders in it, whoever owns them.
pub fn list_subfolders(id: &str) -> (r: Statement)
    ensures
        r.is(database::LIST_SUBFOLDERS@, seq![SqlView::Text(id@)]),
{
    database::list_folders(None, Some(id))
}

/// The folder that was looked up, which has to be there.
pub fn require_folder(found: Option<VirtualFolder>) -> (r: Result<VirtualFolder, Rejection>)
    ensures
        found.is_some() ==> r == Ok::<VirtualFolder, Rejection>(found.unwrap()),
        found.is_none() ==> r.is_err() && r->Err_0.is(files::NOT_FOUND, FOLDER_NOT_FOUND@),
{
    match found {
        Some(folder) => Ok(folder),
        None => Err(Rejection::new(files::NOT_FOUND, FOLDER_NOT_FOUND)),
    }
}

/// A folder with what lies in it.
pub fn contents(
    folder: VirtualFolder,
    subfolders: Vec<VirtualFolder>,
    file_hashes: Vec<String>,
) -> (r: FolderContents)
    ensures
        r.folder == folder,
        r.subfolders == subfolders,
        r.file_hashes == file_hashes,
{
    FolderContents { folder, subfolders, file_hashes }
}

// ---- what goes wrong ----

/// The work that requests about folders ask for, and that can fail.
#[derive(Debug, Clone, Copy, PartialEq, Eq, Structural)]
pub enum FolderStage {
    /// Recording a folder.
    Create,
    /// Listing folders.
    List,
    /// Listing the folders in a folder.
    Subfolders,
    /// Listing the files in a folder.
    Files,
    /// Putting a file into a folder.
    AddFile,
}

/// The words that say what failed.
pub open spec fn failed_at(stage: FolderStage) -> Seq<char> {
    match stage {
        FolderStage::Create => "Failed to create folder: "@,
        FolderStage::List => "Failed to list folders: "@,
        FolderStage::Subfolders => "Failed to list subfolders: "@,
        FolderStage::Files => "Failed to list files in folder: "@,
        FolderStage::AddFile => "Failed to add file to folder: "@,
    }
}

/// The answer when the work of a stage failed.
pub fn failed(stage: FolderStage, why: &str) -> (r: Rejection)
    ensures
        r.is(files::INTERNAL_SERVER_ERROR, failed_at(stage) + why@),
{
    match stage {
        FolderStage::Create => Rejection::because(
            files::INTERNAL_SERVER_ERROR,
            "Failed to create folder: ",
            why,
        ),
        FolderStage::List => Rejection::because(
            files::INTERNAL_SERVER_ERROR,
            "Failed to list folders: ",
            why,
        ),
        FolderStage::Subfolders => Rejection::because(
            files::INTERNAL_SERVER_ERROR,
            "Failed to list subfolders: ",
            why,
        ),
        FolderStage::Files => Rejection::because(
            files::INTERNAL_SERVER_ERROR,
            "Failed to list files in folder: ",
            why,
        ),
        FolderStage::AddFile => Rejection::because(
            files::INTERNAL_SERVER_ERROR,
            "Failed to add file to folder: ",
            why,
        ),
    }
}

// ---- laws ----

/// Whoever makes a folder owns it, and one that is made without signing in has no owner. It has
/// the name and lies in the folder that were asked for.
pub proof fn law_maker_owns_the_folder(
    r: VirtualFolder,
    user: OptionalUser,
    body: CreateFolderRequest,
    id: Seq<char>,
    now: i64,
)
    requires
        makes_folder(r, user, body, id, now),
    ensures
        r.id@ == id,
        r.owner_id.is_some() <==> user.0.is_some(),
        r.owner_id.is_some() ==> r.owner_id.unwrap()@ == user.0.unwrap().id@,
        r.name@ == body.name@,
        sql::optional(r.parent_id) == sql::optional(body.parent_id),
        r.created_at == now,
{
    sql::law_missing_text_is_null(r.owner_id, r.name);
}

} // verus!
