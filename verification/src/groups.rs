//! Groups of users: who may do what with them.

use vstd::prelude::*;

use crate::auth::CurrentUser;
use crate::auth::OptionalUser;
use crate::database::FileShare;
use crate::database::Group;
use crate::database::GroupMember;
use crate::files;
use crate::files::Rejection;
use crate::ids;
use crate::sql;
use crate::text;

verus! {

/// The role of a group's owner.
pub const ROLE_OWNER: &'static str = "owner";

/// The role of a member who was given no other.
pub const ROLE_MEMBER: &'static str = "member";

/// The text for a group that is not there.
pub const GROUP_NOT_FOUND: &'static str = "Group not found";

/// The text for someone else than the owner who deletes a group.
pub const ONLY_OWNER_DELETES: &'static str = "Only the group owner can delete this group";

/// The text for someone else than the owner who adds a member.
pub const ONLY_OWNER_ADDS: &'static str = "Only the group owner can add members";

/// The text for someone who removes another member without being the owner.
pub const INSUFFICIENT_PERMISSIONS: &'static str = "Insufficient permissions";

/// A request for a new group.
#[derive(Debug)]
pub struct CreateGroupRequest {
    pub name: String,
    pub description: Option<String>,
}

/// A request for a new member.
#[derive(Debug)]
pub struct AddMemberRequest {
    pub user_id: String,
    pub role: Option<String>,
}

/// A group with its members.
#[derive(Debug)]
pub struct GroupWithMembers {
    pub group: Group,
    pub members: Vec<GroupMember>,
}

// ---- making a group ----

/// A new group, and the membership of its owner.
#[derive(Debug)]
pub struct NewGroup {
    pub group: Group,
    pub owner: GroupMember,
}

/// Whether this is what a user's request for a group makes: the group is the user's, and
/// the user is in it as its owner.
pub open spec fn makes_group(
    r: NewGroup,
    user: CurrentUser,
    body: CreateGroupRequest,
    id: Seq<char>,
    now: i64,
) -> bool {
    &&& r.group.id@ == id
    &&& r.group.owner_id@ == user.0.id@
    &&& r.group.name == body.name
    &&& r.group.description == body.description
    &&& r.group.created_at == now
    &&& r.owner.group_id@ == id
    &&& r.owner.user_id@ == user.0.id@
    &&& r.owner.role@ == ROLE_OWNER@
    &&& r.owner.joined_at == now
}

/// Makes a group under the given identifier.
pub fn new_group(user: &CurrentUser, body: CreateGroupRequest, id: &str, now: i64) -> (r: NewGroup)
    ensures
        makes_group(r, *user, body, id@, now),
{
    NewGroup {
        group: Group {
            id: id.to_owned(),
            owner_id: user.0.id.clone(),
            name: body.name,
            description: body.description,
            created_at: now,
        },
        owner: GroupMember {
            group_id: id.to_owned(),
            user_id: user.0.id.clone(),
            role: ROLE_OWNER.to_owned(),
            joined_at: now,
        },
    }
}

/// Makes a group under an identifier of its own.
pub fn create_group(user: &CurrentUser, body: CreateGroupRequest, now: i64) -> (r: NewGroup)
    ensures
        ids::is_random_uuid(r.group.id@),
        ids::is_drawn(r.group.id@),
        makes_group(r, *user, body, r.group.id@, now),
{
    let id = ids::draw();
    new_group(user, body, id.as_str(), now)
}

// ---- looking at groups ----

/// The identifier under which groups and labels are looked up for someone: empty for one
/// who has not signed in.
pub fn viewer_id(user: OptionalUser) -> (r: String)
    ensures
        r@ == (if user.0.is_some() {
            user.0.unwrap().id@
        } else {
            Seq::empty()
        }),
{
    match user.0 {
        Some(user) => user.id,
        None => {
            let r = String::new();
            assert(r@ =~= Seq::empty());
            r
        },
    }
}

/// The group that was looked up, which has to be there.
pub fn require_group(found: Option<Group>) -> (r: Result<Group, Rejection>)
    ensures
        found.is_some() ==> r == Ok::<Group, Rejection>(found.unwrap()),
        found.is_none() ==> r.is_err() && r->Err_0.is(files::NOT_FOUND, GROUP_NOT_FOUND@),
{
    match found {
        Some(group) => Ok(group),
        None => Err(Rejection::new(files::NOT_FOUND, GROUP_NOT_FOUND)),
    }
}

/// A group with its members.
pub fn with_members(group: Group, members: Vec<GroupMember>) -> (r: GroupWithMembers)
    ensures
        r.group == group,
        r.members == members,
{
    GroupWithMembers { group, members }
}

// ---- changing a group ----

/// Lets a user delete a group if and only if the group is there and is the user's.
pub fn may_delete(found: Option<Group>, user: &CurrentUser) -> (r: Result<(), Rejection>)
    ensures
        r.is_ok() <==> found.is_some() && found.unwrap().owner_id@ == user.0.id@,
        found.is_none() ==> r->Err_0.is(files::NOT_FOUND, GROUP_NOT_FOUND@),
        found.is_some() && r.is_err() ==> r->Err_0.is(files::FORBIDDEN, ONLY_OWNER_DELETES@),
{
    match require_group(found) {
        Ok(group) => {
            if text::same_text(group.owner_id.as_str(), user.0.id.as_str()) {
                Ok(())
            } else {
                Err(Rejection::new(files::FORBIDDEN, ONLY_OWNER_DELETES))
            }
        },
        Err(rejection) => Err(rejection),
    }
}

/// Lets a user add members to a group if and only if the group is there and is the
/// user's.
pub fn may_add_member(found: Option<Group>, user: &CurrentUser) -> (r: Result<(), Rejection>)
    ensures
        r.is_ok() <==> found.is_some() && found.unwrap().owner_id@ == user.0.id@,
        found.is_none() ==> r->Err_0.is(files::NOT_FOUND, GROUP_NOT_FOUND@),
        found.is_some() && r.is_err() ==> r->Err_0.is(files::FORBIDDEN, ONLY_OWNER_ADDS@),
{
    match require_group(found) {
        Ok(group) => {
            if text::same_text(group.owner_id.as_str(), user.0.id.as_str()) {
                Ok(())
            } else {
                Err(Rejection::new(files::FORBIDDEN, ONLY_OWNER_ADDS))
            }
        },
        Err(rejection) => Err(rejection),
    }
}

/// Lets a user remove a member from a group if and only if the group is there and the user
/// is its owner or the member.
pub fn may_remove_member(found: Option<Group>, user: &CurrentUser, member_id: &str) -> (r: Result<
    (),
    Rejection,
>)
    ensures
        r.is_ok() <==> found.is_some() && (found.unwrap().owner_id@ == user.0.id@ || member_id@
            == user.0.id@),
        found.is_none() ==> r->Err_0.is(files::NOT_FOUND, GROUP_NOT_FOUND@),
        found.is_some() && r.is_err() ==> r->Err_0.is(
            files::FORBIDDEN,
            INSUFFICIENT_PERMISSIONS@,
        ),
{
    match require_group(found) {
        Ok(group) => {
            if text::same_text(group.owner_id.as_str(), user.0.id.as_str()) || text::same_text(
                member_id,
                user.0.id.as_str(),
            ) {
                Ok(())
            } else {
                Err(Rejection::new(files::FORBIDDEN, INSUFFICIENT_PERMISSIONS))
            }
        },
        Err(rejection) => Err(rejection),
    }
}

/// The membership that a request makes. One who is given no role is a plain member.
pub fn new_member(group_id: &str, body: AddMemberRequest, now: i64) -> (r: GroupMember)
    ensures
        r.group_id@ == group_id@,
        r.user_id == body.user_id,
        r.role@ == (if body.role.is_some() {
            body.role.unwrap()@
        } else {
            ROLE_MEMBER@
        }),
        r.joined_at == now,
{
    let role = match body.role {
        Some(role) => role,
        None => ROLE_MEMBER.to_owned(),
    };
    GroupMember { group_id: group_id.to_owned(), user_id: body.user_id, role, joined_at: now }
}

// ---- sharing a file ----

/// A request to share a file.
#[derive(Debug)]
pub struct ShareRequest {
    /// `public`, `private` or `group`.
    pub visibility: String,
    pub group_id: Option<String>,
}

/// The sharing setting that a user's request makes.
pub fn share_file(
    user: &CurrentUser,
    file_hash: &str,
    body: ShareRequest,
    now: i64,
) -> (r: FileShare)
    ensures
        r.file_hash@ == file_hash@,
        sql::optional(r.owner_id) == sql::SqlView::Text(user.0.id@),
        r.visibility == body.visibility,
        r.group_id == body.group_id,
        r.created_at == now,
{
    FileShare {
        file_hash: file_hash.to_owned(),
        owner_id: Some(user.0.id.clone()),
        visibility: body.visibility,
        group_id: body.group_id,
        created_at: now,
    }
}

// ---- what goes wrong ----

/// The work that requests about groups ask for, and that can fail.
#[derive(Debug, Clone, Copy, PartialEq, Eq, Structural)]
pub enum GroupStage {
    /// Recording a group.
    Create,
    /// Recording the owner's membership.
    AddOwner,
    /// Listing groups.
    List,
    /// Listing members.
    Members,
    /// Deleting a group.
    Delete,
    /// Recording a membership.
    AddMember,
    /// Deleting a membership.
    RemoveMember,
    /// Recording a sharing setting.
    Share,
}

/// The words that say what failed.
pub open spec fn failed_at(stage: GroupStage) -> Seq<char> {
    match stage {
        GroupStage::Create => "Failed to create group: "@,
        GroupStage::AddOwner => "Failed to add owner as member: "@,
        GroupStage::List => "Failed to list groups: "@,
        GroupStage::Members => "Failed to get members: "@,
        GroupStage::Delete => "Failed to delete group: "@,
        GroupStage::AddMember => "Failed to add member: "@,
        GroupStage::RemoveMember => "Failed to remove member: "@,
        GroupStage::Share => "Failed to share file: "@,
    }
}

/// The answer when the work of a stage failed.
pub fn failed(stage: GroupStage, why: &str) -> (r: Rejection)
    ensures
        r.is(files::INTERNAL_SERVER_ERROR, failed_at(stage) + why@),
{
    match stage {
        GroupStage::Create => Rejection::because(
            files::INTERNAL_SERVER_ERROR,
            "Failed to create group: ",
            why,
        ),
        GroupStage::AddOwner => Rejection::because(
            files::INTERNAL_SERVER_ERROR,
            "Failed to add owner as member: ",
            why,
        ),
        GroupStage::List => Rejection::because(
            files::INTERNAL_SERVER_ERROR,
            "Failed to list groups: ",
            why,
        ),
        GroupStage::Members => Rejection::because(
            files::INTERNAL_SERVER_ERROR,
            "Failed to get members: ",
            why,
        ),
        GroupStage::Delete => Rejection::because(
            files::INTERNAL_SERVER_ERROR,
            "Failed to delete group: ",
            why,
        ),
        GroupStage::AddMember => Rejection::because(
            files::INTERNAL_SERVER_ERROR,
            "Failed to add member: ",
            why,
        ),
        GroupStage::RemoveMember => Rejection::because(
            files::INTERNAL_SERVER_ERROR,
            "Failed to remove member: ",
            why,
        ),
        GroupStage::Share => Rejection::because(
            files::INTERNAL_SERVER_ERROR,
            "Failed to share file: ",
            why,
        ),
    }
}

// ---- laws ----

/// Whoever makes a group owns it and is in it as its owner, so that it is theirs to delete and
/// to add members to.
pub proof fn law_maker_owns_the_group(
    r: NewGroup,
    user: CurrentUser,
    body: CreateGroupRequest,
    id: Seq<char>,
    now: i64,
)
    requires
        makes_group(r, user, body, id, now),
    ensures
        r.group.id@ == id,
        r.group.owner_id@ == user.0.id@,
        r.group.name@ == body.name@,
        sql::optional(r.group.description) == sql::optional(body.description),
        r.group.created_at == now,
        r.owner.group_id@ == r.group.id@,
        r.owner.user_id@ == r.group.owner_id@,
        r.owner.role@ == "owner"@,
        r.owner.joined_at == r.group.created_at,
{
}

} // verus!
