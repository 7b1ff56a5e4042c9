//! Labels on files: coloured tags that belong to the users who made them.

use vstd::prelude::*;

use crate::auth::CurrentUser;
use crate::database::Label;
use crate::files;
use crate::files::Rejection;
use crate::ids;
use crate::text;

verus! {

/// The colour of a label that was given no other.
pub const DEFAULT_COLOR: &'static str = "#6366f1";

/// The text for a label that is not the user's.
pub const NOT_YOUR_LABEL: &'static str = "Label not found or does not belong to you";

/// A request for a new label.
#[derive(Debug)]
pub struct CreateLabelRequest {
    pub name: String,
    pub color: Option<String>,
}

/// A request to put a label on a file.
#[derive(Debug)]
pub struct AddFileLabelRequest {
    pub label_id: String,
}

/// Whether this is the label that a user's request makes.
pub open spec fn makes_label(
    r: Label,
    user: CurrentUser,
    body: CreateLabelRequest,
    id: Seq<char>,
    now: i64,
) -> bool {
    &&& r.id@ == id
    &&& r.owner_id@ == user.0.id@
    &&& r.name == body.name
    &&& r.color@ == (if body.color.is_some() {
        body.color.unwrap()@
    } else {
        DEFAULT_COLOR@
    })
    &&& r.created_at == now
}

/// Makes a label under the given identifier.
pub fn new_label(user: &CurrentUser, body: CreateLabelRequest, id: &str, now: i64) -> (r: Label)
    ensures
        makes_label(r, *user, body, id@, now),
{
    let color = match body.color {
        Some(color) => color,
        None => DEFAULT_COLOR.to_owned(),
    };
    Label {
        id: id.to_owned(),
        owner_id: user.0.id.clone(),
        name: body.name,
        color,
        created_at: now,
    }
}

/// Makes a label under an identifier of its own.
pub fn create_label(user: &CurrentUser, body: CreateLabelRequest, now: i64) -> (r: Label)
    ensures
        ids::is_random_uuid(r.id@),
        ids::is_drawn(r.id@),
        makes_label(r, *user, body, r.id@, now),
{
    let id = ids::draw();
    new_label(user, body, id.as_str(), now)
}

/// Whether a label is among the given ones.
pub open spec fn has_label(labels: Seq<Label>, label_id: Seq<char>) -> bool {
    exists|i: int| 0 <= i < labels.len() && (#[trigger] labels[i]).id@ == label_id
}

/// Lets a user put a label on a file, or take it off, if and only if it is among the
/// user's own labels.
pub fn check_ownership(own: &Vec<Label>, label_id: &str) -> (r: Result<(), Rejection>)
    ensures
        r.is_ok() <==> has_label(own@, label_id@),
        r.is_err() ==> r->Err_0.is(files::FORBIDDEN, NOT_YOUR_LABEL@),
{
    let mut n: usize = 0;
    while n < own.len()
        invariant
            n <= own@.len(),
            forall|i: int| 0 <= i < n ==> (#[trigger] own@[i]).id@ != label_id@,
        decreases own.len() - n,
    {
        if text::same_text(own[n].id.as_str(), label_id) {
            assert(own@[n as int].id@ == label_id@);
            return Ok(());
        }
        n = n + 1;
    }
    Err(Rejection::new(files::FORBIDDEN, NOT_YOUR_LABEL))
}

// ---- what goes wrong ----

/// The work that requests about labels ask for, and that can fail.
#[derive(Debug, Clone, Copy, PartialEq, Eq, Structural)]
pub enum LabelStage {
    /// Recording a label.
    Create,
    /// Listing labels.
    List,
    /// Deleting a label.
    Delete,
    /// Listing the user's own labels.
    Verify,
    /// Putting a label on a file.
    AddToFile,
    /// Taking a label off a file.
    RemoveFromFile,
    /// Listing the labels on a file.
    ListOfFile,
}

/// The words that say what failed.
pub open spec fn failed_at(stage: LabelStage) -> Seq<char> {
    match stage {
        LabelStage::Create => "Failed to create label: "@,
        LabelStage::List => "Failed to list labels: "@,
        LabelStage::Delete => "Failed to delete label: "@,
        LabelStage::Verify => "Failed to verify label ownership: "@,
        LabelStage::AddToFile => "Failed to add label to file: "@,
        LabelStage::RemoveFromFile => "Failed to remove label from file: "@,
        LabelStage::ListOfFile => "Failed to get file labels: "@,
    }
}

/// The answer when the work of a stage failed.
pub fn failed(stage: LabelStage, why: &str) -> (r: Rejection)
    ensures
        r.is(files::INTERNAL_SERVER_ERROR, failed_at(stage) + why@),
{
    match stage {
        LabelStage::Create => Rejection::because(
            files::INTERNAL_SERVER_ERROR,
            "Failed to create label: ",
            why,
        ),
        LabelStage::List => Rejection::because(
            files::INTERNAL_SERVER_ERROR,
            "Failed to list labels: ",
            why,
        ),
        LabelStage::Delete => Rejection::because(
            files::INTERNAL_SERVER_ERROR,
            "Failed to delete label: ",
            why,
        ),
        LabelStage::Verify => Rejection::because(
            files::INTERNAL_SERVER_ERROR,
            "Failed to verify label ownership: ",
            why,
        ),
        LabelStage::AddToFile => Rejection::because(
            files::INTERNAL_SERVER_ERROR,
            "Failed to add label to file: ",
            why,
        ),
        LabelStage::RemoveFromFile => Rejection::because(
            files::INTERNAL_SERVER_ERROR,
            "Failed to remove label from file: ",
            why,
        ),
        LabelStage::ListOfFile => Rejection::because(
            files::INTERNAL_SERVER_ERROR,
            "Failed to get file labels: ",
            why,
        ),
    }
}

// ---- laws ----

/// Whoever makes a label owns it, and a label that was given no colour has the usual one.
pub proof fn law_maker_owns_the_label(
    r: Label,
    user: CurrentUser,
    body: CreateLabelRequest,
    id: Seq<char>,
    now: i64,
)
    requires
        makes_label(r, user, body, id, now),
    ensures
        r.id@ == id,
        r.owner_id@ == user.0.id@,
        r.name@ == body.name@,
        body.color.is_some() ==> r.color@ == body.color.unwrap()@,
        body.color.is_none() ==> r.color@ == "#6366f1"@,
        r.created_at == now,
{
}

/// A label is among others if and only if one of them has its identifier.
pub proof fn law_labels_are_found_by_their_identifier(labels: Seq<Label>, label: Label, id: Seq<char>)
    ensures
        !has_label(Seq::empty(), id),
        has_label(labels.push(label), id) <==> has_label(labels, id) || label.id@ == id,
{
    let more = labels.push(label);
    if has_label(labels, id) {
        let i = choose|i: int| 0 <= i < labels.len() && (#[trigger] labels[i]).id@ == id;
        assert(more[i].id@ == id);
    }
    if label.id@ == id {
        assert(more[labels.len() as int].id@ == id);
    }
    if has_label(more, id) && label.id@ != id {
        let i = choose|i: int| 0 <= i < more.len() && (#[trigger] more[i]).id@ == id;
        assert(labels[i].id@ == id);
    }
}

} // verus!
