//! Where stored content lies, and how it gets there.

use vstd::prelude::*;

use vstd::string::*;
use vstd::utf8::*;

use crate::hashing;
use crate::ids;
use crate::text;

verus! {

// ---- places ----

/// A store of content under one directory.
#[derive(Debug)]
pub struct FileStorage {
    base_path: String,
}

impl Clone for FileStorage {
    fn clone(&self) -> (r: Self)
        ensures
            r@ == self@,
    {
        FileStorage { base_path: self.base_path.clone() }
    }
}

impl View for FileStorage {
    type V = Seq<char>;

    /// The directory.
    closed spec fn view(&self) -> Seq<char> {
        self.base_path@
    }
}

/// The place of a file: the directory of the store, a directory in it unless the
/// file lies in the store's directory itself, and a name.
#[derive(Debug)]
pub struct FilePath {
    pub base: String,
    pub shard: Option<String>,
    pub name: String,
}

/// Whether content with this hash has a place: a hash of two bytes and more can be cut
/// behind the second.
pub open spec fn has_place(hash: Seq<char>) -> bool {
    encode_utf8(hash).len() >= 2 ==> is_char_boundary(encode_utf8(hash), 2)
}

/// Whether the path is the place of the content with this hash in the store: content is
/// spread over directories that are named by the first two bytes of its hash. A shorter
/// hash has none.
pub open spec fn is_place_of(path: FilePath, base: Seq<char>, hash: Seq<char>) -> bool {
    &&& path.base@ == base
    &&& path.name@ == hash
    &&& path.shard.is_some() <==> encode_utf8(hash).len() >= 2
    &&& path.shard.is_some() ==> encode_utf8(path.shard.unwrap()@) == encode_utf8(hash).take(2)
}

impl FileStorage {
    /// A store under the given directory.
    pub fn new(base_path: &str) -> (r: Self)
        ensures
            r@ == base_path@,
    {
        FileStorage { base_path: base_path.to_owned() }
    }

    /// The place of the content with the given hash.
    pub fn get_file_path(&self, hash: &str) -> (r: FilePath)
        requires
            has_place(hash@),
        ensures
            is_place_of(r, self@, hash@),
    {
        let size: usize = hash.as_bytes().len();
        let shard = if size >= 2 {
            let (head, _) = hash.split_at(2);
            Some(head.to_owned())
        } else {
            None
        };
        FilePath { base: self.base_path.clone(), shard, name: hash.to_owned() }
    }

    /// The place of the content with the given hash, if it has one.
    pub fn find_place(&self, hash: &str) -> (r: Option<FilePath>)
        ensures
            r.is_some() == has_place(hash@),
            r.is_some() ==> is_place_of(r.unwrap(), self@, hash@),
    {
        let size: usize = hash.as_bytes().len();
        if size < 2 || hash.is_char_boundary(2) {
            Some(self.get_file_path(hash))
        } else {
            None
        }
    }

    /// The name of the temporary file, beside its place, in which content with the given
    /// hash is gathered under the given identifier.
    pub fn temp_name(hash: &str, id: &str) -> (r: String)
        ensures
            r@ == hash@ + ".tmp."@ + id@,
    {
        text::joined3(hash, ".tmp.", id)
    }

    /// A name for a new temporary file for content with the given hash.
    pub fn new_temp_name(hash: &str) -> (r: String)
        ensures
            exists|id: Seq<char>| #[trigger]
                ids::is_random_uuid(id) && r@ == hash@ + ".tmp."@ + id,
            exists|id: Seq<char>| #[trigger] ids::is_drawn(id) && r@ == hash@ + ".tmp."@ + id,
    {
        let id = ids::draw();
        Self::temp_name(hash, id.as_str())
    }
}

// ---- writing content ----

/// How a piece of work ended.
#[derive(Debug, Clone, Copy, PartialEq, Eq, Structural)]
pub enum Outcome {
    /// It was done.
    Done,
    /// It was not done because the file was there already.
    Exists,
    /// It was not done for another reason.
    Failed,
}

/// What is to be done next when content is written to its place.
#[derive(Debug, Clone, Copy, PartialEq, Eq, Structural)]
pub enum SaveStep {
    /// Make the directory of the place.
    MakeParent,
    /// See whether the content is at its place: if it is, that ends as
    /// [`Outcome::Exists`], and if it is not, as [`Outcome::Done`].
    CheckPlace,
    /// Write the content to a temporary file beside its place, through to the disk.
    WriteTemp,
    /// Move the temporary file to the place. Where another writer has put the content
    /// there and the move is turned down for it, that ends as [`Outcome::Exists`].
    RenameTemp,
    /// Delete the temporary file, which could not be moved; whether that succeeds does not
    /// matter.
    DropTemp,
    /// Delete the temporary file, which could not be written; whether that succeeds does not
    /// matter.
    RemoveTemp,
    /// Nothing: the content is stored.
    Finished,
    /// Nothing: the temporary file could not be moved. A move is expected to fail only where
    /// another writer has put the same content there, so this is told as success; where it
    /// failed for another reason, the content is not stored.
    Unmoved,
    /// Nothing: the content was not stored, and the failure before says why.
    Abandoned,
}

/// What follows a step of writing content, given how it ended. The content is gathered in
/// a temporary file, and comes to its place as a whole.
pub open spec fn after_save(step: SaveStep, outcome: Outcome) -> SaveStep {
    match step {
        SaveStep::MakeParent => if outcome is Done {
            SaveStep::CheckPlace
        } else {
            SaveStep::Abandoned
        },
        SaveStep::CheckPlace => if outcome is Exists {
            SaveStep::Finished
        } else {
            SaveStep::WriteTemp
        },
        SaveStep::WriteTemp => if outcome is Done {
            SaveStep::RenameTemp
        } else {
            SaveStep::RemoveTemp
        },
        SaveStep::RenameTemp => if outcome is Done {
            SaveStep::Finished
        } else {
            SaveStep::DropTemp
        },
        SaveStep::DropTemp => SaveStep::Unmoved,
        SaveStep::RemoveTemp => SaveStep::Abandoned,
        SaveStep::Finished => SaveStep::Finished,
        SaveStep::Unmoved => SaveStep::Unmoved,
        SaveStep::Abandoned => SaveStep::Abandoned,
    }
}

/// Says what follows a step of writing content. Writing begins with
/// [`SaveStep::MakeParent`].
pub fn next_save_step(step: SaveStep, outcome: Outcome) -> (r: SaveStep)
    ensures
        r == after_save(step, outcome),
{
    let done = outcome == Outcome::Done;
    match step {
        SaveStep::MakeParent => if done {
            SaveStep::CheckPlace
        } else {
            SaveStep::Abandoned
        },
        SaveStep::CheckPlace => if outcome == Outcome::Exists {
            SaveStep::Finished
        } else {
            SaveStep::WriteTemp
        },
        SaveStep::WriteTemp => if done {
            SaveStep::RenameTemp
        } else {
            SaveStep::RemoveTemp
        },
        SaveStep::RenameTemp => if done {
            SaveStep::Finished
        } else {
            SaveStep::DropTemp
        },
        SaveStep::DropTemp => SaveStep::Unmoved,
        SaveStep::RemoveTemp => SaveStep::Abandoned,
        SaveStep::Finished => SaveStep::Finished,
        SaveStep::Unmoved => SaveStep::Unmoved,
        SaveStep::Abandoned => SaveStep::Abandoned,
    }
}

/// Whether writing has ended at this step and, if it has, whether it is told as success.
pub open spec fn told_of_save(step: SaveStep) -> Option<bool> {
    match step {
        SaveStep::Finished | SaveStep::Unmoved => Some(true),
        SaveStep::Abandoned => Some(false),
        _ => None,
    }
}

/// Says whether writing has ended and, if it has, whether it is told as success.
pub fn save_result(step: SaveStep) -> (r: Option<bool>)
    ensures
        r == told_of_save(step),
{
    match step {
        SaveStep::Finished => Some(true),
        SaveStep::Unmoved => Some(true),
        SaveStep::Abandoned => Some(false),
        _ => None,
    }
}

// ---- moving a file to its place ----

/// What is to be done next when a file is moved to its place.
#[derive(Debug, Clone, Copy, PartialEq, Eq, Structural)]
pub enum MoveStep {
    /// Make the directory of the place.
    MakeParent,
    /// Move the file to its place.
    RenameSource,
    /// Copy the file to a temporary file beside its place.
    CopySource,
    /// Write the copy through to the disk.
    SyncCopy,
    /// Move the copy to its place.
    RenameCopy,
    /// Delete the file that was copied; whether that succeeds does not matter.
    RemoveSource,
    /// Delete the copy; whether that succeeds does not matter.
    RemoveCopy,
    /// Nothing: the file is at its place.
    Finished,
    /// Nothing: the file is where it was, and the last failure says why.
    Abandoned,
}

/// What follows a step of moving a file, given whether it was done.
pub open spec fn after_move(step: MoveStep, done: bool) -> MoveStep {
    match step {
        MoveStep::MakeParent => if done {
            MoveStep::RenameSource
        } else {
            MoveStep::Abandoned
        },
        MoveStep::RenameSource => if done {
            MoveStep::Finished
        } else {
            MoveStep::CopySource
        },
        MoveStep::CopySource => if done {
            MoveStep::SyncCopy
        } else {
            MoveStep::RemoveCopy
        },
        MoveStep::SyncCopy => if done {
            MoveStep::RenameCopy
        } else {
            MoveStep::RemoveCopy
        },
        MoveStep::RenameCopy => if done {
            MoveStep::RemoveSource
        } else {
            MoveStep::RemoveCopy
        },
        MoveStep::RemoveSource => MoveStep::Finished,
        MoveStep::RemoveCopy => MoveStep::Abandoned,
        MoveStep::Finished => MoveStep::Finished,
        MoveStep::Abandoned => MoveStep::Abandoned,
    }
}

/// Says what follows a step of moving a file. Moving begins with
/// [`MoveStep::MakeParent`].
pub fn next_move_step(step: MoveStep, done: bool) -> (r: MoveStep)
    ensures
        r == after_move(step, done),
{
    match step {
        MoveStep::MakeParent => if done {
            MoveStep::RenameSource
        } else {
            MoveStep::Abandoned
        },
        MoveStep::RenameSource => if done {
            MoveStep::Finished
        } else {
            MoveStep::CopySource
        },
        MoveStep::CopySource => if done {
            MoveStep::SyncCopy
        } else {
            MoveStep::RemoveCopy
        },
        MoveStep::SyncCopy => if done {
            MoveStep::RenameCopy
        } else {
            MoveStep::RemoveCopy
        },
        MoveStep::RenameCopy => if done {
            MoveStep::RemoveSource
        } else {
            MoveStep::RemoveCopy
        },
        MoveStep::RemoveSource => MoveStep::Finished,
        MoveStep::RemoveCopy => MoveStep::Abandoned,
        MoveStep::Finished => MoveStep::Finished,
        MoveStep::Abandoned => MoveStep::Abandoned,
    }
}

// ---- laws ----

/// Content is spread over directories that are named by the first two characters of
/// its hash, and every content hash has a place.
pub proof fn law_content_lies_under_its_first_two_digits(
    path: FilePath,
    base: Seq<char>,
    hash: Seq<char>,
)
    requires
        hashing::is_content_hash(hash),
    ensures
        has_place(hash),
        is_place_of(path, base, hash) ==> path.base@ == base && path.name@ == hash
            && path.shard.is_some() && path.shard.unwrap()@ == hash.take(2),
{
    assert(is_ascii_chars(hash)) by {
        assert forall|i: int|
            0 <= i < hash.len() implies 0 <= (#[trigger] hash[i] as u32) < 128 by {
            assert(hashing::is_hex_digit(hash[i]));
        }
    }
    is_ascii_chars_encode_utf8(hash);
    let bytes = encode_utf8(hash);
    encode_utf8_valid_utf8(hash);
    assert(bytes.len() == 64);
    assert(is_char_boundary(bytes, 2)) by {
        is_char_boundary_iff_not_is_continuation_byte(bytes, 2);
        let b = bytes[2];
        assert(b < 128);
        assert(!is_continuation_byte(b)) by {
            assert(b < 128 ==> (b & 0xC0) != 0x80) by (bit_vector);
        }
    }
    if is_place_of(path, base, hash) {
        let shard = path.shard.unwrap()@;
        let head = hash.take(2);
        assert(is_ascii_chars(head));
        is_ascii_chars_encode_utf8(head);
        assert(encode_utf8(head) =~= bytes.take(2));
        encode_utf8_decode_utf8(head);
        encode_utf8_decode_utf8(shard);
    }
}

/// Content has one place, and content with another hash has another: what is stored under a
/// hash is found under it, and nothing else is.
pub proof fn law_places_are_told_apart(
    first: FilePath,
    second: FilePath,
    base: Seq<char>,
    hash: Seq<char>,
    other: Seq<char>,
)
    requires
        is_place_of(first, base, hash),
        is_place_of(second, base, other),
    ensures
        hash == other ==> first.base@ == second.base@ && first.name@ == second.name@
            && first.shard.is_some() == second.shard.is_some() && (first.shard.is_some()
            ==> first.shard.unwrap()@ == second.shard.unwrap()@),
        hash != other ==> first.name@ != second.name@,
{
    if hash == other && first.shard.is_some() {
        encode_utf8_decode_utf8(first.shard.unwrap()@);
        encode_utf8_decode_utf8(second.shard.unwrap()@);
    }
}

/// Content that is found at its place is not written again.
pub proof fn law_stored_content_is_not_rewritten(step: SaveStep, outcome: Outcome)
    ensures
        after_save(step, outcome) is WriteTemp <==> step is CheckPlace && !(outcome is Exists),
        step is CheckPlace && outcome is Exists ==> after_save(step, outcome) is Finished,
{
}

/// The number of steps that are left at most.
pub open spec fn save_steps_left(step: SaveStep) -> nat {
    match step {
        SaveStep::MakeParent => 5,
        SaveStep::CheckPlace => 4,
        SaveStep::WriteTemp => 3,
        SaveStep::RenameTemp => 2,
        SaveStep::DropTemp => 1,
        SaveStep::RemoveTemp => 1,
        SaveStep::Finished => 0,
        SaveStep::Unmoved => 0,
        SaveStep::Abandoned => 0,
    }
}

/// The number of steps that are left at most.
pub open spec fn move_steps_left(step: MoveStep) -> nat {
    match step {
        MoveStep::MakeParent => 6,
        MoveStep::RenameSource => 5,
        MoveStep::CopySource => 4,
        MoveStep::SyncCopy => 3,
        MoveStep::RenameCopy => 2,
        MoveStep::RemoveSource => 1,
        MoveStep::RemoveCopy => 1,
        MoveStep::Finished => 0,
        MoveStep::Abandoned => 0,
    }
}

/// Writing and moving come to an end, whatever fails: each step brings the end nearer.
pub proof fn law_storing_ends(save: SaveStep, outcome: Outcome, step: MoveStep, done: bool)
    ensures
        save_steps_left(save) > 0 ==> save_steps_left(after_save(save, outcome))
            < save_steps_left(save),
        save_steps_left(save) == 0 ==> after_save(save, outcome) == save,
        save_steps_left(save) == 0 <==> told_of_save(save).is_some(),
        move_steps_left(step) > 0 ==> move_steps_left(after_move(step, done)) < move_steps_left(
            step,
        ),
        move_steps_left(step) == 0 ==> after_move(step, done) == step,
{
}

/// How much of the content a file holds.
pub enum Held {
    /// There is no file.
    Nothing,
    /// A part of the content.
    Part,
    /// The content, from its first byte to its last.
    Whole,
}

/// What is on the disk while content is written.
pub struct Shelf {
    pub temp: Held,
    pub place: Held,
}

/// Whether a step of writing, with this outcome, can make this of the disk. A write that
/// fails leaves anything behind in the temporary file, a rename puts into the place what the
/// temporary file holds, and what fails otherwise changes nothing. While the step is done,
/// another writer may bring the same content to its place, by a rename as well.
pub open spec fn save_makes(
    before: Shelf,
    step: SaveStep,
    outcome: Outcome,
    other_writer: bool,
    after: Shelf,
) -> bool {
    let renamed = step is RenameTemp && outcome is Done;
    &&& after.place == (if renamed {
        before.temp
    } else if other_writer {
        Held::Whole
    } else {
        before.place
    })
    &&& match step {
        SaveStep::WriteTemp => outcome is Done ==> after.temp is Whole,
        SaveStep::RenameTemp => after.temp == (if renamed {
            Held::Nothing
        } else {
            before.temp
        }),
        SaveStep::DropTemp | SaveStep::RemoveTemp => after.temp == (if outcome is Done {
            Held::Nothing
        } else {
            before.temp
        }),
        _ => after.temp == before.temp,
    }
    &&& (step is CheckPlace || step is RenameTemp) && outcome is Exists ==> !(
    after.place is Nothing)
}

/// Whether this is a run of writing content, from its beginning: the steps, how each ended,
/// whether another writer stored the content during it, and the disk before each step and
/// behind the last.
pub open spec fn is_save(
    steps: Seq<SaveStep>,
    outcomes: Seq<Outcome>,
    other_writers: Seq<bool>,
    shelves: Seq<Shelf>,
) -> bool {
    &&& steps.len() == outcomes.len() + 1
    &&& other_writers.len() == outcomes.len()
    &&& shelves.len() == steps.len()
    &&& steps[0] is MakeParent
    &&& shelves[0].temp is Nothing
    &&& !(shelves[0].place is Part)
    &&& forall|i: int, j: int|
        #![trigger steps[i], steps[j]]
        0 <= i && j == i + 1 && j < steps.len() ==> steps[j] == after_save(steps[i], outcomes[i])
            && save_makes(shelves[i], steps[i], outcomes[i], other_writers[i], shelves[j])
}

/// What holds of the disk before a step of writing, given what was at the place when the
/// writing began and whether another writer has stored the content since.
spec fn shelf_holds(shelf: Shelf, step: SaveStep, at_first: Held, others: bool) -> bool {
    &&& !(shelf.place is Part)
    &&& at_first is Whole ==> shelf.place is Whole
    &&& step is MakeParent || step is CheckPlace || step is WriteTemp ==> shelf.temp is Nothing
    &&& step is RenameTemp ==> shelf.temp is Whole
    &&& step is Finished ==> shelf.place is Whole
    &&& !(step is Finished) && !others ==> shelf.place == at_first
}

proof fn lemma_shelf_holds(
    steps: Seq<SaveStep>,
    outcomes: Seq<Outcome>,
    other_writers: Seq<bool>,
    shelves: Seq<Shelf>,
    n: int,
)
    requires
        is_save(steps, outcomes, other_writers, shelves),
        0 <= n < steps.len(),
    ensures
        shelf_holds(
            shelves[n],
            steps[n],
            shelves[0].place,
            exists|i: int| 0 <= i < n && #[trigger] other_writers[i],
        ),
    decreases n,
{
    if n > 0 {
        lemma_shelf_holds(steps, outcomes, other_writers, shelves, n - 1);
        assert(steps[n] == after_save(steps[n - 1], outcomes[n - 1]));
        if other_writers[n - 1] {
            assert(exists|i: int| 0 <= i < n && #[trigger] other_writers[i]);
        }
        if exists|i: int| 0 <= i < n - 1 && #[trigger] other_writers[i] {
            let i = choose|i: int| 0 <= i < n - 1 && #[trigger] other_writers[i];
            assert(0 <= i < n && other_writers[i]);
        }
    }
}

proof fn lemma_whole_stays(
    steps: Seq<SaveStep>,
    outcomes: Seq<Outcome>,
    other_writers: Seq<bool>,
    shelves: Seq<Shelf>,
    m: int,
    n: int,
)
    requires
        is_save(steps, outcomes, other_writers, shelves),
        0 <= m <= n < steps.len(),
        shelves[m].place is Whole,
    ensures
        shelves[n].place is Whole,
    decreases n,
{
    if m < n {
        lemma_whole_stays(steps, outcomes, other_writers, shelves, m, n - 1);
        lemma_shelf_holds(steps, outcomes, other_writers, shelves, n - 1);
        assert(steps[n] == after_save(steps[n - 1], outcomes[n - 1]));
    }
}

/// Writing content is all or nothing, whatever fails on the way: its place never holds a part
/// of it, and what was there stays. Writing that has finished has the whole content at its
/// place, and so has one that gave way to another writer. Writing that ended otherwise has
/// left the place as it was, unless another writer stored the content meanwhile.
pub proof fn law_save_is_all_or_nothing(
    steps: Seq<SaveStep>,
    outcomes: Seq<Outcome>,
    other_writers: Seq<bool>,
    shelves: Seq<Shelf>,
    n: int,
)
    requires
        is_save(steps, outcomes, other_writers, shelves),
        0 <= n < steps.len(),
    ensures
        !(shelves[n].place is Part),
        shelves[0].place is Whole ==> shelves[n].place is Whole,
        steps[n] is Finished ==> shelves[n].place is Whole,
        forall|i: int|
            0 <= i < n && #[trigger] steps[i] is RenameTemp && outcomes[i] is Exists
                ==> shelves[n].place is Whole,
        !(steps[n] is Finished) && (forall|i: int| 0 <= i < n ==> !#[trigger] other_writers[i])
            ==> shelves[n].place == shelves[0].place,
{
    lemma_shelf_holds(steps, outcomes, other_writers, shelves, n);
    assert forall|i: int|
        0 <= i < n && #[trigger] steps[i] is RenameTemp && outcomes[i] is Exists implies
        shelves[n].place is Whole by {
        assert(steps[i + 1] == after_save(steps[i], outcomes[i]));
        lemma_shelf_holds(steps, outcomes, other_writers, shelves, i + 1);
        lemma_whole_stays(steps, outcomes, other_writers, shelves, i + 1, n);
    }
}

/// Writing leaves no temporary file behind where it ends, as long as a deletion that was
/// asked for succeeds.
pub proof fn law_save_leaves_no_temporary_file(
    steps: Seq<SaveStep>,
    outcomes: Seq<Outcome>,
    other_writers: Seq<bool>,
    shelves: Seq<Shelf>,
    n: int,
)
    requires
        is_save(steps, outcomes, other_writers, shelves),
        0 <= n < steps.len(),
        told_of_save(steps[n]).is_some(),
        forall|i: int|
            0 <= i < n && (#[trigger] steps[i] is DropTemp || steps[i] is RemoveTemp)
                ==> outcomes[i] is Done,
    ensures
        shelves[n].temp is Nothing,
    decreases n,
{
    if n > 0 {
        let last = steps[n - 1];
        lemma_shelf_holds(steps, outcomes, other_writers, shelves, n - 1);
        assert(steps[n] == after_save(last, outcomes[n - 1]));
        if told_of_save(last).is_some() {
            law_save_leaves_no_temporary_file(steps, outcomes, other_writers, shelves, n - 1);
        }
    }
}

/// What a run of moving a file has made of the disk.
pub struct Disk {
    /// The file is still where it came from.
    pub source: bool,
    /// There is a copy beside the place.
    pub copy: bool,
    /// The whole file is at its place.
    pub placed: bool,
}

/// What a step of moving makes of the disk. A step that fails changes nothing, but that a
/// failed copy may leave a part behind.
pub open spec fn disk_after(disk: Disk, step: MoveStep, done: bool) -> Disk {
    match step {
        MoveStep::RenameSource if done => Disk { source: false, placed: true, ..disk },
        MoveStep::CopySource => Disk { copy: true, ..disk },
        MoveStep::RenameCopy if done => Disk { copy: false, placed: true, ..disk },
        MoveStep::RemoveSource if done => Disk { source: false, ..disk },
        MoveStep::RemoveCopy if done => Disk { copy: false, ..disk },
        _ => disk,
    }
}

/// What holds of the disk before a step of moving, as long as the deletions that were
/// asked for succeed.
pub open spec fn consistent(disk: Disk, step: MoveStep) -> bool {
    match step {
        MoveStep::MakeParent | MoveStep::RenameSource | MoveStep::CopySource => disk == (Disk {
            source: true,
            copy: false,
            placed: false,
        }),
        MoveStep::SyncCopy | MoveStep::RenameCopy | MoveStep::RemoveCopy => disk == (Disk {
            source: true,
            copy: true,
            placed: false,
        }),
        MoveStep::RemoveSource => disk == (Disk { source: true, copy: false, placed: true }),
        MoveStep::Finished => disk == (Disk { source: false, copy: false, placed: true }),
        MoveStep::Abandoned => disk == (Disk { source: true, copy: false, placed: false }),
    }
}

/// Moving a file either places the whole file and leaves nothing else behind, or leaves
/// it where it was and the place untouched. The file comes to its place by a rename and
/// in no other way, so no reader sees a part of it there.
pub proof fn law_move_is_all_or_nothing(disk: Disk, step: MoveStep, done: bool)
    requires
        consistent(disk, step),
        step is RemoveSource || step is RemoveCopy ==> done,
    ensures
        consistent(disk_after(disk, step, done), after_move(step, done)),
        !disk.placed && disk_after(disk, step, done).placed ==> (step is RenameSource
            || step is RenameCopy) && done,
{
}

/// Writing that meets no failure stores: the directory is made, the content is not there yet,
/// the temporary file is written and moved, and that is the end. A failure before the content
/// is moved is told as one.
pub proof fn law_save_without_failures_stores()
    ensures
        after_save(SaveStep::MakeParent, Outcome::Done) is CheckPlace,
        after_save(SaveStep::CheckPlace, Outcome::Done) is WriteTemp,
        after_save(SaveStep::WriteTemp, Outcome::Done) is RenameTemp,
        after_save(SaveStep::RenameTemp, Outcome::Done) is Finished,
        forall|step: SaveStep, outcome: Outcome|
            (step is MakeParent || step is WriteTemp) && !(outcome is Done) ==> (
            #[trigger] after_save(step, outcome) is Abandoned || after_save(
                step,
                outcome,
            ) is RemoveTemp),
        forall|outcome: Outcome|
            #[trigger] after_save(SaveStep::RemoveTemp, outcome) is Abandoned,
        told_of_save(SaveStep::Finished) == Some(true),
        told_of_save(SaveStep::Abandoned) == Some(false),
        told_of_save(SaveStep::Unmoved) == Some(true),
        told_of_save(SaveStep::MakeParent).is_none(),
        told_of_save(SaveStep::WriteTemp).is_none(),
        told_of_save(SaveStep::RenameTemp).is_none(),
{
}

/// A move is one rename where that can be done, and otherwise a copy that is written through to
/// the disk before it is renamed; the file that was copied goes after that and not before.
pub proof fn law_move_copies_only_where_it_must()
    ensures
        after_move(MoveStep::MakeParent, true) is RenameSource,
        after_move(MoveStep::RenameSource, true) is Finished,
        after_move(MoveStep::RenameSource, false) is CopySource,
        after_move(MoveStep::CopySource, true) is SyncCopy,
        after_move(MoveStep::SyncCopy, true) is RenameCopy,
        after_move(MoveStep::RenameCopy, true) is RemoveSource,
        forall|step: MoveStep, done: bool| #[trigger]
            after_move(step, done) is RemoveSource ==> step is RenameCopy && done,
        forall|step: MoveStep, done: bool| #[trigger]
            after_move(step, done) is RenameCopy ==> step is SyncCopy && done,
        forall|step: MoveStep| #[trigger]
            after_move(step, false) is Finished ==> step is RemoveSource || step is Finished,
{
}

/// Content has a place unless its hash has two bytes and more and its second byte is inside a
/// character; a hash of fewer bytes lies in the directory of the store itself.
pub proof fn law_short_hashes_have_no_directory(
    path: FilePath,
    base: Seq<char>,
    hash: Seq<char>,
)
    ensures
        encode_utf8(hash).len() < 2 ==> has_place(hash),
        encode_utf8(hash).len() >= 2 ==> (has_place(hash) <==> is_char_boundary(
            encode_utf8(hash),
            2,
        )),
        is_place_of(path, base, hash) ==> path.base@ == base && path.name@ == hash && (
        path.shard.is_none() <==> encode_utf8(hash).len() < 2) && (path.shard.is_some()
            ==> encode_utf8(path.shard.unwrap()@) == encode_utf8(hash).subrange(0, 2)),
{
    if encode_utf8(hash).len() >= 2 {
        assert(encode_utf8(hash).take(2) =~= encode_utf8(hash).subrange(0, 2));
    }
}

} // verus!
