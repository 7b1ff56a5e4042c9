//! The signaling hub: connected peers, the rooms that they have joined and the
//! chunks that they hold.
//!
//! The hub takes one event at a time and answers with what is to be done: which
//! messages go to which peers, and which files are to be looked up.

use vstd::prelude::*;

use crate::files::UploadResponse;
use crate::ids;
use crate::schedule;
use crate::schedule::ChunkAssignment;
use crate::text;
use crate::tracker;
use crate::tracker::ChunkTracker;
use crate::tracker::Holders;
use crate::upload;
use crate::upload::CompleteFile;

verus! {

#[verifier::external_type_specification]
#[verifier::external_body]
pub struct ExValue(serde_json::Value);

// ---- messages ----

/// A connected peer.
#[derive(Debug)]
pub struct PeerInfo {
    pub id: String,
    pub connected_at: i64,
    pub files: Vec<String>,
}

impl Clone for PeerInfo {
    fn clone(&self) -> (r: Self)
        ensures
            r.id@ == self.id@,
            r.connected_at == self.connected_at,
            text::names(r.files@) == text::names(self.files@),
    {
        PeerInfo {
            id: self.id.clone(),
            connected_at: self.connected_at,
            files: text::copied(&self.files),
        }
    }
}

/// What a peer sends to the server.
#[derive(Debug)]
pub enum SignalMessage {
    /// The peer takes an interest in a room.
    Join { room: String },
    /// A payload for another peer, which the server does not look into.
    Signal { to: String, signal: serde_json::Value },
    /// The files that the peer has.
    Announce { files: Vec<String> },
    /// The chunks of one file that the peer has, as a bitmap.
    Bitfield { file_hash: String, bitfield: Vec<u8>, chunk_count: u32 },
    /// A window of chunks that the peer wants to fetch.
    PipelineRequest { file_hash: String, chunk_ids: Vec<u32> },
    /// One chunk that the peer wants to fetch.
    RequestChunk { file_hash: String, chunk_id: u32 },
    /// Something went wrong at the peer.
    Error { message: String },
}

/// What the server sends to a peer.
#[derive(Debug)]
pub enum ServerMessage {
    /// The identifier that the peer was given.
    Welcome { peer_id: String },
    /// The other peers in a room.
    PeerList { peers: Vec<String> },
    /// A payload from another peer.
    Signal { from: String, signal: serde_json::Value },
    /// The peers that hold one chunk.
    ChunkPeers { file_hash: String, chunk_id: u32, peers: Vec<String> },
    /// The requested chunks, the rarest first, with the peers that hold them.
    ChunkAssignments { file_hash: String, assignments: Vec<ChunkAssignment> },
    /// A request could not be met.
    Error { message: String },
}

/// What is to be done after an event.
#[derive(Debug)]
pub enum Action {
    /// A message goes to a peer.
    Send { to: String, message: ServerMessage },
    /// A file is to be looked up, and [`SignalHub::file_looked_up`] to be told.
    LookUp { file_hash: String },
}

// ---- the map of connected peers ----

/// What the hub keeps of a peer besides its identifier: when it connected, and the
/// files that it has announced.
pub type PeerRecord = (i64, Seq<Seq<char>>);

/// What the hub keeps of the given peer.
pub open spec fn peer_record(peer: PeerInfo) -> PeerRecord {
    (peer.connected_at, text::names(peer.files@))
}

/// What a map of peers holds.
pub uninterp spec fn peer_map(m: dashmap::DashMap<String, PeerInfo>) -> Map<
    Seq<char>,
    (i64, Seq<Seq<char>>),
>;

/// Calls `dashmap::DashMap::new`. The map holds nothing.
#[verifier::external_body]
fn peer_map_new() -> (r: dashmap::DashMap<String, PeerInfo>)
    ensures
        peer_map(r).dom().is_empty(),
{
    dashmap::DashMap::new()
}

/// Calls `dashmap::DashMap::insert` with the peer under its identifier. The entry
/// for it, if there was one, is replaced, and the other entries stay.
#[verifier::external_body]
fn peer_map_insert(m: &mut dashmap::DashMap<String, PeerInfo>, peer: PeerInfo)
    ensures
        peer_map(*final(m)) == peer_map(*old(m)).insert(peer.id@, peer_record(peer)),
{
    m.insert(peer.id.clone(), peer);
}

/// Calls `dashmap::DashMap::remove`. The entry for the key, if there was one, leaves
/// the map.
#[verifier::external_body]
fn peer_map_remove(m: &mut dashmap::DashMap<String, PeerInfo>, id: &str)
    ensures
        peer_map(*final(m)) == peer_map(*old(m)).remove(id@),
{
    m.remove(id);
}

/// Calls `dashmap::DashMap::get` and copies out when the peer connected. There is a
/// result if and only if the map has an entry for the key.
#[verifier::external_body]
fn peer_map_connected_at(m: &dashmap::DashMap<String, PeerInfo>, id: &str) -> (r: Option<i64>)
    ensures
        r.is_some() == peer_map(*m).contains_key(id@),
        r.is_some() ==> r.unwrap() == peer_map(*m)[id@].0,
{
    m.get(id).map(|entry| entry.value().connected_at)
}

/// Calls `dashmap::DashMap::iter` and copies the entries out. Each key comes once,
/// with its value. Nothing is said of their order, which the map leaves open.
#[verifier::external_body]
fn peer_map_entries(m: &dashmap::DashMap<String, PeerInfo>) -> (r: Vec<(String, i64, Vec<String>)>)
    ensures
        lists_entries(r@, peer_map(*m)),
{
    m.iter().map(
        |entry| (entry.key().clone(), entry.value().connected_at, entry.value().files.clone()),
    ).collect()
}

/// Whether there are so many peers, and no more.
pub open spec fn has_size(peers: Map<Seq<char>, PeerRecord>, size: nat) -> bool {
    peers.dom().finite() && peers.dom().len() == size
}

/// Calls `dashmap::DashMap::len`. The result is the number of entries.
#[verifier::external_body]
fn peer_map_len(m: &dashmap::DashMap<String, PeerInfo>) -> (r: usize)
    ensures
        has_size(peer_map(*m), r as nat),
{
    m.len()
}

/// Whether the list gives every entry of the map once.
pub open spec fn lists_entries(
    list: Seq<(String, i64, Vec<String>)>,
    peers: Map<Seq<char>, PeerRecord>,
) -> bool {
    &&& forall|i: int, j: int|
        0 <= i < j < list.len() ==> (#[trigger] list[i]).0@ != (#[trigger] list[j]).0@
    &&& forall|i: int|
        0 <= i < list.len() ==> peers.contains_key((#[trigger] list[i]).0@)
            && peers[list[i].0@] == (list[i].1, text::names(list[i].2@))
    &&& forall|id: Seq<char>| #[trigger]
        peers.contains_key(id) ==> exists|i: int|
            0 <= i < list.len() && (#[trigger] list[i]).0@ == id
}

/// Whether the list gives every peer once, with what is kept of it.
pub open spec fn lists_peers(list: Seq<PeerInfo>, peers: Map<Seq<char>, PeerRecord>) -> bool {
    &&& forall|i: int, j: int|
        0 <= i < j < list.len() ==> (#[trigger] list[i]).id@ != (#[trigger] list[j]).id@
    &&& forall|i: int|
        0 <= i < list.len() ==> peers.contains_key((#[trigger] list[i]).id@)
            && peers[list[i].id@] == peer_record(list[i])
    &&& forall|id: Seq<char>| #[trigger]
        peers.contains_key(id) ==> exists|i: int|
            0 <= i < list.len() && (#[trigger] list[i]).id@ == id
}

// ---- rooms ----

/// Selects the members of one room.
pub open spec fn in_room(room: Seq<char>) -> spec_fn((Seq<char>, Seq<char>)) -> bool {
    |m: (Seq<char>, Seq<char>)| m.0 == room
}

/// Selects the memberships of all peers but one.
pub open spec fn of_others(peer: Seq<char>) -> spec_fn((Seq<char>, Seq<char>)) -> bool {
    |m: (Seq<char>, Seq<char>)| m.1 != peer
}

/// The members of a room, in the order in which they joined.
pub open spec fn members(rooms: Seq<(Seq<char>, Seq<char>)>, room: Seq<char>) -> Seq<Seq<char>> {
    rooms.filter(in_room(room)).map_values(|m: (Seq<char>, Seq<char>)| m.1)
}

/// The memberships after a peer has joined a room. One who is a member already stays
/// where it is.
pub open spec fn joined(
    rooms: Seq<(Seq<char>, Seq<char>)>,
    room: Seq<char>,
    peer: Seq<char>,
) -> Seq<(Seq<char>, Seq<char>)> {
    if rooms.contains((room, peer)) {
        rooms
    } else {
        rooms.push((room, peer))
    }
}

/// One peer's membership of one room.
pub struct Membership {
    room: String,
    peer: String,
}

spec fn pair(m: Membership) -> (Seq<char>, Seq<char>) {
    (m.room@, m.peer@)
}

spec fn pairs(list: Seq<Membership>) -> Seq<(Seq<char>, Seq<char>)> {
    list.map_values(|m: Membership| pair(m))
}

/// Adds a membership unless it is there.
fn join_room(list: &mut Vec<Membership>, room: &str, peer: &str)
    ensures
        pairs(final(list)@) == joined(pairs(old(list)@), room@, peer@),
{
    let mut n: usize = 0;
    while n < list.len()
        invariant
            n <= list@.len(),
            *list == *old(list),
            forall|i: int| 0 <= i < n ==> pair(#[trigger] list@[i]) != (room@, peer@),
        decreases list.len() - n,
    {
        if text::same_text(list[n].room.as_str(), room) && text::same_text(
            list[n].peer.as_str(),
            peer,
        ) {
            assert(pairs(list@)[n as int] == (room@, peer@));
            return;
        }
        n = n + 1;
    }
    assert(!pairs(list@).contains((room@, peer@)));
    list.push(Membership { room: room.to_owned(), peer: peer.to_owned() });
    assert(pairs(list@) =~= pairs(old(list)@).push((room@, peer@)));
}

/// The members of a room.
fn room_members(list: &Vec<Membership>, room: &str) -> (r: Vec<String>)
    ensures
        text::names(r@) == members(pairs(list@), room@),
{
    let mut r: Vec<String> = Vec::new();
    let mut n: usize = 0;
    proof {
        reveal(Seq::filter);
    }
    assert(pairs(list@).take(0) =~= Seq::empty());
    assert(text::names(r@) =~= members(pairs(list@).take(0), room@));
    while n < list.len()
        invariant
            n <= list@.len(),
            text::names(r@) == members(pairs(list@).take(n as int), room@),
        decreases list.len() - n,
    {
        let ghost all = pairs(list@);
        proof {
            reveal(Seq::filter);
            assert(all.take(n + 1).drop_last() =~= all.take(n as int));
            assert(all.take(n + 1).last() == pair(list@[n as int]));
        }
        let ghost before = r@;
        if text::same_text(list[n].room.as_str(), room) {
            r.push(list[n].peer.clone());
            assert(text::names(r@) =~= text::names(before).push(list@[n as int].peer@));
        }
        assert(text::names(r@) =~= members(all.take(n + 1), room@));
        n = n + 1;
    }
    assert(pairs(list@).take(n as int) =~= pairs(list@));
    r
}

/// Takes a peer out of all rooms.
fn leave_rooms(list: &Vec<Membership>, peer: &str) -> (r: Vec<Membership>)
    ensures
        pairs(r@) == pairs(list@).filter(of_others(peer@)),
{
    let mut r: Vec<Membership> = Vec::new();
    let mut n: usize = 0;
    proof {
        reveal(Seq::filter);
    }
    assert(pairs(list@).take(0) =~= Seq::empty());
    assert(pairs(r@) =~= pairs(list@).take(0).filter(of_others(peer@)));
    while n < list.len()
        invariant
            n <= list@.len(),
            pairs(r@) == pairs(list@).take(n as int).filter(of_others(peer@)),
        decreases list.len() - n,
    {
        let ghost all = pairs(list@);
        proof {
            reveal(Seq::filter);
            assert(all.take(n + 1).drop_last() =~= all.take(n as int));
            assert(all.take(n + 1).last() == pair(list@[n as int]));
        }
        let ghost before = r@;
        if !text::same_text(list[n].peer.as_str(), peer) {
            r.push(Membership { room: list[n].room.clone(), peer: list[n].peer.clone() });
            assert(pairs(r@) =~= pairs(before).push(pair(list@[n as int])));
        }
        n = n + 1;
    }
    assert(pairs(list@).take(n as int) =~= pairs(list@));
    r
}

// ---- the hub ----

/// What a hub knows.
pub struct HubView {
    /// The connected peers.
    pub peers: Map<Seq<char>, PeerRecord>,
    /// Who is in which room.
    pub rooms: Seq<(Seq<char>, Seq<char>)>,
    /// Who holds which chunks.
    pub files: Map<Seq<char>, Holders>,
}

/// Connected peers, their rooms and their chunks.
pub struct SignalHub {
    peers: dashmap::DashMap<String, PeerInfo>,
    rooms: Vec<Membership>,
    chunk_tracker: ChunkTracker,
}

impl View for SignalHub {
    type V = HubView;

    closed spec fn view(&self) -> HubView {
        HubView {
            peers: peer_map(self.peers),
            rooms: pairs(self.rooms@),
            files: self.chunk_tracker@,
        }
    }
}

/// Whether the action sends a room's other members to one of them.
pub open spec fn sends_peer_list(action: Action, to: Seq<char>, peers: Seq<Seq<char>>) -> bool {
    action matches Action::Send { to: t, message: ServerMessage::PeerList { peers: p } } && t@
        == to && text::names(p@) == peers
}

/// Whether the action sends an error.
pub open spec fn sends_error(action: Action, to: Seq<char>, text: Seq<char>) -> bool {
    action matches Action::Send { to: t, message: ServerMessage::Error { message: m } } && t@ == to
        && m@ == text
}

/// Whether the action passes a payload on, unchanged, and names the sender.
pub open spec fn sends_signal(
    action: Action,
    to: Seq<char>,
    from: Seq<char>,
    payload: serde_json::Value,
) -> bool {
    action matches Action::Send { to: t, message: ServerMessage::Signal { from: f, signal: s } }
        && t@ == to && f@ == from && s == payload
}

/// Whether the action sends the requested chunks of a file, the rarest first, each
/// with its holders.
pub open spec fn sends_assignments(
    action: Action,
    to: Seq<char>,
    files: Map<Seq<char>, Holders>,
    file_hash: Seq<char>,
    requested: Seq<u32>,
) -> bool {
    action matches Action::Send {
        to: t,
        message: ServerMessage::ChunkAssignments { file_hash: f, assignments: a },
    } && t@ == to && f@ == file_hash && schedule::rarest_first(
        schedule::chunk_ids(a@),
        requested,
        tracker::rarity(files, file_hash),
    ) && tracker::assigned(a@, files, file_hash)
}

/// Whether the action sends the holders of one chunk, each once.
pub open spec fn sends_chunk_peers(
    action: Action,
    to: Seq<char>,
    files: Map<Seq<char>, Holders>,
    file_hash: Seq<char>,
    id: u32,
) -> bool {
    action matches Action::Send {
        to: t,
        message: ServerMessage::ChunkPeers { file_hash: f, chunk_id: c, peers: p },
    } && t@ == to && f@ == file_hash && c == id && text::names(p@).no_duplicates() && text::names(
        p@,
    ).to_set() == tracker::peers_of(files, file_hash, id)
}

/// The text that says that a peer is not connected.
pub open spec fn peer_not_found(id: Seq<char>) -> Seq<char> {
    "peer "@ + id + " not found"@
}

/// What a message from a peer does to the hub, and what is to be done about it.
pub open spec fn reacts(
    before: HubView,
    after: HubView,
    from: Seq<char>,
    message: SignalMessage,
    actions: Seq<Action>,
) -> bool {
    match message {
        SignalMessage::Join { room } => {
            let present = members(after.rooms, room@);
            &&& after == (HubView { rooms: joined(before.rooms, room@, from), ..before })
            &&& actions.len() == present.len()
            &&& forall|i: int|
                0 <= i < present.len() ==> sends_peer_list(
                    #[trigger] actions[i],
                    present[i],
                    present.filter(text::other_than(present[i])),
                )
        },
        SignalMessage::Signal { to, signal } => {
            &&& after == before
            &&& actions.len() == 1
            &&& if before.peers.contains_key(to@) {
                sends_signal(actions[0], to@, from, signal)
            } else {
                sends_error(actions[0], from, peer_not_found(to@))
            }
        },
        SignalMessage::Announce { files } => {
            &&& after == (HubView {
                peers: if before.peers.contains_key(from) {
                    before.peers.insert(from, (before.peers[from].0, text::names(files@)))
                } else {
                    before.peers
                },
                ..before
            })
            &&& actions.len() == files@.len()
            &&& forall|i: int|
                0 <= i < files@.len() ==> (#[trigger] actions[i] matches Action::LookUp {
                    file_hash,
                } && file_hash@ == files@[i]@)
        },
        SignalMessage::Bitfield { file_hash, bitfield, chunk_count } => {
            &&& after == (HubView {
                files: before.files.insert(
                    file_hash@,
                    tracker::with_bitfield(
                        tracker::chunks_of(before.files, file_hash@),
                        from,
                        bitfield@,
                        chunk_count,
                    ),
                ),
                ..before
            })
            &&& actions.len() == 0
        },
        SignalMessage::PipelineRequest { file_hash, chunk_ids } => {
            &&& after == before
            &&& actions.len() == 1
            &&& sends_assignments(actions[0], from, before.files, file_hash@, chunk_ids@)
        },
        SignalMessage::RequestChunk { file_hash, chunk_id } => {
            &&& after == before
            &&& actions.len() == 1
            &&& sends_chunk_peers(actions[0], from, before.files, file_hash@, chunk_id)
        },
        SignalMessage::Error { message: _ } => {
            &&& after == before
            &&& actions.len() == 0
        },
    }
}

/// What came from a peer's connection.
#[derive(Debug, Clone, Copy, PartialEq, Eq, Structural)]
pub enum Frame {
    /// A text, which should be a message.
    Text,
    /// The peer closes the connection.
    Close,
    /// The connection is broken.
    Broken,
    /// Something that is no message: bytes, or a sign of life.
    Other,
}

/// What is to be done about it.
#[derive(Debug, Clone, Copy, PartialEq, Eq, Structural)]
pub enum FrameReply {
    /// Read the text as a message and take it.
    Handle,
    /// Wait for the next frame.
    Ignore,
    /// Leave the connection and forget the peer.
    Leave,
}

/// Settles what is to be done about a frame.
pub fn after_frame(frame: Frame) -> (r: FrameReply)
    ensures
        r is Handle <==> frame is Text,
        r is Ignore <==> frame is Other,
        r is Leave <==> frame is Close || frame is Broken,
{
    match frame {
        Frame::Text => FrameReply::Handle,
        Frame::Other => FrameReply::Ignore,
        Frame::Close => FrameReply::Leave,
        Frame::Broken => FrameReply::Leave,
    }
}

/// Tells a peer that its text is no message, and why.
pub fn not_a_message(peer_id: &str, why: &str) -> (r: Action)
    ensures
        sends_error(r, peer_id@, why@),
{
    Action::Send {
        to: peer_id.to_owned(),
        message: ServerMessage::Error { message: why.to_owned() },
    }
}

/// What the hub knows after a peer has gone.
pub open spec fn departed(before: HubView, peer: Seq<char>) -> HubView {
    HubView {
        peers: before.peers.remove(peer),
        rooms: before.rooms.filter(of_others(peer)),
        files: tracker::without_peer(before.files, peer),
    }
}

impl SignalHub {
    /// The tracker keeps its own invariant.
    pub closed spec fn wf(&self) -> bool {
        self.chunk_tracker.wf()
    }

    /// A hub without peers.
    pub fn new() -> (r: Self)
        ensures
            r.wf(),
            r@.peers.dom().is_empty(),
            r@.rooms.len() == 0,
            r@.files == Map::<Seq<char>, Holders>::empty(),
    {
        SignalHub { peers: peer_map_new(), rooms: Vec::new(), chunk_tracker: ChunkTracker::new() }
    }

    /// Takes in a new peer under the given identifier and welcomes it.
    pub fn connect(&mut self, peer_id: &str, now: i64) -> (r: Vec<Action>)
        requires
            old(self).wf(),
        ensures
            final(self).wf(),
            final(self)@ == (HubView {
                peers: old(self)@.peers.insert(peer_id@, (now, Seq::empty())),
                ..old(self)@
            }),
            r@.len() == 1,
            r@[0] matches Action::Send { to, message: ServerMessage::Welcome { peer_id: id } }
                && to@ == peer_id@ && id@ == peer_id@,
    {
        let files: Vec<String> = Vec::new();
        assert(text::names(files@) =~= Seq::empty());
        peer_map_insert(
            &mut self.peers,
            PeerInfo { id: peer_id.to_owned(), connected_at: now, files },
        );
        let mut r: Vec<Action> = Vec::new();
        r.push(
            Action::Send {
                to: peer_id.to_owned(),
                message: ServerMessage::Welcome { peer_id: peer_id.to_owned() },
            },
        );
        r
    }

    /// Takes in a new peer under an identifier of its own and welcomes it.
    pub fn accept(&mut self, now: i64) -> (r: (String, Vec<Action>))
        requires
            old(self).wf(),
        ensures
            final(self).wf(),
            ids::is_random_uuid(r.0@),
            ids::is_drawn(r.0@),
            final(self)@ == (HubView {
                peers: old(self)@.peers.insert(r.0@, (now, Seq::empty())),
                ..old(self)@
            }),
            r.1@.len() == 1,
            r.1@[0] matches Action::Send { to, message: ServerMessage::Welcome { peer_id: id } }
                && to@ == r.0@ && id@ == r.0@,
    {
        let peer_id = ids::draw();
        let actions = self.connect(peer_id.as_str(), now);
        (peer_id, actions)
    }

    /// Takes a message from a peer.
    pub fn handle_message(&mut self, peer_id: &str, message: SignalMessage) -> (r: Vec<Action>)
        requires
            old(self).wf(),
        ensures
            final(self).wf(),
            reacts(old(self)@, final(self)@, peer_id@, message, r@),
    {
        let mut r: Vec<Action> = Vec::new();
        match message {
            SignalMessage::Join { room } => { self.join(peer_id, room.as_str()) },
            SignalMessage::Signal { to, signal } => {
                match peer_map_connected_at(&self.peers, to.as_str()) {
                    Some(_) => {
                        r.push(
                            Action::Send {
                                to,
                                message: ServerMessage::Signal { from: peer_id.to_owned(), signal },
                            },
                        );
                    },
                    None => {
                        let text = text::joined3("peer ", to.as_str(), " not found");
                        r.push(
                            Action::Send {
                                to: peer_id.to_owned(),
                                message: ServerMessage::Error { message: text },
                            },
                        );
                    },
                }
                r
            },
            SignalMessage::Announce { files } => { self.announce(peer_id, files) },
            SignalMessage::Bitfield { file_hash, bitfield, chunk_count } => {
                self.chunk_tracker.set_peer_bitfield(
                    file_hash.as_str(),
                    peer_id,
                    bitfield.as_slice(),
                    chunk_count,
                );
                r
            },
            SignalMessage::PipelineRequest { file_hash, chunk_ids } => {
                let assignments = self.chunk_tracker.get_rarest_chunk_assignments(
                    file_hash.as_str(),
                    chunk_ids.as_slice(),
                );
                r.push(
                    Action::Send {
                        to: peer_id.to_owned(),
                        message: ServerMessage::ChunkAssignments { file_hash, assignments },
                    },
                );
                r
            },
            SignalMessage::RequestChunk { file_hash, chunk_id } => {
                let peers = self.chunk_tracker.get_peers_for_chunk(file_hash.as_str(), chunk_id);
                r.push(
                    Action::Send {
                        to: peer_id.to_owned(),
                        message: ServerMessage::ChunkPeers { file_hash, chunk_id, peers },
                    },
                );
                r
            },
            SignalMessage::Error { message: _ } => { r },
        }
    }

    /// Puts a peer into a room and tells all who are in it.
    fn join(&mut self, peer_id: &str, room: &str) -> (r: Vec<Action>)
        requires
            old(self).wf(),
        ensures
            final(self).wf(),
            final(self)@ == (HubView {
                rooms: joined(old(self)@.rooms, room@, peer_id@),
                ..old(self)@
            }),
            r@.len() == members(final(self)@.rooms, room@).len(),
            forall|i: int|
                0 <= i < r@.len() ==> sends_peer_list(
                    #[trigger] r@[i],
                    members(final(self)@.rooms, room@)[i],
                    members(final(self)@.rooms, room@).filter(
                        text::other_than(members(final(self)@.rooms, room@)[i]),
                    ),
                ),
    {
        join_room(&mut self.rooms, room, peer_id);
        let present = room_members(&self.rooms, room);
        let ghost all = members(self@.rooms, room@);
        let mut r: Vec<Action> = Vec::new();
        let mut n: usize = 0;
        while n < present.len()
            invariant
                n <= present@.len(),
                r@.len() == n,
                text::names(present@) == all,
                forall|i: int|
                    0 <= i < n ==> sends_peer_list(
                        #[trigger] r@[i],
                        all[i],
                        all.filter(text::other_than(all[i])),
                    ),
            decreases present.len() - n,
        {
            let to = present[n].clone();
            let peers = text::without(text::copied(&present), to.as_str());
            assert(all[n as int] == to@);
            r.push(Action::Send { to, message: ServerMessage::PeerList { peers } });
            n = n + 1;
        }
        r
    }

    /// Takes note of the files that a peer has.
    fn announce(&mut self, peer_id: &str, files: Vec<String>) -> (r: Vec<Action>)
        requires
            old(self).wf(),
        ensures
            final(self).wf(),
            final(self)@ == (HubView {
                peers: if old(self)@.peers.contains_key(peer_id@) {
                    old(self)@.peers.insert(
                        peer_id@,
                        (old(self)@.peers[peer_id@].0, text::names(files@)),
                    )
                } else {
                    old(self)@.peers
                },
                ..old(self)@
            }),
            r@.len() == files@.len(),
            forall|i: int|
                0 <= i < files@.len() ==> (#[trigger] r@[i] matches Action::LookUp { file_hash }
                    && file_hash@ == files@[i]@),
    {
        let mut r: Vec<Action> = Vec::new();
        let mut n: usize = 0;
        while n < files.len()
            invariant
                n <= files@.len(),
                r@.len() == n,
                forall|i: int|
                    0 <= i < n ==> (#[trigger] r@[i] matches Action::LookUp { file_hash }
                        && file_hash@ == files@[i]@),
            decreases files.len() - n,
        {
            r.push(Action::LookUp { file_hash: files[n].clone() });
            n = n + 1;
        }
        match peer_map_connected_at(&self.peers, peer_id) {
            Some(connected_at) => {
                peer_map_insert(
                    &mut self.peers,
                    PeerInfo { id: peer_id.to_owned(), connected_at, files },
                );
            },
            None => {},
        }
        r
    }

    /// Takes the outcome of looking up a file that a peer has announced: the number
    /// of its chunks, or nothing where the server does not know the file.
    pub fn file_looked_up(&mut self, peer_id: &str, file_hash: &str, chunk_count: Option<u32>)
        requires
            old(self).wf(),
        ensures
            final(self).wf(),
            final(self)@ == match chunk_count {
                Some(count) if count > 0 => (HubView {
                    files: old(self)@.files.insert(
                        file_hash@,
                        tracker::with_seeder(
                            tracker::chunks_of(old(self)@.files, file_hash@),
                            count,
                            peer_id@,
                        ),
                    ),
                    ..old(self)@
                }),
                _ => old(self)@,
            },
    {
        match chunk_count {
            Some(count) => {
                self.chunk_tracker.add_seeder(file_hash, count, peer_id);
            },
            None => {},
        }
    }

    /// Makes the chunks of a file known that was stored and recorded, and says what the
    /// client is told.
    pub fn upload_stored(&mut self, file: CompleteFile) -> (r: UploadResponse)
        requires
            old(self).wf(),
        ensures
            final(self).wf(),
            final(self)@ == (HubView {
                files: upload::file_stored(
                    old(self)@.files,
                    file.content().hash@,
                    file.chunks(),
                ),
                ..old(self)@
            }),
            r.status@ == upload::STATUS_SUCCESS@,
            r.hash@ == file.content().hash@,
            r.size == file.content().size,
            r.chunk_count == file.chunks().len(),
    {
        file.complete(&mut self.chunk_tracker)
    }

    /// Forgets a peer that has disconnected.
    pub fn disconnect(&mut self, peer_id: &str)
        requires
            old(self).wf(),
        ensures
            final(self).wf(),
            final(self)@ == departed(old(self)@, peer_id@),
    {
        peer_map_remove(&mut self.peers, peer_id);
        self.rooms = leave_rooms(&self.rooms, peer_id);
        self.chunk_tracker.remove_peer(peer_id);
    }

    /// The number of connected peers.
    pub fn peer_count(&self) -> (r: usize)
        ensures
            has_size(self@.peers, r as nat),
    {
        peer_map_len(&self.peers)
    }

    /// Which peers hold which chunks.
    pub fn chunk_tracker(&self) -> (r: &ChunkTracker)
        requires
            self.wf(),
        ensures
            r.wf(),
            r@ == self@.files,
    {
        &self.chunk_tracker
    }

    /// The connected peers, in no particular order.
    pub fn list_peers(&self) -> (r: Vec<PeerInfo>)
        ensures
            lists_peers(r@, self@.peers),
    {
        let mut entries = peer_map_entries(&self.peers);
        let ghost all = entries@;
        let mut r: Vec<PeerInfo> = Vec::new();
        while entries.len() > 0
            invariant
                entries@.len() <= all.len(),
                entries@ == all.take(entries@.len() as int),
                r@.len() == all.len() - entries@.len(),
                forall|i: int|
                    0 <= i < r@.len() ==> {
                        &&& (#[trigger] r@[i]).id@ == all[all.len() - 1 - i].0@
                        &&& r@[i].connected_at == all[all.len() - 1 - i].1
                        &&& r@[i].files@ == all[all.len() - 1 - i].2@
                    },
            decreases entries.len(),
        {
            let ghost before = entries@;
            let entry = entries.pop().unwrap();
            assert(entry == all[before.len() - 1]);
            assert(entries@ =~= all.take(entries@.len() as int));
            let (id, connected_at, files) = entry;
            r.push(PeerInfo { id, connected_at, files });
        }
        assert forall|i: int| 0 <= i < r@.len() implies self@.peers.contains_key(
            (#[trigger] r@[i]).id@,
        ) && self@.peers[r@[i].id@] == peer_record(r@[i]) by {
            assert(self@.peers.contains_key(all[all.len() - 1 - i].0@));
            assert(text::names(r@[i].files@) == text::names(all[all.len() - 1 - i].2@));
        }
        assert forall|i: int, j: int| 0 <= i < j < r@.len() implies (#[trigger] r@[i]).id@ != (
        #[trigger] r@[j]).id@ by {
            assert(all[all.len() - 1 - j].0@ != all[all.len() - 1 - i].0@);
        }
        assert forall|id: Seq<char>| #[trigger] self@.peers.contains_key(id) implies exists|
            i: int,
        |
            0 <= i < r@.len() && (#[trigger] r@[i]).id@ == id by {
            let k = choose|k: int| 0 <= k < all.len() && (#[trigger] all[k]).0@ == id;
            assert(r@[all.len() - 1 - k].id@ == id);
        }
        r
    }
}

// ---- laws ----

/// Whether everyone who is in a room is connected.
pub open spec fn members_connected(hub: HubView) -> bool {
    forall|i: int|
        0 <= i < hub.rooms.len() ==> hub.peers.contains_key((#[trigger] hub.rooms[i]).1)
}

/// Whether nobody is in a room twice.
pub open spec fn members_once(hub: HubView) -> bool {
    hub.rooms.no_duplicates()
}

/// No room ever lists a peer that is not connected, or one peer twice: it holds of a
/// hub without peers, and a connecting peer, a message from a connected peer and a
/// departing peer keep it so.
pub proof fn law_rooms_hold_connected_peers(
    before: HubView,
    after: HubView,
    peer: Seq<char>,
    record: PeerRecord,
    message: SignalMessage,
    actions: Seq<Action>,
)
    requires
        members_connected(before),
        members_once(before),
    ensures
        members_connected(HubView { peers: before.peers.insert(peer, record), ..before }),
        members_once(HubView { peers: before.peers.insert(peer, record), ..before }),
        before.peers.contains_key(peer) && reacts(before, after, peer, message, actions)
            ==> members_connected(after) && members_once(after),
        members_connected(departed(before, peer)),
        members_once(departed(before, peer)),
{
    let gone = departed(before, peer);
    lemma_kept_rooms(before.rooms, peer);
    assert forall|i: int| 0 <= i < gone.rooms.len() implies gone.peers.contains_key(
        (#[trigger] gone.rooms[i]).1,
    ) by {
        let k = choose|k: int| 0 <= k < before.rooms.len() && before.rooms[k] == gone.rooms[i];
        assert(before.peers.contains_key(before.rooms[k].1));
    }
    if before.peers.contains_key(peer) && reacts(before, after, peer, message, actions) {
        match message {
            SignalMessage::Join { room } => {
                let pair = (room@, peer);
                assert forall|i: int| 0 <= i < after.rooms.len() implies after.peers.contains_key(
                    (#[trigger] after.rooms[i]).1,
                ) by {
                    if i < before.rooms.len() {
                        assert(after.rooms[i] == before.rooms[i]);
                    }
                }
                assert forall|i: int, j: int|
                    0 <= i < after.rooms.len() && 0 <= j < after.rooms.len() && i
                        != j implies after.rooms[i] != after.rooms[j] by {
                    if !before.rooms.contains(pair) {
                        if i == before.rooms.len() {
                            assert(before.rooms.contains(before.rooms[j]));
                        }
                        if j == before.rooms.len() {
                            assert(before.rooms.contains(before.rooms[i]));
                        }
                    }
                }
            },
            _ => {
                assert(after.rooms == before.rooms);
            },
        }
    }
}

/// What is left of the memberships when a peer has gone: those of the others.
proof fn lemma_kept_rooms(rooms: Seq<(Seq<char>, Seq<char>)>, peer: Seq<char>)
    ensures
        forall|i: int|
            0 <= i < rooms.filter(of_others(peer)).len() ==> {
                &&& (#[trigger] rooms.filter(of_others(peer))[i]).1 != peer
                &&& rooms.contains(rooms.filter(of_others(peer))[i])
            },
        forall|m: (Seq<char>, Seq<char>)| #[trigger]
            rooms.contains(m) && m.1 != peer ==> rooms.filter(of_others(peer)).contains(m),
        rooms.no_duplicates() ==> rooms.filter(of_others(peer)).no_duplicates(),
    decreases rooms.len(),
{
    reveal(Seq::filter);
    let kept = rooms.filter(of_others(peer));
    if rooms.len() > 0 {
        let front = rooms.drop_last();
        let rest = front.filter(of_others(peer));
        lemma_kept_rooms(front, peer);
        assert(rooms =~= front.push(rooms.last()));
        assert forall|i: int| 0 <= i < kept.len() implies (#[trigger] kept[i]).1 != peer
            && rooms.contains(kept[i]) by {
            if i < rest.len() {
                assert(kept[i] == rest[i]);
                let k = choose|k: int| 0 <= k < front.len() && front[k] == rest[i];
                assert(rooms[k] == kept[i]);
            } else {
                assert(rooms[rooms.len() - 1] == kept[i]);
            }
        }
        assert forall|m: (Seq<char>, Seq<char>)| #[trigger]
            rooms.contains(m) && m.1 != peer implies kept.contains(m) by {
            let k = choose|k: int| 0 <= k < rooms.len() && rooms[k] == m;
            if k < front.len() {
                assert(front[k] == m);
                assert(rest.contains(m));
                let i = choose|i: int| 0 <= i < rest.len() && rest[i] == m;
                assert(kept[i] == m);
            } else {
                assert(kept.last() == m);
            }
        }
        if rooms.no_duplicates() {
            assert forall|i: int, j: int|
                0 <= i < front.len() && 0 <= j < front.len() && i != j implies front[i]
                != front[j] by {
                assert(rooms[i] != rooms[j]);
            }
            assert forall|i: int, j: int|
                0 <= i < kept.len() && 0 <= j < kept.len() && i != j implies kept[i]
                != kept[j] by {
                if i < rest.len() && j < rest.len() {
                    assert(rest[i] != rest[j]);
                } else {
                    let k = if i < rest.len() {
                        i
                    } else {
                        j
                    };
                    assert(front.contains(rest[k]));
                    let f = choose|f: int| 0 <= f < front.len() && front[f] == rest[k];
                    assert(rooms[f] != rooms[rooms.len() - 1]);
                }
            }
        }
    }
}

/// A peer that has gone is not connected, is in no room and holds no chunk. The other
/// peers are still connected, in their rooms and holding their chunks.
pub proof fn law_departed_peer_leaves_no_trace(
    before: HubView,
    gone: Seq<char>,
    other: Seq<char>,
    room: Seq<char>,
    file_hash: Seq<char>,
    id: u32,
)
    ensures
        !departed(before, gone).peers.contains_key(gone),
        !departed(before, gone).rooms.contains((room, gone)),
        !tracker::peers_of(departed(before, gone).files, file_hash, id).contains(gone),
        other != gone ==> {
            &&& departed(before, gone).peers.contains_key(other)
                <==> before.peers.contains_key(other)
            &&& departed(before, gone).rooms.contains((room, other))
                <==> before.rooms.contains((room, other))
            &&& tracker::peers_of(departed(before, gone).files, file_hash, id).contains(other)
                <==> tracker::peers_of(before.files, file_hash, id).contains(other)
        },
{
    lemma_kept_rooms(before.rooms, gone);
    tracker::law_removed_peer_leaves_no_trace(before.files, gone, other, file_hash, id);
    let kept = before.rooms.filter(of_others(gone));
    if kept.contains((room, gone)) {
        let i = choose|i: int| 0 <= i < kept.len() && kept[i] == (room, gone);
        assert(kept[i].1 != gone);
    }
    if kept.contains((room, other)) {
        let i = choose|i: int| 0 <= i < kept.len() && kept[i] == (room, other);
        assert(before.rooms.contains(kept[i]));
    }
}

/// A message changes only what is known of its sender: who else is connected, in which rooms
/// and with which chunks, stays as it was.
pub proof fn law_message_concerns_its_sender(
    before: HubView,
    after: HubView,
    from: Seq<char>,
    message: SignalMessage,
    actions: Seq<Action>,
    other: Seq<char>,
    room: Seq<char>,
    file_hash: Seq<char>,
    id: u32,
)
    requires
        reacts(before, after, from, message, actions),
        other != from,
    ensures
        after.peers.dom() == before.peers.dom(),
        before.peers.contains_key(other) ==> after.peers[other] == before.peers[other],
        after.rooms.contains((room, other)) <==> before.rooms.contains((room, other)),
        tracker::peers_of(after.files, file_hash, id).contains(other) <==> tracker::peers_of(
            before.files,
            file_hash,
            id,
        ).contains(other),
{
    assert(after.peers.dom() =~= before.peers.dom());
    match message {
        SignalMessage::Join { room: joined_room } => {
            if before.rooms.contains((room, other)) {
                let k = choose|k: int|
                    0 <= k < before.rooms.len() && before.rooms[k] == (room, other);
                assert(after.rooms[k] == (room, other));
            }
            if after.rooms.contains((room, other)) {
                let k = choose|k: int|
                    0 <= k < after.rooms.len() && after.rooms[k] == (room, other);
                assert(k < before.rooms.len());
                assert(before.rooms[k] == (room, other));
            }
        },
        SignalMessage::Bitfield { file_hash: declared_for, bitfield, chunk_count } => {
            let chunks = tracker::chunks_of(before.files, declared_for@);
            tracker::law_bitfield_is_taken_over(chunks, from, other, bitfield@, chunk_count, id);
            if file_hash != declared_for@ {
                tracker::law_files_are_independent(
                    before.files,
                    declared_for@,
                    tracker::with_bitfield(chunks, from, bitfield@, chunk_count),
                    file_hash,
                    id,
                );
            }
        },
        _ => {},
    }
}

/// Being in a room is the same as being among its members.
proof fn lemma_members(rooms: Seq<(Seq<char>, Seq<char>)>, room: Seq<char>, peer: Seq<char>)
    ensures
        members(rooms, room).contains(peer) <==> rooms.contains((room, peer)),
{
    let kept = rooms.filter(in_room(room));
    let all = members(rooms, room);
    if all.contains(peer) {
        let i = choose|i: int| 0 <= i < all.len() && all[i] == peer;
        assert(kept[i].1 == peer);
        rooms.lemma_filter_pred(in_room(room), i);
        assert(kept.contains(kept[i]));
        rooms.lemma_filter_contains_rev(in_room(room), kept[i]);
        assert(kept[i] == (room, peer));
    }
    if rooms.contains((room, peer)) {
        let k = choose|k: int| 0 <= k < rooms.len() && rooms[k] == (room, peer);
        rooms.lemma_filter_contains(in_room(room), k);
        let i = choose|i: int| 0 <= i < kept.len() && kept[i] == (room, peer);
        assert(all[i] == peer);
    }
}

/// When a peer joins a room, everyone who is in it then, the newcomer as well, is
/// sent the others: each of them, and never the one who is told.
pub proof fn law_join_is_told_to_the_room(
    before: HubView,
    after: HubView,
    peer: Seq<char>,
    room: String,
    actions: Seq<Action>,
    member: Seq<char>,
    other: Seq<char>,
)
    requires
        reacts(before, after, peer, SignalMessage::Join { room }, actions),
        member == peer || before.rooms.contains((room@, member)),
    ensures
        exists|i: int|
            0 <= i < actions.len() && (#[trigger] actions[i] matches Action::Send {
                to,
                message: ServerMessage::PeerList { peers },
            } && to@ == member && (text::names(peers@).contains(other) <==> (other != member && (
            other == peer || before.rooms.contains((room@, other)))))),
{
    let all = members(after.rooms, room@);
    assert(after.rooms.contains((room@, member))) by {
        if !before.rooms.contains((room@, peer)) {
            assert(after.rooms[before.rooms.len() as int] == (room@, peer));
            if member != peer {
                let k = choose|k: int|
                    0 <= k < before.rooms.len() && before.rooms[k] == (room@, member);
                assert(after.rooms[k] == (room@, member));
            }
        }
    }
    assert(after.rooms.contains((room@, other)) <==> (other == peer || before.rooms.contains(
        (room@, other),
    ))) by {
        if before.rooms.contains((room@, other)) {
            let k = choose|k: int|
                0 <= k < before.rooms.len() && before.rooms[k] == (room@, other);
            assert(after.rooms[k] == (room@, other));
        }
        if !before.rooms.contains((room@, peer)) {
            assert(after.rooms[before.rooms.len() as int] == (room@, peer));
        }
    }
    lemma_members(after.rooms, room@, member);
    lemma_members(after.rooms, room@, other);
    let i = choose|i: int| 0 <= i < all.len() && all[i] == member;
    assert(sends_peer_list(actions[i], all[i], all.filter(text::other_than(all[i]))));
    text::lemma_without(all, member);
    assert(all.filter(text::other_than(member)).to_set().contains(other) <==> all.to_set().remove(
        member,
    ).contains(other));
}

/// A peer that asks who has a chunk is sent one answer, for that file and that chunk: a peer
/// is in it, once, if and only if it holds that chunk of that file. Nothing else happens.
pub proof fn law_chunk_request_names_its_holders(
    before: HubView,
    after: HubView,
    from: Seq<char>,
    file_hash: String,
    chunk_id: u32,
    actions: Seq<Action>,
    peer: Seq<char>,
)
    requires
        reacts(
            before,
            after,
            from,
            SignalMessage::RequestChunk { file_hash, chunk_id },
            actions,
        ),
    ensures
        after == before,
        actions.len() == 1,
        actions[0] matches Action::Send {
            to,
            message: ServerMessage::ChunkPeers { file_hash: f, chunk_id: c, peers },
        } && to@ == from && f@ == file_hash@ && c == chunk_id && text::names(
            peers@,
        ).no_duplicates() && (text::names(peers@).contains(peer) <==> before.files.contains_key(
            file_hash@,
        ) && before.files[file_hash@].contains_key(chunk_id)
            && before.files[file_hash@][chunk_id].contains(peer)),
{
    tracker::law_holders_are_kept_by_file_and_chunk(before.files, file_hash@, chunk_id, peer);
    match actions[0] {
        Action::Send { to: _, message: ServerMessage::ChunkPeers { file_hash: _, chunk_id: _, peers } } => {
            assert(text::names(peers@).to_set().contains(peer) <==> text::names(peers@).contains(
                peer,
            ));
        },
        _ => {},
    }
}

/// A peer that declares its chunks with a bitmap and is then asked for by chunk is named for a
/// chunk below the count if and only if its bitmap has the bit of that chunk.
pub proof fn law_declared_chunks_are_answered(
    before: HubView,
    between: HubView,
    after: HubView,
    declarer: Seq<char>,
    asker: Seq<char>,
    file_hash: String,
    bitfield: Vec<u8>,
    chunk_count: u32,
    chunk_id: u32,
    nothing: Seq<Action>,
    actions: Seq<Action>,
)
    requires
        reacts(
            before,
            between,
            declarer,
            SignalMessage::Bitfield { file_hash, bitfield, chunk_count },
            nothing,
        ),
        reacts(
            between,
            after,
            asker,
            SignalMessage::RequestChunk { file_hash, chunk_id },
            actions,
        ),
        chunk_id < chunk_count,
    ensures
        nothing.len() == 0,
        actions.len() == 1,
        actions[0] matches Action::Send {
            to,
            message: ServerMessage::ChunkPeers { file_hash: f, chunk_id: c, peers },
        } && to@ == asker && f@ == file_hash@ && c == chunk_id && (text::names(peers@).contains(
            declarer,
        ) <==> crate::bitfield::has_bit(bitfield@, chunk_id as int)),
{
    law_chunk_request_names_its_holders(
        between,
        after,
        asker,
        file_hash,
        chunk_id,
        actions,
        declarer,
    );
    tracker::law_holders_are_kept_by_file_and_chunk(
        between.files,
        file_hash@,
        chunk_id,
        declarer,
    );
    tracker::law_bitfield_is_taken_over(
        tracker::chunks_of(before.files, file_hash@),
        declarer,
        declarer,
        bitfield@,
        chunk_count,
        chunk_id,
    );
}

/// A bitmap sets what its sender holds of one file and changes nothing else: below the count
/// its sender holds what it declares and no more, and from there on what it held; others hold
/// what they held; other files, the rooms and the connections are as before, and nobody is
/// told.
pub proof fn law_bitfield_sets_what_its_sender_holds(
    before: HubView,
    after: HubView,
    from: Seq<char>,
    file_hash: String,
    bitfield: Vec<u8>,
    chunk_count: u32,
    actions: Seq<Action>,
    other: Seq<char>,
    other_file: Seq<char>,
    id: u32,
)
    requires
        reacts(
            before,
            after,
            from,
            SignalMessage::Bitfield { file_hash, bitfield, chunk_count },
            actions,
        ),
    ensures
        actions.len() == 0,
        after.peers == before.peers,
        after.rooms == before.rooms,
        id < chunk_count ==> (tracker::peers_of(after.files, file_hash@, id).contains(from)
            <==> crate::bitfield::has_bit(bitfield@, id as int)),
        id >= chunk_count ==> (tracker::peers_of(after.files, file_hash@, id).contains(from)
            <==> tracker::peers_of(before.files, file_hash@, id).contains(from)),
        other != from ==> (tracker::peers_of(after.files, file_hash@, id).contains(other)
            <==> tracker::peers_of(before.files, file_hash@, id).contains(other)),
        other_file != file_hash@ ==> (after.files.contains_key(other_file)
            <==> before.files.contains_key(other_file)),
        other_file != file_hash@ && before.files.contains_key(other_file)
            ==> after.files[other_file] == before.files[other_file],
{
    let chunks = tracker::chunks_of(before.files, file_hash@);
    tracker::law_bitfield_is_taken_over(chunks, from, other, bitfield@, chunk_count, id);
    tracker::law_holders_are_kept_by_file_and_chunk(after.files, file_hash@, id, from);
    tracker::law_holders_are_kept_by_file_and_chunk(after.files, file_hash@, id, other);
}

/// A peer that asks for a window of chunks is sent one answer, for that file: as many
/// assignments as chunks were asked for and each chunk as often, never one with more peers
/// before one with fewer, and with each chunk those who hold it. Nothing else happens.
pub proof fn law_pipeline_request_is_answered_rarest_first(
    before: HubView,
    after: HubView,
    from: Seq<char>,
    file_hash: String,
    chunk_ids: Vec<u32>,
    actions: Seq<Action>,
)
    requires
        reacts(
            before,
            after,
            from,
            SignalMessage::PipelineRequest { file_hash, chunk_ids },
            actions,
        ),
    ensures
        after == before,
        actions.len() == 1,
        actions[0] matches Action::Send {
            to,
            message: ServerMessage::ChunkAssignments { file_hash: f, assignments },
        } && to@ == from && f@ == file_hash@ && assignments@.len() == chunk_ids@.len() && (forall|
            i: int,
            j: int,
        |
            0 <= i <= j < assignments@.len() ==> (#[trigger] assignments@[i]).peers@.len() <= (
            #[trigger] assignments@[j]).peers@.len()) && (forall|i: int, peer: Seq<char>|
            0 <= i < assignments@.len() ==> (#[trigger] text::names(
                assignments@[i].peers@,
            ).contains(peer) <==> before.files.contains_key(file_hash@)
                && before.files[file_hash@].contains_key(assignments@[i].chunk_id)
                && before.files[file_hash@][assignments@[i].chunk_id].contains(peer)))
            && assignments@.map_values(|a: ChunkAssignment| a.chunk_id).to_multiset()
            == chunk_ids@.to_multiset(),
{
    match actions[0] {
        Action::Send {
            to: _,
            message: ServerMessage::ChunkAssignments { file_hash: _, assignments },
        } => {
            tracker::law_fewest_peers_come_first(
                assignments@,
                chunk_ids@,
                before.files,
                file_hash@,
            );
        },
        _ => {},
    }
}

/// A signal goes to the peer that it is for, if that one is connected, with the payload as it
/// came and the name of its sender, and to nobody else. Otherwise its sender is told that the
/// peer is not there. The hub knows what it knew.
pub proof fn law_signal_is_passed_on_unchanged(
    before: HubView,
    after: HubView,
    from: Seq<char>,
    to: String,
    signal: serde_json::Value,
    actions: Seq<Action>,
)
    requires
        reacts(before, after, from, SignalMessage::Signal { to, signal }, actions),
    ensures
        after == before,
        actions.len() == 1,
        before.peers.contains_key(to@) ==> (actions[0] matches Action::Send {
            to: addressee,
            message: ServerMessage::Signal { from: sender, signal: payload },
        } && addressee@ == to@ && sender@ == from && payload == signal),
        !before.peers.contains_key(to@) ==> (actions[0] matches Action::Send {
            to: addressee,
            message: ServerMessage::Error { message },
        } && addressee@ == from && message@ == "peer "@ + to@ + " not found"@),
{
}

/// Files that a connected peer announces take the place of what it announced before, and each
/// of them is looked up, in order. When it connected, and all that is known of others, stays.
/// One who is not connected leaves no record.
pub proof fn law_announcement_is_recorded_and_looked_up(
    before: HubView,
    after: HubView,
    from: Seq<char>,
    files: Vec<String>,
    actions: Seq<Action>,
    other: Seq<char>,
)
    requires
        reacts(before, after, from, SignalMessage::Announce { files }, actions),
    ensures
        after.rooms == before.rooms,
        after.files == before.files,
        after.peers.contains_key(other) <==> before.peers.contains_key(other),
        other != from && before.peers.contains_key(other) ==> after.peers[other]
            == before.peers[other],
        before.peers.contains_key(from) ==> after.peers[from].0 == before.peers[from].0
            && after.peers[from].1.len() == files@.len() && forall|i: int|
            0 <= i < files@.len() ==> #[trigger] after.peers[from].1[i] == files@[i]@,
        actions.len() == files@.len(),
        forall|i: int|
            0 <= i < files@.len() ==> (#[trigger] actions[i] matches Action::LookUp { file_hash }
                && file_hash@ == files@[i]@),
{
    text::law_names_are_those_of_the_list(files@);
}

/// An error that a peer reports changes nothing and is told to nobody.
pub proof fn law_reported_error_changes_nothing(
    before: HubView,
    after: HubView,
    from: Seq<char>,
    message: String,
    actions: Seq<Action>,
)
    requires
        reacts(before, after, from, SignalMessage::Error { message }, actions),
    ensures
        after == before,
        actions.len() == 0,
{
}

/// Joining a room makes the peer a member of that room and changes nothing else. Whoever is
/// told is a member of the room, and is sent peers of that room and nothing else; where nobody
/// was a member twice, nobody is told twice.
pub proof fn law_join_concerns_one_room(
    before: HubView,
    after: HubView,
    peer: Seq<char>,
    room: String,
    actions: Seq<Action>,
    any_room: Seq<char>,
    any_peer: Seq<char>,
)
    requires
        reacts(before, after, peer, SignalMessage::Join { room }, actions),
    ensures
        after.peers == before.peers,
        after.files == before.files,
        after.rooms.contains((any_room, any_peer)) <==> before.rooms.contains((any_room, any_peer))
            || (any_room == room@ && any_peer == peer),
        forall|i: int|
            0 <= i < actions.len() ==> (#[trigger] actions[i] matches Action::Send {
                to,
                message: ServerMessage::PeerList { peers },
            } && after.rooms.contains((room@, to@)) && !text::names(peers@).contains(to@)),
        before.rooms.no_duplicates() ==> forall|i: int, j: int|
            0 <= i < j < actions.len() ==> (#[trigger] actions[i] matches Action::Send {
                to: a,
                message: _,
            } && #[trigger] actions[j] matches Action::Send { to: b, message: _ } ==> a@ != b@),
{
    let all = members(after.rooms, room@);
    lemma_joined(before.rooms, room@, peer, (any_room, any_peer));
    assert forall|i: int| 0 <= i < actions.len() implies (
    #[trigger] actions[i] matches Action::Send { to, message: ServerMessage::PeerList { peers } }
        && after.rooms.contains((room@, to@)) && !text::names(peers@).contains(to@)) by {
        assert(sends_peer_list(actions[i], all[i], all.filter(text::other_than(all[i]))));
        assert(all.contains(all[i]));
        lemma_members(after.rooms, room@, all[i]);
        text::lemma_without(all, all[i]);
        let others = all.filter(text::other_than(all[i]));
        assert(others.to_set().contains(all[i]) <==> others.contains(all[i]));
    }
    if before.rooms.no_duplicates() {
        lemma_joined_once(before.rooms, room@, peer);
        lemma_members_once(after.rooms, room@);
        assert forall|i: int, j: int|
            0 <= i < j < actions.len() implies (#[trigger] actions[i] matches Action::Send {
            to: a,
            message: _,
        } && #[trigger] actions[j] matches Action::Send { to: b, message: _ } ==> a@ != b@) by {
            assert(sends_peer_list(actions[i], all[i], all.filter(text::other_than(all[i]))));
            assert(sends_peer_list(actions[j], all[j], all.filter(text::other_than(all[j]))));
            assert(all[i] != all[j]);
        }
    }
}

/// One more membership, unless it was there.
proof fn lemma_joined(
    rooms: Seq<(Seq<char>, Seq<char>)>,
    room: Seq<char>,
    peer: Seq<char>,
    m: (Seq<char>, Seq<char>),
)
    ensures
        joined(rooms, room, peer).contains(m) <==> rooms.contains(m) || m == (room, peer),
{
    let now = joined(rooms, room, peer);
    if rooms.contains(m) {
        let k = choose|k: int| 0 <= k < rooms.len() && rooms[k] == m;
        assert(now[k] == m);
    }
    if !rooms.contains((room, peer)) {
        assert(now[rooms.len() as int] == (room, peer));
        if now.contains(m) {
            let k = choose|k: int| 0 <= k < now.len() && now[k] == m;
            if k < rooms.len() {
                assert(rooms[k] == m);
            }
        }
    }
}

/// Nobody becomes a member twice.
proof fn lemma_joined_once(
    rooms: Seq<(Seq<char>, Seq<char>)>,
    room: Seq<char>,
    peer: Seq<char>,
)
    requires
        rooms.no_duplicates(),
    ensures
        joined(rooms, room, peer).no_duplicates(),
{
    let now = joined(rooms, room, peer);
    assert forall|i: int, j: int|
        0 <= i < now.len() && 0 <= j < now.len() && i != j implies now[i] != now[j] by {
        if !rooms.contains((room, peer)) {
            if i == rooms.len() {
                assert(rooms.contains(rooms[j]));
            }
            if j == rooms.len() {
                assert(rooms.contains(rooms[i]));
            }
        }
    }
}

/// Where no membership is there twice, no room has a member twice.
proof fn lemma_members_once(rooms: Seq<(Seq<char>, Seq<char>)>, room: Seq<char>)
    requires
        rooms.no_duplicates(),
    ensures
        members(rooms, room).no_duplicates(),
    decreases rooms.len(),
{
    reveal(Seq::filter);
    let all = members(rooms, room);
    if rooms.len() > 0 {
        let front = rooms.drop_last();
        let last = rooms.last();
        assert forall|i: int, j: int|
            0 <= i < front.len() && 0 <= j < front.len() && i != j implies front[i]
            != front[j] by {
            assert(rooms[i] != rooms[j]);
        }
        lemma_members_once(front, room);
        let rest = members(front, room);
        if last.0 == room {
            assert(all =~= rest.push(last.1));
            assert(!rest.contains(last.1)) by {
                lemma_members(front, room, last.1);
                if rest.contains(last.1) {
                    let k = choose|k: int| 0 <= k < front.len() && front[k] == (room, last.1);
                    assert(rooms[k] == rooms[rooms.len() - 1]);
                }
            }
            text::lemma_pushed(rest, last.1);
        } else {
            assert(all =~= rest);
        }
    }
}

/// A list of the connected peers has each of them once and nobody else, each with the time
/// when it connected and the files that it has announced, in order. There are as many as the
/// hub counts.
pub proof fn law_listed_peers_are_the_connected_ones(
    list: Seq<PeerInfo>,
    peers: Map<Seq<char>, PeerRecord>,
    size: nat,
    id: Seq<char>,
)
    requires
        lists_peers(list, peers),
        has_size(peers, size),
    ensures
        peers.contains_key(id) <==> exists|i: int| 0 <= i < list.len() && #[trigger] list[i].id@ == id,
        forall|i: int|
            0 <= i < list.len() ==> peers[(#[trigger] list[i]).id@].0 == list[i].connected_at
                && peers[list[i].id@].1.len() == list[i].files@.len() && forall|k: int|
                0 <= k < list[i].files@.len() ==> #[trigger] peers[list[i].id@].1[k]
                    == list[i].files@[k]@,
        list.len() == size,
{
    assert forall|i: int|
        0 <= i < list.len() implies peers[(#[trigger] list[i]).id@].0 == list[i].connected_at
        && peers[list[i].id@].1.len() == list[i].files@.len() && forall|k: int|
        0 <= k < list[i].files@.len() ==> #[trigger] peers[list[i].id@].1[k]
            == list[i].files@[k]@ by {
        assert(peers[list[i].id@] == peer_record(list[i]));
        text::law_names_are_those_of_the_list(list[i].files@);
    }
    let ids = list.map_values(|p: PeerInfo| p.id@);
    assert(ids.no_duplicates()) by {
        assert forall|i: int, j: int|
            0 <= i < ids.len() && 0 <= j < ids.len() && i != j implies ids[i] != ids[j] by {
            if i < j {
                assert(list[i].id@ != list[j].id@);
            } else {
                assert(list[j].id@ != list[i].id@);
            }
        }
    }
    ids.unique_seq_to_set();
    assert(ids.to_set() =~= peers.dom()) by {
        assert forall|x: Seq<char>| ids.to_set().contains(x) <==> peers.dom().contains(x) by {
            if ids.contains(x) {
                let i = choose|i: int| 0 <= i < ids.len() && ids[i] == x;
                assert(peers.contains_key(list[i].id@));
            }
            if peers.contains_key(x) {
                let i = choose|i: int| 0 <= i < list.len() && (#[trigger] list[i]).id@ == x;
                assert(ids[i] == x);
            }
        }
    }
}

} // verus!
