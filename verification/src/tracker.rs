//! Which peers hold which chunks of which files.

use vstd::prelude::*;

use crate::bitfield;
use crate::schedule;
use crate::schedule::ChunkAssignment;
use crate::text;

verus! {

// ---- the maps ----

#[verifier::external_type_specification]
#[verifier::external_body]
#[verifier::reject_recursive_types(K)]
#[verifier::reject_recursive_types(V)]
#[verifier::reject_recursive_types(S)]
pub struct ExDashMap<K, V, S>(dashmap::DashMap<K, V, S>);

/// What a map from chunks to their peers holds.
pub uninterp spec fn chunk_map(m: dashmap::DashMap<u32, Vec<String>>) -> Map<u32, Seq<Seq<char>>>;

/// What a map from files to their chunks holds.
pub uninterp spec fn file_map(
    m: dashmap::DashMap<String, dashmap::DashMap<u32, Vec<String>>>,
) -> Map<Seq<char>, Map<u32, Seq<Seq<char>>>>;

/// Calls `dashmap::DashMap::new`. The map holds nothing.
#[verifier::external_body]
fn chunk_map_new() -> (r: dashmap::DashMap<u32, Vec<String>>)
    ensures
        chunk_map(r).dom().is_empty(),
{
    dashmap::DashMap::new()
}

/// Calls `dashmap::DashMap::insert`. The entry for the key, if there was one, is
/// replaced, and the other entries stay.
#[verifier::external_body]
fn chunk_map_insert(m: &mut dashmap::DashMap<u32, Vec<String>>, id: u32, peers: Vec<String>)
    ensures
        chunk_map(*final(m)) == chunk_map(*old(m)).insert(id, text::names(peers@)),
{
    m.insert(id, peers);
}

/// Calls `dashmap::DashMap::get` and copies the value out. There is one if and
/// only if the map has an entry for the key.
#[verifier::external_body]
fn chunk_map_get(m: &dashmap::DashMap<u32, Vec<String>>, id: u32) -> (r: Option<Vec<String>>)
    ensures
        r.is_some() == chunk_map(*m).contains_key(id),
        r.is_some() ==> text::names(r.unwrap()@) == chunk_map(*m)[id],
{
    m.get(&id).map(|entry| entry.value().clone())
}

/// Calls `dashmap::DashMap::iter` and copies the keys out. Each key comes once.
/// Nothing is said of their order, which the map leaves open.
#[verifier::external_body]
fn chunk_map_keys(m: &dashmap::DashMap<u32, Vec<String>>) -> (r: Vec<u32>)
    ensures
        r@.no_duplicates(),
        r@.to_set() == chunk_map(*m).dom(),
{
    m.iter().map(|entry| *entry.key()).collect()
}

/// Calls `dashmap::DashMap::new`. The map holds nothing.
#[verifier::external_body]
fn file_map_new() -> (r: dashmap::DashMap<String, dashmap::DashMap<u32, Vec<String>>>)
    ensures
        file_map(r).dom().is_empty(),
{
    dashmap::DashMap::new()
}

/// Calls `dashmap::DashMap::insert`. The entry for the key, if there was one, is
/// replaced, and the other entries stay.
#[verifier::external_body]
fn file_map_insert(
    m: &mut dashmap::DashMap<String, dashmap::DashMap<u32, Vec<String>>>,
    file_hash: &str,
    chunks: dashmap::DashMap<u32, Vec<String>>,
)
    ensures
        file_map(*final(m)) == file_map(*old(m)).insert(file_hash@, chunk_map(chunks)),
{
    m.insert(file_hash.to_string(), chunks);
}

/// Calls `dashmap::DashMap::remove`. The entry for the key leaves the map and its
/// value is handed out, if and only if there was one.
#[verifier::external_body]
fn file_map_remove(
    m: &mut dashmap::DashMap<String, dashmap::DashMap<u32, Vec<String>>>,
    file_hash: &str,
) -> (r: Option<dashmap::DashMap<u32, Vec<String>>>)
    ensures
        r.is_some() == file_map(*old(m)).contains_key(file_hash@),
        r.is_some() ==> chunk_map(r.unwrap()) == file_map(*old(m))[file_hash@],
        file_map(*final(m)) == file_map(*old(m)).remove(file_hash@),
{
    m.remove(file_hash).map(|entry| entry.1)
}

/// Calls `dashmap::DashMap::get` and copies the value out. There is one if and
/// only if the map has an entry for the key.
#[verifier::external_body]
fn file_map_get(
    m: &dashmap::DashMap<String, dashmap::DashMap<u32, Vec<String>>>,
    file_hash: &str,
) -> (r: Option<dashmap::DashMap<u32, Vec<String>>>)
    ensures
        r.is_some() == file_map(*m).contains_key(file_hash@),
        r.is_some() ==> chunk_map(r.unwrap()) == file_map(*m)[file_hash@],
{
    m.get(file_hash).map(|entry| entry.value().clone())
}

/// Calls `dashmap::DashMap::iter` and copies the keys out. Each key comes once.
/// Nothing is said of their order, which the map leaves open.
#[verifier::external_body]
fn file_map_keys(m: &dashmap::DashMap<String, dashmap::DashMap<u32, Vec<String>>>) -> (r: Vec<
    String,
>)
    ensures
        text::names(r@).no_duplicates(),
        text::names(r@).to_set() == file_map(*m).dom(),
{
    m.iter().map(|entry| entry.key().clone()).collect()
}

// ---- what the tracker means ----

/// The chunks of one file, each with the peers that hold it.
pub type Holders = Map<u32, Set<Seq<char>>>;

/// The chunks that are known of one file.
pub open spec fn chunks_of(files: Map<Seq<char>, Holders>, file_hash: Seq<char>) -> Holders {
    if files.contains_key(file_hash) {
        files[file_hash]
    } else {
        Map::empty()
    }
}

/// The peers that hold one of a file's chunks.
pub open spec fn holders(chunks: Holders, id: u32) -> Set<Seq<char>> {
    if chunks.contains_key(id) {
        chunks[id]
    } else {
        Set::empty()
    }
}

/// The peers that hold one chunk of one file.
pub open spec fn peers_of(
    files: Map<Seq<char>, Holders>,
    file_hash: Seq<char>,
    id: u32,
) -> Set<Seq<char>> {
    holders(chunks_of(files, file_hash), id)
}

/// How many peers hold each chunk of a file.
pub open spec fn rarity(files: Map<Seq<char>, Holders>, file_hash: Seq<char>) -> spec_fn(
    u32,
) -> nat {
    |id: u32| peers_of(files, file_hash, id).len()
}

/// The chunks of a file when a peer holds one more of them.
pub open spec fn with_holder(chunks: Holders, id: u32, peer: Seq<char>) -> Holders {
    chunks.insert(id, holders(chunks, id).insert(peer))
}

/// The chunks of a file when a peer holds its first `count` chunks besides what it
/// held before.
pub open spec fn with_seeder(chunks: Holders, count: u32, peer: Seq<char>) -> Holders {
    Map::new(
        |id: u32| chunks.contains_key(id) || id < count,
        |id: u32|
            if id < count {
                holders(chunks, id).insert(peer)
            } else {
                chunks[id]
            },
    )
}

/// The chunks of a file when a peer has declared with a bitmap which of its first
/// `count` chunks it holds. What the bitmap leaves open stays as it was.
pub open spec fn with_bitfield(
    chunks: Holders,
    peer: Seq<char>,
    bits: Seq<u8>,
    count: u32,
) -> Holders {
    Map::new(
        |id: u32| chunks.contains_key(id) || bitfield::declared(bits, count).contains(id),
        |id: u32|
            if bitfield::declared(bits, count).contains(id) {
                holders(chunks, id).insert(peer)
            } else if id < count {
                chunks[id].remove(peer)
            } else {
                chunks[id]
            },
    )
}

/// The chunks of a file when a peer holds none of them.
pub open spec fn without_holder(chunks: Holders, peer: Seq<char>) -> Holders {
    chunks.map_values(|peers: Set<Seq<char>>| peers.remove(peer))
}

/// All files when a peer holds no chunk of any.
pub open spec fn without_peer(files: Map<Seq<char>, Holders>, peer: Seq<char>) -> Map<
    Seq<char>,
    Holders,
> {
    files.map_values(|chunks: Holders| without_holder(chunks, peer))
}

/// Whether every assignment lists the peers of its chunk, each once.
pub open spec fn assigned(
    assignments: Seq<ChunkAssignment>,
    files: Map<Seq<char>, Holders>,
    file_hash: Seq<char>,
) -> bool {
    forall|i: int|
        0 <= i < assignments.len() ==> {
            &&& text::names((#[trigger] assignments[i]).peers@).no_duplicates()
            &&& text::names(assignments[i].peers@).to_set() == peers_of(
                files,
                file_hash,
                assignments[i].chunk_id,
            )
        }
}

// ---- the lists that stand for the sets ----

spec fn listed(chunks: Map<u32, Seq<Seq<char>>>, id: u32) -> Seq<Seq<char>> {
    if chunks.contains_key(id) {
        chunks[id]
    } else {
        Seq::empty()
    }
}

spec fn distinct(chunks: Map<u32, Seq<Seq<char>>>) -> bool {
    forall|id: u32| #[trigger] chunks.contains_key(id) ==> chunks[id].no_duplicates()
}

spec fn as_holders(chunks: Map<u32, Seq<Seq<char>>>) -> Holders {
    chunks.map_values(|peers: Seq<Seq<char>>| peers.to_set())
}

spec fn as_files(files: Map<Seq<char>, Map<u32, Seq<Seq<char>>>>) -> Map<Seq<char>, Holders> {
    files.map_values(|chunks: Map<u32, Seq<Seq<char>>>| as_holders(chunks))
}

proof fn lemma_holders(chunks: Map<u32, Seq<Seq<char>>>, id: u32)
    ensures
        holders(as_holders(chunks), id) == listed(chunks, id).to_set(),
{
    assert(Seq::<Seq<char>>::empty().to_set() =~= Set::<Seq<char>>::empty());
}

/// The chunks of a file when, of the listed ones, the peer holds none of those
/// that its bitmap denies.
spec fn withdrawn(
    chunks: Holders,
    ids: Seq<u32>,
    peer: Seq<char>,
    bits: Seq<u8>,
    count: u32,
) -> Holders {
    Map::new(
        |id: u32| chunks.contains_key(id),
        |id: u32|
            if id < count && ids.contains(id) && !bitfield::has_bit(bits, id as int) {
                chunks[id].remove(peer)
            } else {
                chunks[id]
            },
    )
}

/// The chunks of a file when, of those below `end`, the peer holds all that its
/// bitmap declares.
spec fn granted(
    chunks: Holders,
    end: u32,
    peer: Seq<char>,
    bits: Seq<u8>,
    count: u32,
) -> Holders {
    Map::new(
        |id: u32|
            chunks.contains_key(id) || (id < end && bitfield::declared(bits, count).contains(id)),
        |id: u32|
            if id < end && bitfield::declared(bits, count).contains(id) {
                holders(chunks, id).insert(peer)
            } else {
                chunks[id]
            },
    )
}

/// The chunks of a file when the peer holds none of the listed ones.
spec fn dropped(chunks: Holders, ids: Seq<u32>, peer: Seq<char>) -> Holders {
    Map::new(
        |id: u32| chunks.contains_key(id),
        |id: u32|
            if ids.contains(id) {
                chunks[id].remove(peer)
            } else {
                chunks[id]
            },
    )
}

/// All files when the peer holds nothing of the listed ones.
spec fn swept(files: Map<Seq<char>, Holders>, names: Seq<Seq<char>>, peer: Seq<char>) -> Map<
    Seq<char>,
    Holders,
> {
    Map::new(
        |f: Seq<char>| files.contains_key(f),
        |f: Seq<char>|
            if names.contains(f) {
                without_holder(files[f], peer)
            } else {
                files[f]
            },
    )
}

/// What it is to be among the first `n + 1` items of a list without repetition.
proof fn lemma_one_more<A>(list: Seq<A>, n: int)
    requires
        0 <= n < list.len(),
        list.no_duplicates(),
    ensures
        !list.take(n).contains(list[n]),
        forall|x: A| #[trigger]
            list.take(n + 1).contains(x) <==> (list.take(n).contains(x) || x == list[n]),
{
    let now = list.take(n + 1);
    if list.take(n).contains(list[n]) {
        let i = choose|i: int| 0 <= i < n && list.take(n)[i] == list[n];
        assert(list[i] == list[n]);
    }
    assert forall|x: A| #[trigger]
        now.contains(x) <==> (list.take(n).contains(x) || x == list[n]) by {
        if list.take(n).contains(x) {
            let i = choose|i: int| 0 <= i < n && list.take(n)[i] == x;
            assert(now[i] == x);
        }
        assert(now[n] == list[n]);
        if now.contains(x) && x != list[n] {
            let i = choose|i: int| 0 <= i < now.len() && now[i] == x;
            assert(list.take(n)[i] == x);
        }
    }
}

/// Lists the peer for one more chunk.
fn add_holder(m: &mut dashmap::DashMap<u32, Vec<String>>, id: u32, peer: &str)
    requires
        distinct(chunk_map(*old(m))),
    ensures
        distinct(chunk_map(*final(m))),
        as_holders(chunk_map(*final(m))) == with_holder(as_holders(chunk_map(*old(m))), id, peer@),
{
    let ghost before = chunk_map(*m);
    let mut peers: Vec<String> = match chunk_map_get(m, id) {
        Some(peers) => peers,
        None => Vec::new(),
    };
    assert(text::names(peers@) =~= listed(before, id));
    proof {
        lemma_holders(before, id);
        text::lemma_pushed(listed(before, id), peer@);
    }
    if !text::lists(&peers, peer) {
        let ghost shorter = peers@;
        peers.push(peer.to_owned());
        assert(text::names(peers@) =~= text::names(shorter).push(peer@));
    } else {
        assert(listed(before, id).to_set().insert(peer@) =~= listed(before, id).to_set());
    }
    let ghost now = text::names(peers@);
    chunk_map_insert(m, id, peers);
    assert(chunk_map(*m) == before.insert(id, now));
    assert forall|k: u32| chunk_map(*m).contains_key(k) implies #[trigger] chunk_map(
        *m,
    )[k].no_duplicates() by {
        if k != id {
            assert(before.contains_key(k));
        }
    }
    assert(as_holders(chunk_map(*m)) =~= with_holder(as_holders(before), id, peer@));
}

/// The peers that are listed for a chunk.
fn holders_of(m: &dashmap::DashMap<u32, Vec<String>>, id: u32) -> (r: Vec<String>)
    requires
        distinct(chunk_map(*m)),
    ensures
        text::names(r@).no_duplicates(),
        text::names(r@).to_set() == holders(as_holders(chunk_map(*m)), id),
{
    proof {
        lemma_holders(chunk_map(*m), id);
    }
    match chunk_map_get(m, id) {
        Some(peers) => peers,
        None => {
            let nobody: Vec<String> = Vec::new();
            assert(text::names(nobody@) =~= Seq::empty());
            nobody
        },
    }
}

/// Takes the peer out of the list of one chunk that is known.
fn drop_holder(m: &mut dashmap::DashMap<u32, Vec<String>>, id: u32, peer: &str)
    requires
        distinct(chunk_map(*old(m))),
        chunk_map(*old(m)).contains_key(id),
    ensures
        distinct(chunk_map(*final(m))),
        as_holders(chunk_map(*final(m))) == as_holders(chunk_map(*old(m))).insert(
            id,
            as_holders(chunk_map(*old(m)))[id].remove(peer@),
        ),
{
    let ghost before = chunk_map(*m);
    let peers: Vec<String> = match chunk_map_get(m, id) {
        Some(peers) => peers,
        None => Vec::new(),
    };
    proof {
        text::lemma_without(before[id], peer@);
    }
    let rest = text::without(peers, peer);
    let ghost now = text::names(rest@);
    chunk_map_insert(m, id, rest);
    assert(chunk_map(*m) == before.insert(id, now));
    assert forall|k: u32| chunk_map(*m).contains_key(k) implies #[trigger] chunk_map(
        *m,
    )[k].no_duplicates() by {
        if k != id {
            assert(before.contains_key(k));
        }
    }
    assert(as_holders(chunk_map(*m)) =~= as_holders(before).insert(
        id,
        as_holders(before)[id].remove(peer@),
    ));
}

// ---- the tracker ----

/// Which peers hold which chunks of which files.
pub struct ChunkTracker {
    chunks: dashmap::DashMap<String, dashmap::DashMap<u32, Vec<String>>>,
}

impl View for ChunkTracker {
    type V = Map<Seq<char>, Holders>;

    closed spec fn view(&self) -> Map<Seq<char>, Holders> {
        as_files(file_map(self.chunks))
    }
}

impl ChunkTracker {
    /// No chunk lists a peer twice.
    pub closed spec fn wf(&self) -> bool {
        forall|file_hash: Seq<char>| #[trigger]
            file_map(self.chunks).contains_key(file_hash) ==> distinct(
                file_map(self.chunks)[file_hash],
            )
    }

    /// A tracker that knows of no file.
    pub fn new() -> (r: Self)
        ensures
            r.wf(),
            r@ == Map::<Seq<char>, Holders>::empty(),
    {
        let r = ChunkTracker { chunks: file_map_new() };
        assert(r@ =~= Map::<Seq<char>, Holders>::empty());
        r
    }

    /// Takes the chunks of a file out of the map; nothing is known of a file that
    /// is not there.
    fn take(&mut self, file_hash: &str) -> (r: dashmap::DashMap<u32, Vec<String>>)
        requires
            old(self).wf(),
        ensures
            final(self).wf(),
            final(self)@ == old(self)@.remove(file_hash@),
            distinct(chunk_map(r)),
            as_holders(chunk_map(r)) == chunks_of(old(self)@, file_hash@),
    {
        let ghost before = file_map(self.chunks);
        let taken = file_map_remove(&mut self.chunks, file_hash);
        assert(self@ =~= old(self)@.remove(file_hash@));
        match taken {
            Some(chunks) => {
                assert(before.contains_key(file_hash@));
                chunks
            },
            None => {
                let chunks = chunk_map_new();
                assert(as_holders(chunk_map(chunks)) =~= Map::empty());
                chunks
            },
        }
    }

    /// Puts the chunks of a file into the map.
    fn put(&mut self, file_hash: &str, chunks: dashmap::DashMap<u32, Vec<String>>)
        requires
            old(self).wf(),
            distinct(chunk_map(chunks)),
        ensures
            final(self).wf(),
            final(self)@ == old(self)@.insert(file_hash@, as_holders(chunk_map(chunks))),
    {
        let ghost before = file_map(self.chunks);
        file_map_insert(&mut self.chunks, file_hash, chunks);
        assert forall|f: Seq<char>| file_map(self.chunks).contains_key(
            f,
        ) implies #[trigger] distinct(file_map(self.chunks)[f]) by {
            if f != file_hash@ {
                assert(before.contains_key(f));
            }
        }
        assert(self@ =~= old(self)@.insert(file_hash@, as_holders(chunk_map(chunks))));
    }

    /// A copy of the chunks of a file.
    fn copy_of(&self, file_hash: &str) -> (r: dashmap::DashMap<u32, Vec<String>>)
        requires
            self.wf(),
        ensures
            distinct(chunk_map(r)),
            as_holders(chunk_map(r)) == chunks_of(self@, file_hash@),
    {
        match file_map_get(&self.chunks, file_hash) {
            Some(chunks) => {
                assert(file_map(self.chunks).contains_key(file_hash@));
                chunks
            },
            None => {
                let chunks = chunk_map_new();
                assert(as_holders(chunk_map(chunks)) =~= Map::empty());
                chunks
            },
        }
    }

    /// Makes a chunk known, held by no peer. What was known of its peers is
    /// forgotten.
    pub fn add_chunk(&mut self, file_hash: &str, chunk_id: u32)
        requires
            old(self).wf(),
        ensures
            final(self).wf(),
            final(self)@ == old(self)@.insert(
                file_hash@,
                chunks_of(old(self)@, file_hash@).insert(chunk_id, Set::empty()),
            ),
    {
        let mut chunks = self.take(file_hash);
        let ghost before = chunk_map(chunks);
        let nobody: Vec<String> = Vec::new();
        assert(text::names(nobody@) =~= Seq::empty());
        chunk_map_insert(&mut chunks, chunk_id, nobody);
        assert forall|k: u32| chunk_map(chunks).contains_key(k) implies #[trigger] chunk_map(
            chunks,
        )[k].no_duplicates() by {
            if k != chunk_id {
                assert(before.contains_key(k));
            }
        }
        assert(Seq::<Seq<char>>::empty().to_set() =~= Set::<Seq<char>>::empty());
        assert(as_holders(chunk_map(chunks)) =~= as_holders(before).insert(
            chunk_id,
            Set::empty(),
        ));
        self.put(file_hash, chunks);
        assert(self@ =~= old(self)@.insert(
            file_hash@,
            chunks_of(old(self)@, file_hash@).insert(chunk_id, Set::empty()),
        ));
    }

    /// Records that a peer holds a chunk.
    pub fn add_peer_chunk(&mut self, file_hash: &str, chunk_id: u32, peer_id: String)
        requires
            old(self).wf(),
        ensures
            final(self).wf(),
            final(self)@ == old(self)@.insert(
                file_hash@,
                with_holder(chunks_of(old(self)@, file_hash@), chunk_id, peer_id@),
            ),
    {
        let mut chunks = self.take(file_hash);
        add_holder(&mut chunks, chunk_id, peer_id.as_str());
        self.put(file_hash, chunks);
        assert(self@ =~= old(self)@.insert(
            file_hash@,
            with_holder(chunks_of(old(self)@, file_hash@), chunk_id, peer_id@),
        ));
    }

    /// Records that a peer holds all chunks of a file that has `chunk_count` of
    /// them. Nothing changes where the file has none.
    pub fn add_seeder(&mut self, file_hash: &str, chunk_count: u32, peer_id: &str)
        requires
            old(self).wf(),
        ensures
            final(self).wf(),
            final(self)@ == if chunk_count == 0 {
                old(self)@
            } else {
                old(self)@.insert(
                    file_hash@,
                    with_seeder(chunks_of(old(self)@, file_hash@), chunk_count, peer_id@),
                )
            },
    {
        if chunk_count == 0 {
            return;
        }
        let ghost first = chunks_of(self@, file_hash@);
        let mut chunks = self.take(file_hash);
        let ghost rest = self@;
        let mut id: u32 = 0;
        assert(as_holders(chunk_map(chunks)) =~= with_seeder(first, 0, peer_id@));
        while id < chunk_count
            invariant
                id <= chunk_count,
                distinct(chunk_map(chunks)),
                as_holders(chunk_map(chunks)) == with_seeder(first, id, peer_id@),
            decreases chunk_count - id,
        {
            add_holder(&mut chunks, id, peer_id);
            assert(with_holder(with_seeder(first, id, peer_id@), id, peer_id@) =~= with_seeder(
                first,
                (id + 1) as u32,
                peer_id@,
            ));
            id = id + 1;
        }
        self.put(file_hash, chunks);
        assert(self@ =~= old(self)@.insert(
            file_hash@,
            with_seeder(first, chunk_count, peer_id@),
        ));
    }

    /// Takes over what a peer declares in a bitmap: of the first `chunk_count`
    /// chunks it holds those whose bit is set, and none of the others. Its other
    /// chunks, and the other peers, stay as they were.
    pub fn set_peer_bitfield(
        &mut self,
        file_hash: &str,
        peer_id: &str,
        bits: &[u8],
        chunk_count: u32,
    )
        requires
            old(self).wf(),
        ensures
            final(self).wf(),
            final(self)@ == old(self)@.insert(
                file_hash@,
                with_bitfield(chunks_of(old(self)@, file_hash@), peer_id@, bits@, chunk_count),
            ),
    {
        let ghost first = chunks_of(self@, file_hash@);
        let mut chunks = self.take(file_hash);
        let known: Vec<u32> = chunk_map_keys(&chunks);
        assert(first.dom() =~= chunk_map(chunks).dom());
        assert(as_holders(chunk_map(chunks)) =~= withdrawn(
            first,
            known@.take(0),
            peer_id@,
            bits@,
            chunk_count,
        ));
        let mut n: usize = 0;
        while n < known.len()
            invariant
                n <= known@.len(),
                known@.no_duplicates(),
                known@.to_set() == first.dom(),
                distinct(chunk_map(chunks)),
                as_holders(chunk_map(chunks)) == withdrawn(
                    first,
                    known@.take(n as int),
                    peer_id@,
                    bits@,
                    chunk_count,
                ),
            decreases known.len() - n,
        {
            let id: u32 = known[n];
            proof {
                lemma_one_more(known@, n as int);
                assert(known@.to_set().contains(id));
                assert(chunk_map(chunks).contains_key(id)) by {
                    assert(as_holders(chunk_map(chunks)).contains_key(id));
                }
            }
            if id < chunk_count && !bitfield::has_chunk(bits, id) {
                drop_holder(&mut chunks, id, peer_id);
            }
            assert(as_holders(chunk_map(chunks)) =~= withdrawn(
                first,
                known@.take(n + 1),
                peer_id@,
                bits@,
                chunk_count,
            ));
            n = n + 1;
        }
        proof {
            assert(known@.take(known@.len() as int) =~= known@);
            assert forall|id: u32| known@.contains(id) <==> first.contains_key(id) by {
                assert(known@.to_set().contains(id) <==> first.dom().contains(id));
            }
        }
        let ghost stripped = as_holders(chunk_map(chunks));
        assert(as_holders(chunk_map(chunks)) =~= granted(
            stripped,
            0,
            peer_id@,
            bits@,
            chunk_count,
        ));
        let size: usize = bits.len();
        let mut id: u32 = 0;
        while id < chunk_count && ((id / 8) as usize) < size
            invariant
                id <= chunk_count,
                size == bits@.len(),
                distinct(chunk_map(chunks)),
                as_holders(chunk_map(chunks)) == granted(
                    stripped,
                    id,
                    peer_id@,
                    bits@,
                    chunk_count,
                ),
            decreases chunk_count - id,
        {
            if bitfield::has_chunk(bits, id) {
                add_holder(&mut chunks, id, peer_id);
            }
            assert(as_holders(chunk_map(chunks)) =~= granted(
                stripped,
                (id + 1) as u32,
                peer_id@,
                bits@,
                chunk_count,
            ));
            id = id + 1;
        }
        proof {
            assert forall|k: u32| bitfield::declared(bits@, chunk_count).contains(k) implies k
                < id by {
                assert(bitfield::has_bit(bits@, k as int));
            }
            assert(as_holders(chunk_map(chunks)) =~= with_bitfield(
                first,
                peer_id@,
                bits@,
                chunk_count,
            ));
        }
        self.put(file_hash, chunks);
        assert(self@ =~= old(self)@.insert(
            file_hash@,
            with_bitfield(first, peer_id@, bits@, chunk_count),
        ));
    }

    /// Records that a peer holds nothing any more. The files and chunks stay known.
    pub fn remove_peer(&mut self, peer_id: &str)
        requires
            old(self).wf(),
        ensures
            final(self).wf(),
            final(self)@ == without_peer(old(self)@, peer_id@),
    {
        let ghost first = self@;
        let files: Vec<String> = file_map_keys(&self.chunks);
        let ghost names = text::names(files@);
        assert(first.dom() =~= file_map(self.chunks).dom());
        assert(self@ =~= swept(first, names.take(0), peer_id@));
        let mut n: usize = 0;
        while n < files.len()
            invariant
                n <= files@.len(),
                names == text::names(files@),
                names.no_duplicates(),
                names.to_set() == first.dom(),
                self.wf(),
                self@ == swept(first, names.take(n as int), peer_id@),
            decreases files.len() - n,
        {
            let file_hash: &str = files[n].as_str();
            proof {
                assert(names[n as int] == file_hash@);
                lemma_one_more(names, n as int);
                assert(names.to_set().contains(file_hash@));
            }
            let ghost before = self@;
            let chunks = self.take(file_hash);
            let chunks = Self::without(chunks, peer_id);
            self.put(file_hash, chunks);
            assert(before.contains_key(file_hash@));
            assert(self@ =~= swept(first, names.take(n + 1), peer_id@));
            n = n + 1;
        }
        proof {
            assert(names.take(n as int) =~= names);
            assert forall|f: Seq<char>| names.contains(f) <==> first.contains_key(f) by {
                assert(names.to_set().contains(f) <==> first.dom().contains(f));
            }
        }
        assert(self@ =~= without_peer(first, peer_id@));
    }

    /// The chunks of a file without a peer.
    fn without(chunks: dashmap::DashMap<u32, Vec<String>>, peer_id: &str) -> (r: dashmap::DashMap<
        u32,
        Vec<String>,
    >)
        requires
            distinct(chunk_map(chunks)),
        ensures
            distinct(chunk_map(r)),
            as_holders(chunk_map(r)) == without_holder(as_holders(chunk_map(chunks)), peer_id@),
    {
        let ghost first = as_holders(chunk_map(chunks));
        let mut chunks = chunks;
        let known: Vec<u32> = chunk_map_keys(&chunks);
        assert(first.dom() =~= chunk_map(chunks).dom());
        assert(first =~= dropped(first, known@.take(0), peer_id@));
        let mut n: usize = 0;
        while n < known.len()
            invariant
                n <= known@.len(),
                known@.no_duplicates(),
                known@.to_set() == first.dom(),
                distinct(chunk_map(chunks)),
                as_holders(chunk_map(chunks)) == dropped(first, known@.take(n as int), peer_id@),
            decreases known.len() - n,
        {
            let id: u32 = known[n];
            proof {
                lemma_one_more(known@, n as int);
                assert(known@.to_set().contains(id));
                assert(as_holders(chunk_map(chunks)).contains_key(id));
            }
            drop_holder(&mut chunks, id, peer_id);
            assert(as_holders(chunk_map(chunks)) =~= dropped(
                first,
                known@.take(n + 1),
                peer_id@,
            ));
            n = n + 1;
        }
        proof {
            assert(known@.take(n as int) =~= known@);
            assert forall|id: u32| known@.contains(id) <==> first.contains_key(id) by {
                assert(known@.to_set().contains(id) <==> first.dom().contains(id));
            }
        }
        assert(as_holders(chunk_map(chunks)) =~= without_holder(first, peer_id@));
        chunks
    }

    /// The chunks of a file that are known, each once, in no particular order.
    pub fn get_available_chunks(&self, file_hash: &str) -> (r: Vec<u32>)
        requires
            self.wf(),
        ensures
            r@.no_duplicates(),
            r@.to_set() == chunks_of(self@, file_hash@).dom(),
    {
        let chunks = self.copy_of(file_hash);
        let r = chunk_map_keys(&chunks);
        assert(as_holders(chunk_map(chunks)).dom() =~= chunk_map(chunks).dom());
        r
    }

    /// The peers that hold a chunk, each once, in no particular order.
    pub fn get_peers_for_chunk(&self, file_hash: &str, chunk_id: u32) -> (r: Vec<String>)
        requires
            self.wf(),
        ensures
            text::names(r@).no_duplicates(),
            text::names(r@).to_set() == peers_of(self@, file_hash@, chunk_id),
            forall|peer: Seq<char>| #[trigger]
                text::names(r@).contains(peer) <==> self@.contains_key(file_hash@)
                    && self@[file_hash@].contains_key(chunk_id)
                    && self@[file_hash@][chunk_id].contains(peer),
    {
        proof {
            assert forall|list: Seq<Seq<char>>, peer: Seq<char>|
                list.to_set() == peers_of(self@, file_hash@, chunk_id) implies (
            #[trigger] list.contains(peer) <==> peers_of(self@, file_hash@, chunk_id).contains(
                peer,
            )) by {
                assert(list.to_set().contains(peer) <==> list.contains(peer));
            }
        }
        let chunks = self.copy_of(file_hash);
        holders_of(&chunks, chunk_id)
    }

    /// The known chunks of a file as a bitmap.
    pub fn get_server_bitfield(&self, file_hash: &str) -> (r: Vec<u8>)
        requires
            self.wf(),
        ensures
            bitfield::marks_exactly(r@, chunks_of(self@, file_hash@).dom()),
            bitfield::shortest_for(r@, chunks_of(self@, file_hash@).dom()),
    {
        let known = self.get_available_chunks(file_hash);
        bitfield::encode_bitfield(&known)
    }

    /// The requested chunks with the peers that hold them, the rarest first. A
    /// chunk that no peer holds comes with no peers.
    pub fn get_rarest_chunk_assignments(&self, file_hash: &str, requested: &[u32]) -> (r: Vec<
        ChunkAssignment,
    >)
        requires
            self.wf(),
        ensures
            schedule::rarest_first(
                schedule::chunk_ids(r@),
                requested@,
                rarity(self@, file_hash@),
            ),
            assigned(r@, self@, file_hash@),
            r@.len() == requested@.len(),
            forall|i: int, j: int|
                0 <= i <= j < r@.len() ==> (#[trigger] r@[i]).peers@.len() <= (
                #[trigger] r@[j]).peers@.len(),
    {
        let ghost count = rarity(self@, file_hash@);
        let chunks = self.copy_of(file_hash);
        let mut r: Vec<ChunkAssignment> = Vec::new();
        let total: usize = requested.len();
        let mut n: usize = 0;
        assert(schedule::chunk_ids(r@) =~= Seq::empty());
        assert(requested@.take(0) =~= Seq::empty());
        while n < total
            invariant
                n <= total,
                total == requested@.len(),
                distinct(chunk_map(chunks)),
                as_holders(chunk_map(chunks)) == chunks_of(self@, file_hash@),
                count == rarity(self@, file_hash@),
                schedule::rarest_first(
                    schedule::chunk_ids(r@),
                    requested@.take(n as int),
                    count,
                ),
                assigned(r@, self@, file_hash@),
            decreases total - n,
        {
            let chunk_id: u32 = requested[n];
            let peers = holders_of(&chunks, chunk_id);
            proof {
                text::names(peers@).unique_seq_to_set();
            }
            let mut at: usize = r.len();
            while at > 0 && r[at - 1].peers.len() > peers.len()
                invariant
                    at <= r@.len(),
                    assigned(r@, self@, file_hash@),
                    count == rarity(self@, file_hash@),
                    text::names(peers@).len() == count(chunk_id),
                    forall|i: int|
                        at <= i < r@.len() ==> count(chunk_id) < count(
                            (#[trigger] r@[i]).chunk_id,
                        ),
                decreases at,
            {
                proof {
                    text::names(r@[at - 1].peers@).unique_seq_to_set();
                }
                at = at - 1;
            }
            let ghost ids = schedule::chunk_ids(r@);
            proof {
                if at > 0 {
                    text::names(r@[at - 1].peers@).unique_seq_to_set();
                    assert(count(ids[at - 1]) <= count(chunk_id));
                }
                assert forall|i: int| 0 <= i < at implies count(#[trigger] ids[i]) <= count(
                    chunk_id,
                ) by {
                    assert(count(ids[i]) <= count(ids[at - 1]));
                }
                assert forall|i: int| at <= i < ids.len() implies count(chunk_id) < count(
                    #[trigger] ids[i],
                ) by {
                    assert(ids[i] == r@[i].chunk_id);
                }
                schedule::lemma_insert_rarest_first(
                    ids,
                    requested@.take(n as int),
                    count,
                    at as int,
                    chunk_id,
                );
                assert(requested@.take(n as int).push(chunk_id) =~= requested@.take(n + 1));
            }
            let ghost shorter = r@;
            r.insert(at, ChunkAssignment { chunk_id, peers });
            assert(schedule::chunk_ids(r@) =~= ids.insert(at as int, chunk_id));
            assert forall|i: int| 0 <= i < r@.len() implies text::names(
                (#[trigger] r@[i]).peers@,
            ).no_duplicates() && text::names(r@[i].peers@).to_set() == peers_of(
                self@,
                file_hash@,
                r@[i].chunk_id,
            ) by {
                if i < at {
                    assert(r@[i] == shorter[i]);
                } else if i > at {
                    assert(r@[i] == shorter[i - 1]);
                }
            }
            n = n + 1;
        }
        assert(requested@.take(n as int) =~= requested@);
        proof {
            law_fewest_peers_come_first(r@, requested@, self@, file_hash@);
        }
        r
    }
}

// ---- laws ----

/// A peer that has left holds no chunk of any file; every other peer holds what it
/// held, and every chunk stays known.
pub proof fn law_removed_peer_leaves_no_trace(
    files: Map<Seq<char>, Holders>,
    gone: Seq<char>,
    other: Seq<char>,
    file_hash: Seq<char>,
    id: u32,
)
    ensures
        !peers_of(without_peer(files, gone), file_hash, id).contains(gone),
        other != gone ==> (peers_of(without_peer(files, gone), file_hash, id).contains(other)
            <==> peers_of(files, file_hash, id).contains(other)),
        chunks_of(without_peer(files, gone), file_hash).dom() == chunks_of(
            files,
            file_hash,
        ).dom(),
{
    assert(chunks_of(without_peer(files, gone), file_hash).dom() =~= chunks_of(
        files,
        file_hash,
    ).dom());
}

/// After a peer has declared its chunks with a bitmap, it is listed for a chunk
/// below the count if and only if the bitmap declares it, and what the other peers
/// hold is as before.
pub proof fn law_bitfield_is_taken_over(
    chunks: Holders,
    peer: Seq<char>,
    other: Seq<char>,
    bits: Seq<u8>,
    count: u32,
    id: u32,
)
    ensures
        id < count ==> (holders(with_bitfield(chunks, peer, bits, count), id).contains(peer)
            <==> bitfield::has_bit(bits, id as int)),
        id >= count ==> holders(with_bitfield(chunks, peer, bits, count), id) == holders(
            chunks,
            id,
        ),
        other != peer ==> (holders(with_bitfield(chunks, peer, bits, count), id).contains(other)
            <==> holders(chunks, id).contains(other)),
{
}

/// What one file's chunks are held by does not depend on what happens to another
/// file.
pub proof fn law_files_are_independent(
    files: Map<Seq<char>, Holders>,
    changed: Seq<char>,
    chunks: Holders,
    file_hash: Seq<char>,
    id: u32,
)
    requires
        file_hash != changed,
    ensures
        peers_of(files.insert(changed, chunks), file_hash, id) == peers_of(files, file_hash, id),
{
}

/// A peer that seeds a file is listed for each of its chunks.
pub proof fn law_seeder_holds_every_chunk(chunks: Holders, count: u32, peer: Seq<char>, id: u32)
    requires
        id < count,
    ensures
        holders(with_seeder(chunks, count, peer), id).contains(peer),
{
}

/// A peer holds a chunk of a file if and only if it is in the set that is kept for that chunk
/// of that file. Of a file or a chunk that is not known, nobody holds anything.
pub proof fn law_holders_are_kept_by_file_and_chunk(
    files: Map<Seq<char>, Holders>,
    file_hash: Seq<char>,
    id: u32,
    peer: Seq<char>,
)
    ensures
        peers_of(files, file_hash, id).contains(peer) <==> files.contains_key(file_hash)
            && files[file_hash].contains_key(id) && files[file_hash][id].contains(peer),
        holders(chunks_of(files, file_hash), id).contains(peer) <==> peers_of(
            files,
            file_hash,
            id,
        ).contains(peer),
        chunks_of(files, file_hash).contains_key(id) <==> files.contains_key(file_hash)
            && files[file_hash].contains_key(id),
{
}

/// A chunk is as rare as the number of the peers that hold it says, however many they are.
pub proof fn law_rarity_counts_the_holders(
    files: Map<Seq<char>, Holders>,
    file_hash: Seq<char>,
    id: u32,
)
    ensures
        rarity(files, file_hash)(id) == peers_of(files, file_hash, id).len(),
{
}

/// An answer to a request for chunks lists with each chunk those who hold it, each once, and
/// never has a chunk with more peers before one with fewer. It has as many assignments as
/// chunks were asked for, and each chunk as often as it was asked for.
pub proof fn law_fewest_peers_come_first(
    assignments: Seq<ChunkAssignment>,
    requested: Seq<u32>,
    files: Map<Seq<char>, Holders>,
    file_hash: Seq<char>,
)
    requires
        schedule::rarest_first(
            schedule::chunk_ids(assignments),
            requested,
            rarity(files, file_hash),
        ),
        assigned(assignments, files, file_hash),
    ensures
        assignments.len() == requested.len(),
        forall|i: int, j: int|
            0 <= i <= j < assignments.len() ==> (#[trigger] assignments[i]).peers@.len() <= (
            #[trigger] assignments[j]).peers@.len(),
        forall|i: int, peer: Seq<char>|
            0 <= i < assignments.len() ==> (#[trigger] text::names(
                assignments[i].peers@,
            ).contains(peer) <==> files.contains_key(file_hash) && files[file_hash].contains_key(
                assignments[i].chunk_id,
            ) && files[file_hash][assignments[i].chunk_id].contains(peer)),
        forall|i: int|
            0 <= i < assignments.len() ==> text::names(
                (#[trigger] assignments[i]).peers@,
            ).no_duplicates(),
        assignments.map_values(|a: ChunkAssignment| a.chunk_id).to_multiset()
            == requested.to_multiset(),
{
    let ids = schedule::chunk_ids(assignments);
    let count = rarity(files, file_hash);
    schedule::law_rarest_first_keeps_the_request(ids, requested, count);
    assert(ids =~= assignments.map_values(|a: ChunkAssignment| a.chunk_id));
    assert forall|i: int, j: int| 0 <= i <= j < assignments.len() implies (
    #[trigger] assignments[i]).peers@.len() <= (#[trigger] assignments[j]).peers@.len() by {
        law_rarity_counts_the_holders(files, file_hash, assignments[i].chunk_id);
        law_rarity_counts_the_holders(files, file_hash, assignments[j].chunk_id);
        text::names(assignments[i].peers@).unique_seq_to_set();
        text::names(assignments[j].peers@).unique_seq_to_set();
        assert(ids[i] == assignments[i].chunk_id);
        assert(ids[j] == assignments[j].chunk_id);
        assert(count(ids[i]) <= count(ids[j]));
    }
    assert forall|i: int, peer: Seq<char>| 0 <= i < assignments.len() implies (
    #[trigger] text::names(assignments[i].peers@).contains(peer) <==> files.contains_key(file_hash)
        && files[file_hash].contains_key(assignments[i].chunk_id)
        && files[file_hash][assignments[i].chunk_id].contains(peer)) by {
        let list = text::names(assignments[i].peers@);
        assert(list.to_set().contains(peer) <==> list.contains(peer));
        law_holders_are_kept_by_file_and_chunk(files, file_hash, assignments[i].chunk_id, peer);
    }
}

/// When a peer is recorded for one more chunk, it holds that chunk besides what it held; every
/// other peer, and every other chunk, is as before.
pub proof fn law_one_more_holder(
    chunks: Holders,
    added: u32,
    peer: Seq<char>,
    id: u32,
    other: Seq<char>,
)
    ensures
        holders(with_holder(chunks, added, peer), added).contains(peer),
        other != peer || id != added ==> (holders(
            with_holder(chunks, added, peer),
            id,
        ).contains(other) <==> holders(chunks, id).contains(other)),
        with_holder(chunks, added, peer).contains_key(id) <==> chunks.contains_key(id) || id
            == added,
{
}

/// When a peer is recorded as a seeder of a file, it holds the chunks of the file besides what
/// it held before, and every other peer holds exactly what it held. The chunks of the file
/// become known, and those that were known stay so.
pub proof fn law_seeding_leaves_the_other_holders(
    chunks: Holders,
    count: u32,
    peer: Seq<char>,
    other: Seq<char>,
    id: u32,
)
    ensures
        holders(with_seeder(chunks, count, peer), id).contains(peer) <==> id < count || holders(
            chunks,
            id,
        ).contains(peer),
        other != peer ==> (holders(with_seeder(chunks, count, peer), id).contains(other)
            <==> holders(chunks, id).contains(other)),
        with_seeder(chunks, count, peer).contains_key(id) <==> chunks.contains_key(id) || id
            < count,
{
}

/// Two peers that are recorded as seeders one after the other both hold every chunk, and it
/// does not matter which of them came first.
pub proof fn law_seeders_add_up(
    chunks: Holders,
    count: u32,
    first: Seq<char>,
    second: Seq<char>,
    id: u32,
)
    requires
        id < count,
    ensures
        holders(with_seeder(with_seeder(chunks, count, first), count, second), id).contains(first),
        holders(with_seeder(with_seeder(chunks, count, first), count, second), id).contains(
            second,
        ),
        with_seeder(with_seeder(chunks, count, first), count, second) == with_seeder(
            with_seeder(chunks, count, second),
            count,
            first,
        ),
{
    let one = with_seeder(chunks, count, first);
    let two = with_seeder(chunks, count, second);
    law_seeding_leaves_the_other_holders(chunks, count, first, second, id);
    law_seeding_leaves_the_other_holders(one, count, second, first, id);
    let ab = with_seeder(one, count, second);
    let ba = with_seeder(two, count, first);
    assert forall|k: u32| ab.contains_key(k) implies ab[k] == #[trigger] ba[k] by {
        if k < count {
            assert(holders(one, k) == holders(chunks, k).insert(first));
            assert(holders(two, k) == holders(chunks, k).insert(second));
            assert(ab[k] =~= ba[k]);
        }
    }
    assert(ab =~= ba);
}

/// A bitmap makes known the chunks that it declares and no others, and forgets none.
pub proof fn law_bitfield_makes_chunks_known(
    chunks: Holders,
    peer: Seq<char>,
    bits: Seq<u8>,
    count: u32,
    id: u32,
)
    ensures
        with_bitfield(chunks, peer, bits, count).contains_key(id) <==> chunks.contains_key(id) || (
        id < count && bitfield::has_bit(bits, id as int)),
{
}

/// The last bitmap counts: what a peer has declared with an earlier one of the same length
/// is as if it had not been declared.
pub proof fn law_last_bitfield_counts(
    chunks: Holders,
    peer: Seq<char>,
    first: Seq<u8>,
    second: Seq<u8>,
    count: u32,
    id: u32,
)
    requires
        id < count,
    ensures
        holders(
            with_bitfield(with_bitfield(chunks, peer, first, count), peer, second, count),
            id,
        ).contains(peer) <==> bitfield::has_bit(second, id as int),
        holders(
            with_bitfield(with_bitfield(chunks, peer, first, count), peer, second, count),
            id,
        ) == holders(with_bitfield(chunks, peer, second, count), id),
{
    let one = with_bitfield(chunks, peer, first, count);
    assert(holders(with_bitfield(one, peer, second, count), id) =~= holders(
        with_bitfield(chunks, peer, second, count),
        id,
    ));
}

} // verus!
