//! The server's state of health.

use vstd::prelude::*;

use crate::files::FileMetadata;
use crate::signaling;
use crate::signaling::PeerInfo;
use crate::signaling::PeerRecord;
use crate::signaling::SignalHub;

verus! {

// ---- counters ----

/// Counters of the server process.
#[derive(Debug)]
pub struct ServerMetrics {
    /// When the process started, in seconds since 1970.
    pub started_at: i64,
    /// How many QUIC connections are open.
    pub active_quic_connections: u64,
    /// How many QUIC connections were accepted since the start.
    pub total_quic_connections: u64,
}

impl Default for ServerMetrics {
    fn default() -> (r: Self)
        ensures
            r.started_at == 0,
            r.active_quic_connections == 0,
            r.total_quic_connections == 0,
    {
        ServerMetrics { started_at: 0, active_quic_connections: 0, total_quic_connections: 0 }
    }
}

impl ServerMetrics {
    /// The counters of a process that starts now.
    pub fn new(now: i64) -> (r: Self)
        ensures
            r == (ServerMetrics {
                started_at: now,
                active_quic_connections: 0,
                total_quic_connections: 0,
            }),
    {
        ServerMetrics { started_at: now, active_quic_connections: 0, total_quic_connections: 0 }
    }

    /// Counts a connection that was opened. A counter that is full starts again at zero.
    pub fn quic_open(&mut self)
        ensures
            *final(self) == opened(*old(self)),
    {
        self.active_quic_connections = self.active_quic_connections.wrapping_add(1);
        self.total_quic_connections = self.total_quic_connections.wrapping_add(1);
    }

    /// Counts a connection that was closed. A counter at zero goes on at its largest
    /// value.
    pub fn quic_close(&mut self)
        ensures
            *final(self) == closed_one(*old(self)),
    {
        self.active_quic_connections = self.active_quic_connections.wrapping_sub(1);
    }
}

/// The number that follows in a counter of 64 bits.
pub open spec fn counted_up(n: u64) -> u64 {
    if n == u64::MAX {
        0
    } else {
        (n + 1) as u64
    }
}

/// The number that comes before in a counter of 64 bits.
pub open spec fn counted_down(n: u64) -> u64 {
    if n == 0 {
        u64::MAX
    } else {
        (n - 1) as u64
    }
}

/// The counters after a connection was opened.
pub open spec fn opened(m: ServerMetrics) -> ServerMetrics {
    ServerMetrics {
        active_quic_connections: counted_up(m.active_quic_connections),
        total_quic_connections: counted_up(m.total_quic_connections),
        ..m
    }
}

/// The counters after a connection was closed.
pub open spec fn closed_one(m: ServerMetrics) -> ServerMetrics {
    ServerMetrics { active_quic_connections: counted_down(m.active_quic_connections), ..m }
}

// ---- the report ----

/// What a request came over.
#[derive(Debug, Clone, Copy, PartialEq, Eq, Structural)]
pub enum Transport {
    /// HTTP/3, over QUIC.
    H3,
    /// An earlier version of HTTP, over TCP.
    Tcp,
}

/// The hint for a request over HTTP/3.
pub const HINT_H3: &'static str = "h3";

/// The hint for another request.
pub const HINT_TCP: &'static str = "tcp";

/// What the server says of itself.
#[derive(Debug)]
pub struct ServerStatus {
    pub version: &'static str,
    pub uptime_secs: u64,
    pub peer_count: usize,
    pub file_count: usize,
    pub total_bytes: u64,
    pub total_chunk_count: u64,
    pub active_quic_connections: u64,
    pub total_quic_connections: u64,
    /// The number of open QUIC connections, as in `active_quic_connections`.
    pub quic_connections: u64,
    /// The QUIC listeners are always started, so this is always true.
    pub quic_enabled: bool,
    /// What the request came over: `h3` or `tcp`.
    pub transport_hint: &'static str,
    pub files: Vec<FileStats>,
    pub peers: Vec<PeerStats>,
}

/// What the server says of one file.
#[derive(Debug)]
pub struct FileStats {
    pub hash: String,
    pub name: String,
    pub size: u64,
    pub chunk_count: u32,
    pub uploaded_at: i64,
    pub compressed: bool,
}

/// What the server says of one peer.
#[derive(Debug)]
pub struct PeerStats {
    pub id: String,
    pub connected_at: i64,
    pub file_count: usize,
}

/// The sizes of all files together.
pub open spec fn total_bytes(files: Seq<FileMetadata>) -> nat
    decreases files.len(),
{
    if files.len() == 0 {
        0
    } else {
        total_bytes(files.drop_last()) + files.last().size as nat
    }
}

/// The chunks of all files together.
pub open spec fn total_chunks(files: Seq<FileMetadata>) -> nat
    decreases files.len(),
{
    if files.len() == 0 {
        0
    } else {
        total_chunks(files.drop_last()) + files.last().chunk_count as nat
    }
}

/// Whether both totals fit into 64 bits.
pub open spec fn totals_fit(files: Seq<FileMetadata>) -> bool {
    total_bytes(files) <= u64::MAX && total_chunks(files) <= u64::MAX
}

proof fn lemma_totals_grow(files: Seq<FileMetadata>, n: int)
    requires
        0 <= n <= files.len(),
    ensures
        total_bytes(files.take(n)) <= total_bytes(files),
        total_chunks(files.take(n)) <= total_chunks(files),
    decreases files.len() - n,
{
    if n < files.len() {
        lemma_totals_grow(files, n + 1);
        assert(files.take(n + 1).drop_last() =~= files.take(n));
    } else {
        assert(files.take(n) =~= files);
    }
}

/// The totals over all files, if they fit into 64 bits.
pub fn totals(files: &Vec<FileMetadata>) -> (r: Option<(u64, u64)>)
    ensures
        r.is_some() == totals_fit(files@),
        r.is_some() ==> r.unwrap().0 == total_bytes(files@) && r.unwrap().1 == total_chunks(
            files@,
        ),
{
    let mut bytes: u64 = 0;
    let mut chunks: u64 = 0;
    let mut n: usize = 0;
    assert(files@.take(0) =~= Seq::empty());
    while n < files.len()
        invariant
            n <= files@.len(),
            bytes == total_bytes(files@.take(n as int)),
            chunks == total_chunks(files@.take(n as int)),
        decreases files.len() - n,
    {
        proof {
            lemma_totals_grow(files@, n + 1);
            assert(files@.take(n + 1).drop_last() =~= files@.take(n as int));
            assert(files@.take(n + 1).last() == files@[n as int]);
        }
        let file = &files[n];
        if file.size > u64::MAX - bytes || file.chunk_count as u64 > u64::MAX - chunks {
            return None;
        }
        bytes = bytes + file.size;
        chunks = chunks + file.chunk_count as u64;
        n = n + 1;
    }
    assert(files@.take(n as int) =~= files@);
    Some((bytes, chunks))
}

/// Whether this is what is said of the file.
pub open spec fn tells_of_file(stats: FileStats, file: FileMetadata) -> bool {
    &&& stats.hash == file.hash
    &&& stats.name == file.name
    &&& stats.size == file.size
    &&& stats.chunk_count == file.chunk_count
    &&& stats.uploaded_at == file.uploaded_at
    &&& stats.compressed == file.compressed
}

/// Whether every connected peer is told of once, with the number of its files.
pub open spec fn tells_of_peers(
    stats: Seq<PeerStats>,
    peers: Map<Seq<char>, PeerRecord>,
) -> bool {
    &&& forall|i: int, j: int|
        0 <= i < j < stats.len() ==> (#[trigger] stats[i]).id@ != (#[trigger] stats[j]).id@
    &&& forall|i: int|
        0 <= i < stats.len() ==> peers.contains_key((#[trigger] stats[i]).id@)
            && stats[i].connected_at == peers[stats[i].id@].0 && stats[i].file_count
            == peers[stats[i].id@].1.len()
    &&& forall|id: Seq<char>| #[trigger]
        peers.contains_key(id) ==> exists|i: int|
            0 <= i < stats.len() && (#[trigger] stats[i]).id@ == id
}

fn file_stats(files: Vec<FileMetadata>) -> (r: Vec<FileStats>)
    ensures
        r@.len() == files@.len(),
        forall|i: int| 0 <= i < r@.len() ==> tells_of_file(#[trigger] r@[i], files@[i]),
{
    let mut r: Vec<FileStats> = Vec::new();
    let mut n: usize = 0;
    while n < files.len()
        invariant
            n <= files@.len(),
            r@.len() == n,
            forall|i: int| 0 <= i < n ==> tells_of_file(#[trigger] r@[i], files@[i]),
        decreases files.len() - n,
    {
        let file = &files[n];
        r.push(
            FileStats {
                hash: file.hash.clone(),
                name: file.name.clone(),
                size: file.size,
                chunk_count: file.chunk_count,
                uploaded_at: file.uploaded_at,
                compressed: file.compressed,
            },
        );
        n = n + 1;
    }
    r
}

fn peer_stats(hub: &SignalHub) -> (r: Vec<PeerStats>)
    ensures
        tells_of_peers(r@, hub@.peers),
{
    let peers: Vec<PeerInfo> = hub.list_peers();
    let mut r: Vec<PeerStats> = Vec::new();
    let mut n: usize = 0;
    while n < peers.len()
        invariant
            n <= peers@.len(),
            r@.len() == n,
            forall|i: int|
                0 <= i < n ==> (#[trigger] r@[i]).id@ == peers@[i].id@ && r@[i].connected_at
                    == peers@[i].connected_at && r@[i].file_count == peers@[i].files@.len(),
        decreases peers.len() - n,
    {
        let peer = &peers[n];
        r.push(
            PeerStats {
                id: peer.id.clone(),
                connected_at: peer.connected_at,
                file_count: peer.files.len(),
            },
        );
        n = n + 1;
    }
    proof {
        assert forall|i: int| 0 <= i < r@.len() implies hub@.peers.contains_key(
            (#[trigger] r@[i]).id@,
        ) && r@[i].connected_at == hub@.peers[r@[i].id@].0 && r@[i].file_count
            == hub@.peers[r@[i].id@].1.len() by {
            assert(hub@.peers[peers@[i].id@] == signaling::peer_record(peers@[i]));
        }
        assert forall|i: int, j: int| 0 <= i < j < r@.len() implies (#[trigger] r@[i]).id@ != (
        #[trigger] r@[j]).id@ by {
            assert(peers@[i].id@ != peers@[j].id@);
        }
        assert forall|id: Seq<char>| #[trigger] hub@.peers.contains_key(id) implies exists|
            i: int,
        |
            0 <= i < r@.len() && (#[trigger] r@[i]).id@ == id by {
            let i = choose|i: int| 0 <= i < peers@.len() && (#[trigger] peers@[i]).id@ == id;
            assert(r@[i].id@ == id);
        }
    }
    r
}

/// Reports on the server to a request that came over the given transport. Where the files could not be read, the report says that there
/// are none. A clock that was set back before the start gives an uptime of zero.
pub fn build_status(
    version: &'static str,
    metrics: &ServerMetrics,
    now: i64,
    hub: &SignalHub,
    found: Option<Vec<FileMetadata>>,
    transport: Transport,
) -> (r: ServerStatus)
    requires
        i64::MIN <= now - metrics.started_at <= i64::MAX,
        found.is_some() ==> totals_fit(found.unwrap()@),
    ensures
        r.version@ == version@,
        r.uptime_secs == if now > metrics.started_at {
            now - metrics.started_at
        } else {
            0
        },
        signaling::has_size(hub@.peers, r.peer_count as nat),
        tells_of_peers(r.peers@, hub@.peers),
        r.active_quic_connections == metrics.active_quic_connections,
        r.total_quic_connections == metrics.total_quic_connections,
        r.quic_connections == metrics.active_quic_connections,
        r.quic_enabled,
        r.transport_hint@ == (if transport is H3 {
            HINT_H3@
        } else {
            HINT_TCP@
        }),
        found.is_some() ==> {
            let files = found.unwrap()@;
            &&& r.file_count == files.len()
            &&& r.total_bytes == total_bytes(files)
            &&& r.total_chunk_count == total_chunks(files)
            &&& r.files@.len() == files.len()
            &&& forall|i: int|
                0 <= i < files.len() ==> tells_of_file(#[trigger] r.files@[i], files[i])
        },
        found.is_none() ==> r.file_count == 0 && r.total_bytes == 0 && r.total_chunk_count == 0
            && r.files@.len() == 0,
{
    let age: i64 = now - metrics.started_at;
    let uptime_secs: u64 = if age > 0 {
        age as u64
    } else {
        0
    };
    let peer_count: usize = hub.peer_count();
    let peers = peer_stats(hub);
    let (file_count, bytes, chunks, files) = match found {
        Some(all) => {
            let count: usize = all.len();
            let (bytes, chunks) = totals(&all).unwrap();
            (count, bytes, chunks, file_stats(all))
        },
        None => (0usize, 0u64, 0u64, Vec::new()),
    };
    ServerStatus {
        version,
        uptime_secs,
        peer_count,
        file_count,
        total_bytes: bytes,
        total_chunk_count: chunks,
        active_quic_connections: metrics.active_quic_connections,
        total_quic_connections: metrics.total_quic_connections,
        quic_connections: metrics.active_quic_connections,
        quic_enabled: true,
        transport_hint: match transport {
            Transport::H3 => HINT_H3,
            Transport::Tcp => HINT_TCP,
        },
        files,
        peers,
    }
}

// ---- laws ----

/// Closing a connection undoes what opening it did to the number of open connections,
/// and leaves the number of accepted ones.
pub proof fn law_close_undoes_open(m: ServerMetrics)
    ensures
        closed_one(opened(m)).active_quic_connections == m.active_quic_connections,
        closed_one(opened(m)).total_quic_connections == counted_up(m.total_quic_connections),
        closed_one(opened(m)).started_at == m.started_at,
{
}

/// Opening a connection counts one more open and one more accepted; closing counts one open
/// less and leaves the accepted. When the server started stays.
pub proof fn law_connections_are_counted_one_by_one(m: ServerMetrics)
    ensures
        m.active_quic_connections < u64::MAX ==> opened(m).active_quic_connections
            == m.active_quic_connections + 1,
        m.total_quic_connections < u64::MAX ==> opened(m).total_quic_connections
            == m.total_quic_connections + 1,
        m.active_quic_connections > 0 ==> closed_one(m).active_quic_connections
            == m.active_quic_connections - 1,
        closed_one(m).total_quic_connections == m.total_quic_connections,
        opened(m).started_at == m.started_at,
        closed_one(m).started_at == m.started_at,
{
}

/// The totals of two lists of files together are the sums of their totals, one file counts with
/// its size and its chunks, and no file with nothing.
pub proof fn law_totals_add_up(a: Seq<FileMetadata>, b: Seq<FileMetadata>, file: FileMetadata)
    ensures
        total_bytes(a + b) == total_bytes(a) + total_bytes(b),
        total_chunks(a + b) == total_chunks(a) + total_chunks(b),
        total_bytes(seq![file]) == file.size,
        total_chunks(seq![file]) == file.chunk_count,
        total_bytes(Seq::empty()) == 0,
        total_chunks(Seq::empty()) == 0,
        totals_fit(a) <==> total_bytes(a) <= u64::MAX && total_chunks(a) <= u64::MAX,
    decreases b.len(),
{
    let one = seq![file];
    assert(one.drop_last() =~= Seq::empty());
    assert(total_bytes(one.drop_last()) == 0);
    assert(total_chunks(one.drop_last()) == 0);
    if b.len() == 0 {
        assert(a + b =~= a);
    } else {
        law_totals_add_up(a, b.drop_last(), file);
        assert((a + b).drop_last() =~= a + b.drop_last());
        assert((a + b).last() == b.last());
    }
}

/// What is said of a file is what is recorded of it.
pub proof fn law_file_is_told_as_recorded(stats: FileStats, file: FileMetadata)
    requires
        tells_of_file(stats, file),
    ensures
        stats.hash@ == file.hash@,
        stats.name@ == file.name@,
        stats.size == file.size,
        stats.chunk_count == file.chunk_count,
        stats.uploaded_at == file.uploaded_at,
        stats.compressed == file.compressed,
{
}

/// Every connected peer is told of, once, with the time when it connected and the number of the
/// files that it has announced, and nobody else is.
pub proof fn law_connected_peers_are_told_of(
    stats: Seq<PeerStats>,
    peers: Map<Seq<char>, PeerRecord>,
    id: Seq<char>,
    i: int,
    j: int,
)
    requires
        tells_of_peers(stats, peers),
    ensures
        peers.contains_key(id) <==> exists|k: int|
            0 <= k < stats.len() && (#[trigger] stats[k]).id@ == id,
        0 <= i < stats.len() ==> stats[i].connected_at == peers[stats[i].id@].0
            && stats[i].file_count == peers[stats[i].id@].1.len(),
        0 <= i < j < stats.len() ==> stats[i].id@ != stats[j].id@,
{
}

} // verus!
