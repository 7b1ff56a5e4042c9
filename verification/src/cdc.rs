//! Content-defined chunking.
//!
//! A file is cut where FastCDC finds a boundary in its content, and each chunk
//! carries the BLAKE3 hash of its bytes. A chunk has at least 256 KB, except
//! the last one of a file, and at most 4 MB.

use vstd::prelude::*;
use vstd::slice::slice_subrange;

use crate::hashing::{content_hash, hash_hex, is_content_hash, StreamHasher};

verus! {

/// The smallest chunk, 256 KB.
pub const CDC_MIN_SIZE: u32 = 262144;

/// The size that chunks have on average, 1 MB.
pub const CDC_AVG_SIZE: u32 = 1048576;

/// The largest chunk, 4 MB.
pub const CDC_MAX_SIZE: u32 = 4194304;

/// Byte offset and length of one chunk, with the hash of its content.
#[derive(Debug)]
pub struct ChunkBoundary {
    pub chunk_id: u32,
    pub offset: u64,
    pub length: u32,
    /// Hexadecimal BLAKE3 hash of the chunk's bytes.
    pub hash: String,
}

impl Clone for ChunkBoundary {
    fn clone(&self) -> (r: Self)
        ensures
            r == *self,
    {
        ChunkBoundary {
            chunk_id: self.chunk_id,
            offset: self.offset,
            length: self.length,
            hash: self.hash.clone(),
        }
    }
}

impl ChunkBoundary {
    /// Where the chunk ends in the file.
    pub open spec fn end(self) -> int {
        self.offset + self.length
    }

    /// Whether this is the boundary of chunk number `id` of a file that holds
    /// `data`: its range lies in the file and its hash is that of the range.
    pub open spec fn describes(self, id: int, data: Seq<u8>) -> bool {
        &&& self.chunk_id == id as u32
        &&& self.end() <= data.len()
        &&& self.hash@ == content_hash(data.subrange(self.offset as int, self.end()))
    }
}

/// The places where FastCDC cuts `data`: offset and length of each piece.
pub uninterp spec fn fastcdc_cuts(
    data: Seq<u8>,
    min_size: u32,
    avg_size: u32,
    max_size: u32,
) -> Seq<(usize, usize)>;

/// Whether the pieces follow one another without a gap from the start of `len`
/// bytes to their end, none empty or larger than `max`, and only the last one
/// smaller than `min`.
pub open spec fn tiles(cuts: Seq<(usize, usize)>, len: nat, min: int, max: int) -> bool {
    &&& cuts.len() == 0 <==> len == 0
    &&& cuts.len() > 0 ==> cuts[0].0 == 0 && cuts.last().0 + cuts.last().1 == len
    &&& forall|i: int, j: int|
        #![trigger cuts[i], cuts[j]]
        0 <= i && j == i + 1 && j < cuts.len() ==> cuts[i].0 + cuts[i].1 == cuts[j].0
    &&& forall|i: int|
        0 <= i < cuts.len() ==> 0 < (#[trigger] cuts[i]).1 <= max && cuts[i].0 + cuts[i].1 <= len
    &&& forall|i: int| 0 <= i < cuts.len() - 1 ==> min <= (#[trigger] cuts[i]).1
}

/// The pieces from number `k` on, as they lie behind the place where that one begins.
pub open spec fn cuts_from(cuts: Seq<(usize, usize)>, k: int) -> Seq<(usize, usize)> {
    Seq::new(
        (cuts.len() - k) as nat,
        |i: int| ((cuts[k + i].0 - cuts[k].0) as usize, cuts[k + i].1),
    )
}

/// Whether the pieces do not depend on the bytes before them: what lies behind the
/// beginning of a piece is cut by itself as it is cut in the whole.
pub open spec fn cuts_stand_alone(
    cuts: Seq<(usize, usize)>,
    data: Seq<u8>,
    min_size: u32,
    avg_size: u32,
    max_size: u32,
) -> bool {
    forall|k: int|
        0 <= k < cuts.len() ==> fastcdc_cuts(
            data.skip((#[trigger] cuts[k]).0 as int),
            min_size,
            avg_size,
            max_size,
        ) == cuts_from(cuts, k)
}

/// Calls `fastcdc::v2020::FastCDC::new` and takes offset and length of each
/// piece that it yields. The pieces are a function of the data and of the three
/// sizes, and they tile the data. Each search for a cut begins afresh where the
/// piece before it ended and looks at nothing before that, so the bytes before a
/// piece do not matter to it or to those behind it. The sizes are held to what
/// the constructor asserts, to their order, and to an even smallest size,
/// because the search for a cut starts at an even position.
#[verifier::external_body]
fn fastcdc_pieces(data: &[u8], min_size: u32, avg_size: u32, max_size: u32) -> (r: Vec<
    (usize, usize),
>)
    requires
        64 <= min_size <= 1048576,
        256 <= avg_size <= 4194304,
        1024 <= max_size <= 16777216,
        min_size <= avg_size <= max_size,
        min_size % 2 == 0,
    ensures
        r@ == fastcdc_cuts(data@, min_size, avg_size, max_size),
        tiles(r@, data@.len(), min_size as int, max_size as int),
        cuts_stand_alone(r@, data@, min_size, avg_size, max_size),
{
    fastcdc::v2020::FastCDC::new(data, min_size, avg_size, max_size)
        .map(|piece| (piece.offset, piece.length))
        .collect()
}

/// The boundaries that FastCDC gives a file that holds `data`, as far as
/// offsets and lengths go.
pub open spec fn cuts_of(data: Seq<u8>) -> Seq<(usize, usize)> {
    fastcdc_cuts(data, CDC_MIN_SIZE, CDC_AVG_SIZE, CDC_MAX_SIZE)
}

/// Whether the boundaries lie where FastCDC cuts a file that holds `data`.
pub open spec fn follows_cuts(boundaries: Seq<ChunkBoundary>, data: Seq<u8>) -> bool {
    &&& boundaries.len() == cuts_of(data).len()
    &&& forall|i: int|
        0 <= i < boundaries.len() ==> (#[trigger] boundaries[i]).offset == cuts_of(data)[i].0
            && boundaries[i].length == cuts_of(data)[i].1
}

/// Whether a file that holds `data` is cut, behind each place where it is cut, as what lies
/// there is cut by itself.
pub open spec fn is_cut_locally(data: Seq<u8>) -> bool {
    cuts_stand_alone(cuts_of(data), data, CDC_MIN_SIZE, CDC_AVG_SIZE, CDC_MAX_SIZE)
}

/// Whether the boundaries partition a file that holds `data`: numbered in order,
/// without a gap or an overlap, from its first byte to its last, none empty, each
/// with the hash of its bytes.
pub open spec fn partitions(boundaries: Seq<ChunkBoundary>, data: Seq<u8>) -> bool {
    &&& boundaries.len() == 0 <==> data.len() == 0
    &&& boundaries.len() > 0 ==> boundaries[0].offset == 0 && boundaries.last().end() == data.len()
    &&& forall|i: int, j: int|
        #![trigger boundaries[i], boundaries[j]]
        0 <= i && j == i + 1 && j < boundaries.len() ==> boundaries[i].end()
            == boundaries[j].offset
    &&& forall|i: int|
        0 <= i < boundaries.len() ==> (#[trigger] boundaries[i]).describes(i, data) && 0
            < boundaries[i].length
}

/// Whether all chunks keep to the sizes: none above the largest, and only the last
/// one below the smallest.
pub open spec fn sized(boundaries: Seq<ChunkBoundary>) -> bool {
    &&& forall|i: int|
        0 <= i < boundaries.len() ==> (#[trigger] boundaries[i]).length <= CDC_MAX_SIZE
    &&& forall|i: int|
        0 <= i < boundaries.len() - 1 ==> CDC_MIN_SIZE <= (#[trigger] boundaries[i]).length
}

/// Content hash, size and chunk boundaries of a file that holds `data`.
pub fn process_file(data: &[u8]) -> (r: (String, u64, Vec<ChunkBoundary>))
    ensures
        r.0@ == content_hash(data@),
        is_content_hash(r.0@),
        r.1 == data@.len(),
        partitions(r.2@, data@),
        sized(r.2@),
        follows_cuts(r.2@, data@),
        is_cut_locally(data@),
{
    let mut hasher = StreamHasher::new();
    hasher.update(data);
    assert(Seq::<u8>::empty() + data@ =~= data@);
    let hash = hasher.finish_encoded();

    let cuts = fastcdc_pieces(data, CDC_MIN_SIZE, CDC_AVG_SIZE, CDC_MAX_SIZE);
    let mut boundaries: Vec<ChunkBoundary> = Vec::new();
    let size: usize = data.len();
    let mut id: usize = 0;
    while id < cuts.len()
        invariant
            id <= cuts@.len(),
            size == data@.len(),
            cuts@ == cuts_of(data@),
            tiles(cuts@, data@.len(), CDC_MIN_SIZE as int, CDC_MAX_SIZE as int),
            boundaries@.len() == id,
            forall|i: int|
                0 <= i < id ==> (#[trigger] boundaries@[i]).describes(i, data@)
                    && boundaries@[i].offset == cuts@[i].0 && boundaries@[i].length == cuts@[i].1,
        decreases cuts.len() - id,
    {
        let (offset, length) = cuts[id];
        assert(cuts@[id as int] == (offset, length));
        let piece = slice_subrange(data, offset, offset + length);
        let mut piece_hasher = StreamHasher::new();
        piece_hasher.update(piece);
        assert(Seq::<u8>::empty() + piece@ =~= piece@);
        boundaries.push(
            ChunkBoundary {
                chunk_id: #[verifier::truncate] (id as u32),
                offset: offset as u64,
                length: length as u32,
                hash: piece_hasher.finish_encoded(),
            },
        );
        id = id + 1;
    }
    proof {
        let b = boundaries@;
        assert(forall|i: int|
            0 <= i < b.len() ==> (#[trigger] b[i]).offset == cuts@[i].0 && b[i].length
                == cuts@[i].1);
        if b.len() > 0 {
            assert(b[0].offset == cuts@[0].0);
            assert(b.last().end() == cuts@.last().0 + cuts@.last().1);
        }
        assert forall|i: int, j: int|
            #![trigger b[i], b[j]]
            0 <= i && j == i + 1 && j < b.len() implies b[i].end() == b[j].offset by {
            assert(cuts@[i].0 + cuts@[i].1 == cuts@[j].0);
        }
        assert forall|i: int| 0 <= i < b.len() implies 0 < (#[trigger] b[i]).length
            <= CDC_MAX_SIZE by {
            assert(0 < cuts@[i].1 <= CDC_MAX_SIZE);
        }
        assert forall|i: int| 0 <= i < b.len() - 1 implies CDC_MIN_SIZE
            <= (#[trigger] b[i]).length by {
            assert(CDC_MIN_SIZE <= cuts@[i].1);
        }
    }
    (hash, size as u64, boundaries)
}

/// Whether pieces keep to the sizes of chunks: none above the largest, and only the last one
/// below the smallest.
pub open spec fn pieces_sized(pieces: Seq<Seq<u8>>) -> bool {
    &&& forall|i: int| 0 <= i < pieces.len() ==> (#[trigger] pieces[i]).len() <= CDC_MAX_SIZE
    &&& forall|i: int| 0 <= i < pieces.len() - 1 ==> CDC_MIN_SIZE <= (#[trigger] pieces[i]).len()
}

/// Collects the boundaries of a file whose pieces arrive one after the other.
pub struct ChunkRecorder {
    boundaries: Vec<ChunkBoundary>,
    total: u64,
    seen: Ghost<Seq<u8>>,
    pieces: Ghost<Seq<Seq<u8>>>,
}

impl View for ChunkRecorder {
    type V = Seq<ChunkBoundary>;

    closed spec fn view(&self) -> Seq<ChunkBoundary> {
        self.boundaries@
    }
}

impl ChunkRecorder {
    /// The bytes of the pieces that have been recorded.
    pub closed spec fn data(&self) -> Seq<u8> {
        self.seen@
    }

    /// The pieces that have been recorded, in order.
    pub closed spec fn pieces(&self) -> Seq<Seq<u8>> {
        self.pieces@
    }

    /// The boundaries partition what has been recorded, one for each piece.
    #[verifier::type_invariant]
    spec fn inv(&self) -> bool {
        &&& partitions(self.boundaries@, self.seen@)
        &&& self.total == self.seen@.len()
        &&& self.pieces@.len() == self.boundaries@.len()
        &&& forall|i: int|
            0 <= i < self.pieces@.len() ==> (#[trigger] self.pieces@[i]).len()
                == self.boundaries@[i].length
    }

    /// A recorder that has seen no piece.
    pub fn new() -> (r: Self)
        ensures
            r@ == Seq::<ChunkBoundary>::empty(),
            r.data() == Seq::<u8>::empty(),
            r.pieces() == Seq::<Seq<u8>>::empty(),
    {
        ChunkRecorder {
            boundaries: Vec::new(),
            total: 0,
            seen: Ghost(Seq::empty()),
            pieces: Ghost(Seq::empty()),
        }
    }

    /// How many pieces have been recorded.
    pub fn count(&self) -> (r: usize)
        ensures
            r == self@.len(),
    {
        self.boundaries.len()
    }

    /// How many bytes have been recorded.
    pub fn total(&self) -> (r: u64)
        ensures
            r == self.data().len(),
    {
        proof {
            use_type_invariant(self);
        }
        self.total
    }

    /// Records the next piece of the file: its number is that of the pieces
    /// before it, it begins where they end, and its hash is that of its bytes.
    pub fn record(self, piece: &[u8]) -> (r: Self)
        requires
            0 < piece@.len() <= u32::MAX,
            self@.len() < u32::MAX,
            self.data().len() + piece@.len() <= u64::MAX,
        ensures
            r.data() == self.data() + piece@,
            r.pieces() == self.pieces().push(piece@),
            r@.len() == self@.len() + 1,
            r@.drop_last() == self@,
            r@.last().chunk_id == self@.len(),
            r@.last().offset == self.data().len(),
            r@.last().length == piece@.len(),
            r@.last().hash@ == content_hash(piece@),
            is_content_hash(r@.last().hash@),
    {
        proof {
            use_type_invariant(&self);
        }
        let ghost before = self.boundaries@;
        let ghost data = self.seen@;
        let ghost longer = data + piece@;
        let ghost pieces = self.pieces@.push(piece@);
        let mut boundaries = self.boundaries;
        let chunk_id: u32 = boundaries.len() as u32;
        let length: u32 = piece.len() as u32;
        boundaries.push(
            ChunkBoundary { chunk_id, offset: self.total, length, hash: hash_hex(piece) },
        );
        proof {
            assert(boundaries@.drop_last() =~= before);
            assert forall|i: int| 0 <= i < boundaries@.len() implies (
            #[trigger] boundaries@[i]).describes(i, longer) && 0 < boundaries@[i].length by {
                if i < before.len() {
                    assert(before[i].describes(i, data));
                    assert(longer.subrange(before[i].offset as int, before[i].end())
                        =~= data.subrange(before[i].offset as int, before[i].end()));
                } else {
                    assert(longer.subrange(data.len() as int, longer.len() as int) =~= piece@);
                }
            }
            assert forall|i: int, j: int|
                #![trigger boundaries@[i], boundaries@[j]]
                0 <= i && j == i + 1 && j < boundaries@.len() implies boundaries@[i].end()
                == boundaries@[j].offset by {
                if j < before.len() {
                    assert(before[i].end() == before[j].offset);
                }
            }
        }
        ChunkRecorder {
            boundaries,
            total: self.total + piece.len() as u64,
            seen: Ghost(longer),
            pieces: Ghost(pieces),
        }
    }

    /// The boundaries in the order of the pieces. They partition a file that holds the
    /// pieces behind one another, one chunk is as long as one piece, and chunks keep to the
    /// sizes where the pieces do.
    pub fn finish(self) -> (r: Vec<ChunkBoundary>)
        ensures
            r@ == self@,
            partitions(r@, self.data()),
            r@.len() == self.pieces().len(),
            forall|i: int|
                0 <= i < r@.len() ==> (#[trigger] r@[i]).length == self.pieces()[i].len(),
            pieces_sized(self.pieces()) ==> sized(r@),
    {
        proof {
            use_type_invariant(&self);
            assert forall|i: int| 0 <= i < self.boundaries@.len() implies (
            #[trigger] self.boundaries@[i]).length == self.pieces@[i].len() by {
                assert(self.pieces@[i].len() == self.boundaries@[i].length);
            }
        }
        self.boundaries
    }
}

/// What comes out when the first `n` chunks of a file are read and put behind
/// one another.
pub open spec fn reassembled(boundaries: Seq<ChunkBoundary>, data: Seq<u8>, n: nat) -> Seq<u8>
    decreases n,
{
    if n == 0 {
        Seq::empty()
    } else {
        let last = boundaries[n - 1];
        reassembled(boundaries, data, (n - 1) as nat) + data.subrange(
            last.offset as int,
            last.end(),
        )
    }
}

proof fn lemma_prefix_reassembled(boundaries: Seq<ChunkBoundary>, data: Seq<u8>, n: nat)
    requires
        partitions(boundaries, data),
        0 < n <= boundaries.len(),
    ensures
        reassembled(boundaries, data, n) == data.take(boundaries[n - 1].end()),
    decreases n,
{
    let last = boundaries[n - 1];
    assert(last.describes(n - 1, data));
    if n == 1 {
        assert(reassembled(boundaries, data, 0) =~= Seq::<u8>::empty());
    } else {
        lemma_prefix_reassembled(boundaries, data, (n - 1) as nat);
        assert(boundaries[n - 2].end() == last.offset);
    }
    assert(reassembled(boundaries, data, n) =~= data.take(last.end()));
}

/// A file is what its chunks give when they are put behind one another.
pub proof fn law_chunks_give_the_file_back(boundaries: Seq<ChunkBoundary>, data: Seq<u8>)
    requires
        partitions(boundaries, data),
    ensures
        reassembled(boundaries, data, boundaries.len()) == data,
{
    if boundaries.len() > 0 {
        lemma_prefix_reassembled(boundaries, data, boundaries.len());
        assert(data.take(data.len() as int) =~= data);
    } else {
        assert(data =~= Seq::<u8>::empty());
    }
}

/// Two ways of chunking a file that both cut it where FastCDC does agree on every chunk: on
/// its number, its place and its hash. So a server that records the pieces of a stream and a
/// device that cuts the file in memory know the same chunks.
pub proof fn law_same_cuts_give_the_same_chunks(
    recorded: Seq<ChunkBoundary>,
    processed: Seq<ChunkBoundary>,
    data: Seq<u8>,
)
    requires
        partitions(recorded, data),
        follows_cuts(recorded, data),
        partitions(processed, data),
        follows_cuts(processed, data),
    ensures
        recorded.len() == processed.len(),
        forall|i: int|
            0 <= i < recorded.len() ==> (#[trigger] recorded[i]).chunk_id == processed[i].chunk_id
                && recorded[i].offset == processed[i].offset && recorded[i].length
                == processed[i].length && recorded[i].hash@ == processed[i].hash@,
{
    assert forall|i: int| 0 <= i < recorded.len() implies (#[trigger] recorded[i]).chunk_id
        == processed[i].chunk_id && recorded[i].offset == processed[i].offset
        && recorded[i].length == processed[i].length && recorded[i].hash@
        == processed[i].hash@ by {
        assert(recorded[i].describes(i, data));
        assert(processed[i].describes(i, data));
    }
}

/// The bytes before a boundary leave the chunks behind it alone: a file that holds just what
/// lies behind the beginning of chunk `k` has those chunks, with the same lengths and hashes,
/// each as far from its beginning as it was from that of chunk `k`.
pub proof fn law_bytes_before_a_boundary_do_not_matter(
    boundaries: Seq<ChunkBoundary>,
    data: Seq<u8>,
    k: int,
    rest: Seq<ChunkBoundary>,
)
    requires
        partitions(boundaries, data),
        follows_cuts(boundaries, data),
        is_cut_locally(data),
        0 <= k < boundaries.len(),
        partitions(rest, data.skip(boundaries[k].offset as int)),
        follows_cuts(rest, data.skip(boundaries[k].offset as int)),
    ensures
        rest.len() == boundaries.len() - k,
        forall|i: int|
            0 <= i < rest.len() ==> (#[trigger] rest[i]).length == boundaries[k + i].length
                && rest[i].offset == boundaries[k + i].offset - boundaries[k].offset
                && rest[i].hash@ == boundaries[k + i].hash@,
{
    let cuts = cuts_of(data);
    let start = boundaries[k].offset as int;
    let tail = data.skip(start);
    assert(cuts[k].0 == start);
    assert(cuts_of(tail) == cuts_from(cuts, k));
    assert forall|i: int| 0 <= i < rest.len() implies (#[trigger] rest[i]).length == boundaries[k
        + i].length && rest[i].offset == boundaries[k + i].offset - boundaries[k].offset
        && rest[i].hash@ == boundaries[k + i].hash@ by {
        let whole = boundaries[k + i];
        if i > 0 {
            law_chunks_do_not_overlap(boundaries, data, k, k + i);
        }
        assert(cuts_from(cuts, k)[i] == ((cuts[k + i].0 - cuts[k].0) as usize, cuts[k + i].1));
        assert(whole.offset == cuts[k + i].0);
        assert(rest[i].describes(i, tail));
        assert(whole.describes(k + i, data));
        assert(tail.subrange(rest[i].offset as int, rest[i].end()) =~= data.subrange(
            whole.offset as int,
            whole.end(),
        ));
    }
}

/// Two chunks with different numbers share no byte of the file: the one with
/// the smaller number ends where the other begins, or before.
pub proof fn law_chunks_do_not_overlap(
    boundaries: Seq<ChunkBoundary>,
    data: Seq<u8>,
    i: int,
    j: int,
)
    requires
        partitions(boundaries, data),
        0 <= i < j < boundaries.len(),
    ensures
        boundaries[i].end() <= boundaries[j].offset,
    decreases j - i,
{
    if j == i + 1 {
        assert(boundaries[i].end() == boundaries[j].offset);
    } else {
        law_chunks_do_not_overlap(boundaries, data, i, j - 1);
        assert(boundaries[j - 1].end() == boundaries[j].offset);
    }
}

/// Chunks are numbered from zero, each lies in the file, and each carries the hash of the bytes
/// from its offset on that are as many as its length says.
pub proof fn law_chunks_describe_their_bytes(
    boundaries: Seq<ChunkBoundary>,
    data: Seq<u8>,
    i: int,
)
    requires
        partitions(boundaries, data),
        0 <= i < boundaries.len(),
    ensures
        i <= u32::MAX ==> boundaries[i].chunk_id == i,
        0 < boundaries[i].length,
        boundaries[i].offset + boundaries[i].length <= data.len(),
        boundaries[i].hash@ == content_hash(
            data.subrange(
                boundaries[i].offset as int,
                boundaries[i].offset + boundaries[i].length,
            ),
        ),
        i == 0 ==> boundaries[i].offset == 0,
        i + 1 < boundaries.len() ==> boundaries[i + 1].offset == boundaries[i].offset
            + boundaries[i].length,
        i + 1 == boundaries.len() ==> boundaries[i].offset + boundaries[i].length == data.len(),
{
    assert(boundaries[i].describes(i, data));
    if i + 1 < boundaries.len() {
        assert(boundaries[i].end() == boundaries[i + 1].offset);
    }
}

/// Every byte of a file lies in a chunk.
pub proof fn law_every_byte_lies_in_a_chunk(
    boundaries: Seq<ChunkBoundary>,
    data: Seq<u8>,
    place: int,
)
    requires
        partitions(boundaries, data),
        0 <= place < data.len(),
    ensures
        exists|i: int|
            0 <= i < boundaries.len() && (#[trigger] boundaries[i]).offset <= place
                < boundaries[i].offset + boundaries[i].length,
{
    lemma_lies_before(boundaries, data, place, boundaries.len() as int);
}

proof fn lemma_lies_before(
    boundaries: Seq<ChunkBoundary>,
    data: Seq<u8>,
    place: int,
    n: int,
)
    requires
        partitions(boundaries, data),
        0 < n <= boundaries.len(),
        0 <= place < boundaries[n - 1].end(),
    ensures
        exists|i: int|
            0 <= i < n && (#[trigger] boundaries[i]).offset <= place < boundaries[i].offset
                + boundaries[i].length,
    decreases n,
{
    let last = boundaries[n - 1];
    if last.offset <= place {
        assert(boundaries[n - 1].offset <= place < boundaries[n - 1].offset + boundaries[n
            - 1].length);
    } else {
        assert(n > 1);
        assert(boundaries[n - 2].end() == boundaries[n - 1].offset);
        lemma_lies_before(boundaries, data, place, n - 1);
    }
}

/// Chunks that keep to the sizes have at most 4 MB, and at least 256 KB but for the last.
pub proof fn law_sizes_of_chunks(boundaries: Seq<ChunkBoundary>, i: int)
    requires
        sized(boundaries),
        0 <= i < boundaries.len(),
    ensures
        boundaries[i].length <= 4 * 1024 * 1024,
        i + 1 < boundaries.len() ==> 256 * 1024 <= boundaries[i].length,
{
}

/// Chunks that follow the cuts begin and end where FastCDC cuts for a smallest size of 256 KB, an
/// average of 1 MB and a largest of 4 MB.
pub proof fn law_cuts_are_those_of_the_sizes(
    boundaries: Seq<ChunkBoundary>,
    data: Seq<u8>,
    i: int,
)
    requires
        follows_cuts(boundaries, data),
    ensures
        boundaries.len() == fastcdc_cuts(data, 262144, 1048576, 4194304).len(),
        0 <= i < boundaries.len() ==> boundaries[i].offset == fastcdc_cuts(
            data,
            262144,
            1048576,
            4194304,
        )[i].0 && boundaries[i].length == fastcdc_cuts(data, 262144, 1048576, 4194304)[i].1,
{
}

/// Pieces that keep to the sizes have at most 4 MB, and at least 256 KB but for the last; and
/// pieces of such lengths keep to the sizes.
pub proof fn law_sizes_of_pieces(pieces: Seq<Seq<u8>>)
    ensures
        pieces_sized(pieces) <==> forall|i: int|
            0 <= i < pieces.len() ==> (#[trigger] pieces[i]).len() <= 4194304 && (i + 1
                == pieces.len() || 262144 <= pieces[i].len()),
{
}

} // verus!
