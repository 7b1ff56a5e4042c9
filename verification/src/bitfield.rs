//! Chunk availability as a bitmap.
//!
//! Bit `i` of byte `i / 8`, the most significant bit of a byte first, says
//! whether chunk `i` is there: chunk 0 is bit 7 of byte 0, chunk 7 is bit 0 of
//! byte 0, chunk 8 is bit 7 of byte 1.

use vstd::prelude::*;

verus! {

/// Bit `k` of a byte, counted from the most significant one.
pub open spec fn byte_bit(byte: u8, k: int) -> bool {
    (byte >> ((7 - k) as u8)) & 1u8 == 1u8
}

/// Whether the bitmap says that chunk `i` is there. A bitmap says so of no
/// chunk beyond its last byte.
pub open spec fn has_bit(bitfield: Seq<u8>, i: int) -> bool {
    0 <= i && i / 8 < bitfield.len() && byte_bit(bitfield[i / 8], i % 8)
}

/// The chunk numbers that a bitmap declares, of those below `count`.
pub open spec fn declared(bitfield: Seq<u8>, count: u32) -> Set<u32> {
    Set::new(|id: u32| id < count && has_bit(bitfield, id as int))
}

/// Whether the bitmap has a bit for each of the given chunks and for no other.
pub open spec fn marks_exactly(bitfield: Seq<u8>, ids: Set<u32>) -> bool {
    forall|i: int| #[trigger]
        has_bit(bitfield, i) <==> (0 <= i <= u32::MAX && ids.contains(i as u32))
}

/// Whether the bitmap is no longer than the chunks with these numbers need.
pub open spec fn shortest_for(bitfield: Seq<u8>, ids: Set<u32>) -> bool {
    &&& forall|id: u32| #[trigger] ids.contains(id) ==> id as int / 8 < bitfield.len()
    &&& bitfield.len() > 0 ==> exists|id: u32| #[trigger]
        ids.contains(id) && bitfield.len() == id as int / 8 + 1
}

/// Reads one chunk's bit.
pub fn has_chunk(bitfield: &[u8], chunk_id: u32) -> (r: bool)
    ensures
        r == has_bit(bitfield@, chunk_id as int),
{
    let byte: u32 = chunk_id / 8;
    let k: u32 = chunk_id % 8;
    if byte as u64 >= bitfield.len() as u64 {
        return false;
    }
    let value: u8 = bitfield[byte as usize];
    let shift: u8 = (7 - k) as u8;
    (value >> shift) & 1u8 == 1u8
}

/// Sets one chunk's bit and leaves the others as they are.
fn set_chunk(bitfield: &mut Vec<u8>, chunk_id: u32)
    requires
        chunk_id as int / 8 < old(bitfield)@.len(),
    ensures
        final(bitfield)@.len() == old(bitfield)@.len(),
        forall|i: int|
            #[trigger] has_bit(final(bitfield)@, i) <==> (has_bit(old(bitfield)@, i) || i
                == chunk_id),
{
    let byte: usize = (chunk_id / 8) as usize;
    let k: u8 = (chunk_id % 8) as u8;
    let shift: u8 = 7 - k;
    let before: u8 = bitfield[byte];
    let after: u8 = before | (1u8 << shift);
    bitfield.set(byte, after);
    proof {
        assert((after >> shift) & 1u8 == 1u8) by (bit_vector)
            requires
                after == before | (1u8 << shift),
                shift < 8,
        ;
        assert forall|i: int| #[trigger]
            has_bit(bitfield@, i) <==> (has_bit(old(bitfield)@, i) || i == chunk_id) by {
            if 0 <= i && i / 8 == byte {
                let other: u8 = (7 - i % 8) as u8;
                if i % 8 != k {
                    assert((after >> other) & 1u8 == (before >> other) & 1u8) by (bit_vector)
                        requires
                            after == before | (1u8 << shift),
                            shift < 8,
                            other < 8,
                            other != shift,
                    ;
                }
            }
        }
    }
}

/// The largest of the numbers, if there is one.
fn largest(ids: &Vec<u32>) -> (r: Option<u32>)
    ensures
        r is None <==> ids@.len() == 0,
        r matches Some(m) ==> ids@.contains(m) && forall|i: int|
            0 <= i < ids@.len() ==> #[trigger] ids@[i] <= m,
{
    if ids.len() == 0 {
        return None;
    }
    let mut m: u32 = ids[0];
    let mut n: usize = 1;
    assert(ids@[0] == m);
    while n < ids.len()
        invariant
            1 <= n <= ids@.len(),
            ids@.contains(m),
            forall|i: int| 0 <= i < n ==> #[trigger] ids@[i] <= m,
        decreases ids.len() - n,
    {
        if ids[n] > m {
            m = ids[n];
            assert(ids@[n as int] == m);
        }
        n = n + 1;
    }
    Some(m)
}

/// Writes a bitmap with a bit for each of the given chunks and for no other. It
/// is as short as the largest number allows.
pub fn encode_bitfield(ids: &Vec<u32>) -> (r: Vec<u8>)
    ensures
        marks_exactly(r@, ids@.to_set()),
        shortest_for(r@, ids@.to_set()),
{
    let mut bits: Vec<u8> = Vec::new();
    match largest(ids) {
        None => {
            assert(marks_exactly(bits@, ids@.to_set()));
            bits
        },
        Some(m) => {
            let size: usize = (m / 8 + 1) as usize;
            while bits.len() < size
                invariant
                    bits@.len() <= size,
                    forall|i: int| 0 <= i < bits@.len() ==> #[trigger] bits@[i] == 0u8,
                decreases size - bits.len(),
            {
                bits.push(0u8);
            }
            assert forall|i: int| !#[trigger] has_bit(bits@, i) by {
                if 0 <= i && i / 8 < bits@.len() {
                    let shift: u8 = (7 - i % 8) as u8;
                    assert((0u8 >> shift) & 1u8 == 0u8) by (bit_vector);
                }
            }
            let mut n: usize = 0;
            while n < ids.len()
                invariant
                    n <= ids@.len(),
                    bits@.len() == size,
                    size == m as int / 8 + 1,
                    forall|i: int| 0 <= i < ids@.len() ==> #[trigger] ids@[i] <= m,
                    forall|i: int| #[trigger]
                        has_bit(bits@, i) <==> exists|j: int|
                            0 <= j < n && #[trigger] ids@[j] == i,
                decreases ids.len() - n,
            {
                let ghost before = bits@;
                let id = ids[n];
                assert(id <= m);
                set_chunk(&mut bits, id);
                assert forall|i: int| #[trigger]
                    has_bit(bits@, i) <==> exists|j: int|
                        0 <= j < n + 1 && #[trigger] ids@[j] == i by {
                    assert(has_bit(bits@, i) <==> has_bit(before, i) || i == id);
                    if i == id {
                        assert(ids@[n as int] == i);
                    }
                }
                n = n + 1;
            }
            proof {
                assert forall|i: int| #[trigger]
                    has_bit(bits@, i) <==> (0 <= i <= u32::MAX && ids@.to_set().contains(
                        i as u32,
                    )) by {
                    if 0 <= i <= u32::MAX && ids@.contains(i as u32) {
                        let j = choose|j: int| 0 <= j < ids@.len() && ids@[j] == i as u32;
                        assert(ids@[j] == i);
                    }
                }
                assert(ids@.to_set().contains(m));
            }
            bits
        },
    }
}

/// What a bitmap that was written for some chunks declares is those chunks.
pub proof fn law_bitfield_round_trip(ids: Set<u32>, bitfield: Seq<u8>, count: u32)
    requires
        marks_exactly(bitfield, ids),
        forall|id: u32| #[trigger] ids.contains(id) ==> id < count,
    ensures
        declared(bitfield, count) == ids,
{
    assert forall|id: u32| declared(bitfield, count).contains(id) <==> ids.contains(id) by {
        assert(has_bit(bitfield, id as int) <==> ids.contains(id));
    }
    assert(declared(bitfield, count) =~= ids);
}

/// Chunk 0 is the most significant bit of the first byte, chunk 7 the least significant, and
/// chunk 8 the most significant bit of the second; beyond the last byte there is nothing.
pub proof fn law_most_significant_bit_comes_first(bitfield: Seq<u8>, byte: int)
    ensures
        0 <= byte < bitfield.len() ==> {
            &&& has_bit(bitfield, 8 * byte) <==> bitfield[byte] as int / 128 % 2 == 1
            &&& has_bit(bitfield, 8 * byte + 1) <==> bitfield[byte] as int / 64 % 2 == 1
            &&& has_bit(bitfield, 8 * byte + 2) <==> bitfield[byte] as int / 32 % 2 == 1
            &&& has_bit(bitfield, 8 * byte + 3) <==> bitfield[byte] as int / 16 % 2 == 1
            &&& has_bit(bitfield, 8 * byte + 4) <==> bitfield[byte] as int / 8 % 2 == 1
            &&& has_bit(bitfield, 8 * byte + 5) <==> bitfield[byte] as int / 4 % 2 == 1
            &&& has_bit(bitfield, 8 * byte + 6) <==> bitfield[byte] as int / 2 % 2 == 1
            &&& has_bit(bitfield, 8 * byte + 7) <==> bitfield[byte] as int % 2 == 1
        },
        byte < 0 || byte >= bitfield.len() ==> forall|i: int|
            8 * byte <= i < 8 * byte + 8 ==> !#[trigger] has_bit(bitfield, i),
{
    if 0 <= byte < bitfield.len() {
        let b = bitfield[byte];
        assert((b >> 7u8) & 1u8 == 1u8 <==> b / 128 % 2 == 1) by (bit_vector);
        assert((b >> 6u8) & 1u8 == 1u8 <==> b / 64 % 2 == 1) by (bit_vector);
        assert((b >> 5u8) & 1u8 == 1u8 <==> b / 32 % 2 == 1) by (bit_vector);
        assert((b >> 4u8) & 1u8 == 1u8 <==> b / 16 % 2 == 1) by (bit_vector);
        assert((b >> 3u8) & 1u8 == 1u8 <==> b / 8 % 2 == 1) by (bit_vector);
        assert((b >> 2u8) & 1u8 == 1u8 <==> b / 4 % 2 == 1) by (bit_vector);
        assert((b >> 1u8) & 1u8 == 1u8 <==> b / 2 % 2 == 1) by (bit_vector);
        assert((b >> 0u8) & 1u8 == 1u8 <==> b % 2 == 1) by (bit_vector);
    }
}

/// A bitmap declares of the chunks below the count those that it has a bit for.
pub proof fn law_declared_chunks_have_their_bit(bitfield: Seq<u8>, count: u32, id: u32)
    ensures
        declared(bitfield, count).contains(id) <==> id < count && has_bit(bitfield, id as int),
{
}

/// A bitmap that is written for some chunks has a bit for each of them and for no other number,
/// reaches as far as the largest of them, and has no byte behind that. So there is one such
/// bitmap and no other.
pub proof fn law_bitmap_is_exact_and_short(bitfield: Seq<u8>, ids: Set<u32>, id: u32)
    requires
        marks_exactly(bitfield, ids),
        shortest_for(bitfield, ids),
    ensures
        has_bit(bitfield, id as int) <==> ids.contains(id),
        ids.contains(id) ==> id < 8 * bitfield.len(),
        bitfield.len() > 0 ==> exists|last: u32| #[trigger]
            ids.contains(last) && 8 * (bitfield.len() - 1) <= last < 8 * bitfield.len(),
{
    if bitfield.len() > 0 {
        let last = choose|last: u32| #[trigger]
            ids.contains(last) && bitfield.len() == last as int / 8 + 1;
        assert(ids.contains(last) && 8 * (bitfield.len() - 1) <= last < 8 * bitfield.len());
    }
}

} // verus!
