//! Rarest-first ordering of chunk requests.
//!
//! A peer asks for a window of chunks. The chunks that the fewest peers hold
//! come first, and chunks that are equally rare keep the order in which they
//! were asked for.

use vstd::prelude::*;

verus! {

/// A chunk, with the peers that can serve it.
#[derive(Debug)]
pub struct ChunkAssignment {
    pub chunk_id: u32,
    pub peers: Vec<String>,
}

/// The chunks that the assignments are for, in order.
pub open spec fn chunk_ids(assignments: Seq<ChunkAssignment>) -> Seq<u32> {
    assignments.map_values(|a: ChunkAssignment| a.chunk_id)
}

/// Selects the chunks that exactly `count` peers hold.
pub open spec fn held_by(rarity: spec_fn(u32) -> nat, count: nat) -> spec_fn(u32) -> bool {
    |id: u32| rarity(id) == count
}

/// Whether `ordered` is `requested` with the rarest chunks first: the counts
/// never fall, and the chunks of each count are those that were requested, in
/// the order in which they were.
pub open spec fn rarest_first(
    ordered: Seq<u32>,
    requested: Seq<u32>,
    rarity: spec_fn(u32) -> nat,
) -> bool {
    &&& forall|i: int, j: int|
        0 <= i <= j < ordered.len() ==> rarity(#[trigger] ordered[i]) <= rarity(
            #[trigger] ordered[j],
        )
    &&& forall|count: nat| #[trigger]
        ordered.filter(held_by(rarity, count)) == requested.filter(held_by(rarity, count))
}

/// Filtering a sequence with one more item inside it.
proof fn lemma_filter_insert(s: Seq<u32>, at: int, id: u32, keep: spec_fn(u32) -> bool)
    requires
        0 <= at <= s.len(),
    ensures
        s.insert(at, id).filter(keep) == s.take(at).filter(keep) + (if keep(id) {
            seq![id]
        } else {
            Seq::empty()
        }) + s.skip(at).filter(keep),
{
    let one = seq![id];
    assert(s.insert(at, id) =~= s.take(at) + one + s.skip(at));
    Seq::filter_distributes_over_add(s.take(at) + one, s.skip(at), keep);
    Seq::filter_distributes_over_add(s.take(at), one, keep);
    assert(one.filter(keep) =~= if keep(id) {
        seq![id]
    } else {
        Seq::empty()
    }) by {
        reveal(Seq::filter);
        assert(one.drop_last() =~= Seq::empty());
        assert(one.drop_last().filter(keep) =~= Seq::empty());
    }
}

/// A chunk that is put behind all the chunks that are no more common, and before
/// all that are, takes its place in the order.
pub proof fn lemma_insert_rarest_first(
    ordered: Seq<u32>,
    requested: Seq<u32>,
    rarity: spec_fn(u32) -> nat,
    at: int,
    id: u32,
)
    requires
        rarest_first(ordered, requested, rarity),
        0 <= at <= ordered.len(),
        forall|i: int| 0 <= i < at ==> rarity(#[trigger] ordered[i]) <= rarity(id),
        forall|i: int| at <= i < ordered.len() ==> rarity(id) < rarity(#[trigger] ordered[i]),
    ensures
        rarest_first(ordered.insert(at, id), requested.push(id), rarity),
{
    let longer = ordered.insert(at, id);
    assert forall|i: int, j: int| 0 <= i <= j < longer.len() implies rarity(#[trigger] longer[i])
        <= rarity(#[trigger] longer[j]) by {
        let a = if i < at {
            i
        } else {
            i - 1
        };
        let b = if j < at {
            j
        } else {
            j - 1
        };
        if i != at {
            assert(longer[i] == ordered[a]);
        }
        if j != at {
            assert(longer[j] == ordered[b]);
        }
    }
    assert forall|count: nat| #[trigger]
        longer.filter(held_by(rarity, count)) == requested.push(id).filter(
            held_by(rarity, count),
        ) by {
        let keep = held_by(rarity, count);
        let head = ordered.take(at);
        let tail = ordered.skip(at);
        lemma_filter_insert(ordered, at, id, keep);
        Seq::filter_distributes_over_add(head, tail, keep);
        assert(head + tail =~= ordered);
        assert(ordered.filter(keep) == requested.filter(keep));
        assert(requested.push(id).filter(keep) =~= if keep(id) {
            requested.filter(keep).push(id)
        } else {
            requested.filter(keep)
        }) by {
            reveal(Seq::filter);
            assert(requested.push(id).drop_last() =~= requested);
        }
        if keep(id) {
            assert(tail.filter(keep) =~= Seq::empty()) by {
                assert forall|i: int| 0 <= i < tail.len() implies !keep(#[trigger] tail[i]) by {
                    assert(tail[i] == ordered[at + i]);
                }
                tail.lemma_all_neg_filter_empty(keep);
            }
        }
        assert(longer.filter(keep) =~= requested.push(id).filter(keep));
    }
}

/// Filtering keeps every occurrence of an item that passes.
proof fn lemma_filter_count(s: Seq<u32>, keep: spec_fn(u32) -> bool, id: u32)
    requires
        keep(id),
    ensures
        s.filter(keep).to_multiset().count(id) == s.to_multiset().count(id),
    decreases s.len(),
{
    reveal(Seq::filter);
    if s.len() == 0 {
        assert(s.filter(keep) =~= s);
    } else {
        let front = s.drop_last();
        lemma_filter_count(front, keep, id);
        assert(s =~= front.push(s.last()));
        front.to_multiset_ensures();
        front.filter(keep).to_multiset_ensures();
        assert(s.to_multiset() =~= front.to_multiset().insert(s.last()));
        if keep(s.last()) {
            assert(s.filter(keep) == front.filter(keep).push(s.last()));
            assert(s.filter(keep).to_multiset() =~= front.filter(keep).to_multiset().insert(
                s.last(),
            ));
        } else {
            assert(s.filter(keep) == front.filter(keep));
        }
    }
}

/// Ordering a request rarest-first neither drops a chunk nor adds one: each
/// comes back as often as it was asked for.
pub proof fn law_rarest_first_keeps_the_request(
    ordered: Seq<u32>,
    requested: Seq<u32>,
    rarity: spec_fn(u32) -> nat,
)
    requires
        rarest_first(ordered, requested, rarity),
    ensures
        ordered.to_multiset() == requested.to_multiset(),
        ordered.len() == requested.len(),
{
    assert forall|id: u32| #[trigger]
        ordered.to_multiset().count(id) == requested.to_multiset().count(id) by {
        let keep = held_by(rarity, rarity(id));
        lemma_filter_count(ordered, keep, id);
        lemma_filter_count(requested, keep, id);
        assert(ordered.filter(keep) == requested.filter(keep));
    }
    assert(ordered.to_multiset() =~= requested.to_multiset());
    ordered.to_multiset_ensures();
    requested.to_multiset_ensures();
}

/// There is one rarest-first order of a request and no other.
pub proof fn law_rarest_first_is_one_order(
    first: Seq<u32>,
    second: Seq<u32>,
    requested: Seq<u32>,
    rarity: spec_fn(u32) -> nat,
)
    requires
        rarest_first(first, requested, rarity),
        rarest_first(second, requested, rarity),
    ensures
        first == second,
    decreases first.len(),
{
    law_rarest_first_keeps_the_request(first, requested, rarity);
    law_rarest_first_keeps_the_request(second, requested, rarity);
    if first.len() == 0 {
        assert(first =~= second);
    } else {
        let a = first.last();
        let b = second.last();
        lemma_last_is_commonest(first, second, requested, rarity);
        lemma_last_is_commonest(second, first, requested, rarity);
        let keep = held_by(rarity, rarity(a));
        reveal(Seq::filter);
        assert(first.filter(keep).last() == a);
        assert(second.filter(keep).last() == b);
        assert(first.filter(keep) == requested.filter(keep));
        assert(second.filter(keep) == requested.filter(keep));
        assert forall|count: nat| #[trigger]
            first.drop_last().filter(held_by(rarity, count)) == second.drop_last().filter(
                held_by(rarity, count),
            ) by {
            let other = held_by(rarity, count);
            assert(first.filter(other) == requested.filter(other));
            assert(second.filter(other) == requested.filter(other));
            if count == rarity(a) {
                assert(first.drop_last().filter(other) =~= first.filter(other).drop_last());
                assert(second.drop_last().filter(other) =~= second.filter(other).drop_last());
            }
        }
        assert(rarest_first(first.drop_last(), first.drop_last(), rarity));
        assert(rarest_first(second.drop_last(), first.drop_last(), rarity));
        law_rarest_first_is_one_order(
            first.drop_last(),
            second.drop_last(),
            first.drop_last(),
            rarity,
        );
        assert(first =~= first.drop_last().push(a));
        assert(second =~= second.drop_last().push(b));
    }
}

/// The last chunk of one order is at least as common as that of another.
proof fn lemma_last_is_commonest(
    first: Seq<u32>,
    second: Seq<u32>,
    requested: Seq<u32>,
    rarity: spec_fn(u32) -> nat,
)
    requires
        rarest_first(first, requested, rarity),
        rarest_first(second, requested, rarity),
        first.len() > 0,
        second.len() > 0,
    ensures
        rarity(second.last()) <= rarity(first.last()),
{
    let b = second.last();
    law_rarest_first_keeps_the_request(first, requested, rarity);
    law_rarest_first_keeps_the_request(second, requested, rarity);
    first.to_multiset_ensures();
    second.to_multiset_ensures();
    assert(second.contains(b));
    assert(second.to_multiset().count(b) > 0);
    assert(first.contains(b));
    let i = choose|i: int| 0 <= i < first.len() && first[i] == b;
    assert(rarity(first[i]) <= rarity(first[first.len() - 1]));
}

/// Chunks that are equally rare keep the order in which they were asked for, and rarer ones come
/// before commoner ones.
pub proof fn law_equally_rare_chunks_keep_their_order(
    ordered: Seq<u32>,
    requested: Seq<u32>,
    rarity: spec_fn(u32) -> nat,
    count: nat,
    i: int,
    j: int,
)
    requires
        rarest_first(ordered, requested, rarity),
    ensures
        ordered.filter(|id: u32| rarity(id) == count) == requested.filter(
            |id: u32| rarity(id) == count,
        ),
        0 <= i < ordered.len() && 0 <= j < ordered.len() && rarity(ordered[i]) < rarity(
            ordered[j],
        ) ==> i < j,
{
    assert(held_by(rarity, count) =~= (|id: u32| rarity(id) == count));
    assert(ordered.filter(held_by(rarity, count)) == requested.filter(held_by(rarity, count)));
    if 0 <= i < ordered.len() && 0 <= j < ordered.len() && j <= i {
        assert(rarity(ordered[j]) <= rarity(ordered[i]));
    }
}

/// The chunks that assignments are for are the numbers in them, one for one and in order.
pub proof fn law_chunk_ids_are_those_of_the_assignments(assignments: Seq<ChunkAssignment>, i: int)
    ensures
        chunk_ids(assignments).len() == assignments.len(),
        0 <= i < assignments.len() ==> chunk_ids(assignments)[i] == assignments[i].chunk_id,
{
}

} // verus!
