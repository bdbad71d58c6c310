//! Range-scheduler decisions: which contiguous batch of heights to process
//! next under the concurrency limit, and re-sorting a batch's completed
//! records by height so that emission order never depends on completion
//! order.

use vstd::prelude::*;
use vstd::relations::sorted_by;
use vstd::relations::total_ordering;
use vstd::seq_lib::group_to_multiset_ensures;
use vstd::seq_lib::lemma_sorted_unique;
use crate::block_reward::BlockReward;

verus! {

/// The heights of a record sequence, in order.
pub open spec fn heights_of(s: Seq<BlockReward>) -> Seq<u64> {
    s.map_values(|b: BlockReward| b.block_number)
}

/// Records stand in ascending height order.
pub open spec fn sorted_by_height(s: Seq<BlockReward>) -> bool {
    forall|i: int, j: int|
        0 <= i <= j < s.len() ==> #[trigger] s[i].block_number <= #[trigger] s[j].block_number
}

/// Heights strictly increase.
pub open spec fn strictly_ascending(h: Seq<u64>) -> bool {
    forall|i: int, j: int| 0 <= i < j < h.len() ==> #[trigger] h[i] < #[trigger] h[j]
}

/// The next batch of heights to process concurrently: the first `limit`
/// heights of `start..=to`, or all of them when fewer remain. The batch is
/// contiguous and strictly ascending; the caller continues after its last
/// element.
pub fn chunk_of(start: u64, to: u64, limit: u64) -> (r: Vec<u64>)
    requires
        start <= to,
        limit >= 1,
    ensures
        r@.len() == vstd::math::min(limit as int, to - start + 1),
        forall|i: int| 0 <= i < r@.len() ==> r@[i] == start + i,
        strictly_ascending(r@),
{
    let span = to - start;
    let count = if span >= limit {
        limit
    } else {
        span + 1
    };
    let mut r: Vec<u64> = Vec::new();
    let mut i: u64 = 0;
    while i < count
        invariant
            i <= count,
            count == vstd::math::min(limit as int, to - start + 1),
            start + count - 1 <= to,
            r@.len() == i,
            forall|k: int| 0 <= k < i ==> r@[k] == start + k,
        decreases count - i,
    {
        r.push(start + i);
        i = i + 1;
    }
    r
}

/// Sorts a batch of completed records by block height: the result is the
/// same collection of records (and so of heights), in ascending height
/// order.
pub fn sort_by_block_number(results: Vec<BlockReward>) -> (r: Vec<BlockReward>)
    ensures
        sorted_by_height(r@),
        r@.to_multiset() == results@.to_multiset(),
        heights_of(r@).to_multiset() == heights_of(results@).to_multiset(),
        r@.len() == results@.len(),
{
    let ghost orig = results@;
    let mut rest = results;
    let mut out: Vec<BlockReward> = Vec::new();
    proof {
        broadcast use vstd::multiset::group_multiset_axioms;

        vstd::seq_lib::to_multiset_len(out@);
        vstd::multiset::lemma_multiset_empty_len(out@.to_multiset());
        vstd::seq_lib::to_multiset_len(heights_of(out@));
        vstd::multiset::lemma_multiset_empty_len(heights_of(out@).to_multiset());
        assert(out@.to_multiset().add(rest@.to_multiset()) =~= orig.to_multiset());
        assert(heights_of(out@).to_multiset().add(heights_of(rest@).to_multiset())
            =~= heights_of(orig).to_multiset());
    }
    loop
        invariant
            sorted_by_height(out@),
            out@.to_multiset().add(rest@.to_multiset()) =~= orig.to_multiset(),
            heights_of(out@).to_multiset().add(heights_of(rest@).to_multiset()) =~= heights_of(
                orig,
            ).to_multiset(),
            out@.len() + rest@.len() == orig.len(),
        ensures
            rest@.len() == 0,
            sorted_by_height(out@),
            out@.to_multiset().add(rest@.to_multiset()) =~= orig.to_multiset(),
            heights_of(out@).to_multiset().add(heights_of(rest@).to_multiset()) =~= heights_of(
                orig,
            ).to_multiset(),
            out@.len() + rest@.len() == orig.len(),
        decreases rest@.len(),
    {
        let ghost before = rest@;
        let popped = rest.pop();
        match popped {
            None => {
                break ;
            },
            Some(x) => {
                proof {
                    broadcast use vstd::multiset::group_multiset_axioms;

                    assert(before =~= rest@.push(x));
                    vstd::seq_lib::to_multiset_build(rest@, x);
                    assert(before.to_multiset() =~= rest@.to_multiset().insert(x));
                    assert(heights_of(before) =~= heights_of(rest@).push(x.block_number));
                    vstd::seq_lib::to_multiset_build(heights_of(rest@), x.block_number);
                    assert(heights_of(before).to_multiset() =~= heights_of(
                        rest@,
                    ).to_multiset().insert(x.block_number));
                }
                let mut j: usize = 0;
                while j < out.len() && out[j].block_number <= x.block_number
                    invariant
                        j <= out@.len(),
                        forall|k: int|
                            0 <= k < j ==> #[trigger] out@[k].block_number <= x.block_number,
                    decreases out@.len() - j,
                {
                    j = j + 1;
                }
                let ghost out_old = out@;
                proof {
                    out_old.insert_ensures(j as int, x);
                    vstd::seq_lib::to_multiset_insert(out_old, j as int, x);
                    vstd::seq_lib::to_multiset_insert(heights_of(out_old), j as int, x.block_number);
                }
                out.insert(j, x);
                proof {
                    broadcast use vstd::multiset::group_multiset_axioms;

                    assert(heights_of(out@) =~= heights_of(out_old).insert(
                        j as int,
                        x.block_number,
                    ));
                    assert forall|a: int, b: int|
                        0 <= a <= b < out@.len() implies #[trigger] out@[a].block_number
                        <= #[trigger] out@[b].block_number by {
                        if a < j && b < j {
                            assert(out@[a] == out_old[a]);
                            assert(out@[b] == out_old[b]);
                        } else if a < j && b == j {
                            assert(out@[a] == out_old[a]);
                        } else if a == j && b == j {
                        } else if a == j && b > j {
                            assert(out@[b] == out_old[b - 1]);
                            assert(out_old[j as int].block_number > x.block_number);
                            assert(out_old[j as int].block_number <= out_old[b - 1].block_number);
                        } else if a < j && b > j {
                            assert(out@[a] == out_old[a]);
                            assert(out@[b] == out_old[b - 1]);
                        } else {
                            assert(out@[a] == out_old[a - 1]);
                            assert(out@[b] == out_old[b - 1]);
                        }
                    }
                }
            },
        }
    }
    proof {
        broadcast use vstd::multiset::group_multiset_axioms;

        vstd::seq_lib::to_multiset_len(rest@);
        vstd::multiset::lemma_multiset_empty_len(rest@.to_multiset());
        vstd::seq_lib::to_multiset_len(heights_of(rest@));
        vstd::multiset::lemma_multiset_empty_len(heights_of(rest@).to_multiset());
        assert(out@.to_multiset() =~= orig.to_multiset());
        assert(heights_of(out@).to_multiset() =~= heights_of(orig).to_multiset());
        vstd::seq_lib::to_multiset_len(out@);
        vstd::seq_lib::to_multiset_len(orig);
    }
    out
}

/// Emission order never depends on completion order: a batch sorted by
/// height whose records carry exactly the scheduled heights (a strictly
/// ascending range) lists those heights verbatim — one record per
/// scheduled height, in strictly ascending order.
pub proof fn lemma_ordered_emission(emitted: Seq<BlockReward>, heights: Seq<u64>)
    requires
        sorted_by_height(emitted),
        strictly_ascending(heights),
        heights_of(emitted).to_multiset() == heights.to_multiset(),
    ensures
        heights_of(emitted) == heights,
        emitted.len() == heights.len(),
{
    broadcast use group_to_multiset_ensures;

    let leq = |a: u64, b: u64| a <= b;
    assert(total_ordering(leq));
    assert(sorted_by(heights_of(emitted), leq)) by {
        assert forall|i: int, j: int|
            0 <= i < j < heights_of(emitted).len() implies #[trigger] leq(
            heights_of(emitted)[i],
            heights_of(emitted)[j],
        ) by {
            assert(emitted[i].block_number <= emitted[j].block_number);
        }
    }
    assert(sorted_by(heights, leq)) by {
        assert forall|i: int, j: int| 0 <= i < j < heights.len() implies #[trigger] leq(
            heights[i],
            heights[j],
        ) by {
            assert(heights[i] < heights[j]);
        }
    }
    lemma_sorted_unique(heights_of(emitted), heights, leq);
    assert(heights_of(emitted) =~= heights);
}

} // verus!
