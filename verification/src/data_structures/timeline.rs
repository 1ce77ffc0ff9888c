//! Sequences kept in strictly increasing order of a timestamp.

use vstd::prelude::*;

verus! {

/// Whether the timestamps increase strictly from each one to the next.
pub open spec fn ascending(times: Seq<i64>) -> bool {
    forall|i: int, j: int| 0 <= i < j < times.len() ==> times[i] < times[j]
}

/// Number of timestamps below `t`: in an ascending sequence, the place
/// where `t` stands or would be inserted.
pub open spec fn rank(times: Seq<i64>, t: i64) -> int
    decreases times.len(),
{
    if times.len() == 0 {
        0
    } else {
        rank(times.drop_last(), t) + if times.last() < t {
            1int
        } else {
            0int
        }
    }
}

/// Whether `t` is one of the timestamps of an ascending sequence.
pub open spec fn present(times: Seq<i64>, t: i64) -> bool {
    rank(times, t) < times.len() && times[rank(times, t)] == t
}

/// The timestamps after storing something at `t`.
pub open spec fn upsert_time(times: Seq<i64>, t: i64) -> Seq<i64> {
    if present(times, t) {
        times
    } else {
        times.insert(rank(times, t), t)
    }
}

/// The items after storing `item` at `t`: it replaces the item that stood
/// at `t`, or is inserted at its place in the order.
pub open spec fn upsert<T>(times: Seq<i64>, items: Seq<T>, t: i64, item: T) -> Seq<T> {
    if present(times, t) {
        items.update(rank(times, t), item)
    } else {
        items.insert(rank(times, t), item)
    }
}

/// The last `count` items of `s`, or all of `s` where it holds fewer.
pub open spec fn tail<T>(s: Seq<T>, count: int) -> Seq<T> {
    if count >= s.len() {
        s
    } else if count <= 0 {
        Seq::empty()
    } else {
        s.subrange(s.len() - count, s.len() as int)
    }
}

/// The rank lies within the sequence's bounds.
pub proof fn lemma_rank_bounds(times: Seq<i64>, t: i64)
    ensures
        0 <= rank(times, t) <= times.len(),
    decreases times.len(),
{
    if times.len() > 0 {
        lemma_rank_bounds(times.drop_last(), t);
    }
}

/// A place that splits an ascending sequence into the timestamps below `t`
/// and the others is the rank of `t`.
pub proof fn lemma_rank_is_split(times: Seq<i64>, t: i64, r: int)
    requires
        0 <= r <= times.len(),
        forall|i: int| 0 <= i < r ==> times[i] < t,
        forall|i: int| r <= i < times.len() ==> times[i] >= t,
    ensures
        rank(times, t) == r,
    decreases times.len(),
{
    if times.len() > 0 {
        let shorter = times.drop_last();
        if r == times.len() {
            lemma_rank_is_split(shorter, t, r - 1);
        } else {
            lemma_rank_is_split(shorter, t, r);
        }
    }
}

/// In an ascending sequence the timestamps before the rank of `t` are below
/// `t` and the others are not.
pub proof fn lemma_rank_splits(times: Seq<i64>, t: i64)
    requires
        ascending(times),
    ensures
        0 <= rank(times, t) <= times.len(),
        forall|i: int| 0 <= i < rank(times, t) ==> times[i] < t,
        forall|i: int| rank(times, t) <= i < times.len() ==> times[i] >= t,
    decreases times.len(),
{
    if times.len() > 0 {
        let shorter = times.drop_last();
        lemma_rank_splits(shorter, t);
        lemma_rank_bounds(shorter, t);
        let r = rank(shorter, t);
        if times.last() < t {
            assert forall|i: int| 0 <= i < r + 1 implies times[i] < t by {
                if i < times.len() - 1 {
                    assert(times[i] < times[times.len() - 1]);
                }
            }
            if r < shorter.len() {
                assert(shorter[r] >= t);
                assert(times[r] < times[times.len() - 1]);
            }
        } else {
            assert forall|i: int| 0 <= i < r implies times[i] < t by {
                assert(shorter[i] < t);
            }
            assert forall|i: int| r <= i < times.len() implies times[i] >= t by {
                if i < times.len() - 1 {
                    assert(shorter[i] >= t);
                }
            }
        }
    }
}

/// Storing at `t` keeps the timestamps ascending, and afterwards `t`
/// stands at its old rank.
pub proof fn lemma_upsert_time(times: Seq<i64>, t: i64)
    requires
        ascending(times),
    ensures
        ascending(upsert_time(times, t)),
        rank(upsert_time(times, t), t) == rank(times, t),
        present(upsert_time(times, t), t),
        upsert_time(times, t).len() == times.len() + if present(times, t) {
            0int
        } else {
            1int
        },
{
    lemma_rank_splits(times, t);
    let r = rank(times, t);
    let after = upsert_time(times, t);
    if !present(times, t) {
        assert forall|i: int, j: int| 0 <= i < j < after.len() implies after[i] < after[j] by {
            if i < r && j > r {
                assert(times[i] < t);
                assert(times[j - 1] >= t);
            } else if i == r {
                assert(times[j - 1] >= t);
            } else if j == r {
                assert(times[i] < t);
            }
        }
        assert forall|i: int| r <= i < after.len() implies after[i] >= t by {
            if i > r {
                assert(times[i - 1] >= t);
            }
        }
    }
    lemma_rank_is_split(after, t, r);
}

/// A timestamp after all others has its place at the end and is not yet
/// there.
pub proof fn lemma_rank_at_end(times: Seq<i64>, t: i64)
    requires
        ascending(times),
        times.len() == 0 || times.last() < t,
    ensures
        rank(times, t) == times.len(),
        !present(times, t),
        upsert_time(times, t) == times.push(t),
{
    assert forall|i: int| 0 <= i < times.len() implies times[i] < t by {
        if i < times.len() - 1 {
            assert(times[i] < times[times.len() - 1]);
        }
    }
    lemma_rank_is_split(times, t, times.len() as int);
    assert(times.insert(times.len() as int, t) =~= times.push(t));
}

/// Whether every timestamp of `part` is one of `whole`.
pub open spec fn within(part: Seq<i64>, whole: Seq<i64>) -> bool {
    forall|i: int| 0 <= i < part.len() ==> whole.contains(#[trigger] part[i])
}

/// After storing at `t`, the timestamps are `t` and those that were there
/// before.
pub proof fn lemma_upsert_time_members(times: Seq<i64>, t: i64)
    ensures
        upsert_time(times, t).contains(t),
        within(times, upsert_time(times, t)),
        forall|i: int|
            0 <= i < upsert_time(times, t).len() ==> (#[trigger] upsert_time(times, t)[i]) == t || times.contains(
                upsert_time(times, t)[i],
            ),
{
    lemma_rank_bounds(times, t);
    let r = rank(times, t);
    let after = upsert_time(times, t);
    assert(after[r] == t);
    assert forall|i: int| 0 <= i < times.len() implies after.contains(#[trigger] times[i]) by {
        if present(times, t) {
            assert(after[i] == times[i]);
        } else if i < r {
            assert(after[i] == times[i]);
        } else {
            assert(after[i + 1] == times[i]);
        }
    }
    assert forall|i: int| 0 <= i < after.len() implies (#[trigger] after[i]) == t || times.contains(after[i]) by {
        if present(times, t) {
            assert(times[i] == after[i]);
        } else if i < r {
            assert(times[i] == after[i]);
        } else if i > r {
            assert(times[i - 1] == after[i]);
        }
    }
}

/// The place of `t` among ascending timestamps.
pub fn lower_bound(times: &Vec<i64>, t: i64) -> (r: usize)
    requires
        ascending(times@),
    ensures
        r as int == rank(times@, t),
        r <= times.len(),
{
    let mut lo: usize = 0;
    let mut hi: usize = times.len();
    while lo < hi
        invariant
            ascending(times@),
            0 <= lo <= hi <= times.len(),
            forall|i: int| 0 <= i < lo ==> times@[i] < t,
            forall|i: int| hi <= i < times.len() ==> times@[i] >= t,
        decreases hi - lo,
    {
        let mid: usize = lo + (hi - lo) / 2;
        if times[mid] < t {
            assert forall|i: int| 0 <= i < mid + 1 implies times@[i] < t by {
                if i < mid {
                    assert(times@[i] < times@[mid as int]);
                }
            }
            lo = mid + 1;
        } else {
            assert forall|i: int| mid <= i < times.len() implies times@[i] >= t by {
                if i > mid {
                    assert(times@[mid as int] < times@[i]);
                }
            }
            hi = mid;
        }
    }
    proof {
        lemma_rank_is_split(times@, t, lo as int);
    }
    lo
}

} // verus!
