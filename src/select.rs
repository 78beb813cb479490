//! Picking the next package to decide: the most constrained one first.
use crate::cache::versions_view;
use crate::range::VersionRange;
use crate::version::{order_key, Version, VersionKey};
use vstd::prelude::*;

verus! {

/// How many of the versions `vs` lie in `s`, each by its order key.
pub open spec fn count_in(vs: Seq<VersionKey>, s: Set<VersionKey>) -> nat
    decreases vs.len(),
{
    if vs.len() == 0 {
        0
    } else {
        count_in(vs.drop_last(), s) + if s.contains(order_key(vs.last())) {
            1nat
        } else {
            0nat
        }
    }
}

/// How many of the versions available to candidate `k` its range admits.
pub open spec fn candidate_count(ranges: Seq<VersionRange>, available: Seq<Vec<Version>>, k: int) -> nat {
    count_in(versions_view(available[k]@), ranges[k]@)
}

/// Counts the versions of `vs` that `range` admits.
pub fn count_matching(vs: &Vec<Version>, range: &VersionRange) -> (r: usize)
    ensures
        r == count_in(versions_view(vs@), range@),
{
    let ghost view = versions_view(vs@);
    let mut n: usize = 0;
    let mut i: usize = 0;
    while i < vs.len()
        invariant
            0 <= i <= vs.len(),
            view == versions_view(vs@),
            n == count_in(view.subrange(0, i as int), range@),
            n <= i,
        decreases vs.len() - i,
    {
        assert(view.subrange(0, i + 1).drop_last() =~= view.subrange(0, i as int));
        if range.contains(&vs[i]) {
            n = n + 1;
        }
        i = i + 1;
    }
    assert(view.subrange(0, i as int) =~= view);
    n
}

/// The position of the first version of `vs` that `range` admits.
pub fn first_matching(vs: &Vec<Version>, range: &VersionRange) -> (r: Option<usize>)
    ensures
        r matches Some(j) ==> j < vs.len() && range@.contains(order_key(vs@[j as int]@)) && forall|k: int|
            0 <= k < j ==> !range@.contains(order_key(#[trigger] vs@[k]@)),
        r is None ==> forall|k: int| 0 <= k < vs.len() ==> !range@.contains(order_key(#[trigger] vs@[k]@)),
{
    let mut i: usize = 0;
    while i < vs.len()
        invariant
            0 <= i <= vs.len(),
            forall|k: int| 0 <= k < i ==> !range@.contains(order_key(#[trigger] vs@[k]@)),
        decreases vs.len() - i,
    {
        if range.contains(&vs[i]) {
            return Some(i);
        }
        i = i + 1;
    }
    None
}

/// Chooses among candidates, where candidate `k` has range `ranges[k]` and
/// the host offers `available[k]`: the candidate whose range admits the
/// fewest available versions, the first one on a tie, together with the
/// position of the first of its available versions that its range admits.
pub fn choose_among(ranges: &Vec<VersionRange>, available: &Vec<Vec<Version>>) -> (r: (usize, Option<usize>))
    requires
        ranges.len() > 0,
        ranges.len() == available.len(),
    ensures
        r.0 < ranges.len(),
        forall|k: int| 0 <= k < ranges.len() ==> candidate_count(ranges@, available@, r.0 as int)
            <= #[trigger] candidate_count(ranges@, available@, k),
        forall|k: int| 0 <= k < r.0 ==> candidate_count(ranges@, available@, r.0 as int)
            < #[trigger] candidate_count(ranges@, available@, k),
        r.1 matches Some(j) ==> j < available@[r.0 as int].len() && ranges@[r.0 as int]@.contains(
            order_key(available@[r.0 as int]@[j as int]@),
        ) && forall|k: int| 0 <= k < j ==> !ranges@[r.0 as int]@.contains(
            order_key(#[trigger] available@[r.0 as int]@[k]@),
        ),
        r.1 is None ==> forall|k: int| 0 <= k < available@[r.0 as int].len() ==> !ranges@[r.0 as int]@.contains(
            order_key(#[trigger] available@[r.0 as int]@[k]@),
        ),
{
    let mut best: usize = 0;
    let mut best_count: usize = count_matching(&available[0], &ranges[0]);
    let mut i: usize = 1;
    while i < ranges.len()
        invariant
            1 <= i <= ranges.len(),
            ranges.len() == available.len(),
            best < i,
            best_count == candidate_count(ranges@, available@, best as int),
            forall|k: int| 0 <= k < i ==> best_count <= #[trigger] candidate_count(ranges@, available@, k),
            forall|k: int| 0 <= k < best ==> best_count < #[trigger] candidate_count(ranges@, available@, k),
        decreases ranges.len() - i,
    {
        let c = count_matching(&available[i], &ranges[i]);
        if c < best_count {
            best = i;
            best_count = c;
        }
        i = i + 1;
    }
    let first = first_matching(&available[best], &ranges[best]);
    (best, first)
}

} // verus!
