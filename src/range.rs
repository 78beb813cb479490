//! Sets of versions, kept as unions of intervals by `version_ranges::Ranges`.
//!
//! `version_ranges` is the interval-set crate of the pubgrub project. It is
//! used rather than pubgrub 0.2's own `Range` because that one only holds
//! types implementing pubgrub's `Version` trait, which asks for `Display`, and
//! `Ranges` holds any ordered type, here the version key tuple.
use crate::version::{key_lt, key_view, lemma_key_lt_through, order_key, version_lt, Version, VersionKey};
use version_ranges::Ranges;
use vstd::prelude::*;

verus! {

#[verifier::external_type_specification]
#[verifier::external_body]
#[verifier::reject_recursive_types(V)]
pub struct ExRanges<V>(Ranges<V>);

/// The versions, by their keys, that a `Ranges` holds.
pub uninterp spec fn ranges_members(r: Ranges<(Vec<u64>, u64, u64)>) -> Set<VersionKey>;

/// The versions strictly before `v`.
pub open spec fn below(v: VersionKey) -> Set<VersionKey> {
    Set::new(|x: VersionKey| key_lt(x, v))
}

/// The versions at or after `v`.
pub open spec fn at_or_above(v: VersionKey) -> Set<VersionKey> {
    Set::new(|x: VersionKey| !key_lt(x, v))
}

/// Relies on `Ranges::full`: the set of every version.
#[verifier::external_body]
fn ranges_full() -> (r: Ranges<(Vec<u64>, u64, u64)>)
    ensures
        ranges_members(r) == Set::<VersionKey>::full(),
{
    Ranges::full()
}

/// Relies on `Ranges::singleton`: the set holding `v` alone.
#[verifier::external_body]
fn ranges_singleton(v: (Vec<u64>, u64, u64)) -> (r: Ranges<(Vec<u64>, u64, u64)>)
    ensures
        ranges_members(r) == set![key_view(v)],
{
    Ranges::singleton(v)
}

/// Relies on `Ranges::strictly_lower_than` and on `(Vec<u64>, u64, u64)`
/// ordering as `key_lt` does, lexicographically: the versions strictly before `v`.
#[verifier::external_body]
fn ranges_strictly_lower_than(v: (Vec<u64>, u64, u64)) -> (r: Ranges<(Vec<u64>, u64, u64)>)
    ensures
        ranges_members(r) == below(key_view(v)),
{
    Ranges::strictly_lower_than(v)
}

/// Relies on `Ranges::higher_than` and on `(Vec<u64>, u64, u64)`
/// ordering as `key_lt` does, lexicographically: the versions at or after `v`.
#[verifier::external_body]
fn ranges_higher_than(v: (Vec<u64>, u64, u64)) -> (r: Ranges<(Vec<u64>, u64, u64)>)
    ensures
        ranges_members(r) == at_or_above(key_view(v)),
{
    Ranges::higher_than(v)
}

/// Relies on `Ranges::between` and on `(Vec<u64>, u64, u64)` ordering as
/// `key_lt` does, lexicographically:
/// the versions at or after `lo` and strictly before `hi`. The interval must
/// not be empty, as `Ranges` keeps no empty interval.
#[verifier::external_body]
fn ranges_between(lo: (Vec<u64>, u64, u64), hi: (Vec<u64>, u64, u64)) -> (r: Ranges<(Vec<u64>, u64, u64)>)
    requires
        key_lt(key_view(lo), key_view(hi)),
    ensures
        ranges_members(r) == at_or_above(key_view(lo)).intersect(below(key_view(hi))),
{
    Ranges::between(lo, hi)
}

/// Relies on `Ranges::intersection`: the versions in both sets.
#[verifier::external_body]
fn ranges_intersection(a: &Ranges<(Vec<u64>, u64, u64)>, b: &Ranges<(Vec<u64>, u64, u64)>) -> (r: Ranges<(Vec<u64>, u64, u64)>)
    ensures
        ranges_members(r) == ranges_members(*a).intersect(ranges_members(*b)),
{
    a.intersection(b)
}

/// Relies on `Ranges::union`: the versions in either set.
#[verifier::external_body]
fn ranges_union(a: &Ranges<(Vec<u64>, u64, u64)>, b: &Ranges<(Vec<u64>, u64, u64)>) -> (r: Ranges<(Vec<u64>, u64, u64)>)
    ensures
        ranges_members(r) == ranges_members(*a).union(ranges_members(*b)),
{
    a.union(b)
}

/// Relies on `Ranges::complement`: the versions not in the set.
#[verifier::external_body]
fn ranges_complement(a: &Ranges<(Vec<u64>, u64, u64)>) -> (r: Ranges<(Vec<u64>, u64, u64)>)
    ensures
        ranges_members(r) == ranges_members(*a).complement(),
{
    a.complement()
}

/// Relies on `Ranges::contains`: whether `v` is in the set.
#[verifier::external_body]
fn ranges_contains(a: &Ranges<(Vec<u64>, u64, u64)>, v: &(Vec<u64>, u64, u64)) -> (r: bool)
    ensures
        r == ranges_members(*a).contains(key_view(*v)),
{
    a.contains(v)
}

/// A set of versions expressible as a union of intervals.
#[derive(Debug)]
pub struct VersionRange {
    ranges: Ranges<(Vec<u64>, u64, u64)>,
}

impl View for VersionRange {
    type V = Set<VersionKey>;

    closed spec fn view(&self) -> Set<VersionKey> {
        ranges_members(self.ranges)
    }
}

impl VersionRange {
    /// Every version.
    pub fn any() -> (r: VersionRange)
        ensures
            r@ == Set::<VersionKey>::full(),
    {
        VersionRange { ranges: ranges_full() }
    }

    /// The version `v` alone.
    pub fn exact(v: &Version) -> (r: VersionRange)
        ensures
            r@ == set![order_key(v@)],
    {
        VersionRange { ranges: ranges_singleton(v.key()) }
    }

    /// The versions strictly before `v`.
    pub fn strictly_lower_than(v: &Version) -> (r: VersionRange)
        ensures
            r@ == below(order_key(v@)),
    {
        VersionRange { ranges: ranges_strictly_lower_than(v.key()) }
    }

    /// The versions at or after `v`.
    pub fn higher_than(v: &Version) -> (r: VersionRange)
        ensures
            r@ == at_or_above(order_key(v@)),
    {
        VersionRange { ranges: ranges_higher_than(v.key()) }
    }

    /// The versions at or after `lo` and strictly before `hi`; empty when
    /// `hi` does not come after `lo`.
    pub fn between(lo: &Version, hi: &Version) -> (r: VersionRange)
        ensures
            r@ == at_or_above(order_key(lo@)).intersect(below(order_key(hi@))),
    {
        if version_lt(lo, hi) {
            VersionRange { ranges: ranges_between(lo.key(), hi.key()) }
        } else {
            let r = VersionRange::any().complement();
            assert(r@ =~= at_or_above(order_key(lo@)).intersect(below(order_key(hi@)))) by {
                assert forall|x: VersionKey| !(!key_lt(x, order_key(lo@)) && key_lt(x, order_key(hi@))) by {
                    if !key_lt(x, order_key(lo@)) && key_lt(x, order_key(hi@)) {
                        lemma_key_lt_through(order_key(lo@), x, order_key(hi@));
                    }
                }
            }
            r
        }
    }

    /// The versions in both `self` and `other`.
    pub fn intersection(&self, other: &VersionRange) -> (r: VersionRange)
        ensures
            r@ == self@.intersect(other@),
    {
        VersionRange { ranges: ranges_intersection(&self.ranges, &other.ranges) }
    }

    /// The versions in `self` or in `other`.
    pub fn union(&self, other: &VersionRange) -> (r: VersionRange)
        ensures
            r@ == self@.union(other@),
    {
        VersionRange { ranges: ranges_union(&self.ranges, &other.ranges) }
    }

    /// The versions not in `self`.
    pub fn complement(&self) -> (r: VersionRange)
        ensures
            r@ == self@.complement(),
    {
        VersionRange { ranges: ranges_complement(&self.ranges) }
    }

    /// Whether `v` is in `self`.
    pub fn contains(&self, v: &Version) -> (r: bool)
        ensures
            r == self@.contains(order_key(v@)),
    {
        ranges_contains(&self.ranges, &v.key())
    }

    /// The underlying interval set, for handing to a solver.
    pub fn as_ranges(&self) -> (r: &Ranges<(Vec<u64>, u64, u64)>)
        ensures
            ranges_members(*r) == self@,
    {
        &self.ranges
    }
}

/// A range and its complement share no version, and together hold every
/// version.
pub proof fn lemma_complement_is_exact(r: VersionRange)
    ensures
        r@.intersect(r@.complement()) == Set::<VersionKey>::empty(),
        r@.union(r@.complement()) == Set::<VersionKey>::full(),
{
    assert(r@.intersect(r@.complement()) =~= Set::<VersionKey>::empty());
    assert(r@.union(r@.complement()) =~= Set::<VersionKey>::full());
}

/// Intersection of ranges is commutative and associative.
pub proof fn lemma_intersection_laws(a: VersionRange, b: VersionRange, c: VersionRange)
    ensures
        a@.intersect(b@) == b@.intersect(a@),
        a@.intersect(b@).intersect(c@) == a@.intersect(b@.intersect(c@)),
{
    assert(a@.intersect(b@) =~= b@.intersect(a@));
    assert(a@.intersect(b@).intersect(c@) =~= a@.intersect(b@.intersect(c@)));
}

/// Union of ranges is commutative and associative.
pub proof fn lemma_union_laws(a: VersionRange, b: VersionRange, c: VersionRange)
    ensures
        a@.union(b@) == b@.union(a@),
        a@.union(b@).union(c@) == a@.union(b@.union(c@)),
{
    assert(a@.union(b@) =~= b@.union(a@));
    assert(a@.union(b@).union(c@) =~= a@.union(b@.union(c@)));
}

} // verus!
