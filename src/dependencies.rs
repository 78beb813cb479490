//! Turning a host's answer to a dependency query into constraints on
//! packages.
use crate::error::{ProviderFailure, PubGrubCallbackError};
use crate::range::VersionRange;
use crate::specifier::{
    clauses_set, clauses_valid, clauses_view, operator_of, parse_operator, translate, Operator,
    SpecifierClause,
};
use crate::version::{pep440_version, Version, VersionKey};
use std::collections::HashMap;
use vstd::prelude::*;

verus! {

/// One clause as the host wrote it: operator text and version text.
#[derive(Debug)]
pub struct HostClause {
    pub operator: String,
    pub version: String,
}

/// The constraint the host put on one dependency.
#[derive(Debug)]
pub enum HostConstraint {
    /// Specifier clauses, all of which must hold.
    Specifiers(Vec<HostClause>),
    /// An out-of-band reference such as a URL; it puts no constraint on the
    /// version.
    Reference(String),
    /// A value of neither shape; holds a rendering of it.
    Malformed(String),
}

/// The host's answer to a dependency query.
#[derive(Debug)]
pub enum HostDependencies {
    /// The host does not know the dependencies.
    Unknown,
    /// Pairs of package and constraint, in the host's order.
    Known(Vec<(u64, HostConstraint)>),
    /// A value of neither shape; holds a rendering of it.
    Malformed(String),
}

/// The dependencies of one package version, as the solver takes them.
#[derive(Debug)]
pub enum Dependencies {
    /// Unknown dependencies.
    Unknown,
    /// The range each depended-on package must lie in.
    Known(HashMap<u64, VersionRange>),
}

/// Whether a clause's operator is known and its version text is a version.
pub open spec fn clause_parses(c: HostClause) -> bool {
    operator_of(c.operator@) is Some && pep440_version(c.version@) is Some
}

/// Whether every clause of `cs` parses.
pub open spec fn clauses_parse(cs: Seq<HostClause>) -> bool {
    forall|i: int| 0 <= i < cs.len() ==> #[trigger] clause_parses(cs[i])
}

/// The clauses `cs` stand for, once their operators and versions are read.
pub open spec fn host_clauses_view(cs: Seq<HostClause>) -> Seq<(Operator, VersionKey)> {
    Seq::new(
        cs.len(),
        |i: int| (operator_of(cs[i].operator@)->Some_0, pep440_version(cs[i].version@)->Some_0),
    )
}

/// The error a clause that does not parse gives: `UnsupportedSpecifier`
/// holding an unknown operator, else `InvalidSpecifier` holding a version
/// text that is not a version.
pub open spec fn clause_error(c: HostClause, e: PubGrubCallbackError) -> bool {
    if operator_of(c.operator@) is None {
        e matches PubGrubCallbackError::UnsupportedSpecifier(t) && t@ == c.operator@
    } else {
        e matches PubGrubCallbackError::InvalidSpecifier(t) && t@ == c.version@
    }
}

/// The error that the clauses `cs` give when they do not translate: that of
/// the first clause that does not parse, or else `InvalidSpecifier` for a
/// clause without a range.
pub open spec fn clauses_error(cs: Seq<HostClause>, e: PubGrubCallbackError) -> bool {
    if clauses_parse(cs) {
        e is InvalidSpecifier
    } else {
        exists|i: int|
            0 <= i < cs.len() && !clause_parses(#[trigger] cs[i]) && clause_error(cs[i], e) && forall|j: int|
                0 <= j < i ==> clause_parses(#[trigger] cs[j])
    }
}

/// The versions a constraint admits, or `None` when it is malformed.
pub open spec fn constraint_set(c: HostConstraint) -> Option<Set<VersionKey>> {
    match c {
        HostConstraint::Specifiers(cs) => if clauses_parse(cs@) && clauses_valid(host_clauses_view(cs@)) {
            Some(clauses_set(host_clauses_view(cs@)))
        } else {
            None
        },
        HostConstraint::Reference(_) => Some(Set::full()),
        HostConstraint::Malformed(_) => None,
    }
}

/// The failure a constraint without a range gives.
pub open spec fn constraint_error<E>(c: HostConstraint, f: ProviderFailure<E>) -> bool {
    match c {
        HostConstraint::Specifiers(cs) => f matches ProviderFailure::Malformed(e) && clauses_error(cs@, e),
        HostConstraint::Reference(_) => false,
        HostConstraint::Malformed(s) => f matches ProviderFailure::Malformed(
            PubGrubCallbackError::InvalidReturnType(t),
        ) && t@ == s@,
    }
}

/// Whether every constraint of `items` is well formed.
pub open spec fn constraints_valid(items: Seq<(u64, HostConstraint)>) -> bool {
    forall|i: int| 0 <= i < items.len() ==> (#[trigger] constraint_set(items[i].1)) is Some
}

/// The range of each package named in `items`; a package named twice gets the
/// constraint of its last mention.
pub open spec fn dependency_map(items: Seq<(u64, HostConstraint)>) -> Map<u64, Set<VersionKey>>
    decreases items.len(),
{
    if items.len() == 0 {
        Map::empty()
    } else {
        dependency_map(items.drop_last()).insert(
            items.last().0,
            constraint_set(items.last().1)->Some_0,
        )
    }
}

/// The ranges of a dependency map.
pub open spec fn ranges_view(m: HashMap<u64, VersionRange>) -> Map<u64, Set<VersionKey>> {
    m@.map_values(|r: VersionRange| r@)
}

/// Reads and translates the clauses the host wrote. The first clause whose
/// operator is unknown or whose version text is not a version fails, with
/// `UnsupportedSpecifier` or `InvalidSpecifier` holding the offending text;
/// a clause without a range is `InvalidSpecifier`.
pub fn translate_host_clauses(cs: &Vec<HostClause>) -> (r: Result<VersionRange, PubGrubCallbackError>)
    ensures
        clauses_parse(cs@) && clauses_valid(host_clauses_view(cs@)) <==> r is Ok,
        r matches Ok(range) ==> range@ == clauses_set(host_clauses_view(cs@)),
        r matches Err(e) ==> clauses_error(cs@, e),
{
    let mut clauses: Vec<SpecifierClause> = Vec::new();
    let mut i: usize = 0;
    while i < cs.len()
        invariant
            0 <= i <= cs.len(),
            clauses.len() == i,
            forall|k: int| 0 <= k < i ==> #[trigger] clause_parses(cs@[k]),
            forall|k: int| 0 <= k < i ==> (#[trigger] clauses@[k])@ == host_clauses_view(cs@)[k],
        decreases cs.len() - i,
    {
        let op = match parse_operator(cs[i].operator.as_str()) {
            Ok(op) => op,
            Err(e) => {
                assert(!clause_parses(cs@[i as int]));
                assert(clause_error(cs@[i as int], e));
                assert(!clauses_parse(cs@));
                return Err(e);
            },
        };
        let version = match Version::parse(cs[i].version.as_str()) {
            Some(v) => v,
            None => {
                let e = PubGrubCallbackError::InvalidSpecifier(cs[i].version.clone());
                assert(!clause_parses(cs@[i as int]));
                assert(clause_error(cs@[i as int], e));
                assert(!clauses_parse(cs@));
                return Err(e);
            },
        };
        clauses.push(SpecifierClause { operator: op, version });
        i = i + 1;
    }
    assert(clauses_view(clauses@) =~= host_clauses_view(cs@));
    translate(&clauses)
}

/// Turns the host's answer to a dependency query into the dependencies the
/// solver takes. An error the host raised is handed on as it is; an answer of
/// the wrong shape is `InvalidReturnType`; the first constraint without a
/// range fails the whole answer, a constraint of neither shape with
/// `InvalidReturnType` and bad clauses as `translate_host_clauses` says.
pub fn get_dependencies<E>(answer: Result<HostDependencies, E>) -> (r: Result<Dependencies, ProviderFailure<E>>)
    ensures
        answer matches Err(e) ==> r == Err::<Dependencies, ProviderFailure<E>>(ProviderFailure::Host(e)),
        answer matches Ok(HostDependencies::Unknown) ==> r matches Ok(Dependencies::Unknown),
        answer matches Ok(HostDependencies::Malformed(s)) ==> (r matches Err(ProviderFailure::Malformed(
            PubGrubCallbackError::InvalidReturnType(t),
        )) && t@ == s@),
        answer matches Ok(HostDependencies::Known(items)) ==> (constraints_valid(items@) <==> r is Ok),
        answer matches Ok(HostDependencies::Known(items)) ==> (r matches Ok(d) ==> d matches Dependencies::Known(
            m,
        ) && ranges_view(m) == dependency_map(items@)),
        answer matches Ok(HostDependencies::Known(items)) ==> (!constraints_valid(items@) ==> exists|i: int|
            0 <= i < items.len() && (#[trigger] constraint_set(items@[i].1)) is None && (r matches Err(f)
                && constraint_error(items@[i].1, f)) && forall|j: int|
                0 <= j < i ==> (#[trigger] constraint_set(items@[j].1)) is Some),
{
    match answer {
        Err(e) => Err(ProviderFailure::Host(e)),
        Ok(HostDependencies::Unknown) => Ok(Dependencies::Unknown),
        Ok(HostDependencies::Malformed(s)) => Err(ProviderFailure::Malformed(PubGrubCallbackError::InvalidReturnType(s))),
        Ok(HostDependencies::Known(items)) => {
            broadcast use vstd::std_specs::hash::group_hash_axioms;
            let mut deps: HashMap<u64, VersionRange> = HashMap::new();
            let mut i: usize = 0;
            assert(ranges_view(deps) =~= dependency_map(items@.subrange(0, 0)));
            while i < items.len()
                invariant
                    answer matches Ok(HostDependencies::Known(its)) && its == items,
                    0 <= i <= items.len(),
                    constraints_valid(items@.subrange(0, i as int)),
                    ranges_view(deps) == dependency_map(items@.subrange(0, i as int)),
                decreases items.len() - i,
            {
                let range = match &items[i].1 {
                    HostConstraint::Specifiers(cs) => match translate_host_clauses(cs) {
                        Ok(range) => range,
                        Err(e) => {
                            assert(constraint_set(items@[i as int].1) is None);
                            assert(!constraints_valid(items@));
                            proof {
                                let pre = items@.subrange(0, i as int);
                                assert forall|j: int| 0 <= j < i implies (#[trigger] constraint_set(items@[j].1)) is Some by {
                                    assert(items@[j] == pre[j]);
                                }
                            }
                            return Err(ProviderFailure::Malformed(e));
                        },
                    },
                    HostConstraint::Reference(_) => VersionRange::any(),
                    HostConstraint::Malformed(s) => {
                        assert(!constraints_valid(items@));
                        proof {
                            let pre = items@.subrange(0, i as int);
                            assert forall|j: int| 0 <= j < i implies (#[trigger] constraint_set(items@[j].1)) is Some by {
                                assert(items@[j] == pre[j]);
                            }
                        }
                        return Err(ProviderFailure::Malformed(PubGrubCallbackError::InvalidReturnType(s.clone())));
                    },
                };
                let ghost before = ranges_view(deps);
                deps.insert(items[i].0, range);
                proof {
                    let pre = items@.subrange(0, i as int);
                    let next = items@.subrange(0, i + 1);
                    assert(next.drop_last() =~= pre);
                    assert(ranges_view(deps) =~= before.insert(items@[i as int].0, range@));
                    assert forall|k: int| 0 <= k < next.len() implies (#[trigger] constraint_set(next[k].1)) is Some by {
                        if k < i {
                            assert(next[k] == pre[k]);
                        }
                    }
                }
                i = i + 1;
            }
            assert(items@.subrange(0, i as int) =~= items@);
            Ok(Dependencies::Known(deps))
        },
    }
}

} // verus!
