//! The provider capabilities a version solver calls back into, decided here
//! from the host's answers, which the caller hands in as plain values.
use crate::cache::{versions_view, MetadataCache};
use crate::error::{ProviderFailure, PubGrubCallbackError};
use crate::range::VersionRange;
use crate::select::{candidate_count, choose_among};
use crate::version::{order_key, pep440_version, Version, VersionKey};
use vstd::prelude::*;

verus! {

/// The versions that the texts of `texts` spell, if each is a version.
pub open spec fn parsed_versions(texts: Seq<String>) -> Option<Seq<VersionKey>> {
    if forall|i: int| 0 <= i < texts.len() ==> (#[trigger] pep440_version(texts[i]@)) is Some {
        Some(Seq::new(texts.len(), |i: int| pep440_version(texts[i]@)->Some_0))
    } else {
        None
    }
}

/// Reads each version text the host offered. A text that is not a version is
/// `InvalidReturnType` holding that text.
pub fn parse_versions(texts: &Vec<String>) -> (r: Result<Vec<Version>, PubGrubCallbackError>)
    ensures
        parsed_versions(texts@) is Some <==> r is Ok,
        r matches Ok(vs) ==> parsed_versions(texts@) == Some(versions_view(vs@)),
        r matches Err(e) ==> (e matches PubGrubCallbackError::InvalidReturnType(t) && exists|i: int|
            0 <= i < texts.len() && (#[trigger] texts@[i])@ == t@ && pep440_version(t@) is None),
{
    let mut out: Vec<Version> = Vec::new();
    let mut i: usize = 0;
    while i < texts.len()
        invariant
            0 <= i <= texts.len(),
            out.len() == i,
            forall|k: int| 0 <= k < i ==> pep440_version((#[trigger] texts@[k])@) == Some(out@[k]@),
        decreases texts.len() - i,
    {
        match Version::parse(texts[i].as_str()) {
            Some(v) => {
                out.push(v);
            },
            None => {
                let t = texts[i].clone();
                assert(texts@[i as int]@ == t@);
                assert(parsed_versions(texts@) is None);
                return Err(PubGrubCallbackError::InvalidReturnType(t));
            },
        }
        i = i + 1;
    }
    assert(parsed_versions(texts@) is Some);
    assert(parsed_versions(texts@)->Some_0 =~= versions_view(out@));
    Ok(out)
}

/// The host's answer to an available-versions query.
#[derive(Debug)]
pub enum HostVersions {
    /// Version texts, in the host's order.
    Texts(Vec<String>),
    /// A value that is not a list of texts; holds a rendering of the
    /// offending value.
    Malformed(String),
}

/// What `available_versions` returns for the host's answer `answer`: the
/// host's error as it is, the versions the texts spell, or
/// `InvalidReturnType` naming the offending value or the first text that is
/// not a version.
pub open spec fn versions_outcome<E>(
    answer: Result<HostVersions, E>,
    r: Result<Vec<Version>, ProviderFailure<E>>,
) -> bool {
    match answer {
        Err(e) => r == Err::<Vec<Version>, ProviderFailure<E>>(ProviderFailure::Host(e)),
        Ok(HostVersions::Malformed(s)) => r matches Err(ProviderFailure::Malformed(
            PubGrubCallbackError::InvalidReturnType(t),
        )) && t@ == s@,
        Ok(HostVersions::Texts(texts)) => match parsed_versions(texts@) {
            Some(vs) => r matches Ok(out) && versions_view(out@) == vs,
            None => r matches Err(ProviderFailure::Malformed(PubGrubCallbackError::InvalidReturnType(t)))
                && exists|i: int| 0 <= i < texts.len() && (#[trigger] texts@[i])@ == t@
                && pep440_version(t@) is None,
        },
    }
}

/// The host's answer to a cancellation poll, as the solver takes it: a true
/// answer stops the session as `Cancelled`, and an error the host raised is
/// handed on as it is.
pub fn should_cancel<E>(answer: Result<bool, E>) -> (r: Result<(), ProviderFailure<E>>)
    ensures
        answer == Ok::<bool, E>(false) ==> r is Ok,
        answer == Ok::<bool, E>(true) ==> r matches Err(ProviderFailure::Cancelled),
        answer matches Err(e) ==> r == Err::<(), ProviderFailure<E>>(ProviderFailure::Host(e)),
{
    match answer {
        Ok(true) => Err(ProviderFailure::Cancelled),
        Ok(false) => Ok(()),
        Err(e) => Err(ProviderFailure::Host(e)),
    }
}

/// A copy of a list of versions.
fn copy_versions(vs: &Vec<Version>) -> (r: Vec<Version>)
    ensures
        versions_view(r@) == versions_view(vs@),
{
    let mut out: Vec<Version> = Vec::new();
    let mut i: usize = 0;
    while i < vs.len()
        invariant
            0 <= i <= vs.len(),
            out.len() == i,
            forall|k: int| 0 <= k < i ==> (#[trigger] out@[k])@ == vs@[k]@,
        decreases vs.len() - i,
    {
        out.push(vs[i].duplicate());
        i = i + 1;
    }
    assert(versions_view(out@) =~= versions_view(vs@));
    out
}

/// The provider state of one resolution session.
pub struct PyDependencyProvider {
    pub cache: MetadataCache,
}

impl PyDependencyProvider {
    /// A provider with an empty cache, for a new session.
    pub fn new() -> (r: PyDependencyProvider)
        ensures
            r.cache.wf(),
            r.cache@ == Map::<u64, Seq<VersionKey>>::empty(),
            r.cache.answered() == Set::<u64>::empty(),
    {
        PyDependencyProvider { cache: MetadataCache::new() }
    }

    /// Whether the host must still be asked for the versions of `package`:
    /// it has not answered for it in this session.
    pub fn needs_versions(&self, package: u64) -> (r: bool)
        ensures
            r == !self.cache.answered().contains(package),
    {
        !self.cache.was_answered(package)
    }

    /// Takes the host's answer to the available-versions query for
    /// `package`, which the host gives at most once per session: the answer
    /// is accepted only while the host has not answered for the package. A
    /// usable answer is kept for the rest of the session.
    pub fn available_versions<E>(&mut self, package: u64, answer: Result<HostVersions, E>) -> (r: Result<
        Vec<Version>,
        ProviderFailure<E>,
    >)
        requires
            old(self).cache.wf(),
            !old(self).cache.answered().contains(package),
        ensures
            final(self).cache.wf(),
            final(self).cache.answered() == old(self).cache.answered().insert(package),
            !old(self).cache@.contains_key(package),
            forall|q: u64| #[trigger] old(self).cache@.contains_key(q) ==> final(self).cache@.contains_key(q)
                && final(self).cache@[q] == old(self).cache@[q],
            versions_outcome(answer, r),
            r matches Ok(vs) ==> final(self).cache@ == old(self).cache@.insert(package, versions_view(vs@)),
            r is Err ==> final(self).cache@ == old(self).cache@,
    {
        proof {
            crate::cache::lemma_stored_were_answered(self.cache, package);
        }
        match answer {
            Err(e) => {
                self.cache.record(package, None);
                Err(ProviderFailure::Host(e))
            },
            Ok(HostVersions::Malformed(s)) => {
                self.cache.record(package, None);
                Err(ProviderFailure::Malformed(PubGrubCallbackError::InvalidReturnType(s)))
            },
            Ok(HostVersions::Texts(texts)) => match parse_versions(&texts) {
                Ok(vs) => {
                    let out = copy_versions(&vs);
                    self.cache.record(package, Some(vs));
                    Ok(out)
                },
                Err(e) => {
                    self.cache.record(package, None);
                    Err(ProviderFailure::Malformed(e))
                },
            },
        }
    }
}

/// How many of the versions the cache holds for candidate `k` its range admits.
pub open spec fn cached_count(
    cache: Map<u64, Seq<VersionKey>>,
    packages: Seq<u64>,
    ranges: Seq<VersionRange>,
    k: int,
) -> nat {
    crate::select::count_in(cache[packages[k]], ranges[k]@)
}

impl PyDependencyProvider {
    /// Chooses the next package to decide among candidates whose versions
    /// are all known, where candidate `k` is `packages[k]` with range
    /// `ranges[k]`: the candidate whose range admits the fewest of its
    /// available versions, the first one on a tie, and the first available
    /// version its range admits, if any. The host is not asked: the cache
    /// answers.
    pub fn choose_package_version(&self, packages: &Vec<u64>, ranges: &Vec<VersionRange>) -> (r: (
        usize,
        Option<Version>,
    ))
        requires
            packages.len() > 0,
            packages.len() == ranges.len(),
            forall|k: int| 0 <= k < packages.len() ==> self.cache@.contains_key(#[trigger] packages@[k]),
        ensures
            ({
                let cache = self.cache@;
                let i = r.0 as int;
                let vs = cache[packages@[i]];
                let s = ranges@[i]@;
                &&& i < packages.len()
                &&& forall|k: int| 0 <= k < packages.len() ==> cached_count(cache, packages@, ranges@, i)
                    <= #[trigger] cached_count(cache, packages@, ranges@, k)
                &&& forall|k: int| 0 <= k < i ==> cached_count(cache, packages@, ranges@, i)
                    < #[trigger] cached_count(cache, packages@, ranges@, k)
                &&& r.1 matches Some(v) ==> exists|j: int| 0 <= j < vs.len() && vs[j] == v@ && s.contains(order_key(v@))
                    && forall|k: int| 0 <= k < j ==> !s.contains(order_key(#[trigger] vs[k]))
                &&& r.1 is None ==> forall|k: int| 0 <= k < vs.len() ==> !s.contains(order_key(#[trigger] vs[k]))
            }),
    {
        let mut available: Vec<Vec<Version>> = Vec::new();
        let mut i: usize = 0;
        while i < packages.len()
            invariant
                0 <= i <= packages.len(),
                packages.len() == ranges.len(),
                available.len() == i,
                forall|k: int| 0 <= k < packages.len() ==> self.cache@.contains_key(#[trigger] packages@[k]),
                forall|k: int| 0 <= k < i ==> versions_view((#[trigger] available@[k])@)
                    == self.cache@[packages@[k]],
            decreases packages.len() - i,
        {
            let vs = match self.cache.lookup(packages[i]) {
                Some(vs) => copy_versions(vs),
                None => {
                    assert(self.cache@.contains_key(packages@[i as int]));
                    Vec::new()
                },
            };
            available.push(vs);
            i = i + 1;
        }
        let (best, first) = choose_among(ranges, &available);
        proof {
            assert forall|k: int| 0 <= k < packages.len() implies candidate_count(ranges@, available@, k)
                == #[trigger] cached_count(self.cache@, packages@, ranges@, k) by {
                assert(versions_view(available@[k]@) == self.cache@[packages@[k]]);
            }
        }
        let version = match first {
            Some(j) => {
                let v = available[best][j].duplicate();
                proof {
                    let vs = self.cache@[packages@[best as int]];
                    assert(vs[j as int] == available@[best as int]@[j as int]@);
                    assert forall|k: int| 0 <= k < j implies !ranges@[best as int]@.contains(order_key(#[trigger] vs[k])) by {
                        assert(vs[k] == available@[best as int]@[k]@);
                    }
                }
                Some(v)
            },
            None => {
                proof {
                    let vs = self.cache@[packages@[best as int]];
                    assert forall|k: int| 0 <= k < vs.len() implies !ranges@[best as int]@.contains(order_key(#[trigger] vs[k])) by {
                        assert(vs[k] == available@[best as int]@[k]@);
                    }
                }
                None
            },
        };
        proof {
            let cache = self.cache@;
            assert(best < packages.len());
            assert(forall|k: int| 0 <= k < packages.len() ==> cached_count(cache, packages@, ranges@, best as int)
                <= #[trigger] cached_count(cache, packages@, ranges@, k));
            assert(forall|k: int| 0 <= k < best ==> cached_count(cache, packages@, ranges@, best as int)
                < #[trigger] cached_count(cache, packages@, ranges@, k));
        }
        (best, version)
    }
}

} // verus!
