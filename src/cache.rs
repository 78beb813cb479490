//! The per-session memo of the versions a host offers for each package.
use crate::version::{Version, VersionKey};
use std::collections::{HashMap, HashSet};
use vstd::prelude::*;

verus! {

/// The views of a list of versions, in order.
pub open spec fn versions_view(vs: Seq<Version>) -> Seq<VersionKey> {
    vs.map_values(|v: Version| v@)
}

/// Available versions per package, filled lazily during one resolution
/// session and never invalidated. Packages are known by the identity number
/// the host's equality assigns them. Besides the stored lists, the cache
/// remembers every package the host has answered for, whether or not the
/// answer could be used, so that the host is never asked twice.
pub struct MetadataCache {
    versions: HashMap<u64, Vec<Version>>,
    answered: HashSet<u64>,
}

impl View for MetadataCache {
    type V = Map<u64, Seq<VersionKey>>;

    closed spec fn view(&self) -> Map<u64, Seq<VersionKey>> {
        self.versions@.map_values(|vs: Vec<Version>| versions_view(vs@))
    }
}

impl MetadataCache {
    /// Every package with stored versions has been answered for.
    pub closed spec fn wf(&self) -> bool {
        self.versions@.dom().subset_of(self.answered@)
    }

    /// The packages the host has answered for in this session.
    pub closed spec fn answered(&self) -> Set<u64> {
        self.answered@
    }

    /// An empty cache, for a new session.
    pub fn new() -> (r: MetadataCache)
        ensures
            r.wf(),
            r@ == Map::<u64, Seq<VersionKey>>::empty(),
            r.answered() == Set::<u64>::empty(),
    {
        let r = MetadataCache { versions: HashMap::new(), answered: HashSet::new() };
        assert(r@ =~= Map::<u64, Seq<VersionKey>>::empty());
        r
    }

    /// The stored versions of `package`, if any.
    pub fn lookup(&self, package: u64) -> (r: Option<&Vec<Version>>)
        ensures
            r matches Some(vs) ==> self@.contains_key(package) && versions_view(vs@) == self@[package],
            r is None ==> !self@.contains_key(package),
    {
        broadcast use vstd::std_specs::hash::group_hash_axioms;
        self.versions.get(&package)
    }

    /// Whether the host has already answered for `package`.
    pub fn was_answered(&self, package: u64) -> (r: bool)
        ensures
            r == self.answered().contains(package),
    {
        broadcast use vstd::std_specs::hash::group_hash_axioms;
        self.answered.contains(&package)
    }

    /// Records that the host answered for `package`, storing `versions` when
    /// the answer could be used.
    pub fn record(&mut self, package: u64, versions: Option<Vec<Version>>)
        requires
            old(self).wf(),
            !old(self).answered().contains(package),
        ensures
            final(self).wf(),
            final(self).answered() == old(self).answered().insert(package),
            versions matches Some(vs) ==> final(self)@ == old(self)@.insert(package, versions_view(vs@)),
            versions is None ==> final(self)@ == old(self)@,
    {
        broadcast use vstd::std_specs::hash::group_hash_axioms;
        self.answered.insert(package);
        match versions {
            Some(vs) => {
                let ghost view = versions_view(vs@);
                self.versions.insert(package, vs);
                assert(self@ =~= old(self)@.insert(package, view));
            },
            None => {},
        }
    }
}

/// A package with stored versions has been answered for: in a well-formed
/// cache, a package the host has not answered for has no stored entry.
pub proof fn lemma_stored_were_answered(c: MetadataCache, package: u64)
    requires
        c.wf(),
    ensures
        c@.contains_key(package) ==> c.answered().contains(package),
{
}

} // verus!
