//! Versions: numeric release segments and an optional pre-release tag.
use vstd::prelude::*;

verus! {

/// The phase of a pre-release.
#[derive(Clone, Copy, Debug, PartialEq, Eq, Structural)]
pub enum PreKind {
    /// `a`
    Alpha,
    /// `b`
    Beta,
    /// `rc`
    Candidate,
}

/// A pre-release tag such as `rc2`.
#[derive(Clone, Copy, Debug, PartialEq, Eq, Structural)]
pub struct PreRelease {
    pub kind: PreKind,
    pub number: u64,
}

/// A version such as `1.4.2` or `2.0rc1`: numeric release segments and an
/// optional pre-release tag.
///
/// Versions are ordered by release segments, lexicographically once trailing
/// zeros are dropped (so `1.0` and `1.0.0` are the same release, as in
/// PEP 440's zero padding); among equal releases, alpha comes before beta, beta before a release candidate, and
/// every pre-release before the final release; pre-releases of one phase go
/// by their number.
#[derive(Clone, Debug, PartialEq, Eq)]
pub struct Version {
    pub release: Vec<u64>,
    pub pre: Option<PreRelease>,
}

/// A version as the order sees it: release segments, phase rank, and
/// pre-release number. The final release has rank 3 and number 0.
pub type VersionKey = (Seq<u64>, u64, u64);

/// The rank of a pre-release phase in the order; the final release ranks last.
pub open spec fn phase_rank(pre: Option<PreRelease>) -> u64 {
    match pre {
        None => 3,
        Some(p) => match p.kind {
            PreKind::Alpha => 0,
            PreKind::Beta => 1,
            PreKind::Candidate => 2,
        },
    }
}

/// The pre-release number, zero for a final release.
pub open spec fn pre_number(pre: Option<PreRelease>) -> u64 {
    match pre {
        None => 0,
        Some(p) => p.number,
    }
}

impl View for Version {
    type V = VersionKey;

    open spec fn view(&self) -> VersionKey {
        (self.release@, phase_rank(self.pre), pre_number(self.pre))
    }
}

/// The view of an executable key.
pub open spec fn key_view(k: (Vec<u64>, u64, u64)) -> VersionKey {
    (k.0@, k.1, k.2)
}

/// Strict order on versions: by release segments, then phase rank, then
/// pre-release number. This is how the tuple `(Vec<u64>, u64, u64)` orders
/// itself.
pub open spec fn key_lt(a: VersionKey, b: VersionKey) -> bool {
    lex_lt(a.0, b.0) || (a.0 == b.0 && (a.1 < b.1 || (a.1 == b.1 && a.2 < b.2)))
}

/// Release segments without their trailing zeros.
pub open spec fn strip_zeros(s: Seq<u64>) -> Seq<u64>
    decreases s.len(),
{
    if s.len() > 0 && s.last() == 0 {
        strip_zeros(s.drop_last())
    } else {
        s
    }
}

/// The key by which a version is ordered: its release without trailing
/// zeros, its phase rank and its pre-release number. Lexicographic order on
/// these keys is the order of releases padded with zeros.
pub open spec fn order_key(v: VersionKey) -> VersionKey {
    (strip_zeros(v.0), v.1, v.2)
}

/// Strict lexicographic order on release segments: `a` comes before `b`.
pub open spec fn lex_lt(a: Seq<u64>, b: Seq<u64>) -> bool
    decreases a.len(),
{
    if b.len() == 0 {
        false
    } else if a.len() == 0 {
        true
    } else if a[0] < b[0] {
        true
    } else if a[0] > b[0] {
        false
    } else {
        lex_lt(a.drop_first(), b.drop_first())
    }
}

/// Release segments can be bumped when there is a last segment that can
/// still grow.
pub open spec fn can_bump(s: Seq<u64>) -> bool {
    s.len() > 0 && s.last() < u64::MAX
}

/// The release after `s` at the same granularity: its last segment
/// incremented.
pub open spec fn bump_seq(s: Seq<u64>) -> Seq<u64> {
    s.update(s.len() - 1, (s.last() + 1) as u64)
}

/// The upper bound of a compatible release can be formed when there are at
/// least two segments and the second-to-last can still grow.
pub open spec fn has_compatible_upper(s: Seq<u64>) -> bool {
    s.len() >= 2 && s[s.len() - 2] < u64::MAX
}

/// The exclusive upper bound of a compatible release: the second-to-last
/// segment incremented and the last one reset to zero (`1.4.2` gives `1.5.0`).
pub open spec fn compatible_upper(s: Seq<u64>) -> Seq<u64> {
    s.update(s.len() - 2, (s[s.len() - 2] + 1) as u64).update(s.len() - 1, 0)
}

/// The least version of release `s`: its first alpha.
pub open spec fn first_of_release(s: Seq<u64>) -> VersionKey {
    (s, 0, 0)
}

/// A version can be bumped when its successor at the same release length
/// exists: a pre-release whose number can still grow, or a final release
/// whose last segment can still grow.
pub open spec fn can_bump_key(v: VersionKey) -> bool {
    if v.1 < 3 {
        v.2 < u64::MAX
    } else {
        can_bump(v.0)
    }
}

/// The least version after `v` at the same release length: the next
/// pre-release of the same phase, or, after a final release, the first alpha
/// of the release with the last segment incremented.
pub open spec fn bump_key(v: VersionKey) -> VersionKey {
    if v.1 < 3 {
        (v.0, v.1, (v.2 + 1) as u64)
    } else {
        first_of_release(bump_seq(v.0))
    }
}

/// The exclusive upper bound of a compatible release: the final release
/// whose second-to-last segment is one higher and last is zero (`~=1.4.2`
/// ends before `1.5.0`, `~=1.4` before `2.0`).
pub open spec fn compatible_upper_key(v: VersionKey) -> VersionKey {
    (compatible_upper(v.0), 3, 0)
}

/// No version comes before itself.
pub proof fn lemma_key_lt_irreflexive(a: VersionKey)
    ensures
        !key_lt(a, a),
{
    lemma_lex_lt_irreflexive(a.0);
}

/// No release comes before itself.
pub proof fn lemma_lex_lt_irreflexive(a: Seq<u64>)
    ensures
        !lex_lt(a, a),
    decreases a.len(),
{
    if a.len() > 0 {
        lemma_lex_lt_irreflexive(a.drop_first());
    }
}

/// Two sequences that agree on a prefix compare as their remainders do.
proof fn lemma_lex_lt_common_prefix(a: Seq<u64>, b: Seq<u64>, k: int)
    requires
        0 <= k <= a.len(),
        k <= b.len(),
        a.subrange(0, k) == b.subrange(0, k),
    ensures
        lex_lt(a, b) == lex_lt(a.subrange(k, a.len() as int), b.subrange(k, b.len() as int)),
    decreases k,
{
    if k > 0 {
        assert(a[0] == a.subrange(0, k)[0]);
        assert(b[0] == b.subrange(0, k)[0]);
        assert(a.drop_first().subrange(0, k - 1) =~= a.subrange(0, k).drop_first());
        assert(b.drop_first().subrange(0, k - 1) =~= b.subrange(0, k).drop_first());
        lemma_lex_lt_common_prefix(a.drop_first(), b.drop_first(), k - 1);
        assert(a.drop_first().subrange(k - 1, a.len() - 1) =~= a.subrange(k, a.len() as int));
        assert(b.drop_first().subrange(k - 1, b.len() - 1) =~= b.subrange(k, b.len() as int));
    } else {
        assert(a.subrange(0, a.len() as int) =~= a);
        assert(b.subrange(0, b.len() as int) =~= b);
    }
}

/// Dropping trailing zeros leaves a prefix, followed only by zeros, that
/// ends in a non-zero segment unless it is empty.
pub proof fn lemma_strip_shape(s: Seq<u64>)
    ensures
        strip_zeros(s).len() <= s.len(),
        strip_zeros(s) == s.subrange(0, strip_zeros(s).len() as int),
        forall|j: int| strip_zeros(s).len() <= j < s.len() ==> s[j] == 0,
        strip_zeros(s).len() > 0 ==> strip_zeros(s).last() != 0,
    decreases s.len(),
{
    if s.len() > 0 && s.last() == 0 {
        lemma_strip_shape(s.drop_last());
        let t = strip_zeros(s.drop_last());
        assert(t == s.subrange(0, t.len() as int)) by {
            assert(s.drop_last().subrange(0, t.len() as int) =~= s.subrange(0, t.len() as int));
        }
        assert forall|j: int| t.len() <= j < s.len() implies s[j] == 0 by {
            if j < s.len() - 1 {
                assert(s.drop_last()[j] == s[j]);
            }
        }
    } else {
        assert(s.subrange(0, s.len() as int) =~= s);
    }
}

/// A proper prefix comes before the sequence.
proof fn lemma_prefix_lt(a: Seq<u64>, b: Seq<u64>)
    requires
        a.len() < b.len(),
        a == b.subrange(0, a.len() as int),
    ensures
        lex_lt(a, b),
{
    assert(a.subrange(0, a.len() as int) =~= a);
    lemma_lex_lt_common_prefix(a, b, a.len() as int);
    assert(a.subrange(a.len() as int, a.len() as int).len() == 0);
}

/// Sequences that agree below `k` and differ upward at `k` are ordered.
proof fn lemma_lt_at(a: Seq<u64>, b: Seq<u64>, k: int)
    requires
        0 <= k < a.len(),
        k < b.len(),
        a.subrange(0, k) == b.subrange(0, k),
        a[k] < b[k],
    ensures
        lex_lt(a, b),
{
    lemma_lex_lt_common_prefix(a, b, k);
    let ra = a.subrange(k, a.len() as int);
    let rb = b.subrange(k, b.len() as int);
    assert(ra[0] == a[k] && rb[0] == b[k]);
}

/// A version comes before its bump.
pub proof fn lemma_key_lt_bump(v: VersionKey)
    requires
        can_bump_key(v),
    ensures
        key_lt(order_key(v), order_key(bump_key(v))),
{
    if v.1 >= 3 {
        let r = v.0;
        let b = bump_seq(r);
        assert(strip_zeros(b) == b);
        lemma_strip_shape(r);
        let k = strip_zeros(r).len();
        if k == r.len() {
            assert(r.subrange(0, k as int) =~= r);
            lemma_lt_bump(r);
        } else {
            assert(strip_zeros(r) =~= b.subrange(0, k as int));
            lemma_prefix_lt(strip_zeros(r), b);
        }
    }
}

/// A version comes before the upper bound of its compatible release.
pub proof fn lemma_key_lt_compatible_upper(v: VersionKey)
    requires
        has_compatible_upper(v.0),
    ensures
        key_lt(order_key(v), order_key(compatible_upper_key(v))),
{
    let r = v.0;
    let n = r.len();
    let u = compatible_upper(r);
    let w = u.drop_last();
    assert(strip_zeros(w) == w);
    assert(strip_zeros(u) == w);
    lemma_strip_shape(r);
    let k = strip_zeros(r).len();
    if k <= n - 2 {
        assert(strip_zeros(r) =~= w.subrange(0, k as int));
        lemma_prefix_lt(strip_zeros(r), w);
    } else {
        let m = (n - 2) as int;
        assert(strip_zeros(r).subrange(0, m) =~= w.subrange(0, m));
        assert(strip_zeros(r)[m] == r[m]);
        lemma_lt_at(strip_zeros(r), w, m);
    }
}

/// A release comes before its bump.
pub proof fn lemma_lt_bump(s: Seq<u64>)
    requires
        can_bump(s),
    ensures
        lex_lt(s, bump_seq(s)),
{
    let n = s.len() - 1;
    let b = bump_seq(s);
    assert(s.subrange(0, n) =~= b.subrange(0, n));
    lemma_lex_lt_common_prefix(s, b, n);
    let rs = s.subrange(n, s.len() as int);
    let rb = b.subrange(n, b.len() as int);
    assert(rs[0] < rb[0]);
}

/// A release comes before the upper bound of its compatible release.
pub proof fn lemma_lt_compatible_upper(s: Seq<u64>)
    requires
        has_compatible_upper(s),
    ensures
        lex_lt(s, compatible_upper(s)),
{
    let n = s.len() - 2;
    let u = compatible_upper(s);
    assert(s.subrange(0, n) =~= u.subrange(0, n));
    lemma_lex_lt_common_prefix(s, u, n);
    let rs = s.subrange(n, s.len() as int);
    let ru = u.subrange(n, u.len() as int);
    assert(rs[0] < ru[0]);
}

/// What pep440_rs reads from a text: the version by release segments, phase
/// rank and pre-release number, then its epoch, post-release number,
/// development-release number and whether it has a local label; `None` when
/// the text is not a version.
pub uninterp spec fn pep440_parts(s: Seq<char>) -> Option<(VersionKey, u64, Option<u64>, Option<u64>, bool)>;

/// The version a text spells, when pep440_rs reads it as a plain version:
/// epoch zero, no post-release, development release or local label. Versions
/// with those parts are outside what this library orders.
pub open spec fn pep440_version(s: Seq<char>) -> Option<VersionKey> {
    match pep440_parts(s) {
        Some(p) => if p.1 == 0 && p.2 is None && p.3 is None && !p.4 {
            Some(p.0)
        } else {
            None
        },
        None => None,
    }
}

/// Relies on `pep440_rs::Version::from_str`, whose outcome depends on the
/// text alone, and on its accessors `release`, `pre`, `epoch`, `post`, `dev`
/// and `is_local` handing back the parsed parts.
#[verifier::external_body]
fn parse_pep440(text: &str) -> (r: Option<(Version, u64, Option<u64>, Option<u64>, bool)>)
    ensures
        r matches Some(p) ==> pep440_parts(text@) == Some((p.0@, p.1, p.2, p.3, p.4)),
        r is None ==> pep440_parts(text@) is None,
{
    let v = <pep440_rs::Version as std::str::FromStr>::from_str(text).ok()?;
    let pre = v.pre().map(|p| match p.kind {
        pep440_rs::PrereleaseKind::Alpha => PreRelease { kind: PreKind::Alpha, number: p.number },
        pep440_rs::PrereleaseKind::Beta => PreRelease { kind: PreKind::Beta, number: p.number },
        pep440_rs::PrereleaseKind::Rc => PreRelease { kind: PreKind::Candidate, number: p.number },
    });
    Some((Version { release: v.release().to_vec(), pre }, v.epoch(), v.post(), v.dev(), v.is_local()))
}

/// Whether release `a` comes before release `b`.
fn release_lt(a: &Vec<u64>, b: &Vec<u64>) -> (r: bool)
    ensures
        r == lex_lt(a@, b@),
{
    let mut i: usize = 0;
    while i < a.len() && i < b.len() && a[i] == b[i]
        invariant
            0 <= i <= a.len(),
            i <= b.len(),
            a@.subrange(0, i as int) == b@.subrange(0, i as int),
        decreases a.len() - i,
    {
        assert(a@.subrange(0, i + 1) =~= a@.subrange(0, i as int).push(a@[i as int]));
        assert(b@.subrange(0, i + 1) =~= b@.subrange(0, i as int).push(b@[i as int]));
        i = i + 1;
    }
    proof {
        lemma_lex_lt_common_prefix(a@, b@, i as int);
    }
    let ghost ra = a@.subrange(i as int, a.len() as int);
    let ghost rb = b@.subrange(i as int, b.len() as int);
    if i == b.len() {
        assert(rb.len() == 0);
        false
    } else if i == a.len() {
        assert(ra.len() == 0);
        true
    } else {
        assert(ra[0] == a@[i as int] && rb[0] == b@[i as int]);
        a[i] < b[i]
    }
}

/// Whether version `a` comes before version `b`.
pub fn version_lt(a: &Version, b: &Version) -> (r: bool)
    ensures
        r == key_lt(order_key(a@), order_key(b@)),
{
    let ka = a.key();
    let kb = b.key();
    if release_lt(&ka.0, &kb.0) {
        return true;
    }
    if release_lt(&kb.0, &ka.0) {
        return false;
    }
    proof {
        lemma_lex_lt_total(ka.0@, kb.0@);
    }
    ka.1 < kb.1 || (ka.1 == kb.1 && ka.2 < kb.2)
}

/// The order on releases is transitive.
proof fn lemma_lex_lt_transitive(a: Seq<u64>, b: Seq<u64>, c: Seq<u64>)
    requires
        lex_lt(a, b),
        lex_lt(b, c),
    ensures
        lex_lt(a, c),
    decreases a.len(),
{
    if a.len() > 0 && a[0] == b[0] && b[0] == c[0] {
        lemma_lex_lt_transitive(a.drop_first(), b.drop_first(), c.drop_first());
    }
}

/// A version at or after `lo` and before `hi` shows that `lo` comes before
/// `hi`.
pub proof fn lemma_key_lt_through(lo: VersionKey, x: VersionKey, hi: VersionKey)
    requires
        !key_lt(x, lo),
        key_lt(x, hi),
    ensures
        key_lt(lo, hi),
{
    if !lex_lt(lo.0, x.0) {
        lemma_lex_lt_total(lo.0, x.0);
    }
    if lex_lt(lo.0, x.0) && lex_lt(x.0, hi.0) {
        lemma_lex_lt_transitive(lo.0, x.0, hi.0);
    }
}

/// Two releases that neither precede the other are equal.
proof fn lemma_lex_lt_total(a: Seq<u64>, b: Seq<u64>)
    requires
        !lex_lt(a, b),
        !lex_lt(b, a),
    ensures
        a == b,
    decreases a.len(),
{
    if a.len() > 0 && b.len() > 0 {
        lemma_lex_lt_total(a.drop_first(), b.drop_first());
        assert(a =~= seq![a[0]] + a.drop_first());
        assert(b =~= seq![b[0]] + b.drop_first());
    }
}

impl Version {
    /// Reads a version from its text; `None` when the text is not a version,
    /// or is one with an epoch, post-release, development release or local
    /// label.
    pub fn parse(text: &str) -> (r: Option<Version>)
        ensures
            r matches Some(v) ==> pep440_version(text@) == Some(v@),
            r is None ==> pep440_version(text@) is None,
    {
        match parse_pep440(text) {
            Some(p) => {
                if p.1 == 0 && p.2.is_none() && p.3.is_none() && !p.4 {
                    Some(p.0)
                } else {
                    None
                }
            },
            None => None,
        }
    }

    /// The key by which versions are ordered: the release without trailing
    /// zeros, the phase rank and the pre-release number.
    pub fn key(&self) -> (r: (Vec<u64>, u64, u64))
        ensures
            key_view(r) == order_key(self@),
    {
        let ghost full = self.release@;
        let mut n: usize = self.release.len();
        assert(full.subrange(0, n as int) =~= full);
        while n > 0 && self.release[n - 1] == 0
            invariant
                n <= self.release.len(),
                full == self.release@,
                strip_zeros(full) == strip_zeros(full.subrange(0, n as int)),
            decreases n,
        {
            assert(full.subrange(0, n as int).drop_last() =~= full.subrange(0, n - 1));
            n = n - 1;
        }
        let mut release: Vec<u64> = Vec::new();
        let mut i: usize = 0;
        while i < n
            invariant
                i <= n <= self.release.len(),
                full == self.release@,
                release@ == full.subrange(0, i as int),
            decreases n - i,
        {
            release.push(self.release[i]);
            assert(release@ =~= full.subrange(0, i + 1));
            i = i + 1;
        }
        assert(strip_zeros(full.subrange(0, n as int)) == full.subrange(0, n as int));
        match self.pre {
            None => (release, 3, 0),
            Some(p) => match p.kind {
                PreKind::Alpha => (release, 0, p.number),
                PreKind::Beta => (release, 1, p.number),
                PreKind::Candidate => (release, 2, p.number),
            },
        }
    }

    /// The least version after this one at the same release length: the
    /// next pre-release of the same phase, or, after a final release, the
    /// first alpha of the release with the last segment incremented. `None`
    /// when that successor cannot be formed.
    pub fn bump(&self) -> (r: Option<Version>)
        ensures
            can_bump_key(self@) <==> r is Some,
            r matches Some(b) ==> b@ == bump_key(self@),
    {
        match self.pre {
            Some(p) => {
                if p.number == u64::MAX {
                    return None;
                }
                Some(Version { release: self.duplicate().release, pre: Some(PreRelease { kind: p.kind, number: p.number + 1 }) })
            },
            None => {
                let n = self.release.len();
                if n == 0 || self.release[n - 1] == u64::MAX {
                    return None;
                }
                let mut release = self.release.clone();
                assert(release@ =~= self.release@);
                release.set(n - 1, self.release[n - 1] + 1);
                Some(Version { release, pre: Some(PreRelease { kind: PreKind::Alpha, number: 0 }) })
            },
        }
    }

    /// The exclusive upper bound of the compatible release of this version:
    /// the final release whose second-to-last segment is one higher and last
    /// is zero. `None` when there are fewer than two segments
    /// or the second-to-last cannot grow.
    pub fn compatible_upper(&self) -> (r: Option<Version>)
        ensures
            has_compatible_upper(self@.0) <==> r is Some,
            r matches Some(u) ==> u@ == compatible_upper_key(self@),
    {
        let n = self.release.len();
        if n < 2 || self.release[n - 2] == u64::MAX {
            return None;
        }
        let mut release = self.release.clone();
        assert(release@ =~= self.release@);
        release.set(n - 2, self.release[n - 2] + 1);
        release.set(n - 1, 0);
        Some(Version { release, pre: None })
    }

    /// A copy of this version.
    pub fn duplicate(&self) -> (r: Version)
        ensures
            r@ == self@,
    {
        let release = self.release.clone();
        assert(release@ =~= self.release@);
        Version { release, pre: self.pre }
    }
}

} // verus!
