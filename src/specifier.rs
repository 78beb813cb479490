//! Specifier clauses (`>=1.2`, `~=1.4.2`, ...) and their translation to ranges.
use crate::error::PubGrubCallbackError;
use crate::range::{at_or_above, below, VersionRange};
use crate::version::{
    bump_key, can_bump_key, compatible_upper_key, has_compatible_upper, key_lt, lemma_key_lt_bump,
    lemma_key_lt_compatible_upper, lemma_key_lt_irreflexive, order_key, Version, VersionKey,
};
use vstd::prelude::*;
use vstd::string::StrSliceExecFns;

verus! {

/// The comparison operator of a specifier clause.
#[derive(Clone, Copy, Debug, PartialEq, Eq, Structural)]
pub enum Operator {
    /// `==`
    Equal,
    /// `!=`
    NotEqual,
    /// `<=`
    LessThanEqual,
    /// `<`
    LessThan,
    /// `>=`
    GreaterThanEqual,
    /// `>`
    GreaterThan,
    /// `~=`, a compatible release
    TildeEqual,
}

/// The operator that `s` spells, if any.
pub open spec fn operator_of(s: Seq<char>) -> Option<Operator> {
    if s == seq!['=', '='] {
        Some(Operator::Equal)
    } else if s == seq!['!', '='] {
        Some(Operator::NotEqual)
    } else if s == seq!['<', '='] {
        Some(Operator::LessThanEqual)
    } else if s == seq!['<'] {
        Some(Operator::LessThan)
    } else if s == seq!['>', '='] {
        Some(Operator::GreaterThanEqual)
    } else if s == seq!['>'] {
        Some(Operator::GreaterThan)
    } else if s == seq!['~', '='] {
        Some(Operator::TildeEqual)
    } else {
        None
    }
}

/// Reads an operator from its text; unknown text is `UnsupportedSpecifier`
/// holding that text.
pub fn parse_operator(text: &str) -> (r: Result<Operator, PubGrubCallbackError>)
    ensures
        operator_of(text@) matches Some(op) ==> r == Ok::<Operator, PubGrubCallbackError>(op),
        operator_of(text@) is None ==> (r matches Err(PubGrubCallbackError::UnsupportedSpecifier(t))
            && t@ == text@),
{
    let n = text.unicode_len();
    let mut found: Option<Operator> = None;
    if n == 1 {
        let c0 = text.get_char(0);
        assert(text@ =~= seq![c0]);
        if c0 == '<' {
            found = Some(Operator::LessThan);
        } else if c0 == '>' {
            found = Some(Operator::GreaterThan);
        }
    } else if n == 2 {
        let c0 = text.get_char(0);
        let c1 = text.get_char(1);
        assert(text@ =~= seq![c0, c1]);
        if c1 == '=' {
            if c0 == '=' {
                found = Some(Operator::Equal);
            } else if c0 == '!' {
                found = Some(Operator::NotEqual);
            } else if c0 == '<' {
                found = Some(Operator::LessThanEqual);
            } else if c0 == '>' {
                found = Some(Operator::GreaterThanEqual);
            } else if c0 == '~' {
                found = Some(Operator::TildeEqual);
            }
        }
    }
    assert(n != 1 && n != 2 ==> operator_of(text@) is None);
    match found {
        Some(op) => Ok(op),
        None => Err(PubGrubCallbackError::UnsupportedSpecifier(text.to_owned())),
    }
}

/// One constraint: an operator and the version it compares against.
pub struct SpecifierClause {
    pub operator: Operator,
    pub version: Version,
}

impl View for SpecifierClause {
    type V = (Operator, VersionKey);

    open spec fn view(&self) -> (Operator, VersionKey) {
        (self.operator, self.version@)
    }
}

/// Whether a clause has a range: the bounds it needs can be formed.
pub open spec fn clause_valid(c: (Operator, VersionKey)) -> bool {
    match c.0 {
        Operator::LessThanEqual => can_bump_key(c.1),
        Operator::GreaterThan => can_bump_key(c.1),
        Operator::TildeEqual => has_compatible_upper(c.1.0),
        _ => true,
    }
}

/// The versions a clause admits.
pub open spec fn clause_set(c: (Operator, VersionKey)) -> Set<VersionKey> {
    let v = c.1;
    let k = order_key(v);
    match c.0 {
        Operator::Equal => set![k],
        Operator::NotEqual => set![k].complement(),
        Operator::LessThanEqual => below(order_key(bump_key(v))),
        Operator::LessThan => below(k),
        Operator::GreaterThanEqual => at_or_above(k),
        Operator::GreaterThan => at_or_above(order_key(bump_key(v))),
        Operator::TildeEqual => at_or_above(k).intersect(below(order_key(compatible_upper_key(v)))),
    }
}

/// Whether every clause of a sequence has a range.
pub open spec fn clauses_valid(cs: Seq<(Operator, VersionKey)>) -> bool {
    forall|i: int| 0 <= i < cs.len() ==> clause_valid(#[trigger] cs[i])
}

/// The versions every clause of a sequence admits.
pub open spec fn clauses_set(cs: Seq<(Operator, VersionKey)>) -> Set<VersionKey> {
    Set::new(|x: VersionKey| forall|i: int| 0 <= i < cs.len() ==> #[trigger] clause_set(cs[i]).contains(x))
}

/// The views of a sequence of clauses.
pub open spec fn clauses_view(cs: Seq<SpecifierClause>) -> Seq<(Operator, VersionKey)> {
    cs.map_values(|c: SpecifierClause| c@)
}

/// The range of one clause, or `InvalidSpecifier` when its bounds cannot be
/// formed (a compatible release needs two release segments).
pub fn clause_range(c: &SpecifierClause) -> (r: Result<VersionRange, PubGrubCallbackError>)
    ensures
        clause_valid(c@) <==> r is Ok,
        r matches Ok(range) ==> range@ == clause_set(c@),
        r matches Err(e) ==> e is InvalidSpecifier,
{
    let v = &c.version;
    match c.operator {
        Operator::Equal => Ok(VersionRange::exact(v)),
        Operator::NotEqual => Ok(VersionRange::exact(v).complement()),
        Operator::LessThanEqual => match v.bump() {
            Some(b) => Ok(VersionRange::strictly_lower_than(&b)),
            None => Err(PubGrubCallbackError::InvalidSpecifier("<= on a version without a successor".to_owned())),
        },
        Operator::LessThan => Ok(VersionRange::strictly_lower_than(v)),
        Operator::GreaterThanEqual => Ok(VersionRange::higher_than(v)),
        Operator::GreaterThan => match v.bump() {
            Some(b) => Ok(VersionRange::higher_than(&b)),
            None => Err(PubGrubCallbackError::InvalidSpecifier("> on a version without a successor".to_owned())),
        },
        Operator::TildeEqual => match v.compatible_upper() {
            Some(u) => {
                proof {
                    lemma_key_lt_compatible_upper(v@);
                }
                Ok(VersionRange::between(v, &u))
            },
            None => Err(PubGrubCallbackError::InvalidSpecifier("~= needs at least two release segments".to_owned())),
        },
    }
}

/// Translates a sequence of clauses: starting from every version, intersects
/// the range of each clause in turn. Fails with `InvalidSpecifier` exactly when
/// some clause has no range.
pub fn translate(clauses: &Vec<SpecifierClause>) -> (r: Result<VersionRange, PubGrubCallbackError>)
    ensures
        clauses_valid(clauses_view(clauses@)) <==> r is Ok,
        r matches Ok(range) ==> range@ == clauses_set(clauses_view(clauses@)),
        r matches Err(e) ==> e is InvalidSpecifier,
{
    let ghost cs = clauses_view(clauses@);
    let mut full = VersionRange::any();
    let mut i: usize = 0;
    assert(full@ =~= clauses_set(cs.subrange(0, 0)));
    while i < clauses.len()
        invariant
            0 <= i <= clauses.len(),
            cs == clauses_view(clauses@),
            clauses_valid(cs.subrange(0, i as int)),
            full@ == clauses_set(cs.subrange(0, i as int)),
        decreases clauses.len() - i,
    {
        let part = clause_range(&clauses[i]);
        match part {
            Ok(range) => {
                full = full.intersection(&range);
                proof {
                    let pre = cs.subrange(0, i as int);
                    let next = cs.subrange(0, i + 1);
                    assert forall|j: int| 0 <= j < next.len() implies clause_valid(#[trigger] next[j]) by {
                        if j < i {
                            assert(next[j] == pre[j]);
                        }
                    }
                    assert forall|x: VersionKey| full@.contains(x) == clauses_set(next).contains(x) by {
                        if full@.contains(x) {
                            assert forall|j: int| 0 <= j < next.len() implies #[trigger] clause_set(next[j]).contains(x) by {
                                if j < i {
                                    assert(next[j] == pre[j]);
                                    assert(clause_set(pre[j]).contains(x));
                                }
                            }
                        }
                        if clauses_set(next).contains(x) {
                            assert forall|j: int| 0 <= j < pre.len() implies #[trigger] clause_set(pre[j]).contains(x) by {
                                assert(next[j] == pre[j]);
                                assert(clause_set(next[j]).contains(x));
                            }
                            assert(clause_set(next[i as int]).contains(x));
                        }
                    }
                    assert(full@ =~= clauses_set(next));
                }
            },
            Err(e) => {
                assert(!clause_valid(cs[i as int]));
                return Err(e);
            },
        }
        i = i + 1;
    }
    assert(cs.subrange(0, i as int) =~= cs);
    Ok(full)
}

/// The outcome of a translation depends only on which clauses are present,
/// not on their order or repetition.
pub proof fn lemma_translate_order_independent(
    a: Seq<(Operator, VersionKey)>,
    b: Seq<(Operator, VersionKey)>,
)
    requires
        a.to_set() == b.to_set(),
    ensures
        clauses_valid(a) == clauses_valid(b),
        clauses_set(a) == clauses_set(b),
{
    assert forall|j: int| 0 <= j < b.len() implies a.contains(#[trigger] b[j]) by {
        assert(b.to_set().contains(b[j]));
    }
    assert forall|j: int| 0 <= j < a.len() implies b.contains(#[trigger] a[j]) by {
        assert(a.to_set().contains(a[j]));
    }
    if clauses_valid(a) {
        assert forall|j: int| 0 <= j < b.len() implies clause_valid(#[trigger] b[j]) by {
            assert(a.contains(b[j]));
        }
    }
    if clauses_valid(b) {
        assert forall|j: int| 0 <= j < a.len() implies clause_valid(#[trigger] a[j]) by {
            assert(b.contains(a[j]));
        }
    }
    assert forall|x: VersionKey| clauses_set(a).contains(x) == clauses_set(b).contains(x) by {
        if clauses_set(a).contains(x) {
            assert forall|j: int| 0 <= j < b.len() implies #[trigger] clause_set(b[j]).contains(x) by {
                assert(a.contains(b[j]));
                let k = choose|k: int| 0 <= k < a.len() && a[k] == b[j];
                assert(clause_set(a[k]).contains(x));
            }
        }
        if clauses_set(b).contains(x) {
            assert forall|j: int| 0 <= j < a.len() implies #[trigger] clause_set(a[j]).contains(x) by {
                assert(b.contains(a[j]));
                let k = choose|k: int| 0 <= k < b.len() && b[k] == a[j];
                assert(clause_set(b[k]).contains(x));
            }
        }
    }
    assert(clauses_set(a) =~= clauses_set(b));
}

/// The versions a translation of the single clause `c` admits.
pub proof fn lemma_single_clause(c: (Operator, VersionKey))
    ensures
        clauses_valid(seq![c]) == clause_valid(c),
        clauses_set(seq![c]) == clause_set(c),
{
    assert(seq![c][0] == c);
    assert(clauses_set(seq![c]) =~= clause_set(c));
}

/// `<= v` admits exactly the versions that `< bump(v)` admits, both as a
/// clause and as the translation of that clause alone.
pub proof fn lemma_at_most_is_below_bump(v: VersionKey)
    requires
        can_bump_key(v),
    ensures
        clause_valid((Operator::LessThanEqual, v)),
        clause_valid((Operator::LessThan, bump_key(v))),
        clause_set((Operator::LessThanEqual, v)) == clause_set((Operator::LessThan, bump_key(v))),
        clauses_set(seq![(Operator::LessThanEqual, v)]) == clauses_set(seq![(Operator::LessThan, bump_key(v))]),
        clauses_set(seq![(Operator::LessThanEqual, v)]) == below(order_key(bump_key(v))),
{
    lemma_single_clause((Operator::LessThanEqual, v));
    lemma_single_clause((Operator::LessThan, bump_key(v)));
}

/// `>= v` admits `v`; `> v` does not, and admits exactly the versions at or
/// after `bump(v)`; both as clauses and as translations of them alone.
pub proof fn lemma_lower_bound_inclusion(v: VersionKey)
    requires
        can_bump_key(v),
    ensures
        clause_set((Operator::GreaterThanEqual, v)).contains(order_key(v)),
        !clause_set((Operator::GreaterThan, v)).contains(order_key(v)),
        clauses_set(seq![(Operator::GreaterThanEqual, v)]).contains(order_key(v)),
        !clauses_set(seq![(Operator::GreaterThan, v)]).contains(order_key(v)),
        clauses_set(seq![(Operator::GreaterThan, v)]) == at_or_above(order_key(bump_key(v))),
{
    lemma_key_lt_irreflexive(order_key(v));
    lemma_key_lt_bump(v);
    lemma_single_clause((Operator::GreaterThanEqual, v));
    lemma_single_clause((Operator::GreaterThan, v));
}

/// `~= v` admits exactly the versions from `v` up to, not including, the
/// final release whose second-to-last segment is one higher and last is
/// zero; a version of fewer than two release segments has no compatible
/// release.
pub proof fn lemma_compatible_release(v: VersionKey)
    ensures
        v.0.len() < 2 ==> !clause_valid((Operator::TildeEqual, v)),
        has_compatible_upper(v.0) ==> clause_set((Operator::TildeEqual, v)) == Set::new(
            |x: VersionKey| !key_lt(x, order_key(v)) && key_lt(x, order_key(compatible_upper_key(v))),
        ),
        has_compatible_upper(v.0) ==> clause_set((Operator::TildeEqual, v)).contains(order_key(v)),
{
    if has_compatible_upper(v.0) {
        assert(clause_set((Operator::TildeEqual, v)) =~= Set::new(
            |x: VersionKey| !key_lt(x, order_key(v)) && key_lt(x, order_key(compatible_upper_key(v))),
        ));
        lemma_key_lt_irreflexive(order_key(v));
        lemma_key_lt_compatible_upper(v);
    }
}

/// `!= v` admits every version but `v`: it is the true complement of `== v`.
pub proof fn lemma_not_equal_is_complement(v: VersionKey)
    ensures
        clause_set((Operator::NotEqual, v)).intersect(clause_set((Operator::Equal, v)))
            == Set::<VersionKey>::empty(),
        clause_set((Operator::NotEqual, v)).union(clause_set((Operator::Equal, v)))
            == Set::<VersionKey>::full(),
{
    assert(clause_set((Operator::NotEqual, v)).intersect(clause_set((Operator::Equal, v)))
        =~= Set::<VersionKey>::empty());
    assert(clause_set((Operator::NotEqual, v)).union(clause_set((Operator::Equal, v)))
        =~= Set::<VersionKey>::full());
}

/// Adding a clause can only narrow the admitted versions, never widen them.
pub proof fn lemma_more_clauses_narrow(
    cs: Seq<(Operator, VersionKey)>,
    c: (Operator, VersionKey),
)
    ensures
        clauses_set(cs.push(c)).subset_of(clauses_set(cs)),
{
    assert forall|x: VersionKey| clauses_set(cs.push(c)).contains(x) implies clauses_set(cs).contains(x) by {
        assert forall|j: int| 0 <= j < cs.len() implies #[trigger] clause_set(cs[j]).contains(x) by {
            assert(cs.push(c)[j] == cs[j]);
            assert(clause_set(cs.push(c)[j]).contains(x));
        }
    }
}

} // verus!
