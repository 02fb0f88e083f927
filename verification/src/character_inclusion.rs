//! The character-inclusion domain.
//!
//! This domain summarizes the contents of a string by two sets of
//! characters: those certainly contained in every string the value
//! represents, and those possibly contained in at least one of them.
//! The distinction is made when two values merge at a control-flow
//! join.  The domain keeps no information about character order.  The
//! *Top* value stands for an empty set of certainly contained
//! characters and the whole alphabet of possibly contained characters.
//!
//! An example of how the domain works:
//!  1. Abstracting a single string stores its distinct characters in
//!     both sets: "Hello, World!" gives certain = possible =
//!     {H,e,l,o,',',' ',W,r,d,!}.
//!  2. Concatenating two strings takes the union of the two sets on
//!     both components, since both strings certainly occur.
//!  3. Merging two alternative values intersects the certain sets and
//!     unites the possible sets.

use crate::abstract_domain::{AbstractDomain, DomainInsertion, HasTop};
use crate::sorted_chars::{
    chars_of_str, clone_chars, contains_char, insert_char, lemma_subrange_extend_to_set,
    lemma_subrange_full, strictly_sorted,
};
use vstd::prelude::*;

verus! {

/// Mathematical content of a `CharacterSet`: either the whole alphabet
/// or a concrete set of characters.
pub enum CharacterSetView {
    /// The whole alphabet of allowed characters.
    Top,
    /// A concrete set of characters.
    Chars(Set<char>),
}

impl CharacterSetView {
    /// The concrete set of a non-Top view.
    pub open spec fn chars(self) -> Set<char>
        recommends
            self is Chars,
    {
        match self {
            CharacterSetView::Top => Set::empty(),
            CharacterSetView::Chars(s) => s,
        }
    }

    /// Set union lifted to the lattice: either side being Top makes the
    /// union Top.
    pub open spec fn union_with(self, other: Self) -> Self {
        match (self, other) {
            (CharacterSetView::Chars(a), CharacterSetView::Chars(b)) => CharacterSetView::Chars(
                a.union(b),
            ),
            _ => CharacterSetView::Top,
        }
    }

    /// Set intersection of two non-Top views; intersecting with Top is
    /// left to the caller, who must have collapsed to Top beforehand.
    pub open spec fn intersect_with(self, other: Self) -> Self
        recommends
            self is Chars,
            other is Chars,
    {
        match (self, other) {
            (CharacterSetView::Chars(a), CharacterSetView::Chars(b)) => CharacterSetView::Chars(
                a.intersect(b),
            ),
            _ => CharacterSetView::Top,
        }
    }

    /// Whether this view covers everything `other` covers: Top covers
    /// all, and a concrete set covers the concrete sets it contains.
    pub open spec fn includes(self, other: Self) -> bool {
        match other {
            CharacterSetView::Top => self is Top,
            CharacterSetView::Chars(b) => match self {
                CharacterSetView::Top => true,
                CharacterSetView::Chars(a) => b.subset_of(a),
            },
        }
    }
}

/// A set of characters, or *Top* for the whole alphabet.  Concrete sets
/// are stored as strictly ascending character vectors, so equal sets
/// have equal representations.
#[derive(Debug, Clone, PartialEq, Eq)]
pub enum CharacterSet {
    /// The whole alphabet of allowed characters.
    Top,
    /// A concrete set of characters, strictly ascending.
    Value(Vec<char>),
}

impl View for CharacterSet {
    type V = CharacterSetView;

    open spec fn view(&self) -> CharacterSetView {
        match self {
            CharacterSet::Top => CharacterSetView::Top,
            CharacterSet::Value(v) => CharacterSetView::Chars(v@.to_set()),
        }
    }
}

impl CharacterSet {
    /// Representation invariant: a concrete set is strictly ascending.
    pub open spec fn inv(&self) -> bool {
        match self {
            CharacterSet::Top => true,
            CharacterSet::Value(v) => strictly_sorted(v@),
        }
    }

    /// The stored character sequence of a non-Top set.
    pub open spec fn spec_chars(&self) -> Seq<char>
        recommends
            self is Value,
    {
        match self {
            CharacterSet::Top => Seq::empty(),
            CharacterSet::Value(v) => v@,
        }
    }

    /// Unwraps the characters of a concrete set.  Calling this on a
    /// *Top* value is a precondition violation.
    pub fn unwrap_value(&self) -> (r: Vec<char>)
        requires
            self is Value,
        ensures
            r@ == self.spec_chars(),
    {
        match self {
            CharacterSet::Value(v) => clone_chars(v),
            CharacterSet::Top => unreached(),
        }
    }

    /// Takes the intersection of two concrete character sets.  Neither
    /// operand may be *Top*: the enclosing domain must have been
    /// collapsed to *Top* beforehand, so an intersection with the whole
    /// alphabet is never computed.
    pub fn intersection(&self, other: Self) -> (r: Self)
        requires
            self.inv(),
            other.inv(),
            self is Value,
            other is Value,
        ensures
            r.inv(),
            r is Value,
            r@ == self@.intersect_with(other@),
    {
        match (self, &other) {
            (CharacterSet::Value(a), CharacterSet::Value(b)) => {
                let mut out: Vec<char> = Vec::new();
                let mut i: usize = 0;
                while i < a.len()
                    invariant
                        i <= a@.len(),
                        strictly_sorted(a@),
                        strictly_sorted(out@),
                        out@.to_set() == a@.subrange(0, i as int).to_set().intersect(b@.to_set()),
                        forall|k: int|
                            0 <= k < out@.len() ==> exists|j: int|
                                0 <= j < i && a@[j] == #[trigger] out@[k],
                    decreases a@.len() - i,
                {
                    let c = a[i];
                    let ghost prefix = a@.subrange(0, i as int);
                    if contains_char(b, c) {
                        proof {
                            assert forall|k: int| 0 <= k < out@.len() implies (out@[k] as int) < (
                            c as int) by {
                                let j = choose|j: int| 0 <= j < i && a@[j] == out@[k];
                                assert((a@[j] as int) < (a@[i as int] as int));
                            }
                        }
                        let ghost out_old = out@;
                        out.push(c);
                        proof {
                            crate::sorted_chars::lemma_push_to_set(out_old, c);
                            assert(out@ == out_old.push(c));
                            lemma_subrange_extend_to_set(a@, i as int);
                            assert(b@.to_set().contains(c));
                            assert(out@.to_set() =~= a@.subrange(0, i as int + 1).to_set().intersect(
                                b@.to_set(),
                            ));
                            assert forall|k: int| 0 <= k < out@.len() implies exists|j: int|
                                0 <= j < i + 1 && a@[j] == #[trigger] out@[k] by {
                                if k < out@.len() - 1 {
                                    let j = choose|j: int| 0 <= j < i && a@[j] == out@[k];
                                    assert(0 <= j < i + 1 && a@[j] == out@[k]);
                                } else {
                                    assert(a@[i as int] == out@[k]);
                                }
                            }
                        }
                    } else {
                        proof {
                            lemma_subrange_extend_to_set(a@, i as int);
                            assert(!b@.to_set().contains(c));
                            assert(out@.to_set() =~= a@.subrange(0, i as int + 1).to_set().intersect(
                                b@.to_set(),
                            ));
                        }
                    }
                    i = i + 1;
                }
                proof {
                    lemma_subrange_full(a@);
                    assert(out@.to_set() == a@.to_set().intersect(b@.to_set()));
                }
                CharacterSet::Value(out)
            },
            _ => unreached(),
        }
    }

    /// Takes the union of two character sets.  If either of them is
    /// *Top*, the union is *Top*; otherwise it is the set union.
    pub fn union(&self, other: Self) -> (r: Self)
        requires
            self.inv(),
            other.inv(),
        ensures
            r.inv(),
            r@ == self@.union_with(other@),
    {
        match (self, &other) {
            (CharacterSet::Value(a), CharacterSet::Value(b)) => {
                let mut out = clone_chars(a);
                let mut i: usize = 0;
                proof {
                    assert(b@.subrange(0, 0) =~= Seq::<char>::empty());
                    assert(out@.to_set() =~= a@.to_set().union(b@.subrange(0, 0).to_set()));
                }
                while i < b.len()
                    invariant
                        i <= b@.len(),
                        strictly_sorted(out@),
                        out@.to_set() == a@.to_set().union(b@.subrange(0, i as int).to_set()),
                    decreases b@.len() - i,
                {
                    insert_char(&mut out, b[i]);
                    proof {
                        lemma_subrange_extend_to_set(b@, i as int);
                        assert(out@.to_set() =~= a@.to_set().union(
                            b@.subrange(0, i as int + 1).to_set(),
                        ));
                    }
                    i = i + 1;
                }
                proof {
                    lemma_subrange_full(b@);
                }
                CharacterSet::Value(out)
            },
            _ => CharacterSet::Top,
        }
    }

    /// Whether the set is *Top*.
    pub fn is_top(&self) -> (r: bool)
        ensures
            r == (self@ is Top),
    {
        matches!(self, CharacterSet::Top)
    }

    /// Returns a *Top* value.
    pub fn top(&self) -> (r: Self)
        ensures
            r@ is Top,
            r.inv(),
    {
        CharacterSet::Top
    }
}

/// Copies a character set; the copy has the same view and the same
/// stored sequence.
fn dup_char_set(s: &CharacterSet) -> (r: CharacterSet)
    ensures
        r@ == s@,
        r.spec_chars() == s.spec_chars(),
        (r is Value) == (s is Value),
        r.inv() == s.inv(),
{
    match s {
        CharacterSet::Top => CharacterSet::Top,
        CharacterSet::Value(v) => CharacterSet::Value(clone_chars(v)),
    }
}

/// Mathematical content of a `CharacterInclusionDomain` value: *Top*,
/// or the pair of the certain and the possible character-set views.
pub enum CharacterInclusionView {
    /// No character is guaranteed; any character may appear.
    Top,
    /// The certain and the possible character sets.
    Value(CharacterSetView, CharacterSetView),
}

impl CharacterInclusionView {
    /// The characters certainly contained in every represented string.
    pub open spec fn certain(self) -> CharacterSetView
        recommends
            self is Value,
    {
        match self {
            CharacterInclusionView::Top => CharacterSetView::Top,
            CharacterInclusionView::Value(c, _) => c,
        }
    }

    /// The characters possibly contained in some represented string.
    pub open spec fn possible(self) -> CharacterSetView
        recommends
            self is Value,
    {
        match self {
            CharacterInclusionView::Top => CharacterSetView::Top,
            CharacterInclusionView::Value(_, p) => p,
        }
    }
}

/// The abstract domain describing the characters a string certainly
/// has and the characters it may have.
///
/// A concrete value pairs the set of certainly contained characters
/// with the set of possibly contained characters; the *Top* value
/// carries no data and stands for "no character certain, every
/// character possible".
#[derive(Debug, PartialEq, Eq)]
pub enum CharacterInclusionDomain {
    /// No character is guaranteed; any character may appear.
    Top,
    /// The set of certainly contained characters and the set of
    /// possibly contained characters.
    Value((CharacterSet, CharacterSet)),
}

impl View for CharacterInclusionDomain {
    type V = CharacterInclusionView;

    open spec fn view(&self) -> CharacterInclusionView {
        match self {
            CharacterInclusionDomain::Top => CharacterInclusionView::Top,
            CharacterInclusionDomain::Value(cp) => CharacterInclusionView::Value(cp.0@, cp.1@),
        }
    }
}

impl CharacterInclusionDomain {
    /// Unwraps the certain and possible sets of a concrete value.
    /// Calling this on a *Top* value is a precondition violation.
    pub fn unwrap_value(&self) -> (r: (CharacterSet, CharacterSet))
        requires
            self is Value,
        ensures
            r.0@ == self@.certain(),
            r.1@ == self@.possible(),
            self.inv() ==> r.0.inv() && r.1.inv(),
    {
        match self {
            CharacterInclusionDomain::Value(cp) => (dup_char_set(&cp.0), dup_char_set(&cp.1)),
            CharacterInclusionDomain::Top => unreached(),
        }
    }
}

impl AbstractDomain for CharacterInclusionDomain {
    /// A concrete value stores sorted sets, its certain set is concrete,
    /// and every certain character is possible.
    open spec fn inv(&self) -> bool {
        match self {
            CharacterInclusionDomain::Top => true,
            CharacterInclusionDomain::Value(cp) => {
                &&& cp.0.inv()
                &&& cp.1.inv()
                &&& Self::view_inv(self@)
            },
        }
    }

    open spec fn view_inv(m: CharacterInclusionView) -> bool {
        match m {
            CharacterInclusionView::Top => true,
            CharacterInclusionView::Value(c, p) => {
                &&& c is Chars
                &&& (p is Chars ==> c.chars().subset_of(p.chars()))
            },
        }
    }

    open spec fn top_view() -> CharacterInclusionView {
        CharacterInclusionView::Top
    }

    /// The join: certain characters survive only when certain on both
    /// sides, possible characters survive when possible on either.
    open spec fn merge_view(m1: CharacterInclusionView, m2: CharacterInclusionView)
        -> CharacterInclusionView {
        match (m1, m2) {
            (
                CharacterInclusionView::Value(c1, p1),
                CharacterInclusionView::Value(c2, p2),
            ) => CharacterInclusionView::Value(c1.intersect_with(c2), p1.union_with(p2)),
            _ => CharacterInclusionView::Top,
        }
    }

    /// Merges two values: the intersection of the certain sets and the
    /// union of the possible sets, or *Top* if either value is *Top*.
    fn merge(&self, other: &Self) -> (r: Self) {
        if self.is_top() || other.is_top() {
            Self::Top
        } else {
            let (self_certain, self_possible) = self.unwrap_value();
            let (other_certain, other_possible) = other.unwrap_value();
            let certain = self_certain.intersection(other_certain);
            let possible = self_possible.union(other_possible);
            proof {
                assert(certain@.chars().subset_of(possible@.chars()) || !(possible@
                    is Chars)) by {
                    if possible@ is Chars {
                        assert(certain@.chars() =~= self@.certain().chars().intersect(
                            other@.certain().chars(),
                        ));
                        assert(possible@.chars() =~= self@.possible().chars().union(
                            other@.possible().chars(),
                        ));
                    }
                }
            }
            CharacterInclusionDomain::Value((certain, possible))
        }
    }

    /// Whether the value is *Top*.
    fn is_top(&self) -> (r: bool) {
        matches!(self, CharacterInclusionDomain::Top)
    }

    proof fn lemma_inv_implies_view_inv(&self) {
    }

    proof fn lemma_merge_commutative(m1: CharacterInclusionView, m2: CharacterInclusionView) {
        match (m1, m2) {
            (
                CharacterInclusionView::Value(c1, p1),
                CharacterInclusionView::Value(c2, p2),
            ) => {
                assert(c1.intersect_with(c2) == c2.intersect_with(c1)) by {
                    if c1 is Chars && c2 is Chars {
                        assert(c1.chars().intersect(c2.chars()) =~= c2.chars().intersect(
                            c1.chars(),
                        ));
                    }
                }
                assert(p1.union_with(p2) == p2.union_with(p1)) by {
                    if p1 is Chars && p2 is Chars {
                        assert(p1.chars().union(p2.chars()) =~= p2.chars().union(p1.chars()));
                    }
                }
            },
            _ => {},
        }
    }

    proof fn lemma_merge_idempotent(m: CharacterInclusionView) {
        match m {
            CharacterInclusionView::Value(c, p) => {
                assert(c.intersect_with(c) == c) by {
                    assert(c.chars().intersect(c.chars()) =~= c.chars());
                }
                assert(p.union_with(p) == p) by {
                    if p is Chars {
                        assert(p.chars().union(p.chars()) =~= p.chars());
                    }
                }
            },
            CharacterInclusionView::Top => {},
        }
    }

    proof fn lemma_merge_top(m: CharacterInclusionView) {
    }
}

impl HasTop for CharacterInclusionDomain {
    /// Returns a *Top* value.
    fn top(&self) -> (r: Self) {
        CharacterInclusionDomain::Top
    }
}

impl DomainInsertion for CharacterInclusionDomain {
    /// Concatenation: both strings certainly occur, so certainty and
    /// possibility accumulate by union on both components.  Appending
    /// fully unknown content keeps the certain characters but makes
    /// every character possible.
    open spec fn insert_view(m1: CharacterInclusionView, m2: CharacterInclusionView)
        -> CharacterInclusionView {
        match (m1, m2) {
            (CharacterInclusionView::Top, _) => CharacterInclusionView::Top,
            (
                CharacterInclusionView::Value(c1, p1),
                CharacterInclusionView::Top,
            ) => CharacterInclusionView::Value(c1, CharacterSetView::Top),
            (
                CharacterInclusionView::Value(c1, p1),
                CharacterInclusionView::Value(c2, p2),
            ) => CharacterInclusionView::Value(c1.union_with(c2), p1.union_with(p2)),
        }
    }

    /// A single literal starts with no uncertainty: its distinct
    /// characters are both certain and possible.
    open spec fn literal_view(s: Seq<char>) -> CharacterInclusionView {
        CharacterInclusionView::Value(
            CharacterSetView::Chars(s.to_set()),
            CharacterSetView::Chars(s.to_set()),
        )
    }

    /// Models concatenation: unites both components with those of the
    /// appended value.
    fn insert_string_domain(&self, string_domain: &Self) -> (r: Self) {
        match self {
            CharacterInclusionDomain::Value(cp) => match string_domain {
                CharacterInclusionDomain::Value(op) => {
                    let certain = cp.0.union(dup_char_set(&op.0));
                    let possible = cp.1.union(dup_char_set(&op.1));
                    proof {
                        assert(Self::view_inv(
                            CharacterInclusionView::Value(certain@, possible@),
                        )) by {
                            if certain@ is Chars && possible@ is Chars {
                                assert(certain@.chars() =~= cp.0@.chars().union(op.0@.chars()));
                                assert(possible@.chars() =~= cp.1@.chars().union(op.1@.chars()));
                            }
                        }
                    }
                    CharacterInclusionDomain::Value((certain, possible))
                },
                CharacterInclusionDomain::Top => CharacterInclusionDomain::Value(
                    (dup_char_set(&cp.0), CharacterSet::Top),
                ),
            },
            CharacterInclusionDomain::Top => CharacterInclusionDomain::Top,
        }
    }

    /// Abstracts one literal string: both sets hold exactly its
    /// distinct characters.
    fn from_string(s: &str) -> (r: Self) {
        let chars = chars_of_str(s);
        let copy = clone_chars(&chars);
        CharacterInclusionDomain::Value(
            (CharacterSet::Value(copy), CharacterSet::Value(chars)),
        )
    }
}

/// The representation is canonical: two well-formed character sets with
/// the same view store the same character sequence, so set equality of
/// the mathematical content coincides with equality of the stored data
/// — which keeps a fixpoint solver's "did anything change" comparison
/// well-defined.
pub proof fn lemma_canonical_representation(a: CharacterSet, b: CharacterSet)
    requires
        a.inv(),
        b.inv(),
        a@ == b@,
    ensures
        a.spec_chars() == b.spec_chars(),
{
    match (a, b) {
        (CharacterSet::Value(v1), CharacterSet::Value(v2)) => {
            assert(v1@.to_set() == v2@.to_set());
            crate::sorted_chars::lemma_strictly_sorted_unique(v1@, v2@);
        },
        _ => {},
    }
}

/// Canonicity lifted to the domain: two well-formed domain values with
/// the same view agree on their variants and store the same character
/// sequences in both components.  In particular the results of merging
/// in either order, whose views coincide, are indistinguishable.
pub proof fn lemma_canonical_representation_domain(
    a: CharacterInclusionDomain,
    b: CharacterInclusionDomain,
)
    requires
        a.inv(),
        b.inv(),
        a@ == b@,
    ensures
        (a is Value) == (b is Value),
        a matches CharacterInclusionDomain::Value(cp1)
            ==> b matches CharacterInclusionDomain::Value(cp2)
            ==> cp1.0.spec_chars() == cp2.0.spec_chars() && cp1.1.spec_chars()
            == cp2.1.spec_chars() && (cp1.0 is Value) == (cp2.0 is Value) && (cp1.1 is Value) == (
        cp2.1 is Value),
{
    match (a, b) {
        (CharacterInclusionDomain::Value(cp1), CharacterInclusionDomain::Value(cp2)) => {
            assert(cp1.0@ == cp2.0@ && cp1.1@ == cp2.1@);
            lemma_canonical_representation(cp1.0, cp2.0);
            lemma_canonical_representation(cp1.1, cp2.1);
        },
        _ => {},
    }
}

/// Merge is a valid join: the result is *Top* exactly when either side
/// is *Top*; otherwise its certain set is the intersection of the
/// certain sets and its possible set the union of the possible sets.
pub proof fn lemma_merge_is_valid_join(m1: CharacterInclusionView, m2: CharacterInclusionView)
    requires
        CharacterInclusionDomain::view_inv(m1),
        CharacterInclusionDomain::view_inv(m2),
    ensures
        (CharacterInclusionDomain::merge_view(m1, m2) is Top) <==> (m1 is Top || m2 is Top),
        !(m1 is Top) && !(m2 is Top) ==> CharacterInclusionDomain::merge_view(m1, m2).certain()
            == CharacterSetView::Chars(m1.certain().chars().intersect(m2.certain().chars())),
        !(m1 is Top) && !(m2 is Top) ==> CharacterInclusionDomain::merge_view(m1, m2).possible()
            == m1.possible().union_with(m2.possible()),
{
}

/// Concatenation never loses existing certainty or possibility: every
/// character certain (or possible) before an insertion is still so
/// afterwards.
pub proof fn lemma_insert_monotone(m1: CharacterInclusionView, m2: CharacterInclusionView)
    requires
        CharacterInclusionDomain::view_inv(m1),
        CharacterInclusionDomain::view_inv(m2),
    ensures
        (CharacterInclusionDomain::insert_view(m1, m2) is Top) <==> m1 is Top,
        !(m1 is Top) ==> CharacterInclusionDomain::insert_view(m1, m2).certain().includes(
            m1.certain(),
        ),
        !(m1 is Top) ==> CharacterInclusionDomain::insert_view(m1, m2).possible().includes(
            m1.possible(),
        ),
{
    if !(m1 is Top) {
        let r = CharacterInclusionDomain::insert_view(m1, m2);
        match (m1, m2) {
            (
                CharacterInclusionView::Value(c1, p1),
                CharacterInclusionView::Value(c2, p2),
            ) => {
                assert(r.certain().includes(c1)) by {
                    if c1 is Chars && c2 is Chars {
                        assert(c1.chars().subset_of(c1.chars().union(c2.chars())));
                    }
                }
                assert(r.possible().includes(p1)) by {
                    if p1 is Chars && p2 is Chars {
                        assert(p1.chars().subset_of(p1.chars().union(p2.chars())));
                    }
                }
            },
            _ => {},
        }
    }
}

/// Top absorption for concatenation: inserting into *Top* stays *Top*,
/// and inserting *Top* keeps the certain characters while making every
/// character possible.
pub proof fn lemma_insert_top_absorption(m: CharacterInclusionView)
    ensures
        CharacterInclusionDomain::insert_view(CharacterInclusionView::Top, m)
            == CharacterInclusionView::Top,
        m matches CharacterInclusionView::Value(c, p)
            ==> CharacterInclusionDomain::insert_view(m, CharacterInclusionView::Top)
            == CharacterInclusionView::Value(c, CharacterSetView::Top),
{
}

} // verus!
