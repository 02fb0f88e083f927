//! The lattice abstraction that every abstract domain satisfies.
//!
//! An abstract domain approximates sets of concrete values.  Its
//! mathematical content is the view (`@`) of a domain value; the traits
//! below demand a join (`merge`), a maximal element (the top model) and
//! the lattice laws — commutativity, idempotence and absorption by top —
//! stated over views, together with an executable `merge` and `is_top`
//! that are faithful to those views.

use vstd::prelude::*;

verus! {

/// Opaque token naming one tracked storage location (a register, stack
/// slot or memory cell) at a specific definition site.  The collaborator
/// that lifts the binary supplies these; here a location is identified by
/// a number.
pub type AbstractIdentifier = u64;

/// Contract for any abstract domain: a commutative, idempotent join with
/// a maximal element.  `Self::V`, the view of a domain value, is the
/// mathematical object the laws speak about.
pub trait AbstractDomain: View + Sized {
    /// Representation invariant of a well-formed domain value.
    spec fn inv(&self) -> bool;

    /// What the invariant guarantees about the view alone.
    spec fn view_inv(m: Self::V) -> bool;

    /// The view of the maximal (fully unconstrained) element.
    spec fn top_view() -> Self::V;

    /// The join of two views: the least view that over-approximates both.
    spec fn merge_view(m1: Self::V, m2: Self::V) -> Self::V;

    /// Joins two domain values at a control-flow confluence.  The result
    /// never loses information either input had as possible, and keeps as
    /// certain only what both inputs had as certain.
    fn merge(&self, other: &Self) -> (r: Self)
        requires
            self.inv(),
            other.inv(),
        ensures
            r.inv(),
            r@ == Self::merge_view(self@, other@);

    /// Whether the value is the maximal element.
    fn is_top(&self) -> (r: bool)
        requires
            self.inv(),
        ensures
            r == (self@ == Self::top_view()),
    ;

    /// A well-formed value has a well-formed view.
    proof fn lemma_inv_implies_view_inv(&self)
        requires
            self.inv(),
        ensures
            Self::view_inv(self@),
    ;

    /// The join does not depend on the order of its arguments.
    proof fn lemma_merge_commutative(m1: Self::V, m2: Self::V)
        ensures
            Self::merge_view(m1, m2) == Self::merge_view(m2, m1),
    ;

    /// Joining a well-formed value with itself changes nothing.
    proof fn lemma_merge_idempotent(m: Self::V)
        requires
            Self::view_inv(m),
        ensures
            Self::merge_view(m, m) == m,
    ;

    /// The maximal element absorbs every join.
    proof fn lemma_merge_top(m: Self::V)
        ensures
            Self::merge_view(m, Self::top_view()) == Self::top_view(),
            Self::merge_view(Self::top_view(), m) == Self::top_view(),
    ;
}

/// An abstract domain that can produce its maximal element.
pub trait HasTop: AbstractDomain {
    /// Returns the maximal element.
    fn top(&self) -> (r: Self)
        ensures
            r.inv(),
            r@ == Self::top_view(),
    ;
}

/// An abstract domain for string contents that models concatenation: the
/// appended value is known to follow the existing one, rather than being
/// an alternative to it.
pub trait DomainInsertion: AbstractDomain {
    /// The view of the value after appending a value with view `m2` to a
    /// value with view `m1`.  Concatenation is directional; no
    /// commutativity is promised.
    spec fn insert_view(m1: Self::V, m2: Self::V) -> Self::V;

    /// The view of the abstraction of the literal string `s`.
    spec fn literal_view(s: Seq<char>) -> Self::V;

    /// Appends the abstraction of a second string to this one.
    fn insert_string_domain(&self, string_domain: &Self) -> (r: Self)
        requires
            self.inv(),
            string_domain.inv(),
        ensures
            r.inv(),
            r@ == Self::insert_view(self@, string_domain@);

    /// Abstracts one literal string.
    fn from_string(s: &str) -> (r: Self)
        ensures
            r.inv(),
            r@ == Self::literal_view(s@),
    ;
}

/// Copies a well-formed domain value: joining a value with itself is the
/// value again, so an idempotent `merge` serves as a duplicator.
pub fn duplicate<T: AbstractDomain>(v: &T) -> (r: T)
    requires
        v.inv(),
    ensures
        r.inv(),
        r@ == v@,
{
    let r = v.merge(v);
    proof {
        v.lemma_inv_implies_view_inv();
        T::lemma_merge_idempotent(v@);
    }
    r
}

} // verus!
