//! Per-program-point analysis state.
//!
//! A `State` maps abstract identifiers of tracked storage locations to
//! domain values.  The map is sparse: a key that is absent is
//! implicitly *Top* (maximally unconstrained), so only locations with
//! refined knowledge are stored.  Entries are kept strictly ascending
//! by key.

use crate::abstract_domain::{duplicate, AbstractDomain, AbstractIdentifier, HasTop};
use vstd::prelude::*;

verus! {

/// The entry keys strictly ascend, so each key occurs at most once.
pub open spec fn keys_sorted<T>(es: Seq<(AbstractIdentifier, T)>) -> bool {
    forall|i: int, j: int| 0 <= i < j < es.len() ==> (#[trigger] es[i]).0 < (#[trigger] es[j]).0
}

/// Whether some entry carries the key `k`.
pub open spec fn entries_contain<T>(es: Seq<(AbstractIdentifier, T)>, k: AbstractIdentifier) -> bool {
    exists|i: int| 0 <= i < es.len() && (#[trigger] es[i]).0 == k
}

/// The position of the entry carrying key `k`.
pub open spec fn entry_index<T>(es: Seq<(AbstractIdentifier, T)>, k: AbstractIdentifier) -> int {
    choose|i: int| 0 <= i < es.len() && (#[trigger] es[i]).0 == k
}

/// The map an entry sequence denotes: each stored key, sent to the view
/// of its value.
pub open spec fn entries_map<T: AbstractDomain>(es: Seq<(AbstractIdentifier, T)>) -> Map<
    AbstractIdentifier,
    T::V,
> {
    Map::new(
        |k: AbstractIdentifier| entries_contain(es, k),
        |k: AbstractIdentifier| es[entry_index(es, k)].1@,
    )
}

/// With sorted keys, position `i` is the one position carrying its key,
/// and the denoted map sends that key to the view of the value at `i`.
pub proof fn lemma_entry_at<T: AbstractDomain>(es: Seq<(AbstractIdentifier, T)>, i: int)
    requires
        keys_sorted(es),
        0 <= i < es.len(),
    ensures
        entries_contain(es, es[i].0),
        entry_index(es, es[i].0) == i,
        entries_map(es).dom().contains(es[i].0),
        entries_map(es)[es[i].0] == es[i].1@,
{
    assert(entries_contain(es, es[i].0));
    let j = entry_index(es, es[i].0);
    if j < i {
        assert(es[j].0 < es[i].0);
    } else if j > i {
        assert(es[i].0 < es[j].0);
    }
}

/// Joining a state that constrains a key with one that does not drops
/// the key: the missing side stands for the implicit *Top*, and a join
/// with *Top* is *Top*, which is never stored.
pub proof fn lemma_merge_drops_absent_key<T: AbstractDomain + HasTop>(
    m1: Map<AbstractIdentifier, T::V>,
    m2: Map<AbstractIdentifier, T::V>,
    k: AbstractIdentifier,
)
    requires
        !m2.dom().contains(k),
    ensures
        !<State<T> as AbstractDomain>::merge_view(m1, m2).dom().contains(k),
        !<State<T> as AbstractDomain>::merge_view(m2, m1).dom().contains(k),
{
}

/// Contains all information known about the state of a program at a
/// specific point of time.
#[derive(Debug, PartialEq, Eq)]
pub struct State<T: AbstractDomain + HasTop> {
    strings_tracked: Vec<(AbstractIdentifier, T)>,
}

impl<T: AbstractDomain + HasTop> View for State<T> {
    type V = Map<AbstractIdentifier, T::V>;

    closed spec fn view(&self) -> Map<AbstractIdentifier, T::V> {
        entries_map(self.strings_tracked@)
    }
}

impl<T: AbstractDomain + HasTop> State<T> {
    /// Creates a state with no tracked location: everything is
    /// implicitly *Top*.
    pub fn new() -> (r: State<T>)
        ensures
            r.inv(),
            r@ == Map::<AbstractIdentifier, T::V>::empty(),
    {
        let r = State { strings_tracked: Vec::new() };
        proof {
            assert(r@ =~= Map::<AbstractIdentifier, T::V>::empty());
        }
        r
    }

    /// Looks a tracked location up.  Absence means the location is
    /// unconstrained (*Top*) by convention.
    pub fn get(&self, id: AbstractIdentifier) -> (r: Option<&T>)
        requires
            self.inv(),
        ensures
            match r {
                Some(v) => self@.dom().contains(id) && v@ == self@[id] && v.inv() && v@
                    != T::top_view(),
                None => !self@.dom().contains(id),
            },
    {
        let mut i: usize = 0;
        while i < self.strings_tracked.len()
            invariant
                self.inv(),
                i <= self.strings_tracked@.len(),
                forall|k: int| 0 <= k < i ==> (#[trigger] self.strings_tracked@[k]).0 != id,
            decreases self.strings_tracked@.len() - i,
        {
            if self.strings_tracked[i].0 == id {
                proof {
                    lemma_entry_at(self.strings_tracked@, i as int);
                }
                return Some(&self.strings_tracked[i].1);
            }
            i = i + 1;
        }
        proof {
            if self@.dom().contains(id) {
                let j = choose|j: int|
                    0 <= j < self.strings_tracked@.len() && (#[trigger] self.strings_tracked@[
                    j]).0 == id;
                assert(false);
            }
        }
        None
    }

    /// Produces the state that additionally binds `id` to `value`.
    /// Any earlier knowledge about `id` is replaced.
    pub fn with_value(&self, id: AbstractIdentifier, value: T) -> (r: State<T>)
        requires
            self.inv(),
            value.inv(),
            value@ != T::top_view(),
        ensures
            r.inv(),
            r@ == self@.insert(id, value@),
    {
        let ghost esv = self.strings_tracked@;
        let mut out: Vec<(AbstractIdentifier, T)> = Vec::new();
        let mut i: usize = 0;
        while i < self.strings_tracked.len() && self.strings_tracked[i].0 < id
            invariant
                self.inv(),
                esv == self.strings_tracked@,
                i <= esv.len(),
                out@.len() == i,
                forall|p: int| 0 <= p < i ==> (#[trigger] out@[p]).0 == esv[p].0 && out@[p].1@
                    == esv[p].1@ && out@[p].1.inv() && out@[p].1@ != T::top_view(),
                forall|p: int| 0 <= p < i ==> (#[trigger] esv[p]).0 < id,
            decreases esv.len() - i,
        {
            let v = duplicate(&self.strings_tracked[i].1);
            out.push((self.strings_tracked[i].0, v));
            i = i + 1;
        }
        let ghost split = i as int;
        proof {
            assert(split == esv.len() || !(esv[split].0 < id));
        }
        out.push((id, value));
        let mut j: usize = i;
        if j < self.strings_tracked.len() && self.strings_tracked[j].0 == id {
            j = j + 1;
        }
        let ghost rest_start = j as int;
        proof {
            assert forall|q: int| rest_start <= q < esv.len() implies id < (#[trigger] esv[q]).0 by {
                if rest_start == split {
                    assert(!(esv[split].0 < id) && esv[split].0 != id);
                    if q > split {
                        assert(esv[split].0 < esv[q].0);
                    }
                } else {
                    assert(esv[split].0 == id);
                    assert(esv[split].0 < esv[q].0);
                }
            }
        }
        while j < self.strings_tracked.len()
            invariant
                self.inv(),
                esv == self.strings_tracked@,
                0 <= split <= rest_start <= j as int <= esv.len(),
                rest_start <= split + 1,
                out@.len() == split + 1 + (j as int - rest_start),
                forall|p: int| 0 <= p < split ==> (#[trigger] out@[p]).0 == esv[p].0 && out@[p].1@
                    == esv[p].1@ && out@[p].1.inv() && out@[p].1@ != T::top_view(),
                out@[split].0 == id && out@[split].1 == value,
                forall|p: int|
                    split < p < out@.len() ==> (#[trigger] out@[p]).0 == esv[rest_start + (p - split
                        - 1)].0 && out@[p].1@ == esv[rest_start + (p - split - 1)].1@
                        && out@[p].1.inv() && out@[p].1@ != T::top_view(),
                forall|p: int| 0 <= p < split ==> (#[trigger] esv[p]).0 < id,
                forall|q: int| rest_start <= q < esv.len() ==> id < (#[trigger] esv[q]).0,
            decreases esv.len() - j,
        {
            let v = duplicate(&self.strings_tracked[j].1);
            out.push((self.strings_tracked[j].0, v));
            j = j + 1;
        }
        let r = State { strings_tracked: out };
        proof {
            let ov = r.strings_tracked@;
            assert(keys_sorted(ov)) by {
                assert forall|p: int, q: int| 0 <= p < q < ov.len() implies (#[trigger] ov[p]).0
                    < (#[trigger] ov[q]).0 by {
                    if q < split {
                        assert(ov[p].0 == esv[p].0 && ov[q].0 == esv[q].0);
                    } else if q == split {
                        assert(ov[p].0 == esv[p].0 && esv[p].0 < id);
                    } else {
                        assert(ov[q].0 == esv[rest_start + (q - split - 1)].0);
                        assert(id < ov[q].0);
                        if p < split {
                            assert(ov[p].0 == esv[p].0 && esv[p].0 < id);
                        } else if p == split {
                            assert(ov[p].0 == id);
                        } else {
                            assert(ov[p].0 == esv[rest_start + (p - split - 1)].0);
                            assert(esv[rest_start + (p - split - 1)].0 < esv[rest_start + (q - split
                                - 1)].0);
                        }
                    }
                }
            }
            assert forall|k: AbstractIdentifier| #[trigger] r@.dom().contains(k) implies self@.insert(
                id,
                value@,
            ).dom().contains(k) && r@[k] == self@.insert(id, value@)[k] by {
                let p = entry_index(ov, k);
                assert(0 <= p < ov.len() && ov[p].0 == k);
                lemma_entry_at(ov, p);
                if p < split {
                    assert(ov[p].1@ == esv[p].1@);
                    lemma_entry_at(esv, p);
                    assert(k != id);
                } else if p > split {
                    let q = rest_start + (p - split - 1);
                    assert(ov[p].1@ == esv[q].1@);
                    lemma_entry_at(esv, q);
                    assert(k != id);
                }
            }
            assert forall|k: AbstractIdentifier| #[trigger] self@.insert(id, value@).dom().contains(
                k,
            ) implies r@.dom().contains(k) by {
                if k == id {
                    assert(ov[split].0 == id);
                    assert(entries_contain(ov, k));
                } else {
                    let q = entry_index(esv, k);
                    assert(0 <= q < esv.len() && esv[q].0 == k);
                    if q < split {
                        assert(ov[q].0 == k);
                        assert(entries_contain(ov, k));
                    } else if q >= rest_start {
                        let p = split + 1 + (q - rest_start);
                        assert(ov[p].0 == esv[q].0);
                        assert(entries_contain(ov, k));
                    } else {
                        assert(q == split && rest_start == split + 1);
                        assert(esv[split].0 == id);
                        assert(false);
                    }
                }
            }
            assert(r@ =~= self@.insert(id, value@));
        }
        r
    }

    /// Produces the state that no longer tracks `id`, returning the
    /// location to the implicit *Top*.
    pub fn without(&self, id: AbstractIdentifier) -> (r: State<T>)
        requires
            self.inv(),
        ensures
            r.inv(),
            r@ == self@.remove(id),
    {
        let ghost esv = self.strings_tracked@;
        let mut out: Vec<(AbstractIdentifier, T)> = Vec::new();
        let mut i: usize = 0;
        while i < self.strings_tracked.len()
            invariant
                self.inv(),
                esv == self.strings_tracked@,
                i <= esv.len(),
                keys_sorted(out@),
                forall|p: int| 0 <= p < out@.len() ==> (#[trigger] out@[p]).1.inv() && out@[p].1@
                    != T::top_view(),
                forall|p: int| 0 <= p < out@.len() ==> exists|q: int|
                    0 <= q < i && (#[trigger] out@[p]).0 == esv[q].0 && out@[p].1@ == esv[q].1@,
                forall|k: AbstractIdentifier| entries_contain(out@, k) <==> (k != id && exists|q: int|
                    0 <= q < i && (#[trigger] esv[q]).0 == k),
            decreases esv.len() - i,
        {
            if self.strings_tracked[i].0 != id {
                let v = duplicate(&self.strings_tracked[i].1);
                let ghost out_old = out@;
                out.push((self.strings_tracked[i].0, v));
                proof {
                    assert forall|p: int, q: int| 0 <= p < q < out@.len() implies (
                    #[trigger] out@[p]).0 < (#[trigger] out@[q]).0 by {
                        if q < out@.len() - 1 {
                            assert(out_old[p].0 < out_old[q].0);
                        } else {
                            let qq = choose|qq: int|
                                0 <= qq < i && (#[trigger] out_old[p]).0 == esv[qq].0
                                    && out_old[p].1@ == esv[qq].1@;
                            assert(esv[qq].0 < esv[i as int].0);
                        }
                    }
                    assert forall|p: int| 0 <= p < out@.len() implies exists|q: int|
                        0 <= q < i + 1 && (#[trigger] out@[p]).0 == esv[q].0 && out@[p].1@ == esv[
                        q].1@ by {
                        if p < out@.len() - 1 {
                            let qq = choose|qq: int|
                                0 <= qq < i && (#[trigger] out_old[p]).0 == esv[qq].0
                                    && out_old[p].1@ == esv[qq].1@;
                            assert(0 <= qq < i + 1 && out@[p].0 == esv[qq].0 && out@[p].1@ == esv[
                                qq].1@);
                        } else {
                            assert(out@[p].0 == esv[i as int].0 && out@[p].1@ == esv[i as int].1@);
                        }
                    }
                    assert forall|k: AbstractIdentifier| entries_contain(out@, k) implies (k != id
                        && exists|q: int| 0 <= q < i + 1 && (#[trigger] esv[q]).0 == k) by {
                        let p = choose|p: int| 0 <= p < out@.len() && (#[trigger] out@[p]).0 == k;
                        if p < out@.len() - 1 {
                            assert(entries_contain(out_old, k));
                        } else {
                            assert(esv[i as int].0 == k);
                        }
                    }
                    assert forall|k: AbstractIdentifier| (k != id && exists|q: int|
                        0 <= q < i + 1 && (#[trigger] esv[q]).0 == k) implies entries_contain(
                        out@,
                        k,
                    ) by {
                        let q = choose|q: int| 0 <= q < i + 1 && (#[trigger] esv[q]).0 == k;
                        if q < i {
                            assert(entries_contain(out_old, k));
                            let p = choose|p: int|
                                0 <= p < out_old.len() && (#[trigger] out_old[p]).0 == k;
                            assert(out@[p].0 == k);
                        } else {
                            assert(out@[out@.len() - 1].0 == k);
                        }
                    }
                }
            } else {
                proof {
                    assert forall|k: AbstractIdentifier| (k != id && exists|q: int|
                        0 <= q < i + 1 && (#[trigger] esv[q]).0 == k) implies entries_contain(
                        out@,
                        k,
                    ) by {
                        let q = choose|q: int| 0 <= q < i + 1 && (#[trigger] esv[q]).0 == k;
                        assert(q < i);
                    }
                }
            }
            i = i + 1;
        }
        let r = State { strings_tracked: out };
        proof {
            let ov = r.strings_tracked@;
            assert forall|k: AbstractIdentifier| #[trigger] r@.dom().contains(k) implies self@.remove(
                id,
            ).dom().contains(k) && r@[k] == self@.remove(id)[k] by {
                let p = entry_index(ov, k);
                assert(0 <= p < ov.len() && ov[p].0 == k);
                lemma_entry_at(ov, p);
                let q = choose|q: int|
                    0 <= q < esv.len() && (#[trigger] ov[p]).0 == esv[q].0 && ov[p].1@ == esv[q].1@;
                lemma_entry_at(esv, q);
            }
            assert forall|k: AbstractIdentifier| #[trigger] self@.remove(id).dom().contains(
                k,
            ) implies r@.dom().contains(k) by {
                let q = entry_index(esv, k);
                assert(0 <= q < esv.len() && esv[q].0 == k);
            }
            assert(r@ =~= self@.remove(id));
        }
        r
    }
}

impl<T: AbstractDomain + HasTop> AbstractDomain for State<T> {
    /// Keys strictly ascend and every stored value is well-formed and
    /// strictly below *Top*: the map stores refined knowledge only.
    closed spec fn inv(&self) -> bool {
        &&& keys_sorted(self.strings_tracked@)
        &&& forall|i: int| 0 <= i < self.strings_tracked@.len() ==> (#[trigger] self.strings_tracked@[
            i]).1.inv()
        &&& forall|i: int| 0 <= i < self.strings_tracked@.len() ==> (#[trigger] self.strings_tracked@[
            i]).1@ != T::top_view()
    }

    open spec fn view_inv(m: Map<AbstractIdentifier, T::V>) -> bool {
        forall|k: AbstractIdentifier| #[trigger] m.dom().contains(k) ==> T::view_inv(m[k]) && m[k]
            != T::top_view()
    }

    open spec fn top_view() -> Map<AbstractIdentifier, T::V> {
        Map::empty()
    }

    /// Pointwise join over the keys both sides constrain; a key one
    /// side lacks merges with the implicit *Top*, gives *Top*, and is
    /// dropped.  A key whose pointwise join reaches *Top* is dropped as
    /// well.
    open spec fn merge_view(
        m1: Map<AbstractIdentifier, T::V>,
        m2: Map<AbstractIdentifier, T::V>,
    ) -> Map<AbstractIdentifier, T::V> {
        Map::new(
            |k: AbstractIdentifier|
                m1.dom().contains(k) && m2.dom().contains(k) && T::merge_view(m1[k], m2[k])
                    != T::top_view(),
            |k: AbstractIdentifier| T::merge_view(m1[k], m2[k]),
        )
    }

    /// Merges two states pointwise.
    fn merge(&self, other: &Self) -> (r: Self) {
        let ghost esv = self.strings_tracked@;
        let mut out: Vec<(AbstractIdentifier, T)> = Vec::new();
        let mut i: usize = 0;
        while i < self.strings_tracked.len()
            invariant
                self.inv(),
                other.inv(),
                esv == self.strings_tracked@,
                i <= esv.len(),
                keys_sorted(out@),
                forall|p: int| 0 <= p < out@.len() ==> (#[trigger] out@[p]).1.inv() && out@[p].1@
                    != T::top_view(),
                forall|p: int| 0 <= p < out@.len() ==> exists|q: int|
                    0 <= q < i && (#[trigger] out@[p]).0 == esv[q].0,
                forall|p: int| 0 <= p < out@.len() ==> other@.dom().contains((#[trigger] out@[p]).0)
                    && self@.dom().contains(out@[p].0) && out@[p].1@ == T::merge_view(
                    self@[out@[p].0],
                    other@[out@[p].0],
                ),
                forall|q: int|
                    0 <= q < i && other@.dom().contains((#[trigger] esv[q]).0) && T::merge_view(
                        self@[esv[q].0],
                        other@[esv[q].0],
                    ) != T::top_view() ==> entries_contain(out@, esv[q].0),
            decreases esv.len() - i,
        {
            let k = self.strings_tracked[i].0;
            proof {
                lemma_entry_at(esv, i as int);
            }
            match other.get(k) {
                Some(w) => {
                    let merged = self.strings_tracked[i].1.merge(w);
                    if !merged.is_top() {
                        let ghost out_old = out@;
                        out.push((k, merged));
                        proof {
                            assert forall|p: int, q: int| 0 <= p < q < out@.len() implies (
                            #[trigger] out@[p]).0 < (#[trigger] out@[q]).0 by {
                                if q < out@.len() - 1 {
                                    assert(out_old[p].0 < out_old[q].0);
                                } else {
                                    let qq = choose|qq: int|
                                        0 <= qq < i && (#[trigger] out_old[p]).0 == esv[qq].0;
                                    assert(esv[qq].0 < esv[i as int].0);
                                }
                            }
                            assert forall|p: int| 0 <= p < out@.len() implies exists|q: int|
                                0 <= q < i + 1 && (#[trigger] out@[p]).0 == esv[q].0 by {
                                if p < out@.len() - 1 {
                                    let qq = choose|qq: int|
                                        0 <= qq < i && (#[trigger] out_old[p]).0 == esv[qq].0;
                                    assert(0 <= qq < i + 1 && out@[p].0 == esv[qq].0);
                                } else {
                                    assert(out@[p].0 == esv[i as int].0);
                                }
                            }
                            assert forall|q: int|
                                0 <= q < i + 1 && other@.dom().contains((#[trigger] esv[q]).0)
                                    && T::merge_view(self@[esv[q].0], other@[esv[q].0])
                                    != T::top_view() implies entries_contain(out@, esv[q].0) by {
                                if q < i {
                                    assert(entries_contain(out_old, esv[q].0));
                                    let p = choose|p: int|
                                        0 <= p < out_old.len() && (#[trigger] out_old[p]).0 == esv[
                                        q].0;
                                    assert(out@[p].0 == esv[q].0);
                                } else {
                                    assert(out@[out@.len() - 1].0 == esv[q].0);
                                }
                            }
                        }
                    } else {
                        proof {
                            assert forall|q: int|
                                0 <= q < i + 1 && other@.dom().contains((#[trigger] esv[q]).0)
                                    && T::merge_view(self@[esv[q].0], other@[esv[q].0])
                                    != T::top_view() implies entries_contain(out@, esv[q].0) by {
                                assert(q != i);
                            }
                        }
                    }
                },
                None => {
                    proof {
                        assert forall|q: int|
                            0 <= q < i + 1 && other@.dom().contains((#[trigger] esv[q]).0)
                                && T::merge_view(self@[esv[q].0], other@[esv[q].0])
                                != T::top_view() implies entries_contain(out@, esv[q].0) by {
                            assert(q != i);
                        }
                    }
                },
            }
            i = i + 1;
        }
        let r = State { strings_tracked: out };
        proof {
            let ov = r.strings_tracked@;
            assert forall|k: AbstractIdentifier| #[trigger] r@.dom().contains(k) implies
                Self::merge_view(self@, other@).dom().contains(k) && r@[k] == Self::merge_view(
                self@,
                other@,
            )[k] by {
                let p = entry_index(ov, k);
                assert(0 <= p < ov.len() && ov[p].0 == k);
                lemma_entry_at(ov, p);
            }
            assert forall|k: AbstractIdentifier| #[trigger] Self::merge_view(
                self@,
                other@,
            ).dom().contains(k) implies r@.dom().contains(k) by {
                let q = entry_index(esv, k);
                assert(0 <= q < esv.len() && esv[q].0 == k);
            }
            assert(r@ =~= Self::merge_view(self@, other@));
        }
        r
    }

    /// A state is *Top* exactly when it constrains no location at all.
    fn is_top(&self) -> (r: bool) {
        let r = self.strings_tracked.len() == 0;
        proof {
            if r {
                assert(self@ =~= Map::<AbstractIdentifier, T::V>::empty());
            } else {
                lemma_entry_at(self.strings_tracked@, 0);
                assert(self@.dom().contains(self.strings_tracked@[0].0));
            }
        }
        r
    }

    proof fn lemma_inv_implies_view_inv(&self) {
        assert forall|k: AbstractIdentifier| #[trigger] self@.dom().contains(k) implies T::view_inv(
            self@[k],
        ) && self@[k] != T::top_view() by {
            let i = entry_index(self.strings_tracked@, k);
            assert(0 <= i < self.strings_tracked@.len() && self.strings_tracked@[i].0 == k);
            lemma_entry_at(self.strings_tracked@, i);
            self.strings_tracked@[i].1.lemma_inv_implies_view_inv();
        }
    }

    proof fn lemma_merge_commutative(
        m1: Map<AbstractIdentifier, T::V>,
        m2: Map<AbstractIdentifier, T::V>,
    ) {
        let a = Self::merge_view(m1, m2);
        let b = Self::merge_view(m2, m1);
        assert forall|k: AbstractIdentifier| #[trigger] a.dom().contains(k) implies b.dom().contains(
            k,
        ) && a[k] == b[k] by {
            T::lemma_merge_commutative(m1[k], m2[k]);
        }
        assert forall|k: AbstractIdentifier| #[trigger] b.dom().contains(k) implies a.dom().contains(
            k,
        ) by {
            T::lemma_merge_commutative(m1[k], m2[k]);
        }
        assert(a =~= b);
    }

    proof fn lemma_merge_idempotent(m: Map<AbstractIdentifier, T::V>) {
        let a = Self::merge_view(m, m);
        assert forall|k: AbstractIdentifier| #[trigger] m.dom().contains(k) implies a.dom().contains(
            k,
        ) && a[k] == m[k] by {
            T::lemma_merge_idempotent(m[k]);
        }
        assert forall|k: AbstractIdentifier| #[trigger] a.dom().contains(k) implies m.dom().contains(
            k,
        ) by {}
        assert(a =~= m);
    }

    proof fn lemma_merge_top(m: Map<AbstractIdentifier, T::V>) {
        assert(Self::merge_view(m, Self::top_view()) =~= Self::top_view());
        assert(Self::merge_view(Self::top_view(), m) =~= Self::top_view());
    }
}

} // verus!
