//! Finite character sets represented as strictly ascending vectors.
//!
//! The character-inclusion lattice stores its sets of characters in
//! vectors whose entries strictly ascend by code point.  Such a vector
//! holds each character at most once, so its sequence of entries is a
//! faithful, canonical picture of the finite set it denotes.

use vstd::prelude::*;
use vstd::string::StrSliceExecFns;

verus! {

/// The characters of `s` strictly ascend by code point; each character
/// therefore occurs at most once.
pub open spec fn strictly_sorted(s: Seq<char>) -> bool {
    forall|i: int, j: int|
        #![trigger s[i], s[j]]
        0 <= i < j < s.len() ==> (s[i] as int) < (s[j] as int)
}

/// Two strictly ascending sequences over the same set of characters are
/// the same sequence: the representation is canonical.
pub proof fn lemma_strictly_sorted_unique(s1: Seq<char>, s2: Seq<char>)
    requires
        strictly_sorted(s1),
        strictly_sorted(s2),
        s1.to_set() == s2.to_set(),
    ensures
        s1 == s2,
    decreases s1.len(),
{
    if s1.len() == 0 {
        if s2.len() > 0 {
            assert(s2.contains(s2[0]));
            assert(s2.to_set().contains(s2[0]));
            assert(s1.contains(s2[0]));
        }
        assert(s1 =~= s2);
    } else if s2.len() == 0 {
        assert(s1.contains(s1[0]));
        assert(s1.to_set().contains(s1[0]));
        assert(s2.contains(s1[0]));
    } else {
        // Both heads are the minimum of the common set, so they agree.
        assert(s1.contains(s1[0]));
        assert(s2.to_set().contains(s1[0]));
        let j1 = choose|j: int| 0 <= j < s2.len() && s2[j] == s1[0];
        assert((s2[0] as int) <= (s1[0] as int));
        assert(s2.contains(s2[0]));
        assert(s1.to_set().contains(s2[0]));
        let j2 = choose|j: int| 0 <= j < s1.len() && s1[j] == s2[0];
        assert((s1[0] as int) <= (s2[0] as int));
        assert(s1[0] == s2[0]);
        let t1 = s1.subrange(1, s1.len() as int);
        let t2 = s2.subrange(1, s2.len() as int);
        assert(strictly_sorted(t1));
        assert(strictly_sorted(t2));
        assert forall|c: char| t1.contains(c) implies t2.contains(c) by {
            let k = choose|k: int| 0 <= k < t1.len() && t1[k] == c;
            assert(s1[k + 1] == c);
            assert(s1.contains(c));
            assert(s2.to_set().contains(c));
            let m = choose|m: int| 0 <= m < s2.len() && s2[m] == c;
            assert((s1[0] as int) < (c as int));
            assert(m != 0);
            assert(t2[m - 1] == c);
        }
        assert forall|c: char| t2.contains(c) implies t1.contains(c) by {
            let k = choose|k: int| 0 <= k < t2.len() && t2[k] == c;
            assert(s2[k + 1] == c);
            assert(s2.contains(c));
            assert(s1.to_set().contains(c));
            let m = choose|m: int| 0 <= m < s1.len() && s1[m] == c;
            assert((s2[0] as int) < (c as int));
            assert(m != 0);
            assert(t1[m - 1] == c);
        }
        assert(t1.to_set() =~= t2.to_set());
        lemma_strictly_sorted_unique(t1, t2);
        assert(s1.len() == s2.len());
        assert forall|k: int| 0 <= k < s1.len() implies s1[k] == s2[k] by {
            if k > 0 {
                assert(t1[k - 1] == s1[k]);
                assert(t2[k - 1] == s2[k]);
            }
        }
        assert(s1 =~= s2);
    }
}

/// Finds the first position of `v` whose character is not below `c`.
fn lower_bound(v: &Vec<char>, c: char) -> (i: usize)
    requires
        strictly_sorted(v@),
    ensures
        i <= v@.len(),
        forall|k: int| 0 <= k < i ==> (v@[k] as int) < (c as int),
        i < v@.len() ==> (v@[i as int] as int) >= (c as int),
{
    let mut i: usize = 0;
    while i < v.len()
        invariant
            i <= v@.len(),
            forall|k: int| 0 <= k < i ==> (v@[k] as int) < (c as int),
        decreases v@.len() - i,
    {
        if v[i] >= c {
            return i;
        }
        i = i + 1;
    }
    i
}

/// Whether the vector holds `c`.
pub fn contains_char(v: &Vec<char>, c: char) -> (r: bool)
    ensures
        r == v@.contains(c),
{
    let mut i: usize = 0;
    while i < v.len()
        invariant
            i <= v@.len(),
            forall|k: int| 0 <= k < i ==> v@[k] != c,
        decreases v@.len() - i,
    {
        if v[i] == c {
            assert(v@.contains(c));
            return true;
        }
        i = i + 1;
    }
    assert(!v@.contains(c));
    false
}

/// Adds `c` to the sorted vector, keeping it sorted and duplicate-free.
pub fn insert_char(v: &mut Vec<char>, c: char)
    requires
        strictly_sorted(old(v)@),
    ensures
        strictly_sorted(final(v)@),
        final(v)@.to_set() == old(v)@.to_set().insert(c),
{
    let ghost s0 = v@;
    let i = lower_bound(v, c);
    if i < v.len() && v[i] == c {
        proof {
            assert(s0.contains(c));
            assert(s0.to_set() =~= s0.to_set().insert(c));
        }
    } else {
        proof {
            assert forall|k: int| i <= k < s0.len() implies (s0[k] as int) > (c as int) by {
                assert((s0[i as int] as int) >= (c as int));
                assert(s0[i as int] != c);
                if k > i {
                    assert((s0[i as int] as int) < (s0[k] as int));
                }
            }
        }
        v.insert(i, c);
        proof {
            let t = s0.insert(i as int, c);
            assert(v@ == t);
            assert forall|p: int, q: int|
                #![trigger t[p], t[q]]
                0 <= p < q < t.len() implies (t[p] as int) < (t[q] as int) by {
                assert(t.len() == s0.len() + 1);
                if p < i {
                    assert(t[p] == s0[p]);
                } else if p == i {
                    assert(t[p] == c);
                } else {
                    assert(t[p] == s0[p - 1]);
                }
                if q < i {
                    assert(t[q] == s0[q]);
                } else if q == i {
                    assert(t[q] == c);
                } else {
                    assert(t[q] == s0[q - 1]);
                }
            }
            assert(strictly_sorted(t));
            assert forall|x: char| t.to_set().contains(x) implies s0.to_set().insert(c).contains(
                x,
            ) by {
                let k = choose|k: int| 0 <= k < t.len() && t[k] == x;
                if k < i {
                    assert(s0[k] == x);
                    assert(s0.contains(x));
                } else if k == i {
                    assert(x == c);
                } else {
                    assert(s0[k - 1] == x);
                    assert(s0.contains(x));
                }
            }
            assert forall|x: char| s0.to_set().insert(c).contains(x) implies t.to_set().contains(
                x,
            ) by {
                if x == c {
                    assert(t[i as int] == c);
                    assert(t.contains(c));
                } else {
                    assert(s0.contains(x));
                    let k = choose|k: int| 0 <= k < s0.len() && s0[k] == x;
                    if k < i {
                        assert(t[k] == x);
                    } else {
                        assert(t[k + 1] == x);
                    }
                    assert(t.contains(x));
                }
            }
            assert(t.to_set() =~= s0.to_set().insert(c));
        }
    }
}

/// Appending one character extends the set of a sequence by it.
pub proof fn lemma_push_to_set(s: Seq<char>, c: char)
    ensures
        s.push(c).to_set() == s.to_set().insert(c),
{
    assert forall|x: char| s.push(c).to_set().contains(x) implies s.to_set().insert(c).contains(
        x,
    ) by {
        let k = choose|k: int| 0 <= k < s.push(c).len() && s.push(c)[k] == x;
        if k < s.len() {
            assert(s[k] == x);
            assert(s.contains(x));
        } else {
            assert(x == c);
        }
    }
    assert forall|x: char| s.to_set().insert(c).contains(x) implies s.push(c).to_set().contains(
        x,
    ) by {
        if x == c {
            assert(s.push(c)[s.len() as int] == c);
            assert(s.push(c).contains(x));
        } else {
            let k = choose|k: int| 0 <= k < s.len() && s[k] == x;
            assert(s.push(c)[k] == x);
            assert(s.push(c).contains(x));
        }
    }
    assert(s.push(c).to_set() =~= s.to_set().insert(c));
}

/// Lengthening a prefix by one position adds that position's character
/// to the prefix's set.
pub proof fn lemma_subrange_extend_to_set(s: Seq<char>, i: int)
    requires
        0 <= i < s.len(),
    ensures
        s.subrange(0, i + 1).to_set() == s.subrange(0, i).to_set().insert(s[i]),
{
    assert(s.subrange(0, i + 1) =~= s.subrange(0, i).push(s[i]));
    lemma_push_to_set(s.subrange(0, i), s[i]);
}

/// The full prefix of a sequence is the sequence itself.
pub proof fn lemma_subrange_full(s: Seq<char>)
    ensures
        s.subrange(0, s.len() as int) == s,
{
    assert(s.subrange(0, s.len() as int) =~= s);
}

/// Collects the distinct characters of a string into a sorted vector.
pub fn chars_of_str(s: &str) -> (r: Vec<char>)
    ensures
        strictly_sorted(r@),
        r@.to_set() == s@.to_set(),
{
    let n = s.unicode_len();
    let mut r: Vec<char> = Vec::new();
    let mut i: usize = 0;
    proof {
        assert(r@ =~= s@.subrange(0, 0));
    }
    while i < n
        invariant
            n == s@.len(),
            i <= n,
            strictly_sorted(r@),
            r@.to_set() == s@.subrange(0, i as int).to_set(),
        decreases n - i,
    {
        let c = s.get_char(i);
        insert_char(&mut r, c);
        proof {
            lemma_subrange_extend_to_set(s@, i as int);
        }
        i = i + 1;
    }
    proof {
        lemma_subrange_full(s@);
    }
    r
}

/// Copies a character vector; the copy has the same characters in the
/// same order.
pub fn clone_chars(v: &Vec<char>) -> (r: Vec<char>)
    ensures
        r@ == v@,
{
    let r = v.clone();
    proof {
        assert forall|k: int| 0 <= k < v@.len() implies r@[k] == v@[k] by {
            assert(cloned::<char>(v@[k], r@[k]));
        }
        assert(r@ =~= v@);
    }
    r
}

} // verus!
