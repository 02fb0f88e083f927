//! Tests of the character-inclusion domain: merging, concatenation and
//! literal construction.

use abstract_string::abstract_domain::{AbstractDomain, DomainInsertion, HasTop};
use abstract_string::character_inclusion::{CharacterInclusionDomain, CharacterSet};

fn char_set(concrete: &str) -> CharacterSet {
    let mut chars: Vec<char> = concrete.chars().collect();
    chars.sort();
    chars.dedup();
    CharacterSet::Value(chars)
}

fn ci(concrete: &str) -> CharacterInclusionDomain {
    let abstract_set = char_set(concrete);
    CharacterInclusionDomain::Value((abstract_set.clone(), abstract_set))
}

#[test]
fn merging() {
    let first = ci("abc");
    let second = ci("def");
    let third = ci("dabc");
    let possible_set = char_set("abcdef");
    let certain_set = char_set("d");

    assert_eq!(
        first.merge(&second),
        CharacterInclusionDomain::Value((CharacterSet::Value(Vec::new()), possible_set.clone()))
    );
    assert_eq!(
        third.merge(&second),
        CharacterInclusionDomain::Value((certain_set, possible_set))
    );
    assert_eq!(
        first.merge(&CharacterInclusionDomain::Top),
        CharacterInclusionDomain::Top
    );
    assert_eq!(
        CharacterInclusionDomain::Top.merge(&CharacterInclusionDomain::Top),
        CharacterInclusionDomain::Top
    );
}

#[test]
fn merge_commutative_on_values() {
    let a = ci("dabc");
    let b = ci("def");
    assert_eq!(a.merge(&b), b.merge(&a));
    let a = ci("");
    let b = ci("xyz");
    assert_eq!(a.merge(&b), b.merge(&a));
}

#[test]
fn merge_idempotent_on_values() {
    let a = ci("hello");
    assert_eq!(a.merge(&a), a);
    let top = CharacterInclusionDomain::Top;
    assert_eq!(top.merge(&top), CharacterInclusionDomain::Top);
}

#[test]
fn merge_top_absorbs() {
    assert_eq!(
        ci("abc").merge(&CharacterInclusionDomain::Top),
        CharacterInclusionDomain::Top
    );
    assert_eq!(
        CharacterInclusionDomain::Top.merge(&ci("abc")),
        CharacterInclusionDomain::Top
    );
    assert_eq!(
        CharacterInclusionDomain::Top.merge(&CharacterInclusionDomain::Top),
        CharacterInclusionDomain::Top
    );
}

#[test]
fn insert_concatenates_both_sets() {
    let greeting = ci("Hello, ");
    let addressee = ci("World");
    let combined = greeting.insert_string_domain(&addressee);
    let expected_chars = char_set("Hello, World");
    assert_eq!(
        combined,
        CharacterInclusionDomain::Value((expected_chars.clone(), expected_chars))
    );
    let (certain, possible) = combined.unwrap_value();
    assert_eq!(certain, possible);
}

#[test]
fn insert_never_loses_certainty_or_possibility() {
    let a = ci("abc");
    let b = ci("xyz");
    let combined = a.insert_string_domain(&b);
    let (certain, possible) = combined.unwrap_value();
    let certain_chars = certain.unwrap_value();
    let possible_chars = possible.unwrap_value();
    for c in ['a', 'b', 'c'] {
        assert!(certain_chars.contains(&c));
        assert!(possible_chars.contains(&c));
    }
}

#[test]
fn insert_top_absorption() {
    let a = ci("abc");
    assert_eq!(
        CharacterInclusionDomain::Top.insert_string_domain(&a),
        CharacterInclusionDomain::Top
    );
    assert_eq!(
        CharacterInclusionDomain::Top.insert_string_domain(&CharacterInclusionDomain::Top),
        CharacterInclusionDomain::Top
    );
    assert_eq!(
        a.insert_string_domain(&CharacterInclusionDomain::Top),
        CharacterInclusionDomain::Value((char_set("abc"), CharacterSet::Top))
    );
}

#[test]
fn insert_with_top_possible_side() {
    let a = ci("ab");
    let half_known = CharacterInclusionDomain::Value((char_set("cd"), CharacterSet::Top));
    let combined = a.insert_string_domain(&half_known);
    assert_eq!(
        combined,
        CharacterInclusionDomain::Value((char_set("abcd"), CharacterSet::Top))
    );
}

#[test]
fn literal_construction() {
    let d = CharacterInclusionDomain::from_string("aabbc");
    assert_eq!(d, ci("abc"));
    let (certain, possible) = d.unwrap_value();
    assert_eq!(certain, possible);
    assert_eq!(certain, char_set("abc"));

    let empty = CharacterInclusionDomain::from_string("");
    assert_eq!(
        empty,
        CharacterInclusionDomain::Value((CharacterSet::Value(Vec::new()), CharacterSet::Value(
            Vec::new(),
        )))
    );
}

#[test]
fn from_string_distinct_from_top() {
    // An empty concrete value means "definitely the empty string",
    // which is not the unconstrained Top.
    let empty = CharacterInclusionDomain::from_string("");
    assert!(!empty.is_top());
    assert!(CharacterInclusionDomain::Top.is_top());
}

#[test]
fn top_constructors() {
    let a = ci("abc");
    assert_eq!(a.top(), CharacterInclusionDomain::Top);
    let s = char_set("abc");
    assert_eq!(s.top(), CharacterSet::Top);
    assert!(s.top().is_top());
    assert!(!s.is_top());
}

#[test]
fn character_set_union() {
    let a = char_set("acf");
    let b = char_set("bdf");
    assert_eq!(a.union(b.clone()), char_set("abcdf"));
    assert_eq!(a.union(CharacterSet::Top), CharacterSet::Top);
    assert_eq!(CharacterSet::Top.union(b), CharacterSet::Top);
}

#[test]
fn character_set_intersection() {
    let a = char_set("abcd");
    let b = char_set("cdef");
    assert_eq!(a.intersection(b), char_set("cd"));
    let a = char_set("ab");
    let b = char_set("xy");
    assert_eq!(a.intersection(b), CharacterSet::Value(Vec::new()));
}

#[test]
fn character_set_unwrap() {
    let a = char_set("cab");
    assert_eq!(a.unwrap_value(), vec!['a', 'b', 'c']);
}

#[test]
fn scenario_merge_disjoint() {
    let merged = ci("abc").merge(&ci("def"));
    assert_eq!(
        merged,
        CharacterInclusionDomain::Value((CharacterSet::Value(Vec::new()), char_set("abcdef")))
    );
}

#[test]
fn scenario_merge_overlapping() {
    let merged = ci("dabc").merge(&ci("def"));
    assert_eq!(
        merged,
        CharacterInclusionDomain::Value((char_set("d"), char_set("abcdef")))
    );
}

#[test]
fn scenario_concatenation() {
    let combined = ci("Hello, ").insert_string_domain(&ci("World"));
    let expected = char_set("HeloWrd, ");
    assert_eq!(
        combined,
        CharacterInclusionDomain::Value((expected.clone(), expected))
    );
}

#[test]
fn scenario_merge_with_top() {
    assert_eq!(
        ci("abc").merge(&CharacterInclusionDomain::Top),
        CharacterInclusionDomain::Top
    );
    assert_eq!(
        CharacterInclusionDomain::Top.merge(&CharacterInclusionDomain::Top),
        CharacterInclusionDomain::Top
    );
}
