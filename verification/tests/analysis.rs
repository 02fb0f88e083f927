//! Tests of the per-point state container and the interprocedural
//! context's transfer functions.

use abstract_string::abstract_domain::AbstractDomain;
use abstract_string::character_inclusion::{CharacterInclusionDomain, CharacterSet};
use abstract_string::context::Context;
use abstract_string::intermediate_representation::{
    Blk, Def, Expression, ExternSymbol, Graph, Jmp, Program, Project, RuntimeMemoryImage,
};
use abstract_string::state::State;

fn char_set(concrete: &str) -> CharacterSet {
    let mut chars: Vec<char> = concrete.chars().collect();
    chars.sort();
    chars.dedup();
    CharacterSet::Value(chars)
}

fn ci(concrete: &str) -> CharacterInclusionDomain {
    let abstract_set = char_set(concrete);
    CharacterInclusionDomain::Value((abstract_set.clone(), abstract_set))
}

fn test_context() -> Context<CharacterInclusionDomain> {
    let project = Project {
        program: Program {
            extern_symbols: vec![ExternSymbol { tid: 100 }, ExternSymbol { tid: 101 }],
        },
    };
    let image = RuntimeMemoryImage {
        base_address: 0x1000,
        bytes: vec![0x41, 0x42, 0x43],
    };
    let graph = Graph {
        node_tids: vec![1, 2, 3],
        edges: vec![(0, 1), (1, 2)],
    };
    Context::new(project, image, graph)
}

#[test]
fn new_state_is_top() {
    let state: State<CharacterInclusionDomain> = State::new();
    assert!(state.is_top());
    assert!(state.get(5).is_none());
}

#[test]
fn state_tracks_inserted_values() {
    let state: State<CharacterInclusionDomain> = State::new();
    let state = state.with_value(5, ci("abc"));
    assert!(!state.is_top());
    assert_eq!(state.get(5), Some(&ci("abc")));
    assert!(state.get(6).is_none());
    let state = state.without(5);
    assert!(state.is_top());
}

#[test]
fn state_merge_is_pointwise() {
    let s1: State<CharacterInclusionDomain> = State::new();
    let s1 = s1.with_value(1, ci("abc")).with_value(2, ci("xy"));
    let s2: State<CharacterInclusionDomain> = State::new();
    let s2 = s2.with_value(1, ci("dabc")).with_value(3, ci("z"));
    let merged = s1.merge(&s2);
    // Key 1 merges pointwise; keys 2 and 3 are each missing on one
    // side, which means Top there, so they are dropped.
    assert_eq!(
        merged.get(1),
        Some(&CharacterInclusionDomain::Value((char_set("abc"), char_set("abcd"))))
    );
    assert!(merged.get(2).is_none());
    assert!(merged.get(3).is_none());
}

#[test]
fn state_join_with_absent_key() {
    let s1: State<CharacterInclusionDomain> = State::new();
    let s1 = s1.with_value(7, ci("abc"));
    let s2: State<CharacterInclusionDomain> = State::new();
    let merged = s1.merge(&s2);
    assert!(merged.get(7).is_none());
    assert!(merged.is_top());
    let merged = s2.merge(&s1);
    assert!(merged.get(7).is_none());
}

#[test]
fn state_merge_commutative() {
    let s1: State<CharacterInclusionDomain> = State::new();
    let s1 = s1.with_value(1, ci("abc")).with_value(2, ci("xy"));
    let s2: State<CharacterInclusionDomain> = State::new();
    let s2 = s2.with_value(1, ci("dabc"));
    assert_eq!(s1.merge(&s2), s2.merge(&s1));
}

#[test]
fn context_collects_extern_symbols() {
    let ctx = test_context();
    assert!(ctx.is_extern_symbol(100));
    assert!(ctx.is_extern_symbol(101));
    assert!(!ctx.is_extern_symbol(1));
    assert_eq!(ctx.get_graph().node_tids, vec![1, 2, 3]);
}

#[test]
fn update_def_assign_copies_source() {
    let ctx = test_context();
    let state: State<CharacterInclusionDomain> = State::new();
    let state = state.with_value(1, ci("abc"));
    let out = ctx
        .update_def(&state, &Def::Assign { target: 2, source: 1 })
        .unwrap();
    assert_eq!(out.get(2), Some(&ci("abc")));
    assert_eq!(out.get(1), Some(&ci("abc")));
}

#[test]
fn update_def_assign_from_untracked_drops_target() {
    let ctx = test_context();
    let state: State<CharacterInclusionDomain> = State::new();
    let state = state.with_value(2, ci("old"));
    let out = ctx
        .update_def(&state, &Def::Assign { target: 2, source: 9 })
        .unwrap();
    assert!(out.get(2).is_none());
}

#[test]
fn update_def_literal() {
    let ctx = test_context();
    let state: State<CharacterInclusionDomain> = State::new();
    let out = ctx
        .update_def(
            &state,
            &Def::AssignLiteral { target: 3, literal: String::from("Hello, World!") },
        )
        .unwrap();
    assert_eq!(out.get(3), Some(&ci("Hello, World!")));
}

#[test]
fn update_def_concat() {
    let ctx = test_context();
    let state: State<CharacterInclusionDomain> = State::new();
    let state = state.with_value(1, ci("Hello, ")).with_value(2, ci("World"));
    let out = ctx
        .update_def(&state, &Def::Concat { target: 3, left: 1, right: 2 })
        .unwrap();
    assert_eq!(out.get(3), Some(&ci("Hello, World")));
}

#[test]
fn update_def_concat_with_untracked_right() {
    let ctx = test_context();
    let state: State<CharacterInclusionDomain> = State::new();
    let state = state.with_value(1, ci("ab"));
    let out = ctx
        .update_def(&state, &Def::Concat { target: 3, left: 1, right: 9 })
        .unwrap();
    // The appended content is unknown: the certain characters stay,
    // the possible set becomes unconstrained.
    assert_eq!(
        out.get(3),
        Some(&CharacterInclusionDomain::Value((char_set("ab"), CharacterSet::Top)))
    );
}

#[test]
fn update_def_concat_with_untracked_left_drops_target() {
    let ctx = test_context();
    let state: State<CharacterInclusionDomain> = State::new();
    let state = state.with_value(2, ci("cd")).with_value(3, ci("old"));
    let out = ctx
        .update_def(&state, &Def::Concat { target: 3, left: 9, right: 2 })
        .unwrap();
    assert!(out.get(3).is_none());
}

#[test]
fn update_def_overwrite_and_nop() {
    let ctx = test_context();
    let state: State<CharacterInclusionDomain> = State::new();
    let state = state.with_value(1, ci("abc"));
    let out = ctx.update_def(&state, &Def::Overwrite { target: 1 }).unwrap();
    assert!(out.get(1).is_none());
    let out = ctx.update_def(&state, &Def::Nop).unwrap();
    assert_eq!(out.get(1), Some(&ci("abc")));
}

#[test]
fn update_jump_propagates_unchanged() {
    let ctx = test_context();
    let state: State<CharacterInclusionDomain> = State::new();
    let state = state.with_value(1, ci("abc"));
    let out = ctx
        .update_jump(&state, &Jmp { target: 2 }, None, &Blk { tid: 2 })
        .unwrap();
    assert_eq!(out.get(1), Some(&ci("abc")));
}

#[test]
fn update_call_gives_unconstrained_entry() {
    let ctx = test_context();
    let state: State<CharacterInclusionDomain> = State::new();
    let state = state.with_value(1, ci("abc"));
    let out = ctx
        .update_call(&state, &Jmp { target: 7 }, &Blk { tid: 7 })
        .unwrap();
    assert!(out.is_top());
}

#[test]
fn update_return_joins_snapshot_and_return_state() {
    let ctx = test_context();
    let snapshot: State<CharacterInclusionDomain> = State::new();
    let snapshot = snapshot.with_value(1, ci("abc")).with_value(2, ci("local"));
    let returned: State<CharacterInclusionDomain> = State::new();
    let returned = returned.with_value(1, ci("dabc"));
    let call = Jmp { target: 7 };
    let ret = Jmp { target: 8 };
    let out = ctx
        .update_return(Some(&returned), Some(&snapshot), &call, &ret)
        .unwrap();
    assert_eq!(
        out.get(1),
        Some(&CharacterInclusionDomain::Value((char_set("abc"), char_set("abcd"))))
    );
    assert!(out.get(2).is_none());

    let out = ctx.update_return(Some(&returned), None, &call, &ret).unwrap();
    assert_eq!(out.get(1), Some(&ci("dabc")));

    assert!(ctx.update_return(None, Some(&snapshot), &call, &ret).is_none());
}

#[test]
fn update_call_stub_is_conservative() {
    let ctx = test_context();
    let state: State<CharacterInclusionDomain> = State::new();
    let state = state.with_value(1, ci("abc"));
    let out = ctx.update_call_stub(&state, &Jmp { target: 100 }).unwrap();
    assert!(out.is_top());
}

#[test]
fn specialize_conditional_passes_state_through() {
    let ctx = test_context();
    let state: State<CharacterInclusionDomain> = State::new();
    let state = state.with_value(1, ci("abc"));
    let out = ctx
        .specialize_conditional(&state, &Expression { id: 9 }, &Blk { tid: 1 }, true)
        .unwrap();
    assert_eq!(out.get(1), Some(&ci("abc")));
}

#[test]
fn context_merge_matches_state_merge() {
    let ctx = test_context();
    let s1: State<CharacterInclusionDomain> = State::new();
    let s1 = s1.with_value(1, ci("abc"));
    let s2: State<CharacterInclusionDomain> = State::new();
    let s2 = s2.with_value(1, ci("def"));
    let merged = ctx.merge(&s1, &s2);
    assert_eq!(
        merged.get(1),
        Some(&CharacterInclusionDomain::Value((CharacterSet::Value(Vec::new()), char_set(
            "abcdef",
        ))))
    );
}

#[test]
fn graph_well_formedness() {
    let good = Graph { node_tids: vec![1, 2], edges: vec![(0, 1), (1, 0)] };
    assert!(good.is_well_formed());
    let bad = Graph { node_tids: vec![1, 2], edges: vec![(0, 2)] };
    assert!(!bad.is_well_formed());
}

#[test]
fn memory_image_read_byte() {
    let image = RuntimeMemoryImage { base_address: 0x1000, bytes: vec![0x41, 0x42, 0x43] };
    assert_eq!(image.read_byte(0x1000), Some(0x41));
    assert_eq!(image.read_byte(0x1002), Some(0x43));
    assert_eq!(image.read_byte(0x0fff), None);
    assert_eq!(image.read_byte(0x1003), None);
}
