//! The interprocedural analysis context and its transfer functions.
//!
//! A `Context` bundles, for one analysis run, the control-flow graph,
//! the project and the read-only memory image, and exposes the
//! transfer-function contract that an external forward fixpoint solver
//! invokes: per-statement, per-jump, per-call, per-return,
//! per-call-stub and per-branch-specialization updates.  Every callback
//! is a pure function of its inputs; returning nothing signals "this
//! edge produces no reachable state", which is distinct from returning
//! an unchanged state.

use crate::abstract_domain::{
    duplicate, AbstractDomain, AbstractIdentifier, DomainInsertion, HasTop,
};
use crate::intermediate_representation::{
    Blk, Def, Expression, Graph, Jmp, Project, RuntimeMemoryImage, Tid,
};
use crate::state::State;
use core::marker::PhantomData;
use vstd::prelude::*;

verus! {

/// Immutable configuration bundle for one analysis run.
pub struct Context<T> {
    /// The program control flow graph on which the fixpoint will be
    /// computed.
    pub graph: Graph,
    /// The `Project` object representing the binary.
    pub project: Project,
    /// The runtime memory image for reading global read-only variables.
    /// Values of writeable global memory segments are not tracked.
    pub runtime_memory_image: RuntimeMemoryImage,
    /// The term identifiers of the external symbols, which seed the
    /// call-stub behavior.
    pub extern_symbol_tids: Vec<Tid>,
    /// Phantom data to resolve issue with unused generic type.
    pub _phantom_abstract_domain_data: PhantomData<T>,
}

impl<T> Context<T> {
    /// The collected external-symbol identifiers.
    pub open spec fn extern_tids(&self) -> Seq<Tid> {
        self.extern_symbol_tids@
    }

    /// Creates a context from the project, the memory image and the
    /// already-built control-flow graph of the program, collecting the
    /// term identifiers of the project's external symbols.
    pub fn new(project: Project, runtime_memory_image: RuntimeMemoryImage, graph: Graph) -> (r:
        Context<T>)
        ensures
            r.graph == graph,
            r.project == project,
            r.runtime_memory_image == runtime_memory_image,
            r.extern_tids() == project.program.extern_symbols@.map_values(
                |s: crate::intermediate_representation::ExternSymbol| s.tid,
            ),
    {
        let mut extern_symbol_tids: Vec<Tid> = Vec::new();
        let mut i: usize = 0;
        while i < project.program.extern_symbols.len()
            invariant
                i <= project.program.extern_symbols@.len(),
                extern_symbol_tids@.len() == i,
                forall|k: int|
                    0 <= k < i ==> #[trigger] extern_symbol_tids@[k]
                        == project.program.extern_symbols@[k].tid,
            decreases project.program.extern_symbols@.len() - i,
        {
            extern_symbol_tids.push(project.program.extern_symbols[i].tid);
            i = i + 1;
        }
        proof {
            assert(extern_symbol_tids@ =~= project.program.extern_symbols@.map_values(
                |s: crate::intermediate_representation::ExternSymbol| s.tid,
            ));
        }
        Context {
            graph,
            project,
            runtime_memory_image,
            extern_symbol_tids,
            _phantom_abstract_domain_data: PhantomData,
        }
    }

    /// Whether a term identifier names an external symbol.
    pub fn is_extern_symbol(&self, tid: Tid) -> (r: bool)
        ensures
            r == self.extern_tids().contains(tid),
    {
        let mut i: usize = 0;
        while i < self.extern_symbol_tids.len()
            invariant
                i <= self.extern_symbol_tids@.len(),
                forall|k: int| 0 <= k < i ==> #[trigger] self.extern_symbol_tids@[k] != tid,
            decreases self.extern_symbol_tids@.len() - i,
        {
            if self.extern_symbol_tids[i] == tid {
                return true;
            }
            i = i + 1;
        }
        false
    }

    /// Returns the control flow graph the fixpoint is computed on.
    pub fn get_graph(&self) -> (r: &Graph)
        ensures
            r == &self.graph,
    {
        &self.graph
    }
}

impl<T: AbstractDomain + HasTop + DomainInsertion> Context<T> {
    /// The effect of one definition on the map of tracked locations.
    /// A location that would become *Top* is dropped from the map,
    /// since absence already means *Top*.
    pub open spec fn def_effect(m: Map<AbstractIdentifier, T::V>, def: Def) -> Map<
        AbstractIdentifier,
        T::V,
    > {
        match def {
            Def::Assign { target, source } => if m.dom().contains(source) {
                m.insert(target, m[source])
            } else {
                m.remove(target)
            },
            Def::AssignLiteral { target, literal } => {
                let v = T::literal_view(literal@);
                if v == T::top_view() {
                    m.remove(target)
                } else {
                    m.insert(target, v)
                }
            },
            Def::Concat { target, left, right } => {
                if !m.dom().contains(left) {
                    m.remove(target)
                } else {
                    let rv = if m.dom().contains(right) {
                        m[right]
                    } else {
                        T::top_view()
                    };
                    let v = T::insert_view(m[left], rv);
                    if v == T::top_view() {
                        m.remove(target)
                    } else {
                        m.insert(target, v)
                    }
                }
            },
            Def::Overwrite { target } => m.remove(target),
            Def::Nop => m,
        }
    }

    /// Merges two states at a control-flow join point.
    pub fn merge(&self, state1: &State<T>, state2: &State<T>) -> (r: State<T>)
        requires
            state1.inv(),
            state2.inv(),
        ensures
            r.inv(),
            r@ == <State<T> as AbstractDomain>::merge_view(state1@, state2@),
    {
        state1.merge(state2)
    }

    /// Applies the effect of one straight-line definition: an
    /// assignment copies the source location's knowledge, a literal
    /// assignment abstracts the literal, a concatenation combines the
    /// two operands through domain insertion (an absent operand is the
    /// implicit *Top*), and an untrackable overwrite returns the target
    /// to *Top*.  Locations not touched are unchanged, and a statement
    /// that cannot affect tracked strings propagates the state as it
    /// is.
    pub fn update_def(&self, state: &State<T>, def: &Def) -> (r: Option<State<T>>)
        requires
            state.inv(),
        ensures
            r is Some,
            r matches Some(s) ==> s.inv() && s@ == Self::def_effect(state@, *def),
    {
        match def {
            Def::Assign { target, source } => match state.get(*source) {
                Some(v) => {
                    let value = duplicate(v);
                    Some(state.with_value(*target, value))
                },
                None => Some(state.without(*target)),
            },
            Def::AssignLiteral { target, literal } => {
                let v = T::from_string(literal.as_str());
                if v.is_top() {
                    Some(state.without(*target))
                } else {
                    Some(state.with_value(*target, v))
                }
            },
            Def::Concat { target, left, right } => match state.get(*left) {
                None => Some(state.without(*target)),
                Some(lv) => {
                    let l = duplicate(lv);
                    let combined = match state.get(*right) {
                        Some(rv) => l.insert_string_domain(rv),
                        None => {
                            let unknown = l.top();
                            l.insert_string_domain(&unknown)
                        },
                    };
                    if combined.is_top() {
                        Some(state.without(*target))
                    } else {
                        Some(state.with_value(*target, combined))
                    }
                },
            },
            Def::Overwrite { target } => Some(state.without(*target)),
            Def::Nop => Some(duplicate(state)),
        }
    }

    /// Propagates the state over an intraprocedural jump unchanged;
    /// branch-specific narrowing is delegated to
    /// `specialize_conditional`.
    pub fn update_jump(
        &self,
        value: &State<T>,
        jump: &Jmp,
        untaken_conditional: Option<&Jmp>,
        target: &Blk,
    ) -> (r: Option<State<T>>)
        requires
            value.inv(),
        ensures
            r matches Some(s) ==> s.inv() && s@ == value@,
            r is Some,
    {
        Some(duplicate(value))
    }

    /// Constructs the callee-entry state for a call edge.  How actual
    /// arguments bind to callee-entry locations depends on the calling
    /// convention, which is not modeled; the conservative entry state
    /// constrains nothing, which is sound for every convention.
    pub fn update_call(&self, value: &State<T>, call: &Jmp, target: &Blk) -> (r: Option<State<T>>)
        requires
            value.inv(),
        ensures
            r matches Some(s) ==> s.inv() && s@ == Map::<AbstractIdentifier, T::V>::empty(),
            r is Some,
    {
        Some(State::new())
    }

    /// Combines the state at a return site with the state captured at
    /// the call site.  Which caller locations stay visible to the
    /// callee is not modeled, so the two states are joined: knowledge
    /// survives only where both agree, which is sound whichever
    /// locations the callee touched.  Without a reachable return state
    /// the edge produces no state; without a call-site snapshot the
    /// return state passes through.
    pub fn update_return(
        &self,
        value: Option<&State<T>>,
        value_before_call: Option<&State<T>>,
        call_term: &Jmp,
        return_term: &Jmp,
    ) -> (r: Option<State<T>>)
        requires
            value matches Some(s) ==> s.inv(),
            value_before_call matches Some(s) ==> s.inv(),
        ensures
            match (value, value_before_call) {
                (Some(ret), Some(snap)) => r matches Some(s) && s.inv() && s@ == <State<
                    T,
                > as AbstractDomain>::merge_view(snap@, ret@),
                (Some(ret), None) => r matches Some(s) && s.inv() && s@ == ret@,
                (None, _) => r is None,
            },
    {
        match (value, value_before_call) {
            (Some(ret), Some(snap)) => Some(snap.merge(ret)),
            (Some(ret), None) => Some(duplicate(ret)),
            (None, _) => None,
        }
    }

    /// Applies the conservative summary for a call to a function with
    /// no analyzable body: no specific external function is modeled, so
    /// every location the call may touch becomes *Top* and the
    /// resulting state constrains nothing.
    pub fn update_call_stub(&self, value: &State<T>, call: &Jmp) -> (r: Option<State<T>>)
        requires
            value.inv(),
        ensures
            r matches Some(s) ==> s.inv() && s@ == Map::<AbstractIdentifier, T::V>::empty(),
            r is Some,
    {
        Some(State::new())
    }

    /// Refines the state with facts implied by a conditional jump's
    /// guard.  No refinement is derived from guard expressions yet, so
    /// the state passes through unchanged — the sound default; an
    /// unreachable branch would be signalled by returning nothing.
    pub fn specialize_conditional(
        &self,
        value: &State<T>,
        condition: &Expression,
        block_before_condition: &Blk,
        is_true: bool,
    ) -> (r: Option<State<T>>)
        requires
            value.inv(),
        ensures
            r matches Some(s) ==> s.inv() && s@ == value@,
            r is Some,
    {
        Some(duplicate(value))
    }
}

} // verus!
