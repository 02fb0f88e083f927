//! The slice of the intermediate representation this analysis reads.
//!
//! The lifting of machine code into a typed control-flow graph is the
//! work of a collaborator; the analysis consumes an already-built graph
//! and reads only a few plain facts from it.  The types here hold
//! exactly those facts: term identifiers, the external symbols of a
//! program, the effect a definition has on tracked string locations,
//! and a read-only view of global memory.

use crate::abstract_domain::AbstractIdentifier;
use vstd::prelude::*;

verus! {

/// Identifier of a term (a block, jump or symbol) of the program.
pub type Tid = u64;

/// An external symbol: a function whose body is not part of the
/// analyzed program and therefore cannot be analyzed.
#[derive(Debug, Clone, PartialEq, Eq)]
pub struct ExternSymbol {
    /// The term identifier of the symbol.
    pub tid: Tid,
}

/// The program under analysis, reduced to what this analysis reads:
/// its external symbols.
#[derive(Debug, PartialEq, Eq)]
pub struct Program {
    /// The external symbols of the binary.
    pub extern_symbols: Vec<ExternSymbol>,
}

/// The `Project` object representing the binary under analysis.
#[derive(Debug, PartialEq, Eq)]
pub struct Project {
    /// The program term of the project.
    pub program: Program,
}

/// The effect of one straight-line definition on the tracked string
/// locations.  Locations not named are unaffected.
#[derive(Debug, PartialEq, Eq)]
pub enum Def {
    /// The target location receives the value of the source location.
    Assign {
        /// The location written.
        target: AbstractIdentifier,
        /// The location read.
        source: AbstractIdentifier,
    },
    /// The target location receives a string built from a literal.
    AssignLiteral {
        /// The location written.
        target: AbstractIdentifier,
        /// The literal string assigned.
        literal: String,
    },
    /// The target location receives the concatenation of two tracked
    /// string locations.
    Concat {
        /// The location written.
        target: AbstractIdentifier,
        /// The location holding the left part.
        left: AbstractIdentifier,
        /// The location holding the appended part.
        right: AbstractIdentifier,
    },
    /// The target location is overwritten with a value the analysis
    /// cannot track.
    Overwrite {
        /// The location written.
        target: AbstractIdentifier,
    },
    /// The definition cannot affect tracked string locations.
    Nop,
}

/// An intraprocedural jump or call term; the analysis reads only its
/// target.
#[derive(Debug, Clone, PartialEq, Eq)]
pub struct Jmp {
    /// The term identifier of the jump target.
    pub target: Tid,
}

/// A basic block term; the analysis reads only its identifier.
#[derive(Debug, Clone, PartialEq, Eq)]
pub struct Blk {
    /// The term identifier of the block.
    pub tid: Tid,
}

/// A guard expression of a conditional jump.  The analysis consumes it
/// opaquely: no state refinement is derived from it yet.
#[derive(Debug, Clone, PartialEq, Eq)]
pub struct Expression {
    /// The term identifier of the expression.
    pub id: u64,
}

/// The program control-flow graph, already built by the lifting
/// collaborator: one node per block, edges by node position.
#[derive(Debug, PartialEq, Eq)]
pub struct Graph {
    /// The block identifier of each node.
    pub node_tids: Vec<Tid>,
    /// Directed edges as pairs of node positions.
    pub edges: Vec<(usize, usize)>,
}

impl Graph {
    /// Every edge connects two existing nodes.
    pub open spec fn wf(&self) -> bool {
        forall|i: int|
            0 <= i < self.edges@.len() ==> (#[trigger] self.edges@[i]).0 < self.node_tids@.len()
                && self.edges@[i].1 < self.node_tids@.len()
    }

    /// Checks that every edge connects two existing nodes.
    pub fn is_well_formed(&self) -> (r: bool)
        ensures
            r == self.wf(),
    {
        let mut i: usize = 0;
        while i < self.edges.len()
            invariant
                i <= self.edges@.len(),
                forall|k: int|
                    0 <= k < i ==> (#[trigger] self.edges@[k]).0 < self.node_tids@.len()
                        && self.edges@[k].1 < self.node_tids@.len(),
            decreases self.edges@.len() - i,
        {
            let (a, b) = self.edges[i];
            if a >= self.node_tids.len() || b >= self.node_tids.len() {
                return false;
            }
            i = i + 1;
        }
        true
    }
}

/// The runtime memory image for reading global read-only variables.
/// Values of writeable global memory segments are not tracked.
#[derive(Debug, PartialEq, Eq)]
pub struct RuntimeMemoryImage {
    /// The address the read-only data starts at.
    pub base_address: u64,
    /// The read-only bytes, in address order.
    pub bytes: Vec<u8>,
}

impl RuntimeMemoryImage {
    /// Reads the byte at an absolute address, or nothing when the
    /// address lies outside the read-only image.
    pub fn read_byte(&self, address: u64) -> (r: Option<u8>)
        ensures
            match r {
                Some(b) => self.base_address <= address && address - self.base_address
                    < self.bytes@.len() && b == self.bytes@[(address - self.base_address) as int],
                None => address < self.base_address || address - self.base_address
                    >= self.bytes@.len(),
            },
    {
        if address < self.base_address {
            return None;
        }
        let offset = address - self.base_address;
        if offset < self.bytes.len() as u64 {
            Some(self.bytes[offset as usize])
        } else {
            None
        }
    }
}

} // verus!
