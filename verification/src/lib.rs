//! Abstract-interpretation core for tracking the possible contents of
//! strings in a binary program: a character-inclusion lattice, a per-point
//! state container, and the transfer-function contract that a forward
//! fixpoint solver consumes.

pub mod abstract_domain;
pub mod context;
pub mod character_inclusion;
pub mod intermediate_representation;
pub mod sorted_chars;
pub mod state;
