//! Code-generation core for a fixed-format business data-processing
//! language.
//!
//! The library lowers typed MOVE and IF statements into a small SSA-style
//! intermediate representation, with verified contracts on every translation
//! step: which inputs translate successfully, which diagnostic each
//! rejected input produces, and structural guarantees on the emitted
//! instruction stream (value caching, one global declaration per data id,
//! block sealing). A backend replays the instruction stream in order into
//! its own function builder.

pub mod ast;
pub mod ir;
pub mod sem;
pub mod translator;
pub mod cond;
pub mod memory;
pub mod ifstat;
pub mod laws;
pub mod isa;
