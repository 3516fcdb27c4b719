//! Toolchain for a small event-window assembly language: a saturating
//! multi-width integer kernel, a binary object-file writer and reader,
//! and a stack virtual machine that drives an event window.

pub mod arith;
pub mod ast;
pub mod base;
pub mod code;
pub mod color;
pub mod frame_stack;
pub mod machine;
pub mod model;
pub mod stack;
pub mod mfm;
pub mod object;
pub mod runtime;
pub mod op;

use vstd::prelude::*;

verus! {

/// Number of sites in an event window of Manhattan radius 4.
pub const SITE_COUNT: u8 = 41;

/// The number of payload bits in an atom.
pub const ATOM_BITS: u8 = 96;

} // verus!
