//! The early whole-grid model sketch: a set of elements over a bounded
//! board, with stepping left as a sketch.

use crate::machine::Element;
use vstd::prelude::*;

verus! {

/// An element registered under a static name.
#[derive(Debug)]
pub struct ElementEntry<T>(pub &'static str, pub T);

/// A board of elements.
pub struct Model {
    pub elems: Vec<Element>,
    pub bounds: (u16, u16),
}

impl Model {
    pub fn new(elems: Vec<Element>, bounds: (u16, u16)) -> (r: Model)
        ensures
            r.elems@ == elems@,
            r.bounds == bounds,
    {
        Model { elems, bounds }
    }

    /// The sketched entry point: places nothing.
    pub fn set_element(x: i8, y: i8, e: Element) {
        let _ = x;
        let _ = y;
        let _ = e;
    }

    /// The sketched entry point: steps nothing.
    pub fn step() {
    }
}

} // verus!
