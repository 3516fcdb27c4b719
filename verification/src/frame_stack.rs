//! The frame-aware operand stack sketched for the early register machine:
//! data and control entries share one vector, and a call appends a frame
//! of control entries followed by copied arguments.

use vstd::prelude::*;

verus! {

/// One stack slot: a data word or one of the control markers.
#[derive(Copy, Clone, Debug, PartialEq, Eq, Structural)]
pub enum Element {
    Data(u128),
    Frame(u128),
    Return(u128),
    Register(u128),
}

impl Element {
    pub fn is_data(self) -> (r: bool)
        ensures
            r == (self is Data),
    {
        match self {
            Element::Data(_) => true,
            _ => false,
        }
    }

    pub fn is_control(self) -> (r: bool)
        ensures
            r == !(self is Data),
    {
        match self {
            Element::Data(_) => false,
            _ => true,
        }
    }

    pub fn get_frame(self) -> (r: Option<Element>)
        ensures
            r == (if self is Frame {
                Some(self)
            } else {
                None::<Element>
            }),
    {
        match self {
            Element::Frame(_) => Some(self),
            _ => None,
        }
    }

    pub fn get_return(self) -> (r: Option<Element>)
        ensures
            r == (if self is Return {
                Some(self)
            } else {
                None::<Element>
            }),
    {
        match self {
            Element::Return(_) => Some(self),
            _ => None,
        }
    }

    pub fn get_register(self) -> (r: Option<Element>)
        ensures
            r == (if self is Register {
                Some(self)
            } else {
                None::<Element>
            }),
    {
        match self {
            Element::Register(_) => Some(self),
            _ => None,
        }
    }

    pub fn get_data(self) -> (r: Option<u128>)
        ensures
            r == (match self {
                Element::Data(x) => Some(x),
                _ => None::<u128>,
            }),
    {
        match self {
            Element::Data(x) => Some(x),
            _ => None,
        }
    }
}

/// The slot value at `i` after a frame of `nc` control slots and `ca`
/// copied arguments is appended to a stack of height `sp`.
pub open spec fn frame_slot(base: Seq<Option<Element>>, sp: int, nc: int, ca: int, i: int) -> Option<
    Element,
> {
    if sp - ca + nc <= i < sp + nc {
        base[i - (sp - ca + nc) + (sp - 2 * ca)]
    } else if i >= sp {
        None
    } else {
        base[i]
    }
}

/// The early frame stack; its push and pop entry points were sketched as
/// placeholders that touch nothing, and stand here with that behavior.
pub struct Stack {
    pub data: Vec<Option<Element>>,
    pub sp: Option<usize>,
}

impl Stack {
    pub fn new() -> (r: Stack)
        ensures
            r.data@.len() == 0,
            r.sp is None,
    {
        Stack { data: Vec::new(), sp: None }
    }

    pub fn len(&self) -> (r: usize)
        ensures
            r == self.data@.len(),
    {
        self.data.len()
    }

    /// The sketched entry point: pushes nothing and reports nothing.
    pub fn push(&mut self, e: Element) -> (r: Option<Element>)
        ensures
            r is None,
            *final(self) == *old(self),
    {
        let _ = e;
        None
    }

    /// The sketched entry point: pops nothing and reports nothing.
    pub fn pop(&mut self) -> (r: Option<Element>)
        ensures
            r is None,
            *final(self) == *old(self),
    {
        None
    }

    /// The sketched entry point: stores nothing.
    pub fn store_registers(&mut self, rs: &[u128])
        ensures
            *final(self) == *old(self),
    {
        let _ = rs;
    }

    /// The sketched entry point: recalls nothing.
    pub fn recall_registers(&mut self, rs: &mut Vec<u128>)
        ensures
            *final(self) == *old(self),
            *final(rs) == *old(rs),
    {
    }

    /// Appends a new frame: one empty slot per control element, then a
    /// copy of `copy_args` entries taken from just below the former top
    /// arguments, as the early layout arithmetic had it.
    pub fn append_frame(&mut self, control_elems: &[Element], copy_args: usize)
        requires
            copy_args * 2 <= old(self).data@.len(),
        ensures
            final(self).sp == old(self).sp,
            final(self).data@.len() == old(self).data@.len() + control_elems@.len(),
            forall|i: int|
                0 <= i < old(self).data@.len() + control_elems@.len() ==> final(self).data@[i]
                    == frame_slot(
                    old(self).data@,
                    old(self).data@.len() as int,
                    control_elems@.len() as int,
                    copy_args as int,
                    i,
                ),
    {
        let sp = self.data.len();
        let nc = control_elems.len();
        let mut k: usize = 0;
        while k < nc
            invariant
                k <= nc,
                self.data@.len() == old(self).data@.len() + k,
                self.sp == old(self).sp,
                sp == old(self).data@.len(),
                forall|i: int| 0 <= i < sp ==> self.data@[i] == old(self).data@[i],
                forall|i: int| sp <= i < sp + k ==> self.data@[i] is None,
            decreases nc - k,
        {
            self.data.push(None);
            k += 1;
        }
        let total = self.data.len();
        let mut k: usize = 0;
        while k < copy_args
            invariant
                k <= copy_args,
                copy_args * 2 <= sp,
                total == sp + nc,
                nc == control_elems@.len(),
                sp == old(self).data@.len(),
                self.data@.len() == sp + nc,
                self.sp == old(self).sp,
                forall|i: int|
                    0 <= i < sp + nc && !(sp - copy_args + nc <= i < sp - copy_args + nc + k)
                        ==> self.data@[i] == (if i >= sp {
                        None::<Element>
                    } else {
                        old(self).data@[i]
                    }),
                forall|i: int|
                    sp - copy_args + nc <= i < sp - copy_args + nc + k ==> self.data@[i] == old(
                        self,
                    ).data@[i - (sp - copy_args + nc) + (sp - 2 * copy_args)],
            decreases copy_args - k,
        {
            let v = self.data[sp - 2 * copy_args + k];
            self.data.set(sp - copy_args + nc + k, v);
            k += 1;
        }
    }

    /// The sketched entry point: refuses every truncation.
    pub fn truncate_frame(&mut self, copy_returns: usize) -> (r: Result<(), ()>)
        ensures
            r is Err,
            *final(self) == *old(self),
    {
        let _ = copy_returns;
        Err(())
    }
}

} // verus!
