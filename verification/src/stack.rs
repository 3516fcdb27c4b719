//! A generic stack whose entries are either user data or control marks,
//! as the early design shaped it.

use vstd::prelude::*;

verus! {

/// A control mark: a frame or return index, a saved register, or a
/// user-supplied mark.
#[derive(Copy, Clone, Debug)]
pub enum ControlEntry<T, U> {
    Frame(usize),
    Return(usize),
    Register(T),
    User(U),
}

/// One stack slot.
#[derive(Copy, Clone, Debug)]
pub enum Entry<T, U> {
    Control(ControlEntry<T, U>),
    Data(T),
}

/// A stack of data and control entries.
pub struct Stack<T, U> {
    pub data: Vec<Entry<T, U>>,
}

impl<T, U> Stack<T, U> {
    pub fn new() -> (r: Stack<T, U>)
        ensures
            r.data@.len() == 0,
    {
        Stack { data: Vec::new() }
    }

    fn push_entry(&mut self, e: Entry<T, U>)
        ensures
            final(self).data@ == old(self).data@.push(e),
    {
        self.data.push(e)
    }

    /// Pushes a data entry.
    pub fn push(&mut self, e: T)
        ensures
            final(self).data@ == old(self).data@.push(Entry::Data(e)),
    {
        self.push_entry(Entry::Data(e))
    }

    /// Pushes a user control mark.
    pub fn push_control(&mut self, e: U)
        ensures
            final(self).data@ == old(self).data@.push(Entry::Control(ControlEntry::User(e))),
    {
        self.push_entry(Entry::Control(ControlEntry::User(e)))
    }
}

} // verus!
