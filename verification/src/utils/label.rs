//! Fresh labels for the code of functions.
use vstd::prelude::*;

verus! {

/// Hands out the labels 0, 1, 2, ... one at a time.
#[derive(Debug)]
pub struct LabelGenerator {
    next: usize,
}

impl View for LabelGenerator {
    type V = nat;

    /// The label that the next call of `get` hands out.
    closed spec fn view(&self) -> nat {
        self.next as nat
    }
}

impl LabelGenerator {
    /// A generator whose first label is 0.
    pub fn new() -> (g: LabelGenerator)
        ensures
            g@ == 0,
    {
        LabelGenerator { next: 0 }
    }

    /// A fresh label: the one after the label handed out before.
    pub fn get(&mut self) -> (l: usize)
        requires
            old(self)@ < usize::MAX,
        ensures
            l == old(self)@,
            final(self)@ == old(self)@ + 1,
    {
        let l = self.next;
        self.next = self.next + 1;
        l
    }
}

} // verus!
