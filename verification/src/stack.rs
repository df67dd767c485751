//! The operand stack: a growable sequence of signed machine integers.

use vstd::prelude::*;

verus! {

/// The operand stack of one program run. Its view is the sequence of the
/// values it holds, bottom first.
#[derive(Debug, PartialEq, Eq)]
pub struct Stack(pub Vec<isize>);

impl View for Stack {
    type V = Seq<isize>;

    open spec fn view(&self) -> Seq<isize> {
        self.0@
    }
}

impl Stack {
    /// An empty stack.
    pub fn new() -> (stack: Stack)
        ensures
            stack@ == Seq::<isize>::empty(),
    {
        Stack(Vec::new())
    }

    /// The number of values on the stack.
    pub fn len(&self) -> (n: usize)
        ensures
            n == self@.len(),
    {
        self.0.len()
    }

    /// A copy of the values on the stack, bottom first.
    pub fn values(&self) -> (values: Vec<isize>)
        ensures
            values@ == self@,
    {
        self.0.clone()
    }

    /// Puts `v` on top.
    pub fn push(&mut self, v: isize)
        ensures
            final(self)@ == old(self)@.push(v),
    {
        self.0.push(v);
    }

    /// Removes the top value and returns it.
    pub fn pop(&mut self) -> (v: isize)
        requires
            old(self)@.len() > 0,
        ensures
            v == old(self)@.last(),
            final(self)@ == old(self)@.drop_last(),
    {
        self.0.pop().unwrap()
    }

    /// The top value, which stays where it is.
    pub fn peek(&self) -> (v: isize)
        requires
            self@.len() > 0,
        ensures
            v == self@.last(),
    {
        self.0[self.0.len() - 1]
    }

    /// A handle on the top slot: what the caller leaves in it is the new top.
    pub fn peek_mut(&mut self) -> (top: &mut isize)
        requires
            old(self)@.len() > 0,
        ensures
            *top == old(self)@.last(),
            final(self)@ == old(self)@.update(old(self)@.len() - 1, *final(top)),
    {
        let last: usize = self.0.len() - 1;
        &mut self.0[last]
    }

    /// The value in slot `i`, counted from the bottom.
    pub fn get(&self, i: usize) -> (v: &isize)
        requires
            i < self@.len(),
        ensures
            *v == self@[i as int],
    {
        &self.0[i]
    }

    /// A handle on slot `i`: what the caller leaves in it is the slot's new value.
    pub fn get_mut(&mut self, i: usize) -> (slot: &mut isize)
        requires
            i < old(self)@.len(),
        ensures
            *slot == old(self)@[i as int],
            final(self)@ == old(self)@.update(i as int, *final(slot)),
    {
        &mut self.0[i]
    }
}

} // verus!
