use vstd::prelude::*;
use crate::bool32::Bool32;

verus! {

/// The number of node indices that a `Stack` can hold.
pub const STACK_CAPACITY: usize = 32;

/// A stack of node indices with room for 32, held in place: a traversal
/// that uses it allocates nothing.
pub struct Stack {
    len: u32,
    data: [u32; 32],
}

impl View for Stack {
    type V = Seq<u32>;

    /// The indices on the stack, the bottom one first.
    closed spec fn view(&self) -> Seq<u32> {
        self.data@.subrange(0, self.len as int)
    }
}

impl Stack {
    /// Whether the length is within the capacity.
    pub closed spec fn wf(&self) -> bool {
        self.len <= 32
    }

    /// Puts `element` on top. There must be room for it.
    pub fn push(&mut self, element: u32)
        requires
            old(self).wf(),
            old(self)@.len() < STACK_CAPACITY,
        ensures
            final(self).wf(),
            final(self)@ == old(self)@.push(element),
    {
        self.data[self.len as usize] = element;
        self.len += 1;
    }

    /// Takes the top element off. The stack must not be empty.
    pub fn pop(&mut self) -> (element: u32)
        requires
            old(self).wf(),
            old(self)@.len() > 0,
        ensures
            final(self).wf(),
            element == old(self)@.last(),
            final(self)@ == old(self)@.drop_last(),
    {
        self.len -= 1;
        self.data[self.len as usize]
    }

    /// Whether the stack holds nothing.
    pub fn is_empty(&self) -> (r: Bool32)
        requires
            self.wf(),
        ensures
            r == Bool32::of(self@.len() == 0),
            r@ == (self@.len() == 0),
    {
        Bool32::new(self.len == 0)
    }
}

impl Default for Stack {
    /// The empty stack.
    fn default() -> (r: Stack)
        ensures
            r.wf(),
            r@ == Seq::<u32>::empty(),
    {
        Stack { len: 0, data: [0u32; 32] }
    }
}

/// A stack in order holds at most 32 indices.
pub proof fn lemma_stack_bounded(s: Stack)
    requires
        s.wf(),
    ensures
        s@.len() <= STACK_CAPACITY,
{
}

} // verus!
