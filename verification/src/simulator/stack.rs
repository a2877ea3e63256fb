//! A last-in, first-out stack.

use std::collections::VecDeque;
use vstd::prelude::*;

verus! {

/// A stack. Its view is the sequence of its values from the top down.
pub struct Stack<T> {
    list: VecDeque<T>,
}

impl<T> View for Stack<T> {
    type V = Seq<T>;

    closed spec fn view(&self) -> Seq<T> {
        self.list@
    }
}

impl<T> Stack<T> {
    /// A stack that holds nothing.
    pub fn new() -> (stack: Self)
        ensures
            stack@ == Seq::<T>::empty(),
    {
        Stack { list: VecDeque::new() }
    }

    /// Puts `value` on top.
    pub fn push(&mut self, value: T)
        ensures
            final(self)@ == seq![value] + old(self)@,
    {
        self.list.push_front(value);
    }

    /// Takes the top value off, if there is one.
    pub fn pop(&mut self) -> (value: Option<T>)
        ensures
            match value {
                Some(top) => {
                    &&& old(self)@.len() > 0
                    &&& top == old(self)@[0]
                    &&& final(self)@ == old(self)@.drop_first()
                },
                None => old(self)@.len() == 0 && final(self)@ == old(self)@,
            },
    {
        self.list.pop_front()
    }
}

impl<T> Default for Stack<T> {
    fn default() -> (stack: Self)
        ensures
            stack@ == Seq::<T>::empty(),
    {
        Stack::new()
    }
}

/// What was pushed last comes off first, and the stack is then as it was
/// before the push.
pub proof fn lemma_push_pop<T>(stack: Seq<T>, value: T)
    ensures
        (seq![value] + stack)[0] == value,
        (seq![value] + stack).drop_first() == stack,
{
}

} // verus!
