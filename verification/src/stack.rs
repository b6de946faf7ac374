//! A container with any number of slots, emptied newest first.

use vstd::prelude::*;
use crate::container::{newest, without_newest, Container};

verus! {

/// Holds values in the order they were inserted and gives them back in the
/// reverse order.
pub struct Stack<T> {
    pub items: Vec<T>,
}

impl<T> View for Stack<T> {
    type V = Seq<T>;

    open spec fn view(&self) -> Seq<T> {
        self.items@
    }
}

impl<T> Stack<T> {
    /// A stack that holds `items`, the last of them on top.
    pub fn new(items: Vec<T>) -> (stack: Self)
        ensures
            stack@ == items@,
    {
        Stack { items }
    }
}

impl<T> Container<T> for Stack<T> {
    open spec fn contents(&self) -> Seq<T> {
        self.items@
    }

    open spec fn inserted(held: Seq<T>, item: T) -> Seq<T> {
        held.push(item)
    }

    fn get(&mut self) -> (taken: Option<T>)
        ensures
            taken == newest(old(self)@),
            final(self)@ == without_newest(old(self)@),
    {
        self.items.pop()
    }

    fn put(&mut self, item: T)
        ensures
            final(self)@ == old(self)@.push(item),
    {
        self.items.push(item);
    }

    fn is_empty(&self) -> (empty: bool)
        ensures
            empty == (self@.len() == 0),
    {
        self.items.len() == 0
    }
}

} // verus!
