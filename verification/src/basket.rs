//! A container with a single slot.

use vstd::prelude::*;
use crate::container::Container;

verus! {

/// Holds at most one value. A new value replaces the one held.
pub struct Basket<T> {
    pub item: Option<T>,
}

impl<T> View for Basket<T> {
    type V = Option<T>;

    open spec fn view(&self) -> Option<T> {
        self.item
    }
}

impl<T> Basket<T> {
    /// A basket that holds `item`.
    pub fn new(item: T) -> (basket: Self)
        ensures
            basket@ == Some(item),
    {
        Basket { item: Some(item) }
    }
}

impl<T> Container<T> for Basket<T> {
    open spec fn contents(&self) -> Seq<T> {
        match self.item {
            Some(value) => seq![value],
            None => Seq::empty(),
        }
    }

    open spec fn inserted(held: Seq<T>, item: T) -> Seq<T> {
        seq![item]
    }

    fn get(&mut self) -> (taken: Option<T>)
        ensures
            taken == old(self)@,
            final(self)@ is None,
    {
        self.item.take()
    }

    fn put(&mut self, item: T)
        ensures
            final(self)@ == Some(item),
    {
        self.item = Some(item);
    }

    fn is_empty(&self) -> (empty: bool)
        ensures
            empty == (self@ is None),
    {
        self.item.is_none()
    }
}

} // verus!
