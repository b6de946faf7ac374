//! The capability shared by every container: insert a value, take one out,
//! and ask whether anything is left.

use vstd::prelude::*;

verus! {

/// The value that a `get` hands out of a container holding `held`: the
/// newest one, or nothing when there is none.
pub open spec fn newest<T>(held: Seq<T>) -> Option<T> {
    if held.len() == 0 {
        None
    } else {
        Some(held.last())
    }
}

/// What a container holding `held` is left with after a `get`.
pub open spec fn without_newest<T>(held: Seq<T>) -> Seq<T> {
    if held.len() == 0 {
        held
    } else {
        held.drop_last()
    }
}

/// A store of values of type `T` that hands back, on `get`, the value most
/// recently inserted among those it still holds.
///
/// The abstract state of a container is the sequence `contents()` of the
/// values it holds, oldest first. What `put` does to that sequence is the
/// implementer's insertion policy, given by `inserted`.
pub trait Container<T>: Sized {
    /// The values held, oldest first.
    spec fn contents(&self) -> Seq<T>;

    /// The contents that result from inserting `item` into a container of
    /// this kind that holds `held`.
    spec fn inserted(held: Seq<T>, item: T) -> Seq<T>;

    /// Removes and returns the newest value, or returns `None` and changes
    /// nothing when the container is empty.
    fn get(&mut self) -> (taken: Option<T>)
        ensures
            taken == newest(old(self).contents()),
            final(self).contents() == without_newest(old(self).contents()),
    ;

    /// Inserts `item`; it is the value that the next `get` returns.
    fn put(&mut self, item: T)
        ensures
            final(self).contents() == Self::inserted(old(self).contents(), item),
            newest(final(self).contents()) == Some(item),
    ;

    /// Whether a `get` right now would return `None`.
    fn is_empty(&self) -> (empty: bool)
        ensures
            empty == (self.contents().len() == 0),
            empty == (newest(self.contents()) is None),
    ;
}

/// Inserts `value` into any container of strings, whatever its kind.
pub fn add_value_to_container<T: Container<String>>(container: &mut T, value: String)
    ensures
        final(container).contents() == T::inserted(old(container).contents(), value),
        newest(final(container).contents()) == Some(value),
{
    container.put(value);
}

} // verus!
