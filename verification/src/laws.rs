//! What holds of the containers over whole runs of `put` and `get`.
//!
//! A run is described on the abstract contents: `put_all` inserts a sequence
//! of values one after the other, `gets` lists what successive calls of `get`
//! return, and `after_gets` is what they leave behind.

use vstd::prelude::*;
use crate::basket::Basket;
use crate::container::{newest, without_newest, Container};
use crate::stack::Stack;

verus! {

/// The contents of a container of kind `C` that held `held` and then had each
/// of `values` inserted, first to last.
pub open spec fn put_all<T, C: Container<T>>(held: Seq<T>, values: Seq<T>) -> Seq<T>
    decreases values.len(),
{
    if values.len() == 0 {
        held
    } else {
        C::inserted(put_all::<T, C>(held, values.drop_last()), values.last())
    }
}

/// What `n` successive calls of `get` return on a container holding `held`.
pub open spec fn gets<T>(held: Seq<T>, n: nat) -> Seq<Option<T>>
    decreases n,
{
    if n == 0 {
        Seq::empty()
    } else {
        seq![newest(held)] + gets(without_newest(held), (n - 1) as nat)
    }
}

/// What a container holding `held` is left with after `n` calls of `get`.
pub open spec fn after_gets<T>(held: Seq<T>, n: nat) -> Seq<T>
    decreases n,
{
    if n == 0 {
        held
    } else {
        after_gets(without_newest(held), (n - 1) as nat)
    }
}

/// A basket never holds more than one value.
pub proof fn lemma_basket_holds_at_most_one<T>(basket: Basket<T>)
    ensures
        basket.contents().len() <= 1,
        basket.contents().len() == 1 <==> basket@ is Some,
{
}

/// Whatever a basket held, after any run of insertions it holds the last
/// value inserted and nothing else: it is not empty, and the next `get`
/// returns that value.
pub proof fn lemma_basket_last_put_wins<T>(held: Seq<T>, values: Seq<T>)
    requires
        values.len() > 0,
    ensures
        put_all::<T, Basket<T>>(held, values) == seq![values.last()],
        put_all::<T, Basket<T>>(held, values).len() != 0,
        newest(put_all::<T, Basket<T>>(held, values)) == Some(values.last()),
{
}

/// A basket is empty after a `get`, and a second `get` returns nothing.
pub proof fn lemma_basket_empty_after_get<T>(basket: Basket<T>)
    ensures
        without_newest(basket.contents()).len() == 0,
        newest(without_newest(basket.contents())) is None,
        gets(basket.contents(), 2) == seq![basket@, None],
{
    let held = basket.contents();
    let rest = without_newest(held);
    assert(gets(without_newest(rest), 0) == Seq::<Option<T>>::empty());
    assert(gets(rest, 1) == seq![newest(rest)] + gets(without_newest(rest), 0));
    assert(gets(held, 2) =~= seq![basket@, None]);
}

/// Inserting `values` into a stack appends them to what it held.
pub proof fn lemma_stack_put_all<T>(held: Seq<T>, values: Seq<T>)
    ensures
        put_all::<T, Stack<T>>(held, values) == held + values,
    decreases values.len(),
{
    if values.len() == 0 {
        assert(held + values =~= held);
    } else {
        lemma_stack_put_all(held, values.drop_last());
        assert((held + values.drop_last()).push(values.last()) =~= held + values);
    }
}

/// The `k`-th of `n` successive calls of `get` takes the `k`-th slot from the
/// top, and returns nothing once the container has run out. Each slot is thus
/// handed out by one call only, and the calls leave exactly the slots that
/// none of them took.
pub proof fn lemma_gets_take_each_slot_once<T>(held: Seq<T>, n: nat)
    ensures
        gets(held, n).len() == n,
        forall|k: int|
            0 <= k < n ==> #[trigger] gets(held, n)[k] == if k < held.len() {
                Some(held[held.len() - 1 - k])
            } else {
                None
            },
        after_gets(held, n) == held.take(
            if n <= held.len() {
                held.len() - n
            } else {
                0
            },
        ),
    decreases n,
{
    if n == 0 {
        assert(held.take(held.len() as int) =~= held);
    } else {
        let rest = without_newest(held);
        lemma_gets_take_each_slot_once(rest, (n - 1) as nat);
        let tail = gets(rest, (n - 1) as nat);
        assert forall|k: int| 0 <= k < n implies #[trigger] gets(held, n)[k] == if k < held.len() {
            Some(held[held.len() - 1 - k])
        } else {
            None
        } by {
            if k > 0 {
                assert(gets(held, n)[k] == tail[k - 1]);
            }
        }
        if held.len() == 0 {
            assert(rest.take(0) =~= held.take(0));
        } else if n <= held.len() {
            assert(rest.take(rest.len() - (n - 1)) =~= held.take(held.len() - n));
        } else {
            assert(rest.take(0) =~= held.take(0));
        }
    }
}

/// Last in, first out: after `values` have been inserted into a stack, as
/// many calls of `get` return them newest first, and leave the stack as it
/// was before the insertions.
pub proof fn lemma_stack_lifo<T>(held: Seq<T>, values: Seq<T>)
    ensures
        gets(put_all::<T, Stack<T>>(held, values), values.len()) == values.reverse().map_values(
            |v: T| Some(v),
        ),
        after_gets(put_all::<T, Stack<T>>(held, values), values.len()) == held,
{
    let full = held + values;
    let n = values.len();
    lemma_stack_put_all(held, values);
    lemma_gets_take_each_slot_once(full, n);
    assert(full.take(held.len() as int) =~= held);
    assert(gets(full, n) =~= values.reverse().map_values(|v: T| Some(v)));
}

/// A stack made from no values is empty; after one insertion it is not; and
/// after the `get` that takes the value out again it is empty once more.
pub proof fn lemma_stack_empty_put_get<T>(stack: Stack<T>, value: T)
    requires
        stack@.len() == 0,
    ensures
        stack.contents().len() == 0,
        Stack::<T>::inserted(stack.contents(), value).len() != 0,
        newest(Stack::<T>::inserted(stack.contents(), value)) == Some(value),
        without_newest(Stack::<T>::inserted(stack.contents(), value)).len() == 0,
{
}

} // verus!
