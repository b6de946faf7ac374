//! A deck of playing cards: built in a fixed order, shuffled, and dealt from
//! the end.

use vstd::prelude::*;
use vstd::string::*;
use rand::seq::SliceRandom;
use crate::text::names;

verus! {

/// The name of the suit numbered `suit`, for `suit` from 0 to 3.
pub open spec fn suit_name(suit: int) -> Seq<char> {
    if suit == 0 {
        "Hearts"@
    } else if suit == 1 {
        "Diamonds"@
    } else if suit == 2 {
        "Clubs"@
    } else {
        "Spades"@
    }
}

/// The name of the card value numbered `value`, for `value` from 0 to 12.
pub open spec fn value_name(value: int) -> Seq<char> {
    if value == 0 {
        "Ace"@
    } else if value == 1 {
        "Two"@
    } else if value == 2 {
        "Three"@
    } else if value == 3 {
        "Four"@
    } else if value == 4 {
        "Five"@
    } else if value == 5 {
        "Six"@
    } else if value == 6 {
        "Seven"@
    } else if value == 7 {
        "Eight"@
    } else if value == 8 {
        "Nine"@
    } else if value == 9 {
        "Ten"@
    } else if value == 10 {
        "Jack"@
    } else if value == 11 {
        "Queen"@
    } else {
        "King"@
    }
}

/// The name of the card at position `position` of a new deck: the suits come
/// one after the other, and within a suit the values from ace to king.
pub open spec fn card_name(position: int) -> Seq<char> {
    value_name(position % 13) + " of "@ + suit_name(position / 13)
}

/// The 52 card names of a new deck, in order.
pub open spec fn fresh_cards() -> Seq<Seq<char>> {
    Seq::new(52, |position: int| card_name(position))
}

/// Cards by name; the last one is dealt first.
#[derive(Debug)]
pub struct Deck {
    pub cards: Vec<String>,
}

impl View for Deck {
    type V = Seq<Seq<char>>;

    open spec fn view(&self) -> Seq<Seq<char>> {
        names(self.cards@)
    }
}

fn suit_text(suit: usize) -> (text: &'static str)
    requires
        suit < 4,
    ensures
        text@ == suit_name(suit as int),
{
    if suit == 0 {
        "Hearts"
    } else if suit == 1 {
        "Diamonds"
    } else if suit == 2 {
        "Clubs"
    } else {
        "Spades"
    }
}

fn value_text(value: usize) -> (text: &'static str)
    requires
        value < 13,
    ensures
        text@ == value_name(value as int),
{
    if value == 0 {
        "Ace"
    } else if value == 1 {
        "Two"
    } else if value == 2 {
        "Three"
    } else if value == 3 {
        "Four"
    } else if value == 4 {
        "Five"
    } else if value == 5 {
        "Six"
    } else if value == 6 {
        "Seven"
    } else if value == 7 {
        "Eight"
    } else if value == 8 {
        "Nine"
    } else if value == 9 {
        "Ten"
    } else if value == 10 {
        "Jack"
    } else if value == 11 {
        "Queen"
    } else {
        "King"
    }
}

/// Reorders `cards` at random.
///
/// Calls `SliceRandom::shuffle` of `rand` with the thread's generator. The
/// source shows a run of swaps within the slice, so whatever the generator
/// yields the same strings are there afterwards, each as often as before.
/// Nothing is claimed of their order.
#[verifier::external_body]
fn shuffle_in_place(cards: &mut Vec<String>)
    ensures
        names(final(cards)@).to_multiset() == names(old(cards)@).to_multiset(),
        final(cards)@.len() == old(cards)@.len(),
{
    cards.shuffle(&mut rand::thread_rng());
}

impl Deck {
    /// A full deck in its fixed order.
    pub fn new() -> (deck: Self)
        ensures
            deck@ == fresh_cards(),
    {
        let mut cards: Vec<String> = Vec::new();
        let mut suit: usize = 0;
        while suit < 4
            invariant
                suit <= 4,
                cards@.len() == suit * 13,
                forall|k: int| 0 <= k < cards@.len() ==> #[trigger] cards@[k]@ == card_name(k),
            decreases 4 - suit,
        {
            let mut value: usize = 0;
            while value < 13
                invariant
                    suit < 4,
                    value <= 13,
                    cards@.len() == suit * 13 + value,
                    forall|k: int| 0 <= k < cards@.len() ==> #[trigger] cards@[k]@ == card_name(k),
                decreases 13 - value,
            {
                let mut card = String::from_str(value_text(value));
                card.append(" of ");
                card.append(suit_text(suit));
                cards.push(card);
                value += 1;
            }
            suit += 1;
        }
        assert(names(cards@) =~= fresh_cards());
        Deck { cards }
    }

    /// Puts the cards in a random order: the same cards, each as often as
    /// before.
    pub fn shuffle(&mut self)
        ensures
            final(self)@.to_multiset() == old(self)@.to_multiset(),
            final(self)@.len() == old(self)@.len(),
    {
        shuffle_in_place(&mut self.cards);
    }

    /// Takes `num_cards` cards off the end of the deck, or all of them where
    /// it has fewer, and returns them in the order they lay in.
    pub fn deal(&mut self, num_cards: usize) -> (dealt: Vec<String>)
        ensures
            dealt@.len() == dealt_count(old(self)@, num_cards),
            names(dealt@) == old(self)@.skip(old(self)@.len() - dealt_count(old(self)@, num_cards)),
            final(self)@ == old(self)@.take(old(self)@.len() - dealt_count(old(self)@, num_cards)),
    {
        let mut count = num_cards;
        if count > self.cards.len() {
            count = self.cards.len();
        }
        let keep = self.cards.len() - count;
        let dealt = self.cards.split_off(keep);
        assert(names(dealt@) =~= old(self)@.skip(keep as int));
        assert(names(self.cards@) =~= old(self)@.take(keep as int));
        dealt
    }
}

/// How many cards a deal of `num_cards` takes from `cards`.
pub open spec fn dealt_count(cards: Seq<Seq<char>>, num_cards: usize) -> int {
    if num_cards > cards.len() {
        cards.len() as int
    } else {
        num_cards as int
    }
}

} // verus!
