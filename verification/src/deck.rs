//! A deck: its name and its cards, in order.

use vstd::prelude::*;

verus! {

/// One card of a deck. A side without an image has no URL.
#[derive(Debug, PartialEq, Eq)]
pub struct Card {
    pub name: String,
    pub front_url: Option<String>,
    pub back_url: Option<String>,
}

/// A named deck. The cards stand in the order in which the deck lists them.
#[derive(Debug, PartialEq, Eq)]
pub struct Deck {
    pub name: String,
    pub cards: Vec<Card>,
}

/// What a `Card` holds.
pub struct CardView {
    pub name: Seq<char>,
    pub front_url: Option<Seq<char>>,
    pub back_url: Option<Seq<char>>,
}

/// What a `Deck` holds.
pub struct DeckView {
    pub name: Seq<char>,
    pub cards: Seq<CardView>,
}

/// What an optional text holds.
pub open spec fn text_view(text: Option<String>) -> Option<Seq<char>> {
    match text {
        Some(text) => Some(text@),
        None => None,
    }
}

impl View for Card {
    type V = CardView;

    open spec fn view(&self) -> CardView {
        CardView {
            name: self.name@,
            front_url: text_view(self.front_url),
            back_url: text_view(self.back_url),
        }
    }
}

impl DeepView for Card {
    type V = CardView;

    open spec fn deep_view(&self) -> CardView {
        self@
    }
}

impl View for Deck {
    type V = DeckView;

    open spec fn view(&self) -> DeckView {
        DeckView { name: self.name@, cards: self.cards.deep_view() }
    }
}

/// A copy of an optional text.
pub fn copy_text(text: &Option<String>) -> (copy: Option<String>)
    ensures
        text_view(copy) == text_view(*text),
{
    match text {
        Some(text) => Some(text.clone()),
        None => None,
    }
}

impl Clone for Card {
    fn clone(&self) -> (copy: Card)
        ensures
            copy@ == self@,
    {
        Card {
            name: self.name.clone(),
            front_url: copy_text(&self.front_url),
            back_url: copy_text(&self.back_url),
        }
    }
}

impl Clone for Deck {
    fn clone(&self) -> (copy: Deck)
        ensures
            copy@ == self@,
    {
        let mut cards: Vec<Card> = Vec::new();
        let mut i: usize = 0;
        while i < self.cards.len()
            invariant
                i <= self.cards.len(),
                cards.len() == i,
                forall|k: int| 0 <= k < i ==> cards@[k]@ == self.cards@[k]@,
            decreases self.cards.len() - i,
        {
            cards.push(self.cards[i].clone());
            i += 1;
        }
        assert(cards.deep_view() =~= self.cards.deep_view());
        Deck { name: self.name.clone(), cards }
    }
}

} // verus!
