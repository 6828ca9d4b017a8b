//! The deck: the remaining face-down cards (`cards`, drawn from the
//! end) and the cards removed via `draw` (`drawn`, in draw order), with
//! the draw / play / reset lifecycle and its conservation laws.

use vstd::prelude::*;

use crate::card::{rank_from_index, standard_card, standard_deck, suit_from_index, Card};

use rand::seq::SliceRandom;

verus! {

pub struct Deck {
    pub cards: Vec<Card>,
    pub drawn: Vec<Card>,
}

/// Relies on rand's `SliceRandom::shuffle` (a Fisher-Yates shuffle):
/// it rearranges the slice in place into a permutation of the input,
/// neither adding nor removing elements.
#[verifier::external_body]
fn shuffle_cards(cards: &mut Vec<Card>)
    ensures
        final(cards)@.to_multiset() == old(cards)@.to_multiset(),
        final(cards)@.len() == old(cards)@.len(),
{
    cards.as_mut_slice().shuffle(&mut rand::rng());
}

/// One logical draw: move the top (last) remaining card, if any, to the
/// end of the drawn sequence.
pub open spec fn spec_draw(cards: Seq<Card>, drawn: Seq<Card>) -> (Seq<Card>, Seq<Card>) {
    if cards.len() == 0 {
        (cards, drawn)
    } else {
        (cards.drop_last(), drawn.push(cards.last()))
    }
}

/// `n` successive draws, first draw first.
pub open spec fn spec_draw_n(cards: Seq<Card>, drawn: Seq<Card>, n: nat) -> (Seq<Card>, Seq<Card>)
    decreases n,
{
    if n == 0 {
        (cards, drawn)
    } else {
        let first = spec_draw(cards, drawn);
        spec_draw_n(first.0, first.1, (n - 1) as nat)
    }
}

impl Deck {
    /// All remaining (undealt, undrawn) cards; the end is the top.
    pub fn get_cards(&self) -> (r: &Vec<Card>)
        ensures
            r@ == self.cards@,
    {
        &self.cards
    }

    /// The cards removed via `draw`, in draw order.
    pub fn get_drawn_cards(&self) -> (r: &Vec<Card>)
        ensures
            r@ == self.drawn@,
    {
        &self.drawn
    }

    /// The 52-card standard deck in construction order, all face-down.
    fn populate() -> (v: Vec<Card>)
        ensures
            v@ == standard_deck(),
    {
        let mut cards: Vec<Card> = Vec::new();
        let mut k: u8 = 0;
        while k < 52
            invariant
                k <= 52,
                cards@.len() == k as int,
                forall|i: int| 0 <= i < k as int ==> cards@[i] == standard_card(i),
            decreases 52 - k as int,
        {
            let suit = suit_from_index(k / 13);
            let rank = rank_from_index(k % 13);
            cards.push(Card { rank, suit, flipped: true });
            k = k + 1;
        }
        assert(cards@ =~= standard_deck());
        cards
    }

    /// A full 52-card deck, shuffled, nothing drawn yet. The shuffle
    /// order is random; what is certain is that the cards are exactly
    /// the 52 standard identities, each face-down.
    pub fn new() -> (d: Deck)
        ensures
            d.cards@.to_multiset() == standard_deck().to_multiset(),
            d.cards@.len() == 52,
            d.drawn@.len() == 0,
    {
        let mut deck = Deck { cards: Deck::populate(), drawn: Vec::new() };
        deck.shuffle();
        deck
    }

    /// Random in-place permutation of the remaining cards: the multiset
    /// of cards is invariant, the drawn pile untouched.
    pub fn shuffle(&mut self)
        ensures
            final(self).cards@.to_multiset() == old(self).cards@.to_multiset(),
            final(self).cards@.len() == old(self).cards@.len(),
            final(self).drawn == old(self).drawn,
    {
        shuffle_cards(&mut self.cards);
    }

    /// Pop the top remaining card for dealing; no drawn-tracking.
    pub fn play(&mut self) -> (r: Option<Card>)
        ensures
            old(self).cards@.len() == 0 ==> r is None && final(self).cards@ == old(self).cards@
                && final(self).drawn == old(self).drawn,
            old(self).cards@.len() > 0 ==> {
                &&& r == Some(old(self).cards@.last())
                &&& final(self).cards@ == old(self).cards@.drop_last()
                &&& final(self).drawn == old(self).drawn
            },
    {
        self.cards.pop()
    }

    /// Pop the most recently drawn card.
    pub fn play_drawn(&mut self) -> (r: Option<Card>)
        ensures
            old(self).drawn@.len() == 0 ==> r is None && final(self).drawn@ == old(self).drawn@
                && final(self).cards == old(self).cards,
            old(self).drawn@.len() > 0 ==> {
                &&& r == Some(old(self).drawn@.last())
                &&& final(self).drawn@ == old(self).drawn@.drop_last()
                &&& final(self).cards == old(self).cards
            },
    {
        self.drawn.pop()
    }

    /// Pop the top remaining card and record it at the end of the drawn
    /// sequence; `None` exactly when no card remains.
    pub fn draw(&mut self) -> (r: Option<Card>)
        ensures
            (final(self).cards@, final(self).drawn@) == spec_draw(
                old(self).cards@,
                old(self).drawn@,
            ),
            old(self).cards@.len() == 0 ==> r is None,
            old(self).cards@.len() > 0 ==> r == Some(old(self).cards@.last()),
    {
        let card = self.cards.pop();
        if let Some(c) = card {
            self.drawn.push(c);
        }
        card
    }

    /// Restore the drawn cards, in reverse draw order, as the remaining
    /// cards of a new pass; the drawn pile becomes empty.
    pub fn reset(&mut self)
        ensures
            final(self).cards@ == old(self).drawn@.reverse(),
            final(self).drawn@.len() == 0,
    {
        let n = self.drawn.len();
        let mut new_cards: Vec<Card> = Vec::new();
        let mut i: usize = n;
        while i > 0
            invariant
                i <= n,
                n == self.drawn@.len(),
                new_cards@.len() == n - i,
                forall|j: int| 0 <= j < n - i ==> new_cards@[j] == self.drawn@[n - 1 - j],
            decreases i,
        {
            new_cards.push(self.drawn[i - 1]);
            i = i - 1;
        }
        assert(new_cards@ =~= self.drawn@.reverse());
        self.cards = new_cards;
        self.drawn.clear();
    }

    /// Whether no card remains to play or draw.
    pub fn is_empty(&self) -> (r: bool)
        ensures
            r == (self.cards@.len() == 0),
    {
        self.cards.len() == 0
    }
}

impl Default for Deck {
    /// Same as `Deck::new`: a shuffled full deck.
    fn default() -> (d: Deck)
        ensures
            d.cards@.to_multiset() == standard_deck().to_multiset(),
            d.cards@.len() == 52,
            d.drawn@.len() == 0,
    {
        Deck::new()
    }
}

/// Any permutation of the standard deck — a fresh `Deck::new`, or one
/// after any number of shuffles — holds 52 cards and each of the 52
/// standard identities exactly once.
pub proof fn lemma_full_deck_each_card_once(cards: Seq<Card>)
    requires
        cards.to_multiset() == standard_deck().to_multiset(),
    ensures
        cards.len() == 52,
        forall|k: int|
            0 <= k < 52 ==> cards.to_multiset().count(#[trigger] standard_card(k)) == 1,
{
    broadcast use vstd::seq_lib::group_to_multiset_ensures;

    crate::card::lemma_standard_deck_distinct();
    assert(cards.len() == cards.to_multiset().len());
    assert(standard_deck().len() == standard_deck().to_multiset().len());
    assert(standard_deck().no_duplicates());
    standard_deck().lemma_multiset_has_no_duplicates();
    assert forall|k: int|
        0 <= k < 52 implies cards.to_multiset().count(#[trigger] standard_card(k)) == 1 by {
        assert(standard_deck()[k] == standard_card(k));
        assert(standard_deck().contains(standard_card(k)));
        assert(standard_deck().to_multiset().contains(standard_card(k)));
    }
}

/// Drawing every remaining card, one at a time, appends exactly the
/// reverse of the remaining sequence to the drawn sequence and leaves
/// no card remaining.
pub proof fn lemma_draw_all(cards: Seq<Card>, drawn: Seq<Card>)
    ensures
        spec_draw_n(cards, drawn, cards.len()).0 == Seq::<Card>::empty(),
        spec_draw_n(cards, drawn, cards.len()).1 == drawn + cards.reverse(),
    decreases cards.len(),
{
    if cards.len() == 0 {
        assert(spec_draw_n(cards, drawn, 0).0 =~= Seq::<Card>::empty());
        assert(spec_draw_n(cards, drawn, 0).1 =~= drawn + cards.reverse());
    } else {
        let first = spec_draw(cards, drawn);
        lemma_draw_all(first.0, first.1);
        assert(first.0 == cards.drop_last());
        assert(spec_draw_n(cards, drawn, cards.len()).1 == drawn.push(cards.last())
            + cards.drop_last().reverse());
        assert(drawn.push(cards.last()) + cards.drop_last().reverse() =~= drawn
            + cards.reverse());
    }
}

/// Round trip: draw all cards, reset, draw all again. Both passes yield
/// the same drawn sequence, and the reset restores the original
/// remaining sequence with nothing drawn.
pub proof fn lemma_draw_reset_roundtrip(cards: Seq<Card>)
    ensures
        ({
            let first_pass = spec_draw_n(cards, Seq::<Card>::empty(), cards.len());
            let reset_cards = first_pass.1.reverse();
            let second_pass = spec_draw_n(reset_cards, Seq::<Card>::empty(), reset_cards.len());
            &&& first_pass.0.len() == 0
            &&& first_pass.1 == cards.reverse()
            &&& reset_cards == cards
            &&& second_pass.1 == first_pass.1
        }),
{
    lemma_draw_all(cards, Seq::<Card>::empty());
    let first_pass = spec_draw_n(cards, Seq::<Card>::empty(), cards.len());
    assert(first_pass.1 =~= cards.reverse());
    assert(cards.reverse().reverse() =~= cards);
    lemma_draw_all(cards, Seq::<Card>::empty());
    lemma_draw_all(cards.reverse().reverse(), Seq::<Card>::empty());
}

} // verus!
