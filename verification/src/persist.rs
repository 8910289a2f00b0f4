//! The rows that an ingested deck becomes.

use crate::ids::{is_random_uuid, new_random_uuid};
use vstd::prelude::*;

verus! {

/// A deck as the store keeps it.
#[derive(Debug, Clone, PartialEq, Eq)]
pub struct Deck {
    pub deck_id: u128,
    pub url: String,
}

/// One card's place in one deck. A card that a deck shows twice has two.
#[derive(Debug, Clone, Copy, PartialEq, Eq, Structural)]
pub struct CardDeck {
    pub card_id: u128,
    pub deck_id: u128,
}

/// Everything one deck writes to the store. The rows belong together: the
/// store takes all of them or none.
#[derive(Debug, Clone, PartialEq, Eq)]
pub struct DeckWrite {
    pub deck: Deck,
    pub card_decks: Vec<CardDeck>,
}

/// The rows that place `cards` in the deck `deck_id`: one per entry, in order.
pub open spec fn associations(deck_id: u128, cards: Seq<u128>) -> Seq<CardDeck> {
    cards.map_values(|card_id: u128| CardDeck { card_id, deck_id })
}

/// How many times `card` stands in `cards`.
pub open spec fn copies(cards: Seq<u128>, card: u128) -> nat {
    cards.filter(|entry: u128| entry == card).len()
}

/// How many of `rows` place `card`.
pub open spec fn placements(rows: Seq<CardDeck>, card: u128) -> nat {
    rows.filter(|row: CardDeck| row.card_id == card).len()
}

/// The rows of a deck under a given identity.
pub fn deck_rows(deck_id: u128, deck_url: &str, card_ids: Vec<u128>) -> (write: DeckWrite)
    ensures
        write.deck.deck_id == deck_id,
        write.deck.url@ == deck_url@,
        write.card_decks@ == associations(deck_id, card_ids@),
{
    let mut card_decks: Vec<CardDeck> = Vec::new();
    let mut i: usize = 0;
    while i < card_ids.len()
        invariant
            i <= card_ids.len(),
            card_decks@ == associations(deck_id, card_ids@.take(i as int)),
        decreases card_ids.len() - i,
    {
        card_decks.push(CardDeck { card_id: card_ids[i], deck_id });
        proof {
            assert(card_decks@ =~= associations(deck_id, card_ids@.take(i + 1)));
        }
        i += 1;
    }
    proof {
        assert(card_ids@.take(card_ids@.len() as int) =~= card_ids@);
    }
    DeckWrite { deck: Deck { deck_id, url: deck_url.to_owned() }, card_decks }
}

/// The rows of a newly ingested deck: a deck row under a fresh random
/// identity, and one association row for every entry of `card_ids`.
pub fn add_deck(deck_url: &str, card_ids: Vec<u128>) -> (write: DeckWrite)
    ensures
        is_random_uuid(write.deck.deck_id),
        write.deck.url@ == deck_url@,
        write.card_decks@ == associations(write.deck.deck_id, card_ids@),
{
    let deck_uuid: u128 = new_random_uuid();
    deck_rows(deck_uuid, deck_url, card_ids)
}

/// Copies are kept: a deck's rows place each card as many times as the
/// deck's list names it.
pub proof fn lemma_copies_kept(deck_id: u128, cards: Seq<u128>, card: u128)
    ensures
        placements(associations(deck_id, cards), card) == copies(cards, card),
        associations(deck_id, cards).len() == cards.len(),
    decreases cards.len(),
{
    reveal(Seq::filter);
    if cards.len() > 0 {
        lemma_copies_kept(deck_id, cards.drop_last(), card);
        assert(associations(deck_id, cards).drop_last() =~= associations(
            deck_id,
            cards.drop_last(),
        ));
    }
}

} // verus!
