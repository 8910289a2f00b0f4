//! Reference cards: the records of a catalog snapshot and the cards kept from it.

use crate::text::same_text;
use vstd::prelude::*;

verus! {

/// The two format verdicts a snapshot record carries, as the snapshot words them.
#[derive(Debug, Clone, PartialEq, Eq)]
pub struct Legalities {
    pub brawl: String,
    pub historicbrawl: String,
}

/// One record of the catalog snapshot.
///
/// `cmc` holds the mana value as the bit pattern of its single-precision number.
#[derive(Debug, Clone, PartialEq, Eq)]
pub struct ScryfallCard {
    pub id: String,
    pub oracle_id: String,
    pub name: String,
    pub mana_cost: Option<String>,
    pub cmc: u32,
    pub type_line: String,
    pub oracle_text: Option<String>,
    pub colors: Option<Vec<String>>,
    pub color_identity: Vec<String>,
    pub scryfall_uri: String,
    pub legalities: Legalities,
    pub layout: String,
}

/// A card of the catalog.
#[derive(Debug, Clone, PartialEq, Eq)]
pub struct Card {
    pub card_id: String,
    pub oracle_id: String,
    pub name: String,
    pub mana_cost: Option<String>,
    pub cmc: u32,
    pub type_line: String,
    pub oracle_text: Option<String>,
    pub colors: Option<Vec<String>>,
    pub color_identity: Vec<String>,
    pub scryfall_uri: String,
    pub legal_brawl: bool,
    pub legal_historic: bool,
}

/// A verdict permits play exactly when it is the word "legal".
pub open spec fn permits(verdict: Seq<char>) -> bool {
    verdict == "legal"@
}

/// The layouts of records that are no playable cards.
pub open spec fn excluded_layout(layout: Seq<char>) -> bool {
    ||| layout == "planar"@
    ||| layout == "scheme"@
    ||| layout == "vanguard"@
    ||| layout == "token"@
    ||| layout == "double_faced_token"@
    ||| layout == "emblem"@
    ||| layout == "augment"@
    ||| layout == "host"@
    ||| layout == "art_series"@
    ||| layout == "reversible_card"@
}

/// The card that a snapshot record becomes.
pub open spec fn card_of(record: ScryfallCard) -> Card {
    Card {
        card_id: record.id,
        oracle_id: record.oracle_id,
        name: record.name,
        mana_cost: record.mana_cost,
        cmc: record.cmc,
        type_line: record.type_line,
        oracle_text: record.oracle_text,
        colors: record.colors,
        color_identity: record.color_identity,
        scryfall_uri: record.scryfall_uri,
        legal_brawl: permits(record.legalities.brawl@),
        legal_historic: permits(record.legalities.historicbrawl@),
    }
}

/// The records of playable layout, in snapshot order.
pub open spec fn playable(records: Seq<ScryfallCard>) -> Seq<ScryfallCard> {
    records.filter(|record: ScryfallCard| !excluded_layout(record.layout@))
}

/// The cards kept from a snapshot: the card of each playable record, in snapshot order.
pub open spec fn imported(records: Seq<ScryfallCard>) -> Seq<Card> {
    playable(records).map_values(|record: ScryfallCard| card_of(record))
}

/// Whether a verdict permits play.
pub fn is_legal(verdict: &str) -> (legal: bool)
    ensures
        legal == permits(verdict@),
{
    same_text(verdict, "legal")
}

/// Whether records of this layout are left out of the catalog.
pub fn is_excluded_layout(layout: &str) -> (excluded: bool)
    ensures
        excluded == excluded_layout(layout@),
{
    same_text(layout, "planar") || same_text(layout, "scheme") || same_text(layout, "vanguard")
        || same_text(layout, "token") || same_text(layout, "double_faced_token") || same_text(
        layout,
        "emblem",
    ) || same_text(layout, "augment") || same_text(layout, "host") || same_text(
        layout,
        "art_series",
    ) || same_text(layout, "reversible_card")
}

impl From<ScryfallCard> for Card {
    fn from(c: ScryfallCard) -> (card: Card) {
        let legal_brawl = is_legal(c.legalities.brawl.as_str());
        let legal_historic = is_legal(c.legalities.historicbrawl.as_str());
        Card {
            card_id: c.id,
            oracle_id: c.oracle_id,
            name: c.name,
            mana_cost: c.mana_cost,
            cmc: c.cmc,
            type_line: c.type_line,
            oracle_text: c.oracle_text,
            colors: c.colors,
            color_identity: c.color_identity,
            scryfall_uri: c.scryfall_uri,
            legal_brawl,
            legal_historic,
        }
    }
}

impl vstd::std_specs::convert::FromSpecImpl<ScryfallCard> for Card {
    open spec fn obeys_from_spec() -> bool {
        true
    }

    open spec fn from_spec(c: ScryfallCard) -> Card {
        card_of(c)
    }
}

/// Keeps the playable records of a snapshot and turns each into its card.
pub fn get_legal_cards(records: Vec<ScryfallCard>) -> (cards: Vec<Card>)
    ensures
        cards@ == imported(records@),
{
    let ghost all = records@;
    let mut cards: Vec<Card> = Vec::new();
    for record in it: records.into_iter()
        invariant
            it.seq() == all,
            cards@ == imported(all.take(it.index() as int)),
    {
        proof {
            let done = all.take(it.index() as int);
            let next = all.take(it.index() + 1);
            assert(next.drop_last() =~= done);
            assert(next.last() == record);
            reveal(Seq::filter);
            assert(imported(next) =~= if excluded_layout(record.layout@) {
                imported(done)
            } else {
                imported(done).push(card_of(record))
            });
        }
        if !is_excluded_layout(record.layout.as_str()) {
            cards.push(Card::from(record));
        }
    }
    proof {
        assert(all.take(all.len() as int) =~= all);
    }
    cards
}

/// Every record among the playable ones is a record of the snapshot.
proof fn lemma_playable_from(records: Seq<ScryfallCard>, i: int)
    requires
        0 <= i < playable(records).len(),
    ensures
        exists|j: int| 0 <= j < records.len() && #[trigger] records[j] == playable(records)[i],
    decreases records.len(),
{
    reveal(Seq::filter);
    if records.len() > 0 {
        let front = records.drop_last();
        if i < playable(front).len() {
            lemma_playable_from(front, i);
            let j = choose|j: int| 0 <= j < front.len() && #[trigger] front[j] == playable(front)[i];
            assert(records[j] == front[j]);
        } else {
            assert(records[records.len() - 1] == playable(records)[i]);
        }
    }
}

/// Every imported card comes from a snapshot record of playable layout, and
/// its two legality flags say whether that record's verdicts are "legal".
pub proof fn lemma_imported_card_source(records: Seq<ScryfallCard>, i: int)
    requires
        0 <= i < imported(records).len(),
    ensures
        exists|j: int|
            {
                &&& 0 <= j < records.len()
                &&& !excluded_layout((#[trigger] records[j]).layout@)
                &&& imported(records)[i] == card_of(records[j])
                &&& imported(records)[i].legal_brawl == (records[j].legalities.brawl@ == "legal"@)
                &&& imported(records)[i].legal_historic == (records[j].legalities.historicbrawl@
                    == "legal"@)
            },
{
    let keep = |record: ScryfallCard| !excluded_layout(record.layout@);
    lemma_playable_from(records, i);
    records.lemma_filter_pred(keep, i);
    let j = choose|j: int| 0 <= j < records.len() && #[trigger] records[j] == playable(records)[i];
    assert(!excluded_layout(records[j].layout@));
}

/// A record of excluded layout leaves no trace: the import is the same with
/// or without it, wherever in the snapshot it stands.
pub proof fn lemma_excluded_record_dropped(
    before: Seq<ScryfallCard>,
    record: ScryfallCard,
    after: Seq<ScryfallCard>,
)
    requires
        excluded_layout(record.layout@),
    ensures
        imported(before + seq![record] + after) == imported(before + after),
{
    let keep = |record: ScryfallCard| !excluded_layout(record.layout@);
    Seq::filter_distributes_over_add(before + seq![record], after, keep);
    Seq::filter_distributes_over_add(before, seq![record], keep);
    Seq::filter_distributes_over_add(before, after, keep);
    reveal_with_fuel(Seq::filter, 2);
    assert(seq![record].drop_last() =~= Seq::<ScryfallCard>::empty());
    assert(seq![record].filter(keep) =~= Seq::<ScryfallCard>::empty());
    assert(before.filter(keep) + Seq::<ScryfallCard>::empty() =~= before.filter(keep));
}

} // verus!
