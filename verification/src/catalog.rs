//! The card catalog and the resolution of displayed names against it.

use crate::card::{card_of, excluded_layout, imported, is_excluded_layout, Card, ScryfallCard};
use crate::error::IngestError;
use crate::ids::{parse_uuid, uuid_of_text};
use crate::text::{chars_of, contains, has_substring_chars, matches_at, texts};
use vstd::prelude::*;

verus! {

/// A catalog card as the store keeps it: the card under its two identities.
#[derive(Debug, Clone, PartialEq, Eq)]
pub struct CardRow {
    pub card_id: u128,
    pub oracle_id: u128,
    pub card: Card,
}

/// The catalog: its rows, in the order they were stored.
#[derive(Debug, Clone, PartialEq, Eq)]
pub struct Catalog {
    pub rows: Vec<CardRow>,
}

impl View for Catalog {
    type V = Seq<CardRow>;

    open spec fn view(&self) -> Seq<CardRow> {
        self.rows@
    }
}

/// The row that a card is stored as, given what its two identities read as.
pub open spec fn row_from(card: Card, card_id: Option<u128>, oracle_id: Option<u128>) -> Option<
    CardRow,
> {
    match (card_id, oracle_id) {
        (Some(card_id), Some(oracle_id)) => Some(CardRow { card_id, oracle_id, card }),
        _ => None,
    }
}

/// The row that a card is stored as; none where an identity is no UUID.
pub open spec fn row_of(card: Card) -> Option<CardRow> {
    row_from(card, uuid_of_text(card.card_id@), uuid_of_text(card.oracle_id@))
}

/// All cards before position `upto` have a row.
pub open spec fn all_well_formed(cards: Seq<Card>, upto: int) -> bool {
    forall|i: int| 0 <= i < upto ==> (#[trigger] row_of(cards[i])) is Some
}

/// The rows that the cards of an import are stored as, in their order.
pub open spec fn rows_of(cards: Seq<Card>) -> Seq<CardRow> {
    cards.map_values(|card: Card| row_of(card)->0)
}

/// Every record of playable layout before position `upto` has a row.
pub open spec fn all_importable(records: Seq<ScryfallCard>, upto: int) -> bool {
    forall|i: int|
        0 <= i < upto && !excluded_layout((#[trigger] records[i]).layout@) ==> row_of(
            card_of(records[i]),
        ) is Some
}

/// A row answers a name: by equality, or when `fuzzy` by holding it as a part.
pub open spec fn hit(row: CardRow, name: Seq<char>, fuzzy: bool) -> bool {
    if fuzzy {
        contains(row.card.name@, name)
    } else {
        row.card.name@ == name
    }
}

/// Some row answers the name.
pub open spec fn has_hit(rows: Seq<CardRow>, name: Seq<char>, fuzzy: bool) -> bool {
    exists|i: int| 0 <= i < rows.len() && hit(#[trigger] rows[i], name, fuzzy)
}

/// Row `i` goes before row `j`: its identity is the smaller one, or the two
/// are the same and row `i` stands no later.
pub open spec fn preferred(rows: Seq<CardRow>, i: int, j: int) -> bool {
    rows[i].card_id < rows[j].card_id || (rows[i].card_id == rows[j].card_id && i <= j)
}

/// Row `i` answers the name and goes before every row under `upto` that answers it.
pub open spec fn is_best_among(
    rows: Seq<CardRow>,
    name: Seq<char>,
    fuzzy: bool,
    i: int,
    upto: int,
) -> bool {
    &&& 0 <= i < upto <= rows.len()
    &&& hit(rows[i], name, fuzzy)
    &&& forall|j: int|
        0 <= j < upto && hit(#[trigger] rows[j], name, fuzzy) ==> preferred(rows, i, j)
}

/// Row `i` answers the name, and of all rows that answer it, it has the
/// least identity.
pub open spec fn is_best_hit(rows: Seq<CardRow>, name: Seq<char>, fuzzy: bool, i: int) -> bool {
    is_best_among(rows, name, fuzzy, i, rows.len() as int)
}

/// The position of the row of least identity among those that answer the name.
pub open spec fn best_hit(rows: Seq<CardRow>, name: Seq<char>, fuzzy: bool) -> Option<int> {
    if has_hit(rows, name, fuzzy) {
        Some(choose|i: int| is_best_hit(rows, name, fuzzy, i))
    } else {
        None
    }
}

/// The position a name resolves to: the card of least identity among those
/// of that very name, else among those whose name holds it as a part.
pub open spec fn resolution(rows: Seq<CardRow>, name: Seq<char>) -> Option<int> {
    match best_hit(rows, name, false) {
        Some(i) => Some(i),
        None => best_hit(rows, name, true),
    }
}

/// Two catalogs hold the same rows, in whatever order and number.
pub open spec fn same_rows(a: Seq<CardRow>, b: Seq<CardRow>) -> bool {
    &&& forall|i: int| 0 <= i < a.len() ==> b.contains(#[trigger] a[i])
    &&& forall|j: int| 0 <= j < b.len() ==> a.contains(#[trigger] b[j])
}

/// Where a row under `upto` answers the name, one of them goes before the others.
proof fn lemma_best_among_exists(rows: Seq<CardRow>, name: Seq<char>, fuzzy: bool, upto: int)
    requires
        0 <= upto <= rows.len(),
        exists|j: int| 0 <= j < upto && hit(#[trigger] rows[j], name, fuzzy),
    ensures
        exists|k: int| is_best_among(rows, name, fuzzy, k, upto),
    decreases upto,
{
    let last = upto - 1;
    if exists|j: int| 0 <= j < last && hit(#[trigger] rows[j], name, fuzzy) {
        lemma_best_among_exists(rows, name, fuzzy, last);
        let k = choose|k: int| is_best_among(rows, name, fuzzy, k, last);
        if hit(rows[last], name, fuzzy) && rows[last].card_id < rows[k].card_id {
            assert(is_best_among(rows, name, fuzzy, last, upto));
        } else {
            assert(is_best_among(rows, name, fuzzy, k, upto));
        }
    } else {
        assert(is_best_among(rows, name, fuzzy, last, upto));
    }
}

/// Among rows that answer a name, one has the least identity.
pub proof fn lemma_best_hit_exists(rows: Seq<CardRow>, name: Seq<char>, fuzzy: bool, i: int)
    requires
        0 <= i < rows.len(),
        hit(rows[i], name, fuzzy),
    ensures
        exists|k: int| is_best_hit(rows, name, fuzzy, k) && rows[k].card_id <= rows[i].card_id,
{
    lemma_best_among_exists(rows, name, fuzzy, rows.len() as int);
    let k = choose|k: int| is_best_among(rows, name, fuzzy, k, rows.len() as int);
    assert(preferred(rows, k, i));
    assert(is_best_hit(rows, name, fuzzy, k));
}

/// `best_hit` is the one position that is a best hit, when there is any hit.
pub proof fn lemma_best_hit_is(rows: Seq<CardRow>, name: Seq<char>, fuzzy: bool, i: int)
    requires
        is_best_hit(rows, name, fuzzy, i),
    ensures
        best_hit(rows, name, fuzzy) == Some(i),
{
    assert(hit(rows[i], name, fuzzy));
    let k = choose|k: int| is_best_hit(rows, name, fuzzy, k);
    assert(is_best_hit(rows, name, fuzzy, k));
    assert(preferred(rows, i, k));
    assert(preferred(rows, k, i));
}

/// Builds the row of a card from what its two identities were read as.
pub fn card_row(card: Card, card_id: Option<u128>, oracle_id: Option<u128>) -> (row: Option<
    CardRow,
>)
    ensures
        row == row_from(card, card_id, oracle_id),
{
    match (card_id, oracle_id) {
        (Some(card_id), Some(oracle_id)) => Some(CardRow { card_id, oracle_id, card }),
        _ => None,
    }
}

/// Stores the cards of an import as the catalog, reading each card's two
/// identities as UUIDs. The first card with an identity that is no UUID
/// fails the whole import.
pub fn populate_card_table(cards: Vec<Card>) -> (stored: Result<Catalog, IngestError>)
    ensures
        match stored {
            Ok(catalog) => {
                &&& all_well_formed(cards@, cards@.len() as int)
                &&& catalog@ == rows_of(cards@)
            },
            Err(e) => exists|bad: usize|
                {
                    &&& e == (IngestError::MalformedCatalogRecord { index: bad })
                    &&& bad < cards@.len()
                    &&& all_well_formed(cards@, bad as int)
                    &&& row_of(cards@[bad as int]) is None
                },
        },
{
    let ghost all = cards@;
    let total: usize = cards.len();
    let mut rows: Vec<CardRow> = Vec::new();
    let mut at: usize = 0;
    for card in it: cards.into_iter()
        invariant
            it.seq() == all,
            at == it.index(),
            all.len() == total,
            all_well_formed(all, at as int),
            rows@ == rows_of(all.take(at as int)),
    {
        let card_id = parse_uuid(card.card_id.as_str());
        let oracle_id = parse_uuid(card.oracle_id.as_str());
        match card_row(card, card_id, oracle_id) {
            Some(row) => {
                rows.push(row);
                proof {
                    assert(rows_of(all.take(at + 1)) =~= rows_of(all.take(at as int)).push(row));
                }
            },
            None => {
                return Err(IngestError::MalformedCatalogRecord { index: at });
            },
        }
        at += 1;
    }
    proof {
        assert(all.take(all.len() as int) =~= all);
    }
    Ok(Catalog { rows })
}

/// Imports a snapshot as the catalog: the records of playable layout, each
/// stored as its card's row, in snapshot order. The first playable record
/// with an identity that is no UUID fails the whole import, and the error
/// names that record's position in the snapshot.
pub fn import_catalog(records: Vec<ScryfallCard>) -> (stored: Result<Catalog, IngestError>)
    ensures
        match stored {
            Ok(catalog) => {
                &&& all_importable(records@, records@.len() as int)
                &&& all_well_formed(imported(records@), imported(records@).len() as int)
                &&& catalog@ == rows_of(imported(records@))
            },
            Err(e) => exists|bad: usize|
                {
                    &&& e == (IngestError::MalformedCatalogRecord { index: bad })
                    &&& bad < records@.len()
                    &&& all_importable(records@, bad as int)
                    &&& !excluded_layout(records@[bad as int].layout@)
                    &&& row_of(card_of(records@[bad as int])) is None
                },
        },
{
    let ghost all = records@;
    let total: usize = records.len();
    let mut rows: Vec<CardRow> = Vec::new();
    let mut at: usize = 0;
    for record in it: records.into_iter()
        invariant
            it.seq() == all,
            at == it.index(),
            all.len() == total,
            all_importable(all, at as int),
            all_well_formed(
                imported(all.take(at as int)),
                imported(all.take(at as int)).len() as int,
            ),
            rows@ == rows_of(imported(all.take(at as int))),
    {
        let ghost done = imported(all.take(at as int));
        proof {
            let next = all.take(at + 1);
            assert(next.drop_last() =~= all.take(at as int));
            assert(next.last() == record);
            reveal(Seq::filter);
            assert(imported(next) =~= if excluded_layout(record.layout@) {
                done
            } else {
                done.push(card_of(record))
            });
        }
        if !is_excluded_layout(record.layout.as_str()) {
            let card = Card::from(record);
            let card_id = parse_uuid(card.card_id.as_str());
            let oracle_id = parse_uuid(card.oracle_id.as_str());
            match card_row(card, card_id, oracle_id) {
                Some(row) => {
                    rows.push(row);
                    proof {
                        assert(rows_of(done.push(card)) =~= rows_of(done).push(row));
                    }
                },
                None => {
                    return Err(IngestError::MalformedCatalogRecord { index: at });
                },
            }
        }
        at += 1;
    }
    proof {
        assert(all.take(all.len() as int) =~= all);
    }
    Ok(Catalog { rows })
}

impl Catalog {
    /// The row of least identity among those that answer `name`.
    fn lookup(&self, name: &str, fuzzy: bool) -> (found: Option<usize>)
        ensures
            match found {
                Some(i) => i < self@.len() && best_hit(self@, name@, fuzzy) == Some(i as int),
                None => best_hit(self@, name@, fuzzy) is None,
            },
    {
        let query = chars_of(name);
        let mut best: Option<usize> = None;
        let mut i: usize = 0;
        while i < self.rows.len()
            invariant
                i <= self.rows.len(),
                query@ == name@,
                match best {
                    Some(b) => is_best_among(self@, name@, fuzzy, b as int, i as int),
                    None => forall|j: int| 0 <= j < i ==> !hit(#[trigger] self@[j], name@, fuzzy),
                },
            decreases self.rows.len() - i,
        {
            let candidate = chars_of(self.rows[i].card.name.as_str());
            let answers = if fuzzy {
                has_substring_chars(&candidate, &query)
            } else {
                candidate.len() == query.len() && matches_at(&candidate, &query, 0)
            };
            proof {
                if !fuzzy && candidate.len() == query.len() {
                    assert(candidate@.subrange(0, candidate@.len() as int) =~= candidate@);
                }
            }
            if answers {
                best = match best {
                    Some(b) => if self.rows[i].card_id < self.rows[b].card_id {
                        Some(i)
                    } else {
                        Some(b)
                    },
                    None => Some(i),
                };
            }
            i += 1;
        }
        proof {
            if let Some(b) = best {
                lemma_best_hit_is(self@, name@, fuzzy, b as int);
            }
        }
        best
    }

    /// The card whose name equals `name`; of several, the one of least identity.
    pub fn lookup_exact(&self, name: &str) -> (found: Option<&CardRow>)
        ensures
            match best_hit(self@, name@, false) {
                Some(i) => 0 <= i < self@.len() && found == Some(&self@[i]),
                None => found is None,
            },
    {
        match self.lookup(name, false) {
            Some(i) => Some(&self.rows[i]),
            None => None,
        }
    }

    /// The card whose name holds `name` as a part; of several, the one of
    /// least identity.
    pub fn lookup_fuzzy(&self, name: &str) -> (found: Option<&CardRow>)
        ensures
            match best_hit(self@, name@, true) {
                Some(i) => 0 <= i < self@.len() && found == Some(&self@[i]),
                None => found is None,
            },
    {
        match self.lookup(name, true) {
            Some(i) => Some(&self.rows[i]),
            None => None,
        }
    }

    /// The identity of the card that a displayed name stands for: the card of
    /// that very name, else the card whose name holds it; of several such
    /// cards, the one of least identity, wherever in the catalog it stands.
    pub fn resolve(&self, raw_name: &str) -> (resolved: Result<u128, IngestError>)
        ensures
            match resolution(self@, raw_name@) {
                Some(i) => 0 <= i < self@.len() && resolved == Ok::<u128, IngestError>(
                    self@[i].card_id,
                ),
                None => resolved matches Err(IngestError::UnresolvableCardName { raw_name: n })
                    && n@ == raw_name@,
            },
    {
        match self.lookup_exact(raw_name) {
            Some(row) => Ok(row.card_id),
            None => match self.lookup_fuzzy(raw_name) {
                Some(row) => Ok(row.card_id),
                None => Err(IngestError::UnresolvableCardName { raw_name: raw_name.to_owned() }),
            },
        }
    }
}

/// Every name before position `upto` resolves.
pub open spec fn all_resolve(rows: Seq<CardRow>, names: Seq<Seq<char>>, upto: int) -> bool {
    forall|i: int| 0 <= i < upto ==> (#[trigger] resolution(rows, names[i])) is Some
}

/// The name at position `bad` is the first that does not resolve.
pub open spec fn first_unresolved(rows: Seq<CardRow>, names: Seq<Seq<char>>, bad: int) -> bool {
    &&& 0 <= bad < names.len()
    &&& all_resolve(rows, names, bad)
    &&& resolution(rows, names[bad]) is None
}

/// The identity that a resolving name stands for.
pub open spec fn resolved_id(rows: Seq<CardRow>, name: Seq<char>) -> u128 {
    rows[resolution(rows, name)->0].card_id
}

/// The identities that the names of a deck stand for, in order.
pub open spec fn resolved_ids(rows: Seq<CardRow>, names: Seq<Seq<char>>) -> Seq<u128> {
    names.map_values(|name: Seq<char>| resolved_id(rows, name))
}

/// Resolves the displayed names of one deck, in order. The first name that
/// no card answers fails the deck.
pub fn get_card_ids(catalog: &Catalog, cards: &Vec<String>) -> (resolved: Result<
    Vec<u128>,
    IngestError,
>)
    ensures
        match resolved {
            Ok(ids) => {
                &&& all_resolve(catalog@, texts(cards@), cards@.len() as int)
                &&& ids@ == resolved_ids(catalog@, texts(cards@))
            },
            Err(e) => exists|bad: int|
                {
                    &&& #[trigger] first_unresolved(catalog@, texts(cards@), bad)
                    &&& e matches IngestError::UnresolvableCardName { raw_name }
                    &&& raw_name@ == texts(cards@)[bad]
                },
        },
{
    let ghost names = texts(cards@);
    let mut ids: Vec<u128> = Vec::new();
    let mut i: usize = 0;
    while i < cards.len()
        invariant
            i <= cards.len(),
            names == texts(cards@),
            all_resolve(catalog@, names, i as int),
            ids@ == resolved_ids(catalog@, names.take(i as int)),
        decreases cards.len() - i,
    {
        match catalog.resolve(cards[i].as_str()) {
            Ok(id) => {
                ids.push(id);
                proof {
                    assert(names[i as int] == cards@[i as int]@);
                    assert(resolved_ids(catalog@, names.take(i + 1)) =~= resolved_ids(
                        catalog@,
                        names.take(i as int),
                    ).push(id));
                }
            },
            Err(e) => {
                proof {
                    assert(names[i as int] == cards@[i as int]@);
                    assert(first_unresolved(catalog@, names, i as int));
                }
                return Err(e);
            },
        }
        i += 1;
    }
    proof {
        assert(names.take(names.len() as int) =~= names);
    }
    Ok(ids)
}

/// A name that some card bears resolves to a card that bears it, the one
/// of least identity, whichever other cards hold the name as a part of theirs.
pub proof fn lemma_exact_name_resolves(rows: Seq<CardRow>, name: Seq<char>, i: int)
    requires
        0 <= i < rows.len(),
        rows[i].card.name@ == name,
    ensures
        resolution(rows, name) matches Some(k) && 0 <= k < rows.len() && rows[k].card.name@ == name
            && rows[k].card_id <= rows[i].card_id && is_best_hit(rows, name, false, k),
{
    lemma_best_hit_exists(rows, name, false, i);
    let k = choose|k: int|
        is_best_hit(rows, name, false, k) && rows[k].card_id <= rows[i].card_id;
    lemma_best_hit_is(rows, name, false, k);
}

/// A name that no card bears, but that some card's name holds as a part,
/// resolves to a card whose name holds it, the one of least identity.
pub proof fn lemma_part_of_name_resolves(rows: Seq<CardRow>, name: Seq<char>, i: int)
    requires
        forall|j: int| 0 <= j < rows.len() ==> (#[trigger] rows[j]).card.name@ != name,
        0 <= i < rows.len(),
        contains(rows[i].card.name@, name),
    ensures
        resolution(rows, name) matches Some(k) && 0 <= k < rows.len() && contains(
            rows[k].card.name@,
            name,
        ) && rows[k].card_id <= rows[i].card_id && is_best_hit(rows, name, true, k),
{
    assert(!has_hit(rows, name, false));
    lemma_best_hit_exists(rows, name, true, i);
    let k = choose|k: int|
        is_best_hit(rows, name, true, k) && rows[k].card_id <= rows[i].card_id;
    lemma_best_hit_is(rows, name, true, k);
}

/// Where every row of `a` is a row of `b`, the best answer in `b` has an
/// identity no larger than that of any answering row of `a`.
proof fn lemma_best_no_larger(
    a: Seq<CardRow>,
    b: Seq<CardRow>,
    name: Seq<char>,
    fuzzy: bool,
    i: int,
)
    requires
        forall|x: int| 0 <= x < a.len() ==> b.contains(#[trigger] a[x]),
        0 <= i < a.len(),
        hit(a[i], name, fuzzy),
    ensures
        best_hit(b, name, fuzzy) matches Some(k) && is_best_hit(b, name, fuzzy, k)
            && b[k].card_id <= a[i].card_id,
{
    assert(b.contains(a[i]));
    let j = choose|j: int| 0 <= j < b.len() && b[j] == a[i];
    lemma_best_hit_exists(b, name, fuzzy, j);
    let k = choose|k: int| is_best_hit(b, name, fuzzy, k) && b[k].card_id <= b[j].card_id;
    lemma_best_hit_is(b, name, fuzzy, k);
}

/// Two catalogs that hold the same rows give a name the same best answer.
proof fn lemma_best_hit_alike(a: Seq<CardRow>, b: Seq<CardRow>, name: Seq<char>, fuzzy: bool)
    requires
        same_rows(a, b),
    ensures
        best_hit(a, name, fuzzy) is Some <==> best_hit(b, name, fuzzy) is Some,
        best_hit(a, name, fuzzy) is Some ==> {
            &&& is_best_hit(a, name, fuzzy, best_hit(a, name, fuzzy)->0)
            &&& is_best_hit(b, name, fuzzy, best_hit(b, name, fuzzy)->0)
            &&& a[best_hit(a, name, fuzzy)->0].card_id == b[best_hit(b, name, fuzzy)->0].card_id
        },
{
    if has_hit(a, name, fuzzy) {
        let w = choose|w: int| 0 <= w < a.len() && hit(#[trigger] a[w], name, fuzzy);
        lemma_best_no_larger(a, b, name, fuzzy, w);
        let kb = best_hit(b, name, fuzzy)->0;
        lemma_best_no_larger(b, a, name, fuzzy, kb);
        let ka = best_hit(a, name, fuzzy)->0;
        lemma_best_no_larger(a, b, name, fuzzy, ka);
    } else if has_hit(b, name, fuzzy) {
        let w = choose|w: int| 0 <= w < b.len() && hit(#[trigger] b[w], name, fuzzy);
        lemma_best_no_larger(b, a, name, fuzzy, w);
    }
}

/// The order of the catalog does not matter: two catalogs that hold the
/// same rows resolve every name alike, to the same identity or not at all.
pub proof fn lemma_same_rows_resolve_alike(a: Seq<CardRow>, b: Seq<CardRow>, name: Seq<char>)
    requires
        same_rows(a, b),
    ensures
        resolution(a, name) is Some <==> resolution(b, name) is Some,
        resolution(a, name) is Some ==> resolved_id(a, name) == resolved_id(b, name),
{
    lemma_best_hit_alike(a, b, name, false);
    lemma_best_hit_alike(a, b, name, true);
}

/// Two catalogs that hold the same rows resolve every deck alike: to the
/// same identities, or with the same name as the first that fails.
pub proof fn lemma_same_rows_decks_alike(
    a: Seq<CardRow>,
    b: Seq<CardRow>,
    names: Seq<Seq<char>>,
    upto: int,
)
    requires
        same_rows(a, b),
        0 <= upto <= names.len(),
    ensures
        all_resolve(a, names, upto) <==> all_resolve(b, names, upto),
        upto < names.len() ==> (first_unresolved(a, names, upto) <==> first_unresolved(
            b,
            names,
            upto,
        )),
        all_resolve(a, names, names.len() as int) ==> resolved_ids(a, names) == resolved_ids(
            b,
            names,
        ),
{
    assert forall|i: int| 0 <= i < names.len() implies (resolution(a, #[trigger] names[i]) is Some
        <==> resolution(b, names[i]) is Some) && (resolution(a, names[i]) is Some ==> resolved_id(
        a,
        names[i],
    ) == resolved_id(b, names[i])) by {
        lemma_same_rows_resolve_alike(a, b, names[i]);
    }
    if all_resolve(a, names, names.len() as int) {
        assert(resolved_ids(a, names) =~= resolved_ids(b, names));
    }
}

/// A name that no card bears and no card's name holds as a part does not resolve.
pub proof fn lemma_unknown_name_fails(rows: Seq<CardRow>, name: Seq<char>)
    requires
        forall|j: int| 0 <= j < rows.len() ==> !contains((#[trigger] rows[j]).card.name@, name),
    ensures
        resolution(rows, name) is None,
{
    assert forall|j: int| 0 <= j < rows.len() implies !hit(#[trigger] rows[j], name, false) by {
        if rows[j].card.name@ == name {
            assert(rows[j].card.name@.subrange(0, 0 + name.len() as int) =~= name);
            assert(crate::text::occurs_at(rows[j].card.name@, name, 0));
        }
    }
}

} // verus!
