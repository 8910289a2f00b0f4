//! What the deck site's pages mean: which links of the index are decks, and
//! which names a deck page shows.

use crate::text::{has_prefix, starts_with, texts};
use vstd::prelude::*;

verus! {

/// The site's origin; deck links are relative to it.
pub const AETHERHUB_URL: &'static str = "https://aetherhub.com";

/// The index page that lists the decks.
pub const INDEX_URL: &'static str = "https://aetherhub.com/Decks/Historic-Brawl/";

/// The element id of the index page's deck table.
pub const DECK_TABLE_ID: &'static str = "metaHubTable";

/// The tag of the deck table's body.
pub const TABLE_BODY_TAG: &'static str = "tbody";

/// The tag of the anchors in the deck table.
pub const ANCHOR_TAG: &'static str = "a";

/// The attribute that holds an anchor's address.
pub const ADDRESS_ATTRIBUTE: &'static str = "href";

/// A link of the index is a deck exactly when it begins with this.
pub const DECK_PREFIX: &'static str = "/Deck";

/// Selects the container of a deck page's visual view.
pub const VISUAL_VIEW_SELECTOR: &'static str = "div[id^=tab_visual]";

/// The class that marks a card of the visual view.
pub const CARD_LINK_CLASS: &'static str = "cardLink";

/// The attribute that holds a card's displayed name.
pub const CARD_NAME_ATTRIBUTE: &'static str = "data-card-name";

/// Stands for the address of an anchor that has none.
pub const MISSING_URL: &'static str = "whoops no url";

/// Stands for the name of a card element that has none.
pub const MISSING_NAME: &'static str = "no card name";

/// The text of an attribute, or `fallback` where the element has none.
pub open spec fn text_or(attribute: Option<String>, fallback: Seq<char>) -> Seq<char> {
    match attribute {
        Some(text) => text@,
        None => fallback,
    }
}

/// The texts of a list of attributes, each absent one replaced by `fallback`.
pub open spec fn texts_or(attributes: Seq<Option<String>>, fallback: Seq<char>) -> Seq<Seq<char>> {
    attributes.map_values(|attribute: Option<String>| text_or(attribute, fallback))
}

/// A link that leads to a deck.
pub open spec fn is_deck_link(link: Seq<char>) -> bool {
    starts_with(link, DECK_PREFIX@)
}

/// The deck links among the links of the index, in page order.
pub open spec fn deck_links(links: Seq<Seq<char>>) -> Seq<Seq<char>> {
    links.filter(|link: Seq<char>| is_deck_link(link))
}

/// The text of an attribute that was read, or `fallback` where it is absent.
pub fn attribute_or(attribute: &Option<String>, fallback: &str) -> (text: String)
    ensures
        text@ == text_or(*attribute, fallback@),
{
    match attribute {
        Some(text) => text.clone(),
        None => fallback.to_owned(),
    }
}

/// The texts of the attributes read from a list of elements, in their order.
pub fn attributes_or(attributes: &Vec<Option<String>>, fallback: &str) -> (out: Vec<String>)
    ensures
        texts(out@) == texts_or(attributes@, fallback@),
{
    let mut out: Vec<String> = Vec::new();
    let mut i: usize = 0;
    while i < attributes.len()
        invariant
            i <= attributes.len(),
            texts(out@) == texts_or(attributes@.take(i as int), fallback@),
        decreases attributes.len() - i,
    {
        let ghost before = out@;
        let text = attribute_or(&attributes[i], fallback);
        out.push(text);
        proof {
            assert(attributes@.take(i + 1).drop_last() =~= attributes@.take(i as int));
            assert(out@.drop_last() =~= before);
            assert(texts(out@) =~= texts(before).push(text@));
            assert(texts_or(attributes@.take(i + 1), fallback@) =~= texts_or(
                attributes@.take(i as int),
                fallback@,
            ).push(text@));
        }
        i += 1;
    }
    proof {
        assert(attributes@.take(attributes@.len() as int) =~= attributes@);
    }
    out
}

/// The deck links of the index, from the `href` attributes of its table's
/// anchors: those that begin with the deck prefix, in table order. Links to
/// anything else, and anchors without an address, are left out.
pub fn scrape(hrefs: &Vec<Option<String>>) -> (deck_urls: Vec<String>)
    ensures
        texts(deck_urls@) == deck_links(texts_or(hrefs@, MISSING_URL@)),
{
    let urls = attributes_or(hrefs, MISSING_URL);
    let ghost all = texts(urls@);
    let mut deck_urls: Vec<String> = Vec::new();
    let mut i: usize = 0;
    while i < urls.len()
        invariant
            i <= urls.len(),
            all == texts(urls@),
            all.len() == urls.len(),
            texts(deck_urls@) == deck_links(all.take(i as int)),
        decreases urls.len() - i,
    {
        let ghost before = deck_urls@;
        proof {
            let next = all.take(i + 1);
            assert(next.drop_last() =~= all.take(i as int));
            assert(next.last() == urls@[i as int]@);
            reveal(Seq::filter);
            assert(deck_links(next) =~= if is_deck_link(urls@[i as int]@) {
                deck_links(all.take(i as int)).push(urls@[i as int]@)
            } else {
                deck_links(all.take(i as int))
            });
        }
        if has_prefix(urls[i].as_str(), DECK_PREFIX) {
            deck_urls.push(urls[i].clone());
            proof {
                assert(deck_urls@.drop_last() =~= before);
                assert(texts(deck_urls@) =~= texts(before).push(urls@[i as int]@));
            }
        }
        i += 1;
    }
    proof {
        assert(all.take(all.len() as int) =~= all);
    }
    deck_urls
}

/// The deck links that a sweep of the index visits, in table order.
pub fn scrape_aetherhub_urls(hrefs: &Vec<Option<String>>) -> (deck_urls: Vec<String>)
    ensures
        texts(deck_urls@) == deck_links(texts_or(hrefs@, MISSING_URL@)),
{
    scrape(hrefs)
}

/// The absolute address of a deck page: the site's origin, then the deck's link.
pub fn deck_page_url(deck_url: &str) -> (full_url: String)
    ensures
        full_url@ == AETHERHUB_URL@ + deck_url@,
{
    AETHERHUB_URL.to_owned().concat(deck_url)
}

/// The card names a deck page displays, from the name attributes of the
/// card elements of its visual view, in page order.
pub fn get_aetherhub_decklist(names: &Vec<Option<String>>) -> (cards: Vec<String>)
    ensures
        texts(cards@) == texts_or(names@, MISSING_NAME@),
{
    attributes_or(names, MISSING_NAME)
}

} // verus!
