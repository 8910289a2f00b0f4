use brawl_hub::card::{Legalities, ScryfallCard};
use brawl_hub::catalog::{import_catalog, Catalog};
use brawl_hub::error::IngestError;
use brawl_hub::persist::{add_deck, CardDeck};
use brawl_hub::pipeline::{Action, Event, Phase, Run, ScrapedDeck};

const ELVES: u128 = 0x280f2a85_1900_460b_a768_164fc2dea636;

fn elves_catalog() -> Catalog {
    let record = ScryfallCard {
        id: "280f2a85-1900-460b-a768-164fc2dea636".to_string(),
        oracle_id: "a17c6086-2b4e-4974-a67a-0ddc4d321c43".to_string(),
        name: "Llanowar Elves".to_string(),
        mana_cost: Some("{G}".to_string()),
        cmc: 1.0f32.to_bits(),
        type_line: "Creature — Elf Druid".to_string(),
        oracle_text: Some("{T}: Add {G}.".to_string()),
        colors: Some(vec!["G".to_string()]),
        color_identity: vec!["G".to_string()],
        scryfall_uri: "https://scryfall.com/card/elves".to_string(),
        legalities: Legalities { brawl: "legal".to_string(), historicbrawl: "legal".to_string() },
        layout: "normal".to_string(),
    };
    import_catalog(vec![record]).unwrap()
}

fn names(texts: &[&str]) -> Vec<Option<String>> {
    texts.iter().map(|t| Some(t.to_string())).collect()
}

fn run_reading_index(catalog: &Catalog) -> Run {
    let (mut run, first) = Run::start();
    assert_eq!(first, Action::OpenSession);
    assert_eq!(run.phase, Phase::Opening);
    assert_eq!(run.step(catalog, Event::SessionOpened), Action::ReadIndex);
    assert_eq!(run.phase, Phase::ReadingIndex);
    run
}

#[test]
fn one_deck_of_two_elves_end_to_end() {
    let catalog = elves_catalog();
    assert!(catalog.rows[0].card.legal_brawl);
    let mut run = run_reading_index(&catalog);

    let action = run.step(&catalog, Event::IndexRead { hrefs: names(&["/Deck/elves-aggro"]) });
    assert_eq!(
        action,
        Action::ReadDeck { full_url: "https://aetherhub.com/Deck/elves-aggro".to_string() }
    );

    let action =
        run.step(&catalog, Event::DeckRead { names: names(&["Llanowar Elves", "Llanowar Elves"]) });
    let deck = match action {
        Action::StoreDeck { deck } => deck,
        other => panic!("{}", format!("{other:?}")),
    };
    assert_eq!(deck, ScrapedDeck { url: "/Deck/elves-aggro".to_string(), cards: vec![ELVES, ELVES] });

    let write = add_deck(&deck.url, deck.cards);
    assert_eq!(write.deck.url, "/Deck/elves-aggro");
    let deck_id = write.deck.deck_id;
    assert_eq!(
        write.card_decks,
        vec![CardDeck { card_id: ELVES, deck_id }, CardDeck { card_id: ELVES, deck_id }]
    );

    assert_eq!(run.step(&catalog, Event::DeckStored), Action::CloseSession);
    assert_eq!(run.step(&catalog, Event::SessionClosed), Action::Stop);
    assert_eq!(run.phase, Phase::Done);
    assert_eq!(run.failure, None);
    assert_eq!(run.next, 1);
}

#[test]
fn decks_are_visited_in_index_order() {
    let catalog = elves_catalog();
    let mut run = run_reading_index(&catalog);
    let hrefs = names(&["/Deck/abc", "/User/bob", "/Deck/def"]);
    assert_eq!(
        run.step(&catalog, Event::IndexRead { hrefs }),
        Action::ReadDeck { full_url: "https://aetherhub.com/Deck/abc".to_string() }
    );
    assert_eq!(run.deck_urls, vec!["/Deck/abc".to_string(), "/Deck/def".to_string()]);
    assert_eq!(
        run.step(&catalog, Event::DeckRead { names: Vec::new() }),
        Action::StoreDeck { deck: ScrapedDeck { url: "/Deck/abc".to_string(), cards: Vec::new() } }
    );
    assert_eq!(
        run.step(&catalog, Event::DeckStored),
        Action::ReadDeck { full_url: "https://aetherhub.com/Deck/def".to_string() }
    );
    assert_eq!(
        run.step(&catalog, Event::DeckRead { names: names(&["Elves"]) }),
        Action::StoreDeck { deck: ScrapedDeck { url: "/Deck/def".to_string(), cards: vec![ELVES] } }
    );
    assert_eq!(run.step(&catalog, Event::DeckStored), Action::CloseSession);
    assert_eq!(run.step(&catalog, Event::SessionClosed), Action::Stop);
    assert_eq!(run.failure, None);
}

#[test]
fn an_index_without_decks_closes_the_session() {
    let catalog = elves_catalog();
    let mut run = run_reading_index(&catalog);
    assert_eq!(
        run.step(&catalog, Event::IndexRead { hrefs: names(&["/User/bob"]) }),
        Action::CloseSession
    );
    assert_eq!(run.step(&catalog, Event::SessionClosed), Action::Stop);
    assert_eq!(run.failure, None);
}

#[test]
fn a_session_that_never_opened_is_not_closed() {
    let catalog = elves_catalog();
    let (mut run, _) = Run::start();
    assert_eq!(run.step(&catalog, Event::AutomationFailed), Action::Stop);
    assert_eq!(run.phase, Phase::Done);
    assert_eq!(run.failure, Some(IngestError::AutomationFailure));
}

#[test]
fn a_failed_index_read_closes_the_session_and_stops() {
    let catalog = elves_catalog();
    let mut run = run_reading_index(&catalog);
    assert_eq!(run.step(&catalog, Event::AutomationFailed), Action::CloseSession);
    assert_eq!(run.phase, Phase::Closing);
    assert_eq!(run.step(&catalog, Event::SessionClosed), Action::Stop);
    assert_eq!(run.failure, Some(IngestError::AutomationFailure));
}

#[test]
fn an_unresolvable_name_gives_the_deck_up_before_anything_is_stored() {
    let catalog = elves_catalog();
    let mut run = run_reading_index(&catalog);
    run.step(&catalog, Event::IndexRead { hrefs: names(&["/Deck/abc"]) });
    let action = run.step(
        &catalog,
        Event::DeckRead { names: vec![Some("Llanowar Elves".to_string()), None] },
    );
    assert_eq!(action, Action::CloseSession);
    assert_eq!(
        run.failure,
        Some(IngestError::UnresolvableCardName { raw_name: "no card name".to_string() })
    );
    assert_eq!(run.step(&catalog, Event::SessionClosed), Action::Stop);
    assert_eq!(run.next, 0);
}

#[test]
fn a_refused_write_ends_the_run_after_closing_the_session() {
    let catalog = elves_catalog();
    let mut run = run_reading_index(&catalog);
    run.step(&catalog, Event::IndexRead { hrefs: names(&["/Deck/abc", "/Deck/def"]) });
    run.step(&catalog, Event::DeckRead { names: names(&["Llanowar Elves"]) });
    assert_eq!(run.step(&catalog, Event::StoreFailed), Action::CloseSession);
    assert_eq!(run.failure, Some(IngestError::PersistenceFailure));
    assert_eq!(run.step(&catalog, Event::AutomationFailed), Action::Stop);
    assert_eq!(run.failure, Some(IngestError::PersistenceFailure));
    assert_eq!(run.next, 0);
}

#[test]
fn a_failed_close_is_reported_when_nothing_else_failed() {
    let catalog = elves_catalog();
    let mut run = run_reading_index(&catalog);
    run.step(&catalog, Event::IndexRead { hrefs: Vec::new() });
    assert_eq!(run.step(&catalog, Event::AutomationFailed), Action::Stop);
    assert_eq!(run.failure, Some(IngestError::AutomationFailure));
}

#[test]
fn an_event_out_of_turn_gives_the_run_up() {
    let catalog = elves_catalog();
    let mut run = run_reading_index(&catalog);
    assert_eq!(run.step(&catalog, Event::DeckStored), Action::CloseSession);
    assert_eq!(run.failure, Some(IngestError::AutomationFailure));
}

#[test]
fn a_finished_run_stays_finished() {
    let catalog = elves_catalog();
    let mut run = run_reading_index(&catalog);
    run.step(&catalog, Event::IndexRead { hrefs: Vec::new() });
    run.step(&catalog, Event::SessionClosed);
    let done = run.clone();
    assert_eq!(run.step(&catalog, Event::SessionOpened), Action::Stop);
    assert_eq!(run, done);
}
