use brawl_hub::persist::{deck_rows, CardDeck, DeckWrite};
use brawl_hub::transaction::{persist_step, Progress, Statement};

const A: u128 = 0x280f2a85_1900_460b_a768_164fc2dea636;
const B: u128 = 0xa17c6086_2b4e_4974_a67a_0ddc4d321c43;
const DECK: u128 = 42;

/// Runs the write against a store that refuses the statement at `refuse`,
/// and gives back the statements sent, the rows the store holds after the
/// transaction, and the final state.
fn drive(write: &DeckWrite, refuse: Option<usize>) -> (Vec<Statement>, Vec<Statement>, Progress) {
    let mut sent = Vec::new();
    let mut pending = Vec::new();
    let mut held = Vec::new();
    let (mut progress, mut statement) = persist_step(write, Progress::Ready, true);
    while let Some(current) = statement {
        let ok = refuse != Some(sent.len());
        sent.push(current.clone());
        if ok {
            match current {
                Statement::Begin => {}
                Statement::Commit => held.append(&mut pending),
                Statement::Rollback => pending.clear(),
                insert => pending.push(insert),
            }
        } else {
            pending.clear();
        }
        let next = persist_step(write, progress, ok);
        progress = next.0;
        statement = next.1;
        assert!(sent.len() < 20);
    }
    (sent, held, progress)
}

#[test]
fn an_accepted_deck_sends_every_row_then_commits() {
    let write = deck_rows(DECK, "/Deck/abc", vec![A, B, A]);
    let (sent, held, progress) = drive(&write, None);
    let rows = vec![
        Statement::InsertDeck { deck_id: DECK, url: "/Deck/abc".to_string() },
        Statement::InsertCardDeck { row: CardDeck { card_id: A, deck_id: DECK } },
        Statement::InsertCardDeck { row: CardDeck { card_id: B, deck_id: DECK } },
        Statement::InsertCardDeck { row: CardDeck { card_id: A, deck_id: DECK } },
    ];
    let mut expected = vec![Statement::Begin];
    expected.extend(rows.clone());
    expected.push(Statement::Commit);
    assert_eq!(sent, expected);
    assert_eq!(held, rows);
    assert_eq!(progress, Progress::Persisted);
}

#[test]
fn a_deck_without_cards_is_one_row() {
    let write = deck_rows(DECK, "/Deck/empty", Vec::new());
    let (sent, held, progress) = drive(&write, None);
    assert_eq!(
        sent,
        vec![
            Statement::Begin,
            Statement::InsertDeck { deck_id: DECK, url: "/Deck/empty".to_string() },
            Statement::Commit
        ]
    );
    assert_eq!(held.len(), 1);
    assert_eq!(progress, Progress::Persisted);
}

#[test]
fn a_refusal_after_the_deck_row_leaves_no_row() {
    let write = deck_rows(DECK, "/Deck/abc", vec![A, B, A]);
    let (sent, held, progress) = drive(&write, Some(3));
    assert_eq!(
        sent,
        vec![
            Statement::Begin,
            Statement::InsertDeck { deck_id: DECK, url: "/Deck/abc".to_string() },
            Statement::InsertCardDeck { row: CardDeck { card_id: A, deck_id: DECK } },
            Statement::InsertCardDeck { row: CardDeck { card_id: B, deck_id: DECK } },
            Statement::Rollback,
        ]
    );
    assert!(held.is_empty());
    assert_eq!(progress, Progress::Failed);
}

#[test]
fn a_refusal_anywhere_leaves_no_row() {
    let write = deck_rows(DECK, "/Deck/abc", vec![A, B, A]);
    for refuse in 0..6 {
        let (sent, held, progress) = drive(&write, Some(refuse));
        assert!(held.is_empty());
        assert_eq!(progress, Progress::Failed);
        assert!(!sent[..sent.len() - 1].contains(&Statement::Commit) || refuse == 5);
    }
}

#[test]
fn a_refused_begin_sends_nothing_more() {
    let write = deck_rows(DECK, "/Deck/abc", vec![A]);
    assert_eq!(persist_step(&write, Progress::Beginning, false), (Progress::Failed, None));
}

#[test]
fn a_refused_deck_row_is_rolled_back() {
    let write = deck_rows(DECK, "/Deck/abc", vec![A]);
    assert_eq!(
        persist_step(&write, Progress::InsertingDeck, false),
        (Progress::RollingBack, Some(Statement::Rollback))
    );
    assert_eq!(persist_step(&write, Progress::RollingBack, true), (Progress::Failed, None));
    assert_eq!(persist_step(&write, Progress::RollingBack, false), (Progress::Failed, None));
}

#[test]
fn a_refused_commit_fails_the_deck() {
    let write = deck_rows(DECK, "/Deck/abc", vec![A]);
    assert_eq!(persist_step(&write, Progress::Committing, false), (Progress::Failed, None));
    assert_eq!(persist_step(&write, Progress::Committing, true), (Progress::Persisted, None));
}

#[test]
fn a_row_that_the_deck_does_not_have_is_rolled_back() {
    let write = deck_rows(DECK, "/Deck/abc", vec![A]);
    assert_eq!(
        persist_step(&write, Progress::InsertingCard { index: 1 }, true),
        (Progress::RollingBack, Some(Statement::Rollback))
    );
    assert_eq!(
        persist_step(&write, Progress::InsertingCard { index: 0 }, true),
        (Progress::Committing, Some(Statement::Commit))
    );
}

#[test]
fn a_finished_transaction_stays_as_it_is() {
    let write = deck_rows(DECK, "/Deck/abc", vec![A]);
    assert_eq!(persist_step(&write, Progress::Persisted, false), (Progress::Persisted, None));
    assert_eq!(persist_step(&write, Progress::Failed, true), (Progress::Failed, None));
}
