//! One deck's write as a single transaction: the program runs each
//! statement against the store and reports whether it was accepted; the
//! machine decides what is sent next.

use crate::persist::{CardDeck, DeckWrite};
use vstd::prelude::*;

verus! {

/// A statement sent to the store.
#[derive(Debug, Clone, PartialEq, Eq)]
pub enum Statement {
    Begin,
    InsertDeck { deck_id: u128, url: String },
    InsertCardDeck { row: CardDeck },
    Commit,
    Rollback,
}

/// How far a deck's transaction has come. In every state but `Ready`,
/// `Persisted` and `Failed`, the answer to one statement is awaited.
#[derive(Debug, Clone, Copy, PartialEq, Eq, Structural)]
pub enum Progress {
    /// Nothing was sent.
    Ready,
    /// `Begin` was sent.
    Beginning,
    /// The deck row was sent.
    InsertingDeck,
    /// The association row at `index` was sent; those before it were accepted.
    InsertingCard { index: usize },
    /// `Commit` was sent: every row was accepted.
    Committing,
    /// `Rollback` was sent: a row was refused.
    RollingBack,
    /// The store holds the deck and all of its rows.
    Persisted,
    /// The store holds nothing of the deck.
    Failed,
}

/// The statements of a deck's write, in the order they are sent when the
/// store accepts each: begin, the deck row, every association row, commit.
pub open spec fn statements(write: DeckWrite) -> Seq<Statement> {
    seq![
        Statement::Begin,
        Statement::InsertDeck { deck_id: write.deck.deck_id, url: write.deck.url },
    ] + write.card_decks@.map_values(|row: CardDeck| Statement::InsertCardDeck { row })
        + seq![Statement::Commit]
}

/// How many statements of the write were sent when the transaction stands
/// at `progress`, for the states on the way to a commit.
pub open spec fn sent(progress: Progress) -> int {
    match progress {
        Progress::Ready => 0,
        Progress::Beginning => 1,
        Progress::InsertingDeck => 2,
        Progress::InsertingCard { index } => 3 + index,
        _ => -1,
    }
}

/// What follows the association row at `index`, once accepted.
pub open spec fn after_card(write: DeckWrite, index: int) -> (Progress, Option<Statement>) {
    if 0 <= index < write.card_decks@.len() {
        (
            Progress::InsertingCard { index: index as usize },
            Some(Statement::InsertCardDeck { row: write.card_decks@[index] }),
        )
    } else {
        (Progress::Committing, Some(Statement::Commit))
    }
}

/// The state after the awaited statement was accepted (`ok`) or refused, and
/// the statement to send next, if any.
pub open spec fn transacted(write: DeckWrite, progress: Progress, ok: bool) -> (
    Progress,
    Option<Statement>,
) {
    match progress {
        Progress::Ready => (Progress::Beginning, Some(Statement::Begin)),
        Progress::Beginning => if ok {
            (
                Progress::InsertingDeck,
                Some(Statement::InsertDeck { deck_id: write.deck.deck_id, url: write.deck.url }),
            )
        } else {
            (Progress::Failed, None)
        },
        Progress::InsertingDeck => if ok {
            after_card(write, 0)
        } else {
            (Progress::RollingBack, Some(Statement::Rollback))
        },
        Progress::InsertingCard { index } => if ok && index < write.card_decks@.len() {
            after_card(write, index + 1)
        } else {
            (Progress::RollingBack, Some(Statement::Rollback))
        },
        Progress::Committing => if ok {
            (Progress::Persisted, None)
        } else {
            (Progress::Failed, None)
        },
        Progress::RollingBack => (Progress::Failed, None),
        Progress::Persisted => (Progress::Persisted, None),
        Progress::Failed => (Progress::Failed, None),
    }
}

/// Sends the association row at `index`, or commits when no row is left.
fn send_card(write: &DeckWrite, index: usize) -> (next: (Progress, Option<Statement>))
    ensures
        next == after_card(*write, index as int),
{
    if index < write.card_decks.len() {
        (
            Progress::InsertingCard { index },
            Some(Statement::InsertCardDeck { row: write.card_decks[index] }),
        )
    } else {
        (Progress::Committing, Some(Statement::Commit))
    }
}

/// Takes the store's answer to the awaited statement and decides the next
/// one. From `Ready` nothing is awaited and `ok` is not looked at. `None`
/// says that the transaction is over: `Persisted` or `Failed`.
pub fn persist_step(write: &DeckWrite, progress: Progress, ok: bool) -> (next: (
    Progress,
    Option<Statement>,
))
    ensures
        next == transacted(*write, progress, ok),
{
    match progress {
        Progress::Ready => (Progress::Beginning, Some(Statement::Begin)),
        Progress::Beginning => if ok {
            (
                Progress::InsertingDeck,
                Some(
                    Statement::InsertDeck {
                        deck_id: write.deck.deck_id,
                        url: write.deck.url.clone(),
                    },
                ),
            )
        } else {
            (Progress::Failed, None)
        },
        Progress::InsertingDeck => if ok {
            send_card(write, 0)
        } else {
            (Progress::RollingBack, Some(Statement::Rollback))
        },
        Progress::InsertingCard { index } => if ok && index < write.card_decks.len() {
            send_card(write, index + 1)
        } else {
            (Progress::RollingBack, Some(Statement::Rollback))
        },
        Progress::Committing => if ok {
            (Progress::Persisted, None)
        } else {
            (Progress::Failed, None)
        },
        Progress::RollingBack => (Progress::Failed, None),
        Progress::Persisted => (Progress::Persisted, None),
        Progress::Failed => (Progress::Failed, None),
    }
}

/// While the store accepts, the statements of the write are sent one by one
/// in their order, none left out and none twice.
pub proof fn lemma_statements_in_order(write: DeckWrite, progress: Progress, ok: bool)
    requires
        0 <= sent(progress) < statements(write).len(),
        progress != Progress::Ready ==> ok,
    ensures
        transacted(write, progress, ok).1 == Some(statements(write)[sent(progress)]),
        sent(progress) + 1 < statements(write).len() ==> sent(transacted(write, progress, ok).0)
            == sent(progress) + 1,
        sent(progress) + 1 == statements(write).len() ==> transacted(write, progress, ok).0
            == Progress::Committing,
{
    assert(write.card_decks.len() == write.card_decks@.len());
}

/// A deck is never stored in part: the commit is sent only when the deck
/// row and every association row were accepted, a refusal of any statement
/// sends nothing more to the store but a rollback, and the deck counts as
/// persisted only once the commit was accepted.
pub proof fn lemma_all_or_nothing(write: DeckWrite, progress: Progress, ok: bool)
    ensures
        transacted(write, progress, ok).1 == Some(Statement::Commit) ==> ok && sent(progress) + 1
            == statements(write).len(),
        !ok && progress != Progress::Ready ==> {
            let next = transacted(write, progress, ok);
            &&& next.1 == Some(Statement::Rollback) || next.1 is None
            &&& next.0 == Progress::RollingBack || next.0 == Progress::Failed || (next.0
                == Progress::Persisted && progress == Progress::Persisted)
        },
        transacted(write, progress, ok).0 == Progress::Persisted ==> progress
            == Progress::Persisted || (progress == Progress::Committing && ok),
        transacted(write, progress, ok).0 == Progress::Committing ==> transacted(
            write,
            progress,
            ok,
        ).1 == Some(Statement::Commit),
{
}

} // verus!
