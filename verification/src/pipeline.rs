//! The ingestion run as a machine: the program performs each action against
//! the browser session or the store and reports what came of it; the machine
//! decides what is done next.

use crate::catalog::{all_resolve, first_unresolved, get_card_ids, resolved_ids, CardRow, Catalog};
use crate::error::IngestError;
use crate::scrape::{
    deck_links,
    deck_page_url,
    get_aetherhub_decklist,
    scrape_aetherhub_urls,
    texts_or,
    AETHERHUB_URL,
    MISSING_NAME,
    MISSING_URL,
};
use crate::text::texts;
use vstd::prelude::*;

verus! {

/// A deck as scraped and resolved: its link and the identities of its cards,
/// in page order, copies included.
#[derive(Debug, Clone, PartialEq, Eq)]
pub struct ScrapedDeck {
    pub url: String,
    pub cards: Vec<u128>,
}

/// Where a run stands.
#[derive(Debug, Clone, Copy, PartialEq, Eq, Structural)]
pub enum Phase {
    /// The session was asked for and is not there yet.
    Opening,
    /// The index page is being read.
    ReadingIndex,
    /// The page of the deck at `next` is being read.
    ReadingDeck,
    /// The deck at `next` is being written to the store.
    Storing,
    /// The session is being closed.
    Closing,
    /// Nothing is left to do.
    Done,
}

/// What the program reports back after an action.
#[derive(Debug, Clone, PartialEq, Eq)]
pub enum Event {
    SessionOpened,
    /// The `href` attribute of each anchor of the index table, in table order.
    IndexRead { hrefs: Vec<Option<String>> },
    /// The name attribute of each card element of the visual view, in page order.
    DeckRead { names: Vec<Option<String>> },
    DeckStored,
    StoreFailed,
    SessionClosed,
    /// Navigation or an element lookup failed, or the browser was out of reach.
    AutomationFailed,
}

/// What the program is to do next.
#[derive(Debug, Clone, PartialEq, Eq)]
pub enum Action {
    OpenSession,
    ReadIndex,
    ReadDeck { full_url: String },
    StoreDeck { deck: ScrapedDeck },
    CloseSession,
    Stop,
}

/// One ingestion run.
#[derive(Debug, Clone, PartialEq, Eq)]
pub struct Run {
    pub phase: Phase,
    /// The deck links of the index, once it has been read.
    pub deck_urls: Vec<String>,
    /// The position of the deck in work; the decks before it are stored.
    pub next: usize,
    /// Why the run was given up, if it was.
    pub failure: Option<IngestError>,
}

/// The phases in which the run holds a browser session.
pub open spec fn session_open(phase: Phase) -> bool {
    phase == Phase::ReadingIndex || phase == Phase::ReadingDeck || phase == Phase::Storing
}

/// The run turns to the deck at `after.next`, or closes the session when no deck is left.
pub open spec fn visits(after: Run, action: Action) -> bool {
    if after.next < after.deck_urls@.len() {
        &&& after.phase == Phase::ReadingDeck
        &&& action matches Action::ReadDeck { full_url }
        &&& full_url@ == AETHERHUB_URL@ + after.deck_urls@[after.next as int]@
    } else {
        &&& after.phase == Phase::Closing
        &&& action is CloseSession
    }
}

/// The run is given up for `reason` and the session is closed.
pub open spec fn aborted(before: Run, after: Run, action: Action, reason: IngestError) -> bool {
    &&& after.phase == Phase::Closing
    &&& action is CloseSession
    &&& after.failure == Some(reason)
    &&& after.deck_urls == before.deck_urls
    &&& after.next == before.next
}

/// What one step does: the run after it and the action it asks for.
pub open spec fn stepped(
    before: Run,
    rows: Seq<CardRow>,
    event: Event,
    after: Run,
    action: Action,
) -> bool {
    match before.phase {
        Phase::Opening => {
            &&& after.deck_urls == before.deck_urls
            &&& after.next == before.next
            &&& match event {
                Event::SessionOpened => {
                    &&& after.phase == Phase::ReadingIndex
                    &&& action is ReadIndex
                    &&& after.failure == before.failure
                },
                _ => {
                    &&& after.phase == Phase::Done
                    &&& action is Stop
                    &&& after.failure == Some(IngestError::AutomationFailure)
                },
            }
        },
        Phase::ReadingIndex => match event {
            Event::IndexRead { hrefs } => {
                &&& texts(after.deck_urls@) == deck_links(texts_or(hrefs@, MISSING_URL@))
                &&& after.next == 0
                &&& after.failure == before.failure
                &&& visits(after, action)
            },
            _ => aborted(before, after, action, IngestError::AutomationFailure),
        },
        Phase::ReadingDeck => match event {
            Event::DeckRead { names } => {
                let shown = texts_or(names@, MISSING_NAME@);
                &&& after.deck_urls == before.deck_urls
                &&& after.next == before.next
                &&& if all_resolve(rows, shown, shown.len() as int) {
                    &&& after.phase == Phase::Storing
                    &&& after.failure == before.failure
                    &&& action matches Action::StoreDeck { deck }
                    &&& deck.url@ == before.deck_urls@[before.next as int]@
                    &&& deck.cards@ == resolved_ids(rows, shown)
                } else {
                    &&& after.phase == Phase::Closing
                    &&& action is CloseSession
                    &&& exists|bad: int|
                        {
                            &&& #[trigger] first_unresolved(rows, shown, bad)
                            &&& after.failure matches Some(
                                IngestError::UnresolvableCardName { raw_name },
                            )
                            &&& raw_name@ == shown[bad]
                        }
                }
            },
            _ => aborted(before, after, action, IngestError::AutomationFailure),
        },
        Phase::Storing => match event {
            Event::DeckStored => {
                &&& after.deck_urls == before.deck_urls
                &&& after.next == before.next + 1
                &&& after.failure == before.failure
                &&& visits(after, action)
            },
            Event::StoreFailed => aborted(before, after, action, IngestError::PersistenceFailure),
            _ => aborted(before, after, action, IngestError::AutomationFailure),
        },
        Phase::Closing => {
            &&& after.phase == Phase::Done
            &&& action is Stop
            &&& after.deck_urls == before.deck_urls
            &&& after.next == before.next
            &&& after.failure == match event {
                Event::SessionClosed => before.failure,
                _ => if before.failure is Some {
                    before.failure
                } else {
                    Some(IngestError::AutomationFailure)
                },
            }
        },
        Phase::Done => {
            &&& after == before
            &&& action is Stop
        },
    }
}

impl Run {
    /// The deck in work exists while a deck is read or stored, and a run that
    /// still reads or stores has not failed.
    pub open spec fn wf(self) -> bool {
        &&& self.next <= self.deck_urls@.len()
        &&& (self.phase == Phase::ReadingDeck || self.phase == Phase::Storing) ==> self.next
            < self.deck_urls@.len()
        &&& (self.phase == Phase::Opening || session_open(self.phase)) ==> self.failure is None
    }

    /// A new run and its first action: to open the session.
    pub fn start() -> (begun: (Run, Action))
        ensures
            begun.0.wf(),
            begun.0.phase == Phase::Opening,
            begun.0.deck_urls@.len() == 0,
            begun.0.next == 0,
            begun.0.failure is None,
            begun.1 is OpenSession,
    {
        (
            Run { phase: Phase::Opening, deck_urls: Vec::new(), next: 0, failure: None },
            Action::OpenSession,
        )
    }

    /// Turns to the deck at `next`, or closes the session when none is left.
    fn visit(&mut self) -> (action: Action)
        requires
            old(self).next <= old(self).deck_urls@.len(),
        ensures
            visits(*final(self), action),
            final(self).deck_urls == old(self).deck_urls,
            final(self).next == old(self).next,
            final(self).failure == old(self).failure,
    {
        if self.next < self.deck_urls.len() {
            self.phase = Phase::ReadingDeck;
            Action::ReadDeck { full_url: deck_page_url(self.deck_urls[self.next].as_str()) }
        } else {
            self.phase = Phase::Closing;
            Action::CloseSession
        }
    }

    /// Gives the run up for `reason` and closes the session.
    fn abort(&mut self, reason: IngestError) -> (action: Action)
        ensures
            aborted(*old(self), *final(self), action, reason),
    {
        self.phase = Phase::Closing;
        self.failure = Some(reason);
        Action::CloseSession
    }

    /// Takes what came of the last action and decides the next one.
    ///
    /// The index yields the deck links; each deck page in turn yields names,
    /// which are resolved against `catalog` and handed out to be stored. The
    /// first failure of any kind ends the run, and the session, once open, is
    /// closed before the run stops. An event that does not answer the action
    /// asked for last counts as a failure of the automation.
    pub fn step(&mut self, catalog: &Catalog, event: Event) -> (action: Action)
        requires
            old(self).wf(),
        ensures
            final(self).wf(),
            stepped(*old(self), catalog@, event, *final(self), action),
    {
        let phase = self.phase;
        match phase {
            Phase::Opening => match event {
                Event::SessionOpened => {
                    self.phase = Phase::ReadingIndex;
                    Action::ReadIndex
                },
                _ => {
                    self.phase = Phase::Done;
                    self.failure = Some(IngestError::AutomationFailure);
                    Action::Stop
                },
            },
            Phase::ReadingIndex => match event {
                Event::IndexRead { hrefs } => {
                    self.deck_urls = scrape_aetherhub_urls(&hrefs);
                    self.next = 0;
                    self.visit()
                },
                _ => self.abort(IngestError::AutomationFailure),
            },
            Phase::ReadingDeck => match event {
                Event::DeckRead { names } => {
                    let shown = get_aetherhub_decklist(&names);
                    match get_card_ids(catalog, &shown) {
                        Ok(cards) => {
                            self.phase = Phase::Storing;
                            let url = self.deck_urls[self.next].clone();
                            Action::StoreDeck { deck: ScrapedDeck { url, cards } }
                        },
                        Err(e) => {
                            self.phase = Phase::Closing;
                            self.failure = Some(e);
                            Action::CloseSession
                        },
                    }
                },
                _ => self.abort(IngestError::AutomationFailure),
            },
            Phase::Storing => match event {
                Event::DeckStored => {
                    let total: usize = self.deck_urls.len();
                    assert(self.next < total);
                    self.next = self.next + 1;
                    self.visit()
                },
                Event::StoreFailed => self.abort(IngestError::PersistenceFailure),
                _ => self.abort(IngestError::AutomationFailure),
            },
            Phase::Closing => {
                self.phase = Phase::Done;
                match event {
                    Event::SessionClosed => {},
                    _ => {
                        if self.failure.is_none() {
                            self.failure = Some(IngestError::AutomationFailure);
                        }
                    },
                }
                Action::Stop
            },
            Phase::Done => Action::Stop,
        }
    }
}

/// The session is closed once and only once: a step out of a phase that
/// holds the session either stays in such a phase or asks to close it; only
/// such a step asks to close it; and the run stops only without a session.
pub proof fn lemma_session_closed_once(
    before: Run,
    rows: Seq<CardRow>,
    event: Event,
    after: Run,
    action: Action,
)
    requires
        before.wf(),
        stepped(before, rows, event, after, action),
    ensures
        action is CloseSession <==> session_open(before.phase) && after.phase == Phase::Closing,
        session_open(before.phase) ==> session_open(after.phase) || action is CloseSession,
        session_open(after.phase) ==> before.phase == Phase::Opening || session_open(
            before.phase,
        ),
        action is Stop <==> after.phase == Phase::Done,
        !(action is OpenSession),
{
}

/// Decks are handled one after another and none is skipped: the deck in work
/// moves on by one exactly when the store has taken the deck, and a deck is
/// handed to the store only after its own page was read.
pub proof fn lemma_decks_in_turn(
    before: Run,
    rows: Seq<CardRow>,
    event: Event,
    after: Run,
    action: Action,
)
    requires
        before.wf(),
        stepped(before, rows, event, after, action),
        before.phase != Phase::ReadingIndex,
    ensures
        after.deck_urls == before.deck_urls,
        after.next == before.next || (after.next == before.next + 1 && before.phase
            == Phase::Storing && event is DeckStored),
        action is StoreDeck ==> before.phase == Phase::ReadingDeck && event is DeckRead,
{
}

} // verus!
