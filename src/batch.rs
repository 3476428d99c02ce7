//! The tally of a batch of pages: the cards found so far, and how many pages
//! gave cards and how many failed.
use vstd::prelude::*;

use crate::card::{cards_view, CardView, Flashcard};
use crate::page::ExtractError;

verus! {

/// A tally as the cards collected, the pages that succeeded and the pages
/// that failed.
pub type TallyView = (Seq<CardView>, nat, nat);

/// What one page gave: its cards, or `None` where it failed.
pub type PageView = Option<Seq<CardView>>;

/// The view of what the extraction of one page returned.
pub open spec fn page_view(result: Result<Vec<Flashcard>, ExtractError>) -> PageView {
    match result {
        Ok(cards) => Some(cards_view(cards@)),
        Err(_) => None,
    }
}

/// The tally after one more page: its cards follow those collected and the
/// successes grow by one, or, where it failed, the failures grow by one.
pub open spec fn after_page(tally: TallyView, page: PageView) -> TallyView {
    match page {
        Some(cards) => (tally.0 + cards, tally.1 + 1, tally.2),
        None => (tally.0, tally.1, tally.2 + 1),
    }
}

/// The tally after the pages, in order, from an empty one.
pub open spec fn tally_of(pages: Seq<PageView>) -> TallyView
    decreases pages.len(),
{
    if pages.len() == 0 {
        (Seq::empty(), 0, 0)
    } else {
        after_page(tally_of(pages.drop_last()), pages.last())
    }
}

/// The cards of a page, none where it failed.
pub open spec fn page_cards(page: PageView) -> Seq<CardView> {
    match page {
        Some(cards) => cards,
        None => Seq::empty(),
    }
}

/// The running result of a batch of pages.
#[derive(Debug)]
pub struct BatchOutcome {
    cards: Vec<Flashcard>,
    succeeded: usize,
    failed: usize,
}

impl View for BatchOutcome {
    type V = TallyView;

    closed spec fn view(&self) -> TallyView {
        (cards_view(self.cards@), self.succeeded as nat, self.failed as nat)
    }
}

impl BatchOutcome {
    /// The tally before any page: no cards, no success, no failure.
    pub fn new() -> (r: BatchOutcome)
        ensures
            r@ == tally_of(Seq::empty()),
    {
        let r = BatchOutcome { cards: Vec::new(), succeeded: 0, failed: 0 };
        assert(r@.0 =~= Seq::<CardView>::empty());
        r
    }

    /// Takes in what the extraction of the next page returned. A failure is
    /// counted and no more: it takes nothing away from the other pages.
    pub fn record(&mut self, result: Result<Vec<Flashcard>, ExtractError>)
        requires
            old(self)@.1 + old(self)@.2 < usize::MAX,
        ensures
            final(self)@ == after_page(old(self)@, page_view(result)),
    {
        match result {
            Ok(cards) => {
                let mut cards = cards;
                let ghost added = cards_view(cards@);
                self.cards.append(&mut cards);
                self.succeeded = self.succeeded + 1;
                assert(cards_view(self.cards@) =~= old(self)@.0 + added);
            },
            Err(_) => {
                self.failed = self.failed + 1;
            },
        }
    }

    /// The cards collected, grouped by page in the order of the pages, and in
    /// document order within a page.
    pub fn cards(&self) -> (r: &Vec<Flashcard>)
        ensures
            cards_view(r@) == self@.0,
    {
        &self.cards
    }

    /// The number of pages that gave cards (possibly none).
    pub fn succeeded(&self) -> (r: usize)
        ensures
            r == self@.1,
    {
        self.succeeded
    }

    /// The number of pages that failed.
    pub fn failed(&self) -> (r: usize)
        ensures
            r == self@.2,
    {
        self.failed
    }
}

/// Whatever pages fail, the cards of every other page are all there, in the
/// pages' order; the successes are the pages that did not fail, and the
/// failures are exactly the pages that did.
pub proof fn lemma_failure_isolation(pages: Seq<PageView>)
    ensures
        tally_of(pages).0 == pages.flat_map(|p: PageView| page_cards(p)),
        tally_of(pages).1 == pages.filter(|p: PageView| p is Some).len(),
        tally_of(pages).2 == pages.filter(|p: PageView| p is None).len(),
    decreases pages.len(),
{
    broadcast use Seq::lemma_filter_push;

    let f = |p: PageView| page_cards(p);
    let ok = |p: PageView| p is Some;
    let bad = |p: PageView| p is None;
    if pages.len() == 0 {
        reveal(Seq::filter);
        assert(pages.flat_map(f) =~= Seq::<CardView>::empty());
    } else {
        let rest = pages.drop_last();
        lemma_failure_isolation(rest);
        rest.lemma_flat_map_push(f, pages.last());
        assert(rest.push(pages.last()) =~= pages);
        assert(tally_of(pages).0 =~= pages.flat_map(f));
    }
}

} // verus!
