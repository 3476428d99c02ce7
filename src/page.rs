//! Reading the cards of a rendered page out of its markup.
use vstd::prelude::*;
use vstd::string::StringExecFns;

use crate::card::{cards_from_pair_texts, cards_of, cards_view, Flashcard};

verus! {

/// What a query of rendered markup finds: for each element that matches the
/// pair selector, in document order, the text content of each of its
/// descendants that match the info selector, in document order. `None` where
/// either selector does not parse.
pub uninterp spec fn page_pair_texts(
    markup: Seq<char>,
    pair_selector: Seq<char>,
    info_selector: Seq<char>,
) -> Option<Seq<Seq<Seq<char>>>>;

/// Relies on scraper: `Selector::parse` for both selectors, `Html::parse_document`
/// for the markup, `Html::select` and `ElementRef::select` for the matches, and
/// `ElementRef::text` for their text. The result depends on the three texts alone.
#[verifier::external_body]
fn query_pair_texts(markup: &str, pair_selector: &str, info_selector: &str) -> (r: Option<
    Vec<Vec<String>>,
>)
    ensures
        r.deep_view() == page_pair_texts(markup@, pair_selector@, info_selector@),
{
    let pair = scraper::Selector::parse(pair_selector).ok()?;
    let info = scraper::Selector::parse(info_selector).ok()?;
    let doc = scraper::Html::parse_document(markup);
    let mut pairs = Vec::new();
    for p in doc.select(&pair) {
        let mut texts = Vec::new();
        for e in p.select(&info) {
            texts.push(e.text().collect::<String>());
        }
        pairs.push(texts);
    }
    Some(pairs)
}

/// Where the cards stand in a page: the selector of the element that holds
/// one pair, and the selector, within it, of the elements that hold its texts.
/// The pair selector also marks that the page has rendered.
#[derive(Debug)]
pub struct PageLayout {
    pub pair_selector: String,
    pub info_selector: String,
}

impl PageLayout {
    /// The layout that the flashcard service currently serves.
    pub fn standard() -> (r: PageLayout)
        ensures
            r.pair_selector@ == ".pair-list-item"@,
            r.info_selector@ == ".info.notranslate span.show-on-render"@,
    {
        PageLayout {
            pair_selector: String::from_str(".pair-list-item"),
            info_selector: String::from_str(".info.notranslate span.show-on-render"),
        }
    }
}

/// Why the cards of one page could not be had. The text says what failed.
#[derive(Debug, PartialEq, Eq)]
pub enum ExtractError {
    /// A selector of the layout does not parse.
    InvalidSelector,
    /// The page could not be opened or navigated to.
    Navigation(String),
    /// The page never showed a pair element.
    Timeout(String),
    /// The rendered markup could not be read.
    Retrieval(String),
}

/// The cards of a rendered page, in document order: one for each pair
/// element whose first two text elements are not blank. Fails only where a
/// selector of the layout does not parse.
pub fn extract_flashcards(markup: &str, layout: &PageLayout) -> (r: Result<
    Vec<Flashcard>,
    ExtractError,
>)
    ensures
        match page_pair_texts(markup@, layout.pair_selector@, layout.info_selector@) {
            Some(pairs) => r matches Ok(cards) && cards_view(cards@) == cards_of(pairs),
            None => r == Err::<Vec<Flashcard>, ExtractError>(ExtractError::InvalidSelector),
        },
{
    match query_pair_texts(markup, layout.pair_selector.as_str(), layout.info_selector.as_str()) {
        Some(pairs) => Ok(cards_from_pair_texts(&pairs)),
        None => Err(ExtractError::InvalidSelector),
    }
}

} // verus!
