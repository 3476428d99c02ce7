//! Turns paired study terms, as rendered on a flashcard web page, into
//! records of a two-column comma-separated file.
pub mod batch;
pub mod card;
pub mod csv;
pub mod page;
pub mod text;
pub mod urls;

pub use batch::BatchOutcome;
pub use card::{card_from_texts, cards_from_pair_texts, Flashcard};
pub use csv::{escape_csv, to_csv};
pub use page::{extract_flashcards, ExtractError, PageLayout};
pub use urls::select_urls;
