use flashcard_export::{
    card_from_texts, cards_from_pair_texts, escape_csv, extract_flashcards, select_urls, to_csv,
    BatchOutcome, ExtractError, Flashcard, PageLayout,
};

fn strings(items: &[&str]) -> Vec<String> {
    items.iter().map(|s| s.to_string()).collect()
}

fn card(front: &str, back: &str) -> Flashcard {
    Flashcard::new(front, back).expect("both sides are non-blank")
}

/// Reads one field back as a spreadsheet importer would: quoted fields drop
/// their quotes and undouble inner quotes.
fn read_field(field: &str) -> String {
    if let Some(inner) = field.strip_prefix('"').and_then(|f| f.strip_suffix('"')) {
        inner.replace("\"\"", "\"")
    } else {
        field.to_string()
    }
}

#[test]
fn escape_leaves_plain_text() {
    assert_eq!(escape_csv("Bonjour"), "Bonjour");
    assert_eq!(escape_csv(""), "");
    assert_eq!(escape_csv("it's fine; really"), "it's fine; really");
}

#[test]
fn escape_quotes_field_with_comma() {
    assert_eq!(escape_csv("Hello, World"), "\"Hello, World\"");
}

#[test]
fn escape_doubles_inner_quotes() {
    assert_eq!(escape_csv("say \"hi\""), "\"say \"\"hi\"\"\"");
    assert_eq!(escape_csv("\""), "\"\"\"\"");
}

#[test]
fn escape_quotes_field_with_newline() {
    assert_eq!(escape_csv("line one\nline two"), "\"line one\nline two\"");
}

#[test]
fn escaped_fields_read_back() {
    for s in ["a,b", "\"quoted\"", "two\nlines", "mix, \"of\"\nall", "plain", "élève"] {
        assert_eq!(read_field(&escape_csv(s)), s);
    }
}

#[test]
fn csv_has_one_line_per_card_in_order() {
    let cards = vec![card("de hond", "the dog"), card("say \"x\"", "a,b")];
    assert_eq!(to_csv(&cards), "de hond,the dog\n\"say \"\"x\"\"\",\"a,b\"\n");
}

#[test]
fn csv_of_no_cards_is_empty() {
    assert_eq!(to_csv(&Vec::new()), "");
}

#[test]
fn csv_is_the_same_when_written_twice() {
    let cards = vec![card("Hello, World", "Bonjour"), card("x", "y\nz")];
    let first = to_csv(&cards);
    let second = to_csv(&cards);
    assert_eq!(first.as_bytes(), second.as_bytes());
}

#[test]
fn card_sides_are_trimmed() {
    let c = card("  de kat \t", "\u{a0}the cat\n");
    assert_eq!(c.front(), "de kat");
    assert_eq!(c.back(), "the cat");
}

#[test]
fn card_with_blank_side_is_not_made() {
    assert!(Flashcard::new("   ", "back").is_none());
    assert!(Flashcard::new("front", "").is_none());
    assert!(Flashcard::new("\n\t", "\u{3000}").is_none());
}

#[test]
fn pair_with_fewer_than_two_texts_gives_no_card() {
    assert!(card_from_texts(&strings(&[])).is_none());
    assert!(card_from_texts(&strings(&["only front"])).is_none());
}

#[test]
fn pair_uses_its_first_two_texts() {
    let c = card_from_texts(&strings(&[" een ", " one ", "extra"])).unwrap();
    assert_eq!((c.front(), c.back()), ("een", "one"));
}

#[test]
fn pairs_keep_order_and_skip_bad_ones() {
    let pairs = vec![
        strings(&["a", "1"]),
        strings(&["lonely"]),
        strings(&["b", "   "]),
        strings(&[" c ", "3", "x"]),
    ];
    let cards = cards_from_pair_texts(&pairs);
    let got: Vec<(&str, &str)> = cards.iter().map(|c| (c.front(), c.back())).collect();
    assert_eq!(got, vec![("a", "1"), ("c", "3")]);
}

const PAGE: &str = r#"<html><body><ul>
<li class="pair-list-item">
  <div class="info notranslate"><span class="show-on-render"> de <b>hond</b> </span></div>
  <div class="info notranslate"><span class="show-on-render">the dog</span></div>
</li>
<li class="pair-list-item">
  <div class="info notranslate"><span class="show-on-render">alleen</span></div>
</li>
<li class="pair-list-item">
  <div class="info notranslate"><span class="show-on-render">leeg</span></div>
  <div class="info notranslate"><span class="show-on-render">   </span></div>
</li>
<li class="pair-list-item">
  <div class="info notranslate"><span class="show-on-render">de kat</span></div>
  <div class="info notranslate"><span class="show-on-render">the cat</span></div>
  <div class="info notranslate"><span class="show-on-render">extra</span></div>
</li>
<li class="other"><div class="info notranslate"><span class="show-on-render">x</span></div>
  <div class="info notranslate"><span class="show-on-render">y</span></div></li>
</ul></body></html>"#;

#[test]
fn page_cards_are_read_in_document_order() {
    let cards = extract_flashcards(PAGE, &PageLayout::standard()).unwrap();
    let got: Vec<(&str, &str)> = cards.iter().map(|c| (c.front(), c.back())).collect();
    assert_eq!(got, vec![("de hond", "the dog"), ("de kat", "the cat")]);
}

#[test]
fn page_without_pairs_gives_no_cards() {
    let cards = extract_flashcards("<html><body><p>nothing</p></body></html>", &PageLayout::standard());
    assert_eq!(cards.unwrap().len(), 0);
}

#[test]
fn bad_selector_is_an_error() {
    let layout = PageLayout { pair_selector: "li[".to_string(), info_selector: "span".to_string() };
    assert_eq!(extract_flashcards(PAGE, &layout).unwrap_err(), ExtractError::InvalidSelector);
}

#[test]
fn url_lines_are_trimmed_and_filtered_in_order() {
    let lines = strings(&[
        "  https://a.example/1  ",
        "",
        "# a comment",
        "   # indented comment",
        "\t",
        "https://a.example/2\r",
        "https://a.example/1",
    ]);
    assert_eq!(
        select_urls(&lines),
        strings(&["https://a.example/1", "https://a.example/2", "https://a.example/1"])
    );
}

#[test]
fn url_line_with_hash_later_is_kept() {
    assert_eq!(select_urls(&strings(&["https://a.example/x#part"])), strings(&["https://a.example/x#part"]));
}

#[test]
fn failed_page_leaves_other_pages_cards() {
    let mut outcome = BatchOutcome::new();
    outcome.record(Ok(vec![card("a", "1")]));
    outcome.record(Err(ExtractError::Timeout("no pair element".to_string())));
    outcome.record(Ok(vec![card("b", "2"), card("c", "3")]));
    outcome.record(Err(ExtractError::Navigation("refused".to_string())));
    outcome.record(Ok(Vec::new()));
    let got: Vec<&str> = outcome.cards().iter().map(|c| c.front()).collect();
    assert_eq!(got, vec!["a", "b", "c"]);
    assert_eq!(outcome.succeeded(), 3);
    assert_eq!(outcome.failed(), 2);
}

#[test]
fn end_to_end_example() {
    let lines = strings(&["https://a.example/set1", "# skip", "https://a.example/set2"]);
    let urls = select_urls(&lines);
    assert_eq!(urls, strings(&["https://a.example/set1", "https://a.example/set2"]));
    let mut outcome = BatchOutcome::new();
    for url in &urls {
        if url.ends_with("set1") {
            outcome.record(Ok(vec![card("Hello, World", "Bonjour")]));
        } else {
            outcome.record(Err(ExtractError::Retrieval("unreachable".to_string())));
        }
    }
    assert_eq!(to_csv(outcome.cards()), "\"Hello, World\",Bonjour\n");
    assert_eq!(outcome.cards().len(), 1);
    assert_eq!(outcome.succeeded(), 1);
    assert_eq!(outcome.failed(), 1);
}
