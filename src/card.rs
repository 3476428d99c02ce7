//! The flashcard, and how a pair of texts read from a page becomes one.
use vstd::prelude::*;

use crate::text::{is_trimmed, lemma_trim_is_trimmed, trim_spec, trim_str};

verus! {

/// A card as a front text and a back text.
pub type CardView = (Seq<char>, Seq<char>);

/// A side of a card: not empty, with no white space at either end.
pub open spec fn is_card_side(s: Seq<char>) -> bool {
    s.len() > 0 && is_trimmed(s)
}

/// The pair of texts found on a page yields a card when it has at least two
/// texts and the first two are not blank; the card holds them trimmed, and
/// any further text is ignored.
pub open spec fn pair_yields_card(texts: Seq<Seq<char>>) -> bool {
    texts.len() >= 2 && trim_spec(texts[0]).len() > 0 && trim_spec(texts[1]).len() > 0
}

/// The card that a pair of texts yields, if any.
pub open spec fn card_of(texts: Seq<Seq<char>>) -> Option<CardView> {
    if pair_yields_card(texts) {
        Some((trim_spec(texts[0]), trim_spec(texts[1])))
    } else {
        None
    }
}

/// The cards that a sequence of pairs yields, in order.
pub open spec fn cards_of(pairs: Seq<Seq<Seq<char>>>) -> Seq<CardView> {
    pairs.filter_map(|t: Seq<Seq<char>>| card_of(t))
}

/// The views of a sequence of cards.
pub open spec fn cards_view(cards: Seq<Flashcard>) -> Seq<CardView> {
    cards.map_values(|c: Flashcard| c@)
}

/// The view of an optional card.
pub open spec fn opt_card_view(card: Option<Flashcard>) -> Option<CardView> {
    match card {
        Some(c) => Some(c@),
        None => None,
    }
}

/// A front/back pair of study terms. Both sides are non-empty and trimmed.
#[derive(Debug)]
pub struct Flashcard {
    front: String,
    back: String,
}

impl View for Flashcard {
    type V = CardView;

    closed spec fn view(&self) -> CardView {
        (self.front@, self.back@)
    }
}

impl Flashcard {
    #[verifier::type_invariant]
    spec fn sides_valid(&self) -> bool {
        is_card_side(self.front@) && is_card_side(self.back@)
    }

    /// The card with the two texts trimmed, or `None` where either is blank.
    pub fn new(front: &str, back: &str) -> (r: Option<Flashcard>)
        ensures
            opt_card_view(r) == card_of(seq![front@, back@]),
    {
        let f = trim_str(front);
        let b = trim_str(back);
        proof {
            lemma_trim_is_trimmed(front@);
            lemma_trim_is_trimmed(back@);
        }
        if f.is_empty() || b.is_empty() {
            None
        } else {
            let card = Flashcard { front: f.to_owned(), back: b.to_owned() };
            assert(card@ == (f@, b@));
            Some(card)
        }
    }

    /// The front of the card.
    pub fn front(&self) -> (r: &str)
        ensures
            r@ == self@.0,
            is_card_side(r@),
    {
        proof {
            use_type_invariant(self);
        }
        self.front.as_str()
    }

    /// The back of the card.
    pub fn back(&self) -> (r: &str)
        ensures
            r@ == self@.1,
            is_card_side(r@),
    {
        proof {
            use_type_invariant(self);
        }
        self.back.as_str()
    }
}

/// The card that the texts of one pair yield: the first two texts, trimmed,
/// where there are two and neither is blank.
pub fn card_from_texts(texts: &Vec<String>) -> (r: Option<Flashcard>)
    ensures
        opt_card_view(r) == card_of(texts.deep_view()),
{
    if texts.len() < 2 {
        return None;
    }
    let r = Flashcard::new(texts[0].as_str(), texts[1].as_str());
    assert(seq![texts[0]@, texts[1]@] =~= texts.deep_view().take(2));
    r
}

/// The cards that the pairs of a page yield, in the pairs' order. A pair with
/// fewer than two texts, or with a blank one, yields none and is no error.
pub fn cards_from_pair_texts(pairs: &Vec<Vec<String>>) -> (r: Vec<Flashcard>)
    ensures
        cards_view(r@) == cards_of(pairs.deep_view()),
{
    let mut cards: Vec<Flashcard> = Vec::new();
    let mut i: usize = 0;
    while i < pairs.len()
        invariant
            i <= pairs.len(),
            cards_view(cards@) == cards_of(pairs.deep_view().take(i as int)),
        decreases pairs.len() - i,
    {
        let card = card_from_texts(&pairs[i]);
        let ghost done = pairs.deep_view().take(i as int);
        assert(pairs.deep_view().take(i + 1).drop_last() =~= done);
        match card {
            Some(c) => {
                cards.push(c);
            },
            None => {},
        }
        assert(cards_view(cards@) =~= cards_of(pairs.deep_view().take(i + 1)));
        i = i + 1;
    }
    assert(pairs.deep_view().take(pairs.len() as int) =~= pairs.deep_view());
    cards
}

/// A pair yields a card exactly when it has two texts that are not blank once
/// trimmed; the cards are those pairs' first two texts, trimmed, in order.
pub proof fn lemma_cards_are_nonblank_pairs(pairs: Seq<Seq<Seq<char>>>)
    ensures
        cards_of(pairs) == pairs.filter(|t: Seq<Seq<char>>| pair_yields_card(t)).map_values(
            |t: Seq<Seq<char>>| (trim_spec(t[0]), trim_spec(t[1])),
        ),
    decreases pairs.len(),
{
    broadcast use Seq::lemma_filter_push;

    let pred = |t: Seq<Seq<char>>| pair_yields_card(t);
    let f = |t: Seq<Seq<char>>| (trim_spec(t[0]), trim_spec(t[1]));
    if pairs.len() > 0 {
        let rest = pairs.drop_last();
        lemma_cards_are_nonblank_pairs(rest);
        assert(rest.push(pairs.last()) =~= pairs);
        assert(cards_of(pairs) =~= pairs.filter(pred).map_values(f));
    } else {
        reveal(Seq::filter);
        assert(cards_of(pairs) =~= pairs.filter(pred).map_values(f));
    }
}

} // verus!
