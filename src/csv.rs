//! The comma-separated file that the cards are written to.
use vstd::prelude::*;
use vstd::string::StringExecFns;

use crate::card::{cards_view, CardView, Flashcard};
use crate::text::push_char;

verus! {

/// A field is quoted when it holds a comma, a double quote or a newline.
pub open spec fn needs_quoting(s: Seq<char>) -> bool {
    s.contains(',') || s.contains('"') || s.contains('\n')
}

/// One character of a quoted field: a double quote is doubled.
pub open spec fn quoted_char(c: char) -> Seq<char> {
    if c == '"' {
        seq!['"', '"']
    } else {
        seq![c]
    }
}

/// The text with every double quote doubled.
pub open spec fn double_quotes(s: Seq<char>) -> Seq<char> {
    s.flat_map(|c: char| quoted_char(c))
}

/// A field as written: in double quotes, with inner quotes doubled, where it
/// needs quoting, and as it is otherwise.
pub open spec fn escape_field(s: Seq<char>) -> Seq<char> {
    if needs_quoting(s) {
        seq!['"'] + double_quotes(s) + seq!['"']
    } else {
        s
    }
}

/// The line of one card: front, a comma, back, a newline.
pub open spec fn csv_record(card: CardView) -> Seq<char> {
    escape_field(card.0) + seq![','] + escape_field(card.1) + seq!['\n']
}

/// The file of a sequence of cards: their lines in order, with no header.
pub open spec fn csv_text(cards: Seq<CardView>) -> Seq<char> {
    cards.flat_map(|c: CardView| csv_record(c))
}

/// A field as the importer reads it: wrapped in double quotes, with each
/// double quote inside doubled, where it holds a comma, a double quote or a
/// newline; as it is otherwise.
pub fn escape_csv(text: &str) -> (r: String)
    ensures
        r@ == escape_field(text@),
{
    broadcast use vstd::string::axiom_spec_iter;

    let mut body = String::new();
    let mut quote = false;
    for c in it: text.chars()
        invariant
            it.seq() == text@,
            body@ == double_quotes(text@.take(it.index() as int)),
            quote == needs_quoting(text@.take(it.index() as int)),
    {
        let ghost done = text@.take(it.index() as int);
        proof {
            done.lemma_flat_map_push(|c: char| quoted_char(c), c);
            assert(text@.take(it.index() + 1) =~= done.push(c));
        }
        if c == '"' {
            push_char(&mut body, '"');
            push_char(&mut body, '"');
            quote = true;
        } else {
            push_char(&mut body, c);
            if c == ',' || c == '\n' {
                quote = true;
            }
        }
        assert(quote == needs_quoting(done.push(c))) by {
            assert(done.push(c).last() == c);
            assert(forall|d: char| done.contains(d) ==> done.push(c).contains(d));
            assert(forall|d: char| #[trigger] done.push(c).contains(d) ==> d == c || done.contains(d));
        }
    }
    assert(text@.take(text@.len() as int) =~= text@);
    if quote {
        let mut out = String::new();
        push_char(&mut out, '"');
        out.append(body.as_str());
        push_char(&mut out, '"');
        out
    } else {
        text.to_owned()
    }
}

/// The file of the cards: one line per card, in order, each its front and its
/// back, escaped, joined by a comma; no header.
pub fn to_csv(cards: &Vec<Flashcard>) -> (r: String)
    ensures
        r@ == csv_text(cards_view(cards@)),
{
    let mut out = String::new();
    let mut i: usize = 0;
    while i < cards.len()
        invariant
            i <= cards.len(),
            out@ == csv_text(cards_view(cards@.take(i as int))),
        decreases cards.len() - i,
    {
        let front = escape_csv(cards[i].front());
        let back = escape_csv(cards[i].back());
        let ghost before = out@;
        out.append(front.as_str());
        push_char(&mut out, ',');
        out.append(back.as_str());
        push_char(&mut out, '\n');
        proof {
            let done = cards_view(cards@.take(i as int));
            done.lemma_flat_map_push(|c: CardView| csv_record(c), cards@[i as int]@);
            assert(cards_view(cards@.take(i + 1)) =~= done.push(cards@[i as int]@));
            assert(out@ =~= before + csv_record(cards@[i as int]@));
        }
        i = i + 1;
    }
    assert(cards@.take(cards.len() as int) =~= cards@);
    out
}

/// Reads the rest of a quoted field, after its opening quote: a doubled quote
/// stands for one quote, and a lone quote closes the field. Gives the field
/// and what follows its closing quote, or `None` where the field never closes.
pub open spec fn read_quoted(s: Seq<char>) -> Option<(Seq<char>, Seq<char>)>
    decreases s.len(),
{
    if s.len() == 0 {
        None
    } else if s[0] == '"' {
        if s.len() >= 2 && s[1] == '"' {
            match read_quoted(s.subrange(2, s.len() as int)) {
                Some((f, rest)) => Some((seq!['"'] + f, rest)),
                None => None,
            }
        } else {
            Some((Seq::empty(), s.drop_first()))
        }
    } else {
        match read_quoted(s.drop_first()) {
            Some((f, rest)) => Some((seq![s[0]] + f, rest)),
            None => None,
        }
    }
}

/// The length of an unquoted field at the start of `s`: up to the first
/// comma or newline.
pub open spec fn plain_len(s: Seq<char>) -> nat
    decreases s.len(),
{
    if s.len() == 0 || s[0] == ',' || s[0] == '\n' {
        0
    } else {
        1 + plain_len(s.drop_first())
    }
}

/// Reads the field at the start of `s`, as the importer does: a quoted one up
/// to its closing quote, any other up to the next comma or newline. Gives the
/// field and what follows it.
pub open spec fn read_field(s: Seq<char>) -> Option<(Seq<char>, Seq<char>)> {
    if s.len() > 0 && s[0] == '"' {
        read_quoted(s.drop_first())
    } else {
        Some((s.take(plain_len(s) as int), s.skip(plain_len(s) as int)))
    }
}

/// What may follow a field: nothing, a comma or a newline.
pub open spec fn ends_field(rest: Seq<char>) -> bool {
    rest.len() == 0 || rest[0] == ',' || rest[0] == '\n'
}

/// Reads the record at the start of `s`: a field, a comma, a field and a
/// newline. Gives the card and what follows the newline.
pub open spec fn read_record(s: Seq<char>) -> Option<(CardView, Seq<char>)> {
    match read_field(s) {
        Some((front, r1)) => if r1.len() > 0 && r1[0] == ',' {
            match read_field(r1.drop_first()) {
                Some((back, r2)) => if r2.len() > 0 && r2[0] == '\n' {
                    Some(((front, back), r2.drop_first()))
                } else {
                    None
                },
                None => None,
            }
        } else {
            None
        },
        None => None,
    }
}

/// Reads `n` records from `s`, which must then be used up.
pub open spec fn read_records(s: Seq<char>, n: nat) -> Option<Seq<CardView>>
    decreases n,
{
    if n == 0 {
        if s.len() == 0 {
            Some(Seq::empty())
        } else {
            None
        }
    } else {
        match read_record(s) {
            Some((card, rest)) => match read_records(rest, (n - 1) as nat) {
                Some(cards) => Some(seq![card] + cards),
                None => None,
            },
            None => None,
        }
    }
}

proof fn lemma_flat_map_first<A, B>(s: Seq<A>, f: spec_fn(A) -> Seq<B>)
    requires
        s.len() > 0,
    ensures
        s.flat_map(f) == f(s[0]) + s.drop_first().flat_map(f),
{
    assert(s.map_values(f).drop_first() =~= s.drop_first().map_values(f));
}

proof fn lemma_read_quoted_doubled(s: Seq<char>, rest: Seq<char>)
    requires
        ends_field(rest),
    ensures
        read_quoted(double_quotes(s) + seq!['"'] + rest) == Some((s, rest)),
    decreases s.len(),
{
    let input = double_quotes(s) + seq!['"'] + rest;
    if s.len() == 0 {
        assert(double_quotes(s) =~= Seq::<char>::empty());
        assert(input =~= seq!['"'] + rest);
        assert(input.drop_first() =~= rest);
    } else {
        let tail = s.drop_first();
        lemma_flat_map_first(s, |c: char| quoted_char(c));
        lemma_read_quoted_doubled(tail, rest);
        let inner = double_quotes(tail) + seq!['"'] + rest;
        if s[0] == '"' {
            assert(input =~= seq!['"', '"'] + inner);
            assert(input.subrange(2, input.len() as int) =~= inner);
        } else {
            assert(input =~= seq![s[0]] + inner);
            assert(input.drop_first() =~= inner);
        }
        assert(seq![s[0]] + tail =~= s);
    }
}

proof fn lemma_plain_len(s: Seq<char>, rest: Seq<char>)
    requires
        !s.contains(','),
        !s.contains('\n'),
        ends_field(rest),
    ensures
        plain_len(s + rest) == s.len(),
    decreases s.len(),
{
    if s.len() > 0 {
        assert(!s.drop_first().contains(',') && !s.drop_first().contains('\n')) by {
            assert(forall|i: int|
                0 <= i < s.drop_first().len() ==> s.drop_first()[i] == s[i + 1]);
        }
        assert(s[0] != ',' && s[0] != '\n') by {
            assert(s.contains(s[0]));
        }
        lemma_plain_len(s.drop_first(), rest);
        assert((s + rest).drop_first() =~= s.drop_first() + rest);
    } else {
        assert(s + rest =~= rest);
    }
}

/// Reading back a written field gives the field again, whatever it holds:
/// commas, quotes and newlines included, and whatever ends it.
pub proof fn lemma_field_round_trip(s: Seq<char>, rest: Seq<char>)
    requires
        ends_field(rest),
    ensures
        read_field(escape_field(s) + rest) == Some((s, rest)),
{
    let input = escape_field(s) + rest;
    if needs_quoting(s) {
        lemma_read_quoted_doubled(s, rest);
        assert(input.drop_first() =~= double_quotes(s) + seq!['"'] + rest);
    } else {
        lemma_plain_len(s, rest);
        assert(input.len() > 0 ==> input[0] != '"') by {
            if s.len() > 0 {
                assert(s.contains(s[0]));
                assert(input[0] == s[0]);
            } else {
                assert(input =~= rest);
            }
        }
        assert(input.take(s.len() as int) =~= s);
        assert(input.skip(s.len() as int) =~= rest);
    }
}

/// Reading back the line of a card gives the card again, and leaves what
/// follows the line.
pub proof fn lemma_record_round_trip(card: CardView, rest: Seq<char>)
    ensures
        read_record(csv_record(card) + rest) == Some((card, rest)),
{
    let r2 = seq!['\n'] + rest;
    let r1 = seq![','] + escape_field(card.1) + r2;
    lemma_field_round_trip(card.0, r1);
    lemma_field_round_trip(card.1, r2);
    assert(csv_record(card) + rest =~= escape_field(card.0) + r1);
    assert(r1.drop_first() =~= escape_field(card.1) + r2);
    assert(r2.drop_first() =~= rest);
}

/// Reading back the file of a sequence of cards, one record per card, gives
/// the sequence again, in order.
pub proof fn lemma_file_round_trip(cards: Seq<CardView>)
    ensures
        read_records(csv_text(cards), cards.len()) == Some(cards),
    decreases cards.len(),
{
    if cards.len() == 0 {
        assert(csv_text(cards) =~= Seq::<char>::empty());
    } else {
        let tail = cards.drop_first();
        lemma_flat_map_first(cards, |c: CardView| csv_record(c));
        lemma_record_round_trip(cards[0], csv_text(tail));
        lemma_file_round_trip(tail);
        assert(seq![cards[0]] + tail =~= cards);
    }
}

/// The file depends on the cards alone: writing the same cards twice gives
/// the same text, character for character.
pub proof fn lemma_output_deterministic(a: Seq<Flashcard>, b: Seq<Flashcard>)
    requires
        cards_view(a) == cards_view(b),
    ensures
        csv_text(cards_view(a)) == csv_text(cards_view(b)),
{
}

} // verus!
