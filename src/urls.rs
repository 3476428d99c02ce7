//! The list of page addresses, read from lines of text.
use vstd::prelude::*;

use crate::text::{lemma_trim_idempotent, trim_spec, trim_str};

verus! {

/// A trimmed line that names a page: not blank, and not a comment (`#` first).
pub open spec fn is_url_line(t: Seq<char>) -> bool {
    t.len() > 0 && t[0] != '#'
}

/// The addresses that lines name: each line trimmed, blank and comment lines
/// left out, order kept.
pub open spec fn url_lines(lines: Seq<Seq<char>>) -> Seq<Seq<char>>
    decreases lines.len(),
{
    if lines.len() == 0 {
        Seq::empty()
    } else {
        let rest = url_lines(lines.drop_last());
        let t = trim_spec(lines.last());
        if is_url_line(t) {
            rest.push(t)
        } else {
            rest
        }
    }
}

/// Whether a trimmed line names a page.
fn names_page(t: &str) -> (r: bool)
    ensures
        r == is_url_line(t@),
{
    let mut chars = t.chars();
    proof {
        broadcast use vstd::string::axiom_spec_iter, vstd::string::next_postcondition;
    }
    match chars.next() {
        Some(c) => c != '#',
        None => false,
    }
}

/// The page addresses that the lines of a list name, in order: each line
/// trimmed, blank lines and lines starting with `#` left out.
pub fn select_urls(lines: &Vec<String>) -> (r: Vec<String>)
    ensures
        r.deep_view() == url_lines(lines.deep_view()),
{
    let mut urls: Vec<String> = Vec::new();
    let mut i: usize = 0;
    while i < lines.len()
        invariant
            i <= lines.len(),
            urls.deep_view() == url_lines(lines.deep_view().take(i as int)),
        decreases lines.len() - i,
    {
        let t = trim_str(lines[i].as_str());
        let keep = names_page(t);
        assert(lines.deep_view().take(i + 1).drop_last() =~= lines.deep_view().take(i as int));
        if keep {
            urls.push(t.to_owned());
        }
        assert(urls.deep_view() =~= url_lines(lines.deep_view().take(i + 1)));
        i = i + 1;
    }
    assert(lines.deep_view().take(lines.len() as int) =~= lines.deep_view());
    urls
}

/// Every address of the list is a line of the source, trimmed, that is
/// neither blank nor a comment, and trimming it again changes nothing. The
/// list is the source's lines, trimmed, with exactly the blank and comment
/// lines taken out, in the source's order.
pub proof fn lemma_url_lines_clean(lines: Seq<Seq<char>>)
    ensures
        forall|i: int|
            0 <= i < url_lines(lines).len() ==> is_url_line(#[trigger] url_lines(lines)[i])
                && trim_spec(url_lines(lines)[i]) == url_lines(lines)[i],
        url_lines(lines) == lines.map_values(|l: Seq<char>| trim_spec(l)).filter(
            |t: Seq<char>| is_url_line(t),
        ),
    decreases lines.len(),
{
    broadcast use Seq::lemma_filter_push;

    let f = |l: Seq<char>| trim_spec(l);
    let pred = |t: Seq<char>| is_url_line(t);
    if lines.len() == 0 {
        reveal(Seq::filter);
        assert(url_lines(lines) =~= lines.map_values(f).filter(pred));
    } else {
        let rest = lines.drop_last();
        lemma_url_lines_clean(rest);
        assert(lines.map_values(f) =~= rest.map_values(f).push(trim_spec(lines.last())));
        lemma_trim_idempotent(lines.last());
        assert forall|i: int| 0 <= i < url_lines(lines).len() implies is_url_line(
            #[trigger] url_lines(lines)[i],
        ) && trim_spec(url_lines(lines)[i]) == url_lines(lines)[i] by {
            if i < url_lines(rest).len() {
                assert(url_lines(lines)[i] == url_lines(rest)[i]);
            }
        }
    }
}

} // verus!
