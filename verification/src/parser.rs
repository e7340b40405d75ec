//! Deck text: one entry per line, prompt and answer separated by a tab.
//!
//! A side may hold alternates separated by `/`, and optional text in round
//! brackets; both are spelled out into the list of accepted forms.

use vstd::prelude::*;
use vstd::string::StringExecFns;
use crate::text::{
    blank_chars, from_chars, is_blank, join, join_chars, rows, split, split_chars, squash,
    squash_chars, to_chars, trim_chars, trimmed,
};

verus! {

/// Whether `s` holds a bracketed group from `open` to `close`: a `(` and the
/// nearest `)` after it, with no line break between the two.
pub open spec fn group_at(s: Seq<char>, open: int, close: int) -> bool {
    &&& 0 <= open < close < s.len()
    &&& s[open] == '('
    &&& s[close] == ')'
    &&& forall|k: int| open < k < close ==> s[k] != ')' && s[k] != '\n'
}

/// Whether a bracketed group starts at `open`.
pub open spec fn opens_group(s: Seq<char>, open: int) -> bool {
    exists|close: int| group_at(s, open, close)
}

/// Whether the leftmost bracketed group of `s` runs from `open` to `close`.
pub open spec fn is_first_group(s: Seq<char>, open: int, close: int) -> bool {
    &&& group_at(s, open, close)
    &&& forall|p: int| 0 <= p < open ==> !opens_group(s, p)
}

/// The leftmost bracketed group of `s`, as the positions of its brackets.
pub open spec fn first_group(s: Seq<char>) -> Option<(int, int)> {
    if exists|p: (int, int)| is_first_group(s, p.0, p.1) {
        Some(choose|p: (int, int)| is_first_group(s, p.0, p.1))
    } else {
        None
    }
}

/// `s` with the brackets at `open` and `close` removed and the text between
/// them kept.
pub open spec fn with_group(s: Seq<char>, open: int, close: int) -> Seq<char> {
    s.take(open) + s.subrange(open + 1, close) + s.skip(close + 1)
}

/// `s` with everything from the bracket at `open` to the one at `close`
/// removed.
pub open spec fn without_group(s: Seq<char>, open: int, close: int) -> Seq<char> {
    s.take(open) + s.skip(close + 1)
}

/// Every reading of `s`: each bracketed group, leftmost first, is taken once
/// with its text and once without, until no group is left.
pub open spec fn expansions(s: Seq<char>) -> Seq<Seq<char>>
    decreases s.len(),
{
    match first_group(s) {
        Some((open, close)) => if 0 <= open < close < s.len() {
            expansions(with_group(s, open, close)) + expansions(without_group(s, open, close))
        } else {
            seq![s]
        },
        None => seq![s],
    }
}

/// The members of `list`, each at its first occurrence only.
pub open spec fn unique(list: Seq<Seq<char>>) -> Seq<Seq<char>>
    decreases list.len(),
{
    if list.len() == 0 {
        list
    } else {
        let before = unique(list.drop_last());
        if before.contains(list.last()) {
            before
        } else {
            before.push(list.last())
        }
    }
}

/// The members of `list` with their white space squashed, those dropped that
/// are empty then.
pub open spec fn squashed_nonempty(list: Seq<Seq<char>>) -> Seq<Seq<char>>
    decreases list.len(),
{
    if list.len() == 0 {
        list
    } else {
        let before = squashed_nonempty(list.drop_last());
        let word = squash(list.last());
        if word.len() == 0 {
            before
        } else {
            before.push(word)
        }
    }
}

/// The forms that `s` stands for once its optional bracketed text is spelled
/// out.
pub open spec fn variants(s: Seq<char>) -> Seq<Seq<char>> {
    squashed_nonempty(unique(expansions(s)))
}

/// The variants of each trimmed member of `pieces`, one list after another.
pub open spec fn all_variants(pieces: Seq<Seq<char>>) -> Seq<Seq<char>>
    decreases pieces.len(),
{
    if pieces.len() == 0 {
        pieces
    } else {
        all_variants(pieces.drop_last()) + variants(trimmed(pieces.last()))
    }
}

/// The separator between accepted alternates.
pub open spec fn alternate_separator() -> Seq<char> {
    seq![' ', '/', ' ']
}

/// One side of an entry in its spelled-out form: the distinct variants of
/// its `/`-separated alternates, joined by `" / "`.
pub open spec fn side(s: Seq<char>) -> Seq<char> {
    join(unique(all_variants(split(s, '/'))), alternate_separator())
}

/// The entry that a line of deck text gives: none for a blank line, a line
/// that starts with `#`, or a line without a tab.
pub open spec fn parsed_line(line: Seq<char>) -> Option<(Seq<char>, Seq<char>)> {
    let fields = split(line, '\t');
    if is_blank(line) || line[0] == '#' || fields.len() < 2 {
        None
    } else {
        Some((side(trimmed(fields[0])), side(trimmed(fields[1]))))
    }
}

/// The entries that `lines` give, in order.
pub open spec fn parsed_lines(lines: Seq<Seq<char>>) -> Seq<(Seq<char>, Seq<char>)>
    decreases lines.len(),
{
    if lines.len() == 0 {
        Seq::empty()
    } else {
        let before = parsed_lines(lines.drop_last());
        match parsed_line(lines.last()) {
            Some(entry) => before.push(entry),
            None => before,
        }
    }
}

/// The entries of a deck text.
pub open spec fn parsed_deck(text: Seq<char>) -> Seq<(Seq<char>, Seq<char>)> {
    parsed_lines(split(text, '\n'))
}

/// A text has at most one leftmost group.
pub proof fn lemma_first_group_unique(s: Seq<char>, open: int, close: int)
    requires
        is_first_group(s, open, close),
    ensures
        first_group(s) == Some((open, close)),
{
    let p = (open, close);
    assert(is_first_group(s, p.0, p.1));
    let q = choose|q: (int, int)| is_first_group(s, q.0, q.1);
    assert(opens_group(s, open));
    assert(opens_group(s, q.0));
}

/// `regex::Regex::captures` with the pattern `\((.*?)\)`. The pattern matches
/// a `(`, then as few characters as possible other than a line break, then a
/// `)`; the crate reports the leftmost match. The result is the text before
/// that match, the text between its brackets and the text after it, or
/// nothing where the text holds no such group.
#[verifier::external_body]
fn find_group(text: &str) -> (found: Option<(String, String, String)>)
    ensures
        match found {
            Some((head, inner, tail)) => {
                &&& text@ == head@ + seq!['('] + inner@ + seq![')'] + tail@
                &&& is_first_group(
                    text@,
                    head@.len() as int,
                    (head@.len() + 1 + inner@.len()) as int,
                )
            },
            None => forall|open: int, close: int| !group_at(text@, open, close),
        },
{
    let pattern = regex::Regex::new(r"\((.*?)\)").unwrap();
    match pattern.captures(text) {
        Some(found) => {
            let whole = found.get(0).unwrap();
            let inner = found.get(1).unwrap().as_str();
            let head = &text[..whole.start()];
            let tail = &text[whole.end()..];
            Some((head.to_string(), inner.to_string(), tail.to_string()))
        },
        None => None,
    }
}

/// Appends every reading of `text` to `out`.
fn expand_into(text: String, out: &mut Vec<String>)
    ensures
        final(out).deep_view() == old(out).deep_view() + expansions(text@),
    decreases text@.len(),
{
    let ghost s = text@;
    match find_group(text.as_str()) {
        None => {
            out.push(text);
        },
        Some((head, inner, tail)) => {
            let ghost open = head@.len() as int;
            let ghost close = open + 1 + inner@.len();
            proof {
                lemma_first_group_unique(s, open, close);
                assert(s.take(open) =~= head@);
                assert(s.subrange(open + 1, close) =~= inner@);
                assert(s.skip(close + 1) =~= tail@);
            }
            let with = head.clone().concat(inner.as_str()).concat(tail.as_str());
            let without = head.concat(tail.as_str());
            expand_into(with, out);
            expand_into(without, out);
        },
    }
}

/// Whether `list` holds a string equal to `word`.
fn holds(list: &Vec<String>, word: &String) -> (found: bool)
    ensures
        found == list.deep_view().contains(word@),
{
    let mut i: usize = 0;
    while i < list.len()
        invariant
            i <= list.len(),
            forall|j: int| 0 <= j < i ==> list.deep_view()[j] != word@,
        decreases list.len() - i,
    {
        if list[i] == *word {
            assert(list.deep_view()[i as int] == word@);
            return true;
        }
        i += 1;
    }
    false
}

/// The members of `list`, each at its first occurrence only.
fn unique_strings(list: Vec<String>) -> (out: Vec<String>)
    ensures
        out.deep_view() == unique(list.deep_view()),
{
    let mut out: Vec<String> = Vec::new();
    let ghost all = list.deep_view();
    let mut i: usize = 0;
    while i < list.len()
        invariant
            i <= list.len(),
            all == list.deep_view(),
            out.deep_view() == unique(all.take(i as int)),
        decreases list.len() - i,
    {
        assert(all.take(i as int + 1).drop_last() =~= all.take(i as int));
        if !holds(&out, &list[i]) {
            out.push(list[i].clone());
        }
        i += 1;
    }
    assert(all.take(i as int) =~= all);
    out
}

/// The forms that `text` stands for once its optional bracketed text is
/// spelled out: `"card(s)"` gives `"cards"` and `"card"`. Each form has its
/// white space squashed; empty forms are left out.
pub fn expand_parens(text: &str) -> (out: Vec<String>)
    ensures
        out.deep_view() == variants(text@),
{
    let mut readings: Vec<String> = Vec::new();
    expand_into(String::from_str(text), &mut readings);
    let distinct = unique_strings(readings);
    let ghost all = distinct.deep_view();
    let mut out: Vec<String> = Vec::new();
    let mut i: usize = 0;
    while i < distinct.len()
        invariant
            i <= distinct.len(),
            all == distinct.deep_view(),
            out.deep_view() == squashed_nonempty(all.take(i as int)),
        decreases distinct.len() - i,
    {
        assert(all.take(i as int + 1).drop_last() =~= all.take(i as int));
        let word = squash_chars(&to_chars(distinct[i].as_str()));
        if word.len() > 0 {
            out.push(from_chars(&word));
        }
        i += 1;
    }
    assert(all.take(i as int) =~= all);
    out
}

/// The members of `parts` written one after another with `" / "` between
/// each two neighbours.
fn join_alternates(parts: &Vec<String>) -> (out: String)
    ensures
        out@ == join(parts.deep_view(), alternate_separator()),
{
    let mut pieces: Vec<Vec<char>> = Vec::new();
    let mut i: usize = 0;
    while i < parts.len()
        invariant
            i <= parts.len(),
            rows(pieces@) == parts.deep_view().take(i as int),
        decreases parts.len() - i,
    {
        let ghost prior = rows(pieces@);
        let piece = to_chars(parts[i].as_str());
        pieces.push(piece);
        assert(rows(pieces@) =~= prior.push(piece@));
        i += 1;
    }
    assert(parts.deep_view().take(i as int) =~= parts.deep_view());
    let separator: Vec<char> = vec![' ', '/', ' '];
    from_chars(&join_chars(&pieces, &separator))
}

/// One side of an entry in its spelled-out form.
fn side_of(chars: &Vec<char>) -> (out: String)
    ensures
        out@ == side(chars@),
{
    let pieces = split_chars(chars, '/');
    let ghost all = rows(pieces@);
    let mut found: Vec<String> = Vec::new();
    let mut i: usize = 0;
    while i < pieces.len()
        invariant
            i <= pieces.len(),
            all == rows(pieces@),
            found.deep_view() == all_variants(all.take(i as int)),
        decreases pieces.len() - i,
    {
        assert(all.take(i as int + 1).drop_last() =~= all.take(i as int));
        let piece = from_chars(&trim_chars(&pieces[i]));
        let mut forms = expand_parens(piece.as_str());
        found.append(&mut forms);
        i += 1;
    }
    assert(all.take(i as int) =~= all);
    join_alternates(&unique_strings(found))
}

/// One side of a deck entry in its spelled-out form: every `/`-separated
/// alternate is trimmed and expanded, and the distinct results are joined by
/// `" / "`.
pub fn process_side(text: &str) -> (out: String)
    ensures
        out@ == side(text@),
{
    side_of(&to_chars(text))
}

/// The entries of a deck text, in the order of their lines. Blank lines,
/// lines that start with `#` and lines without a tab give no entry; fields
/// after the second are ignored.
pub fn parse_deck(text: &str) -> (out: Vec<(String, String)>)
    ensures
        out.deep_view() == parsed_deck(text@),
{
    let lines = split_chars(&to_chars(text), '\n');
    let ghost all = rows(lines@);
    let mut out: Vec<(String, String)> = Vec::new();
    let mut i: usize = 0;
    while i < lines.len()
        invariant
            i <= lines.len(),
            all == rows(lines@),
            out.deep_view() == parsed_lines(all.take(i as int)),
        decreases lines.len() - i,
    {
        assert(all.take(i as int + 1).drop_last() =~= all.take(i as int));
        let line = &lines[i];
        if !blank_chars(line) && line[0] != '#' {
            let fields = split_chars(line, '\t');
            if fields.len() >= 2 {
                let front = side_of(&trim_chars(&fields[0]));
                let back = side_of(&trim_chars(&fields[1]));
                out.push((front, back));
            }
        }
        i += 1;
    }
    assert(all.take(i as int) =~= all);
    out
}

} // verus!
