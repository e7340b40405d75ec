//! Canonical form of free-text answers.

use vstd::prelude::*;
use crate::text::{
    char_is_space, from_chars, is_space, is_squashed, lemma_squash_fixed,
    lemma_squash_is_squashed, squash, squash_chars, to_chars,
};

verus! {

/// What `unidecode::unidecode` returns for the text `s`.
pub uninterp spec fn unidecoded(s: Seq<char>) -> Seq<char>;

/// Whether `c` is an ASCII character.
pub open spec fn is_ascii_char(c: char) -> bool {
    (c as u32) < 0x80
}

/// Whether every character of `s` is ASCII.
pub open spec fn is_ascii_text(s: Seq<char>) -> bool {
    forall|i: int| 0 <= i < s.len() ==> is_ascii_char(#[trigger] s[i])
}

/// The transliteration of `s` to ASCII: ASCII text stands for itself, any
/// other text for what the transliteration table gives.
pub open spec fn ascii_fold(s: Seq<char>) -> Seq<char> {
    if is_ascii_text(s) {
        s
    } else {
        unidecoded(s)
    }
}

/// The lower-case form of an ASCII letter; any other character unchanged.
pub open spec fn lower_char(c: char) -> char {
    if 'A' <= c <= 'Z' {
        ((c as u32) + 32) as char
    } else {
        c
    }
}

/// Whether `c` is an ASCII letter or digit.
pub open spec fn is_alnum(c: char) -> bool {
    ('0' <= c <= '9') || ('a' <= c <= 'z') || ('A' <= c <= 'Z')
}

/// Whether normalisation keeps the (lower-cased) character `c`.
pub open spec fn is_kept(c: char) -> bool {
    is_alnum(c) || is_space(c)
}

/// The characters of `s` lower-cased, those dropped that are neither letters,
/// digits nor white space.
pub open spec fn lowered_kept(s: Seq<char>) -> Seq<char>
    decreases s.len(),
{
    if s.len() == 0 {
        s
    } else {
        let before = lowered_kept(s.drop_last());
        let c = lower_char(s.last());
        if is_kept(c) {
            before.push(c)
        } else {
            before
        }
    }
}

/// The canonical form of `s`: transliterated to ASCII, lower-cased, with only
/// letters, digits and single blanks between words left.
pub open spec fn normalized(s: Seq<char>) -> Seq<char> {
    squash(lowered_kept(ascii_fold(s)))
}

/// `unidecode::unidecode`: the result is the crate's transliteration of `s`;
/// as the crate documents, it is ASCII throughout, and ASCII input comes back
/// unchanged.
#[verifier::external_body]
fn transliterate(s: &str) -> (out: String)
    ensures
        out@ == unidecoded(s@),
        is_ascii_text(out@),
        is_ascii_text(s@) ==> out@ == s@,
{
    unidecode::unidecode(s)
}

/// The lower-case form of an ASCII letter; any other character unchanged.
pub fn to_lower(c: char) -> (out: char)
    ensures
        out == lower_char(c),
{
    if 'A' <= c && c <= 'Z' {
        ((c as u8) + 32) as char
    } else {
        c
    }
}

/// Whether normalisation keeps the (lower-cased) character `c`.
pub fn keeps(c: char) -> (b: bool)
    ensures
        b == is_kept(c),
{
    ('0' <= c && c <= '9') || ('a' <= c && c <= 'z') || ('A' <= c && c <= 'Z') || char_is_space(c)
}

/// The canonical form of text that is already transliterated: lower-cased,
/// stripped of everything but letters, digits and white space, with runs of
/// white space collapsed and none at either end.
pub fn canonical(folded: &str) -> (out: String)
    ensures
        out@ == squash(lowered_kept(folded@)),
{
    let chars = to_chars(folded);
    let mut buf: Vec<char> = Vec::new();
    let mut i: usize = 0;
    while i < chars.len()
        invariant
            i <= chars.len(),
            buf@ == lowered_kept(chars@.take(i as int)),
        decreases chars.len() - i,
    {
        let c = to_lower(chars[i]);
        assert(chars@.take(i as int + 1).drop_last() =~= chars@.take(i as int));
        if keeps(c) {
            buf.push(c);
        }
        i += 1;
    }
    assert(chars@.take(i as int) =~= chars@);
    from_chars(&squash_chars(&buf))
}

/// Canonical form of an answer: transliterated to ASCII, lower-cased,
/// stripped of punctuation, with runs of white space collapsed and none at
/// either end. Normalising a canonical form changes nothing.
pub fn normalize_string(s: &str) -> (out: String)
    ensures
        out@ == normalized(s@),
        normalized(out@) == out@,
{
    let folded = transliterate(s);
    proof {
        lemma_normalize_idempotent(s@);
    }
    canonical(folded.as_str())
}

/// Lower-casing a character twice is lower-casing it once.
pub proof fn lemma_lower_char(c: char)
    ensures
        lower_char(lower_char(c)) == lower_char(c),
{
}

/// Lower-casing and dropping leaves only characters that are kept, and no
/// upper-case letters.
pub proof fn lemma_lowered_kept_chars(s: Seq<char>)
    ensures
        forall|i: int|
            0 <= i < lowered_kept(s).len() ==> {
                let c = #[trigger] lowered_kept(s)[i];
                is_kept(c) && lower_char(c) == c
            },
    decreases s.len(),
{
    if s.len() > 0 {
        let p = s.drop_last();
        lemma_lowered_kept_chars(p);
        lemma_lower_char(s.last());
        assert forall|i: int| 0 <= i < lowered_kept(s).len() implies {
            let c = #[trigger] lowered_kept(s)[i];
            is_kept(c) && lower_char(c) == c
        } by {
            if i < lowered_kept(p).len() {
                assert(lowered_kept(s)[i] == lowered_kept(p)[i]);
            }
        }
    }
}

/// Text made only of kept characters without upper-case letters is left
/// unchanged by lower-casing and dropping.
pub proof fn lemma_lowered_kept_fixed(s: Seq<char>)
    requires
        forall|i: int| 0 <= i < s.len() ==> is_kept(#[trigger] s[i]) && lower_char(s[i]) == s[i],
    ensures
        lowered_kept(s) == s,
    decreases s.len(),
{
    if s.len() > 0 {
        lemma_lowered_kept_fixed(s.drop_last());
    }
}

/// A canonical form is made of lower-case ASCII letters, digits and single
/// blanks between words.
pub proof fn lemma_normalized_chars(s: Seq<char>)
    ensures
        is_squashed(normalized(s)),
        forall|i: int|
            0 <= i < normalized(s).len() ==> {
                let c = #[trigger] normalized(s)[i];
                c == ' ' || ('a' <= c <= 'z') || ('0' <= c <= '9')
            },
{
    let kept = lowered_kept(ascii_fold(s));
    let t = normalized(s);
    lemma_lowered_kept_chars(ascii_fold(s));
    lemma_squash_is_squashed(kept);
    assert forall|i: int| 0 <= i < t.len() implies {
        let c = #[trigger] t[i];
        c == ' ' || ('a' <= c <= 'z') || ('0' <= c <= '9')
    } by {
        if t[i] != ' ' {
            // A character other than the blank comes from the kept text, and
            // is no white space there.
            let j = choose|j: int| 0 <= j < kept.len() && kept[j] == t[i];
            assert(is_kept(kept[j]) && lower_char(kept[j]) == kept[j]);
        }
    }
}

/// Normalising is idempotent: the canonical form of a canonical form is that
/// form itself.
pub proof fn lemma_normalize_idempotent(s: Seq<char>)
    ensures
        normalized(normalized(s)) == normalized(s),
{
    let t = normalized(s);
    lemma_normalized_chars(s);
    assert(is_ascii_text(t));
    lemma_lowered_kept_fixed(t);
    lemma_squash_fixed(t);
}

/// Lower-casing and dropping works on a text part by part.
pub proof fn lemma_lowered_kept_concat(a: Seq<char>, b: Seq<char>)
    ensures
        lowered_kept(a + b) == lowered_kept(a) + lowered_kept(b),
    decreases b.len(),
{
    if b.len() > 0 {
        lemma_lowered_kept_concat(a, b.drop_last());
        assert((a + b).drop_last() =~= a + b.drop_last());
    }
}

/// Texts that are equal once lower-cased keep the same characters.
pub proof fn lemma_same_case_same_kept(a: Seq<char>, b: Seq<char>)
    requires
        a.len() == b.len(),
        forall|i: int| 0 <= i < a.len() ==> lower_char(#[trigger] a[i]) == lower_char(b[i]),
    ensures
        lowered_kept(a) == lowered_kept(b),
    decreases a.len(),
{
    if a.len() > 0 {
        lemma_same_case_same_kept(a.drop_last(), b.drop_last());
    }
}

/// Normalising ignores the case of ASCII letters: two ASCII texts that are
/// equal once lower-cased have the same canonical form.
pub proof fn lemma_normalize_ignores_case(a: Seq<char>, b: Seq<char>)
    requires
        is_ascii_text(a),
        is_ascii_text(b),
        a.len() == b.len(),
        forall|i: int| 0 <= i < a.len() ==> lower_char(#[trigger] a[i]) == lower_char(b[i]),
    ensures
        normalized(a) == normalized(b),
{
    lemma_same_case_same_kept(a, b);
}

/// Normalising ignores punctuation: in an ASCII text, a character that is
/// neither a letter, a digit nor white space can be left out without a
/// change to the canonical form.
pub proof fn lemma_normalize_ignores_punctuation(a: Seq<char>, c: char, b: Seq<char>)
    requires
        is_ascii_text(a),
        is_ascii_text(b),
        is_ascii_char(c),
        !is_kept(lower_char(c)),
    ensures
        normalized(a + seq![c] + b) == normalized(a + b),
{
    lemma_lowered_kept_concat(a + seq![c], b);
    lemma_lowered_kept_concat(a, seq![c]);
    lemma_lowered_kept_concat(a, b);
    assert(seq![c].drop_last() =~= Seq::<char>::empty());
    assert(lowered_kept(Seq::<char>::empty()) =~= Seq::<char>::empty());
}

} // verus!
