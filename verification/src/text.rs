//! Character-level helpers shared by the text normaliser and the deck parser.
//!
//! Every function here works on a sequence of `char`s; the specifications are
//! written over `Seq<char>`, the view of `str`, `String` and `Vec<char>`.

use vstd::prelude::*;
use vstd::std_specs::iter::IteratorSpec;

verus! {

/// `String::push` appends one character.
pub assume_specification[ String::push ](s: &mut String, c: char)
    ensures
        final(s)@ == old(s)@.push(c),
;

/// Whether `c` is white space: the code points that carry the Unicode
/// `White_Space` property.
pub open spec fn is_space(c: char) -> bool {
    let n = c as u32;
    ||| 0x09 <= n <= 0x0d
    ||| n == 0x20
    ||| n == 0x85
    ||| n == 0xa0
    ||| n == 0x1680
    ||| 0x2000 <= n <= 0x200a
    ||| n == 0x2028
    ||| n == 0x2029
    ||| n == 0x202f
    ||| n == 0x205f
    ||| n == 0x3000
}

/// `s` without its leading white space.
pub open spec fn trim_start(s: Seq<char>) -> Seq<char>
    decreases s.len(),
{
    if s.len() > 0 && is_space(s[0]) {
        trim_start(s.drop_first())
    } else {
        s
    }
}

/// `s` without its trailing white space.
pub open spec fn trim_end(s: Seq<char>) -> Seq<char>
    decreases s.len(),
{
    if s.len() > 0 && is_space(s.last()) {
        trim_end(s.drop_last())
    } else {
        s
    }
}

/// `s` without leading and trailing white space.
pub open spec fn trimmed(s: Seq<char>) -> Seq<char> {
    trim_end(trim_start(s))
}

/// Whether `s` holds nothing but white space.
pub open spec fn is_blank(s: Seq<char>) -> bool {
    forall|i: int| 0 <= i < s.len() ==> is_space(#[trigger] s[i])
}

/// The pieces of `s` between occurrences of `delim`. There is always at least
/// one piece; `k` delimiters give `k + 1` pieces, some of which may be empty.
pub open spec fn split(s: Seq<char>, delim: char) -> Seq<Seq<char>>
    decreases s.len(),
{
    if s.len() == 0 {
        seq![Seq::<char>::empty()]
    } else {
        let before = split(s.drop_last(), delim);
        if s.last() == delim {
            before.push(Seq::<char>::empty())
        } else {
            before.drop_last().push(before.last().push(s.last()))
        }
    }
}

/// The pieces of `parts` written one after another with `sep` between each
/// two neighbours.
pub open spec fn join(parts: Seq<Seq<char>>, sep: Seq<char>) -> Seq<char>
    decreases parts.len(),
{
    if parts.len() == 0 {
        Seq::<char>::empty()
    } else if parts.len() == 1 {
        parts[0]
    } else {
        join(parts.drop_last(), sep) + sep + parts.last()
    }
}

/// The words of `s` (its maximal runs of characters that are not white
/// space) written with a single `' '` between each two neighbours.
pub open spec fn squash(s: Seq<char>) -> Seq<char>
    decreases s.len(),
{
    if s.len() == 0 {
        s
    } else {
        let before = squash(s.drop_last());
        let c = s.last();
        if is_space(c) {
            before
        } else if before.len() > 0 && is_space(s[s.len() - 2]) {
            before.push(' ').push(c)
        } else {
            before.push(c)
        }
    }
}

/// Whether `s` is already in the form that `squash` produces: no white space
/// but single `' '` characters, each between two other characters.
pub open spec fn is_squashed(s: Seq<char>) -> bool {
    &&& forall|i: int| 0 <= i < s.len() && is_space(#[trigger] s[i]) ==> s[i] == ' '
    &&& forall|i: int|
        0 <= i < s.len() && #[trigger] s[i] == ' ' ==> 0 < i < s.len() - 1 && s[i + 1] != ' '
}

/// `squash` produces the squashed form, ends in a character that is not white
/// space, and adds no character other than `' '`.
pub proof fn lemma_squash_is_squashed(s: Seq<char>)
    ensures
        is_squashed(squash(s)),
        squash(s).len() > 0 ==> !is_space(squash(s).last()),
        forall|i: int|
            0 <= i < squash(s).len() ==> #[trigger] squash(s)[i] == ' ' || s.contains(squash(s)[i]),
    decreases s.len(),
{
    if s.len() > 0 {
        let p = s.drop_last();
        lemma_squash_is_squashed(p);
    }
}

/// A string in squashed form is left unchanged by `squash`.
pub proof fn lemma_squash_fixed(s: Seq<char>)
    requires
        is_squashed(s),
    ensures
        squash(s) == s,
    decreases s.len(),
{
    if s.len() > 0 {
        let p = s.drop_last();
        if p.len() > 0 && is_space(p.last()) {
            // `p` ends in the single blank that separates the last word.
            let q = p.drop_last();
            lemma_squash_fixed(q);
            assert(squash(p) == q);
        } else {
            lemma_squash_fixed(p);
        }
    }
}

/// The views of the rows of `v`.
pub open spec fn rows(v: Seq<Vec<char>>) -> Seq<Seq<char>> {
    Seq::new(v.len(), |i: int| v[i]@)
}

/// Whether `c` is white space.
pub fn char_is_space(c: char) -> (b: bool)
    ensures
        b == is_space(c),
{
    let n: u32 = c as u32;
    (0x09 <= n && n <= 0x0d) || n == 0x20 || n == 0x85 || n == 0xa0 || n == 0x1680 || (0x2000 <= n
        && n <= 0x200a) || n == 0x2028 || n == 0x2029 || n == 0x202f || n == 0x205f || n == 0x3000
}

/// The characters of `s`, in order.
pub fn to_chars(s: &str) -> (out: Vec<char>)
    ensures
        out@ == s@,
{
    let mut out: Vec<char> = Vec::new();
    for c in it: s.chars()
        invariant
            it.seq() == s@,
            out@ == s@.take(it.index()),
    {
        out.push(c);
    }
    out
}

/// The string spelled by `chars`.
pub fn from_chars(chars: &Vec<char>) -> (out: String)
    ensures
        out@ == chars@,
{
    let mut out = String::new();
    let mut i: usize = 0;
    while i < chars.len()
        invariant
            i <= chars.len(),
            out@ == chars@.take(i as int),
        decreases chars.len() - i,
    {
        out.push(chars[i]);
        i += 1;
    }
    out
}

/// Whether `chars` holds nothing but white space.
pub fn blank_chars(chars: &Vec<char>) -> (b: bool)
    ensures
        b == is_blank(chars@),
{
    let mut i: usize = 0;
    while i < chars.len()
        invariant
            i <= chars.len(),
            forall|j: int| 0 <= j < i ==> is_space(#[trigger] chars@[j]),
        decreases chars.len() - i,
    {
        if !char_is_space(chars[i]) {
            return false;
        }
        i += 1;
    }
    true
}

/// `chars` without leading and trailing white space.
pub fn trim_chars(chars: &Vec<char>) -> (out: Vec<char>)
    ensures
        out@ == trimmed(chars@),
{
    let n = chars.len();
    let mut lo: usize = 0;
    assert(chars@.skip(0) =~= chars@);
    while lo < n && char_is_space(chars[lo])
        invariant
            n == chars.len(),
            lo <= n,
            trim_start(chars@) == trim_start(chars@.skip(lo as int)),
        decreases n - lo,
    {
        assert(chars@.skip(lo as int).drop_first() =~= chars@.skip(lo as int + 1));
        lo += 1;
    }
    let mut hi: usize = n;
    while hi > lo && char_is_space(chars[hi - 1])
        invariant
            n == chars.len(),
            lo <= hi <= n,
            trimmed(chars@) == trim_end(chars@.subrange(lo as int, hi as int)),
        decreases hi - lo,
    {
        assert(chars@.subrange(lo as int, hi as int).drop_last() =~= chars@.subrange(
            lo as int,
            hi as int - 1,
        ));
        hi -= 1;
    }
    let mut out: Vec<char> = Vec::new();
    let mut i: usize = lo;
    while i < hi
        invariant
            lo <= i <= hi <= chars.len(),
            out@ == chars@.subrange(lo as int, i as int),
        decreases hi - i,
    {
        out.push(chars[i]);
        i += 1;
    }
    out
}

/// The pieces of `chars` between occurrences of `delim`.
pub fn split_chars(chars: &Vec<char>, delim: char) -> (out: Vec<Vec<char>>)
    ensures
        rows(out@) == split(chars@, delim),
{
    let mut done: Vec<Vec<char>> = Vec::new();
    let mut piece: Vec<char> = Vec::new();
    let mut i: usize = 0;
    while i < chars.len()
        invariant
            i <= chars.len(),
            rows(done@).push(piece@) == split(chars@.take(i as int), delim),
        decreases chars.len() - i,
    {
        let c = chars[i];
        assert(chars@.take(i as int + 1).drop_last() =~= chars@.take(i as int));
        if c == delim {
            done.push(piece);
            piece = Vec::new();
        } else {
            piece.push(c);
        }
        i += 1;
    }
    assert(chars@.take(i as int) =~= chars@);
    done.push(piece);
    done
}

/// Appends the characters of `piece` to `out`.
pub fn extend_chars(out: &mut Vec<char>, piece: &Vec<char>)
    ensures
        final(out)@ == old(out)@ + piece@,
{
    let mut i: usize = 0;
    while i < piece.len()
        invariant
            i <= piece.len(),
            out@ == old(out)@ + piece@.take(i as int),
        decreases piece.len() - i,
    {
        out.push(piece[i]);
        i += 1;
    }
}

/// The pieces of `parts` written one after another with `sep` between each
/// two neighbours.
pub fn join_chars(parts: &Vec<Vec<char>>, sep: &Vec<char>) -> (out: Vec<char>)
    ensures
        out@ == join(rows(parts@), sep@),
{
    let mut out: Vec<char> = Vec::new();
    let mut i: usize = 0;
    while i < parts.len()
        invariant
            i <= parts.len(),
            out@ == join(rows(parts@).take(i as int), sep@),
        decreases parts.len() - i,
    {
        let ghost upto = rows(parts@).take(i as int + 1);
        assert(upto.drop_last() =~= rows(parts@).take(i as int));
        if i > 0 {
            extend_chars(&mut out, sep);
        }
        extend_chars(&mut out, &parts[i]);
        i += 1;
    }
    assert(rows(parts@).take(i as int) =~= rows(parts@));
    out
}

/// The words of `chars` with a single `' '` between each two neighbours.
pub fn squash_chars(chars: &Vec<char>) -> (out: Vec<char>)
    ensures
        out@ == squash(chars@),
{
    let mut out: Vec<char> = Vec::new();
    let mut i: usize = 0;
    while i < chars.len()
        invariant
            i <= chars.len(),
            out@ == squash(chars@.take(i as int)),
        decreases chars.len() - i,
    {
        let c = chars[i];
        assert(chars@.take(i as int + 1).drop_last() =~= chars@.take(i as int));
        if !char_is_space(c) {
            if out.len() > 0 && char_is_space(chars[i - 1]) {
                out.push(' ');
            }
            out.push(c);
        }
        i += 1;
    }
    assert(chars@.take(i as int) =~= chars@);
    out
}

} // verus!
