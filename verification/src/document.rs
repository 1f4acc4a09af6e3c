//! A document as a sequence of lines with a newline style and a
//! trailing-newline flag.
//!
//! A text is committed to `\r\n` as soon as that pair occurs anywhere in it,
//! and to `\n` otherwise. Splitting a text into its lines and joining them
//! again with the detected style and flag gives the text back.

use vstd::prelude::*;
use crate::text::{
    chars_contain, chars_end_with, contains, ends_with, extend_chars, find, find_from, find_in,
    lemma_find_from, lemma_find_from_is, lemma_find_from_none, occurs_at, subvec, to_chars,
};

verus! {

/// The two line separators a document can use.
#[derive(Clone, Copy, Debug, PartialEq, Eq, Structural)]
pub enum Newline {
    Lf,
    Crlf,
}

impl Newline {
    /// The characters of the separator.
    pub open spec fn seq(self) -> Seq<char> {
        match self {
            Newline::Lf => seq!['\n'],
            Newline::Crlf => seq!['\r', '\n'],
        }
    }

    /// The separator as characters.
    pub fn chars(self) -> (r: Vec<char>)
        ensures
            r@ == self.seq(),
    {
        let mut r: Vec<char> = Vec::new();
        match self {
            Newline::Lf => {
                r.push('\n');
            },
            Newline::Crlf => {
                r.push('\r');
                r.push('\n');
            },
        }
        assert(r@ =~= self.seq());
        r
    }
}

/// The view of each line of a list of lines.
pub open spec fn lines_of(v: Seq<Vec<char>>) -> Seq<Seq<char>> {
    Seq::new(v.len(), |i: int| v[i]@)
}

/// The view of each string of a list of strings.
pub open spec fn texts_of(v: Seq<String>) -> Seq<Seq<char>> {
    Seq::new(v.len(), |i: int| v[i]@)
}

/// The newline style of `text`.
pub open spec fn newline_of(text: Seq<char>) -> Newline {
    if contains(text, Newline::Crlf.seq()) {
        Newline::Crlf
    } else {
        Newline::Lf
    }
}

/// Whether `text` ends with the separator of its own style.
pub open spec fn ends_with_newline(text: Seq<char>) -> bool {
    ends_with(text, newline_of(text).seq())
}

/// The pieces of `s` between the occurrences of `sep`, found from left to
/// right without overlap.
pub open spec fn split(s: Seq<char>, sep: Seq<char>) -> Seq<Seq<char>>
    decreases s.len(),
{
    match find(s, sep) {
        Some(i) => if sep.len() > 0 && 0 <= i && i + sep.len() <= s.len() {
            seq![s.take(i)] + split(s.skip(i + sep.len()), sep)
        } else {
            seq![s]
        },
        None => seq![s],
    }
}

/// Every line of `lines` followed by `nl`.
pub open spec fn block_text(lines: Seq<Seq<char>>, nl: Seq<char>) -> Seq<char>
    decreases lines.len(),
{
    if lines.len() == 0 {
        Seq::empty()
    } else {
        block_text(lines.drop_last(), nl) + lines.last() + nl
    }
}

/// The lines of `lines` with `nl` between each two neighbours.
pub open spec fn join(lines: Seq<Seq<char>>, nl: Seq<char>) -> Seq<char> {
    if lines.len() == 0 {
        Seq::empty()
    } else {
        block_text(lines.drop_last(), nl) + lines.last()
    }
}

/// The text of a document with the given lines, style and flag.
pub open spec fn doc_text(lines: Seq<Seq<char>>, nl: Newline, trailing: bool) -> Seq<char> {
    if trailing {
        join(lines, nl.seq()) + nl.seq()
    } else {
        join(lines, nl.seq())
    }
}

/// The lines of a document: the empty text has none, and a final separator
/// ends the last line without opening another.
pub open spec fn doc_lines(text: Seq<char>) -> Seq<Seq<char>> {
    let nl = newline_of(text).seq();
    if text.len() == 0 {
        Seq::empty()
    } else if ends_with_newline(text) {
        split(text.take(text.len() - nl.len()), nl)
    } else {
        split(text, nl)
    }
}

/// Occurrences in a suffix of `s` are the occurrences in `s`, shifted.
pub proof fn lemma_occurs_at_skip(s: Seq<char>, p: Seq<char>, k: int, j: int)
    requires
        0 <= k <= s.len(),
        0 <= j,
    ensures
        occurs_at(s.skip(k), p, j) == occurs_at(s, p, j + k),
{
    if j + p.len() <= s.len() - k {
        assert(s.skip(k).subrange(j, j + p.len()) == s.subrange(j + k, j + k + p.len()));
    }
}

/// Searching `s` from `k` on is searching the suffix of `s` that starts at `k`.
pub proof fn lemma_find_skip(s: Seq<char>, p: Seq<char>, k: int)
    requires
        0 <= k <= s.len(),
    ensures
        find(s.skip(k), p) == match find_from(s, p, k) {
            Some(i) => Some(i - k),
            None => None,
        },
{
    lemma_find_from(s, p, k);
    match find_from(s, p, k) {
        Some(i) => {
            lemma_occurs_at_skip(s, p, k, i - k);
            assert forall|j: int| 0 <= j < i - k implies !occurs_at(s.skip(k), p, j) by {
                lemma_occurs_at_skip(s, p, k, j);
            }
            lemma_find_from_is(s.skip(k), p, 0, i - k);
        },
        None => {
            assert forall|j: int| 0 <= j implies !occurs_at(s.skip(k), p, j) by {
                lemma_occurs_at_skip(s, p, k, j);
            }
            lemma_find_from_none(s.skip(k), p, 0);
        },
    }
}

/// `block_text` of a concatenation is the concatenation of the two texts.
pub proof fn lemma_block_text_concat(a: Seq<Seq<char>>, b: Seq<Seq<char>>, nl: Seq<char>)
    ensures
        block_text(a + b, nl) == block_text(a, nl) + block_text(b, nl),
    decreases b.len(),
{
    if b.len() == 0 {
        assert(a + b == a);
    } else {
        lemma_block_text_concat(a, b.drop_last(), nl);
        assert((a + b).drop_last() == a + b.drop_last());
        assert((a + b).last() == b.last());
    }
}

/// `block_text` of a single line.
pub proof fn lemma_block_text_one(line: Seq<char>, nl: Seq<char>)
    ensures
        block_text(seq![line], nl) == line + nl,
{
    let one = seq![line];
    assert(one.drop_last() == Seq::<Seq<char>>::empty());
    assert(block_text(one.drop_last(), nl) == Seq::<char>::empty());
    assert(one.last() == line);
    reveal_with_fuel(block_text, 2);
    assert(block_text(one, nl) == Seq::<char>::empty() + line + nl);
}

/// Joining `a + b`, with `b` not empty, puts a separator after every line of
/// `a`.
pub proof fn lemma_join_concat(a: Seq<Seq<char>>, b: Seq<Seq<char>>, nl: Seq<char>)
    requires
        b.len() > 0,
    ensures
        join(a + b, nl) == block_text(a, nl) + join(b, nl),
{
    assert((a + b).drop_last() == a + b.drop_last());
    assert((a + b).last() == b.last());
    lemma_block_text_concat(a, b.drop_last(), nl);
}

/// A split has at least one piece.
pub proof fn lemma_split_nonempty(s: Seq<char>, sep: Seq<char>)
    ensures
        split(s, sep).len() > 0,
{
}

/// Joining the pieces of a split with the separator gives the text back.
pub proof fn lemma_join_split(s: Seq<char>, sep: Seq<char>)
    ensures
        join(split(s, sep), sep) == s,
    decreases s.len(),
{
    match find(s, sep) {
        Some(i) => {
            if sep.len() > 0 && 0 <= i && i + sep.len() <= s.len() {
                lemma_find_from(s, sep, 0);
                let rest = s.skip(i + sep.len());
                lemma_join_split(rest, sep);
                lemma_split_nonempty(rest, sep);
                lemma_join_concat(seq![s.take(i)], split(rest, sep), sep);
                lemma_block_text_one(s.take(i), sep);
                assert(s.take(i) + sep + rest == s) by {
                    assert(s.subrange(i, i + sep.len()) == sep);
                    assert(s.take(i) + s.subrange(i, i + sep.len()) + rest =~= s);
                }
            } else {
                assert(seq![s].drop_last() == Seq::<Seq<char>>::empty());
                assert(join(seq![s], sep) =~= s);
            }
        },
        None => {
            assert(seq![s].drop_last() == Seq::<Seq<char>>::empty());
            assert(join(seq![s], sep) =~= s);
        },
    }
}

/// The lines of a text, joined with its style and flag, are the text.
pub proof fn lemma_doc_round_trip(text: Seq<char>)
    ensures
        doc_text(doc_lines(text), newline_of(text), ends_with_newline(text)) == text,
{
    let nl = newline_of(text).seq();
    if text.len() == 0 {
        assert(!ends_with_newline(text));
    } else if ends_with_newline(text) {
        let body = text.take(text.len() - nl.len());
        lemma_join_split(body, nl);
        assert(text.subrange(text.len() - nl.len(), text.len() as int) == nl);
        assert(body + nl =~= text);
    } else {
        lemma_join_split(text, nl);
    }
}

/// The pieces of every line of `lines`, in order: the lines that the joined
/// text splits into again.
pub open spec fn pieces(lines: Seq<Seq<char>>, sep: Seq<char>) -> Seq<Seq<char>>
    decreases lines.len(),
{
    if lines.len() == 0 {
        Seq::empty()
    } else {
        pieces(lines.drop_last(), sep) + split(lines.last(), sep)
    }
}

/// Whether no line of `lines` holds the separator.
pub open spec fn all_free_of(lines: Seq<Seq<char>>, sep: Seq<char>) -> bool {
    forall|i: int| 0 <= i < lines.len() ==> find(#[trigger] lines[i], sep) is None
}

/// A text without the separator is its own single piece.
pub proof fn lemma_split_single(s: Seq<char>, sep: Seq<char>)
    requires
        find(s, sep) is None,
    ensures
        split(s, sep) == seq![s],
{
}

/// An occurrence in a prefix of `s` is an occurrence in `s`, and an
/// occurrence in `s` that ends within the prefix is one in the prefix.
pub proof fn lemma_occurs_at_take(s: Seq<char>, p: Seq<char>, k: int, j: int)
    requires
        0 <= j,
        j + p.len() <= k <= s.len(),
    ensures
        occurs_at(s.take(k), p, j) == occurs_at(s, p, j),
{
    assert(s.take(k).subrange(j, j + p.len()) == s.subrange(j, j + p.len()));
}

/// No piece of a split holds the separator.
pub proof fn lemma_split_free(s: Seq<char>, sep: Seq<char>)
    requires
        sep.len() > 0,
    ensures
        all_free_of(split(s, sep), sep),
    decreases s.len(),
{
    lemma_find_from(s, sep, 0);
    match find(s, sep) {
        Some(i) => {
            let first = s.take(i);
            let rest = s.skip(i + sep.len());
            lemma_split_free(rest, sep);
            assert forall|j: int| 0 <= j implies !occurs_at(first, sep, j) by {
                if j + sep.len() <= i {
                    lemma_occurs_at_take(s, sep, i, j);
                }
            }
            lemma_find_from_none(first, sep, 0);
            let all = split(s, sep);
            assert forall|k: int| 0 <= k < all.len() implies find(#[trigger] all[k], sep)
                is None by {
                if k > 0 {
                    assert(all[k] == split(rest, sep)[k - 1]);
                }
            }
        },
        None => {},
    }
}

/// Splitting around one separator: the pieces of `a`, then the pieces of `b`.
pub proof fn lemma_split_around(a: Seq<char>, b: Seq<char>, nl: Newline)
    ensures
        split(a + nl.seq() + b, nl.seq()) == split(a, nl.seq()) + split(b, nl.seq()),
    decreases a.len(),
{
    let sep = nl.seq();
    let s = a + sep + b;
    let n = a.len() as int;
    lemma_find_from(a, sep, 0);
    assert(s.subrange(n, n + sep.len()) == sep);
    assert(occurs_at(s, sep, n));
    match find(a, sep) {
        Some(i) => {
            assert(occurs_at(s, sep, i)) by {
                assert(s.subrange(i, i + sep.len()) == a.subrange(i, i + sep.len()));
            }
            assert forall|j: int| 0 <= j < i implies !occurs_at(s, sep, j) by {
                if occurs_at(s, sep, j) {
                    assert(s.subrange(j, j + sep.len()) == a.subrange(j, j + sep.len()));
                    assert(occurs_at(a, sep, j));
                }
            }
            lemma_find_from_is(s, sep, 0, i);
            let rest = a.skip(i + sep.len());
            lemma_split_around(rest, b, nl);
            assert(s.take(i) == a.take(i));
            assert(s.skip(i + sep.len()) == rest + sep + b);
            assert(seq![a.take(i)] + (split(rest, sep) + split(b, sep)) == (seq![a.take(i)]
                + split(rest, sep)) + split(b, sep));
        },
        None => {
            assert forall|j: int| 0 <= j < n implies !occurs_at(s, sep, j) by {
                if occurs_at(s, sep, j) {
                    if j + sep.len() <= n {
                        assert(s.subrange(j, j + sep.len()) == a.subrange(j, j + sep.len()));
                        assert(occurs_at(a, sep, j));
                    } else {
                        assert(j == n - 1);
                        assert(s.subrange(j, j + sep.len())[1] == s[n]);
                        assert(s[n] == sep[0]);
                    }
                }
            }
            lemma_find_from_is(s, sep, 0, n);
            assert(s.take(n) == a);
            assert(s.skip(n + sep.len()) == b);
        },
    }
}

/// The pieces of a concatenation are the pieces of the two lists.
pub proof fn lemma_pieces_concat(a: Seq<Seq<char>>, b: Seq<Seq<char>>, sep: Seq<char>)
    ensures
        pieces(a + b, sep) == pieces(a, sep) + pieces(b, sep),
    decreases b.len(),
{
    if b.len() == 0 {
        assert(a + b == a);
    } else {
        lemma_pieces_concat(a, b.drop_last(), sep);
        assert((a + b).drop_last() == a + b.drop_last());
        assert((a + b).last() == b.last());
    }
}

/// Lines without the separator are their own pieces.
pub proof fn lemma_pieces_free(lines: Seq<Seq<char>>, sep: Seq<char>)
    requires
        all_free_of(lines, sep),
    ensures
        pieces(lines, sep) == lines,
    decreases lines.len(),
{
    if lines.len() > 0 {
        let front = lines.drop_last();
        assert forall|i: int| 0 <= i < front.len() implies find(#[trigger] front[i], sep)
            is None by {
            assert(front[i] == lines[i]);
        }
        lemma_pieces_free(front, sep);
        assert(find(lines[lines.len() - 1], sep) is None);
        lemma_split_single(lines.last(), sep);
        assert(front + seq![lines.last()] == lines);
    }
}

/// A joined text splits into the pieces of its lines.
pub proof fn lemma_split_join(lines: Seq<Seq<char>>, nl: Newline)
    requires
        lines.len() > 0,
    ensures
        split(join(lines, nl.seq()), nl.seq()) == pieces(lines, nl.seq()),
    decreases lines.len(),
{
    let sep = nl.seq();
    let front = lines.drop_last();
    if front.len() == 0 {
        assert(pieces(front, sep) == Seq::<Seq<char>>::empty());
        assert(join(lines, sep) == lines.last());
        assert(pieces(lines, sep) == split(lines.last(), sep));
    } else {
        lemma_split_join(front, nl);
        assert(block_text(front, sep) == join(front, sep) + sep);
        assert(join(lines, sep) == join(front, sep) + sep + lines.last());
        lemma_split_around(join(front, sep), lines.last(), nl);
    }
}

/// No line of a document holds the separator of the document.
pub proof fn lemma_doc_lines_free(text: Seq<char>)
    ensures
        all_free_of(doc_lines(text), newline_of(text).seq()),
{
    let nl = newline_of(text).seq();
    if text.len() == 0 {
    } else if ends_with_newline(text) {
        lemma_split_free(text.take(text.len() - nl.len()), nl);
    } else {
        lemma_split_free(text, nl);
    }
}

/// The style and trailing-newline flag of `content`.
pub fn detect_newline(content: &Vec<char>) -> (r: (Newline, bool))
    ensures
        r.0 == newline_of(content@),
        r.1 == ends_with_newline(content@),
{
    let crlf = Newline::Crlf.chars();
    if chars_contain(content, &crlf) {
        let trailing = chars_end_with(content, &crlf);
        return (Newline::Crlf, trailing);
    }
    let lf = Newline::Lf.chars();
    (Newline::Lf, chars_end_with(content, &lf))
}

/// The pieces of `s` between the occurrences of `sep`.
pub fn split_on(s: &Vec<char>, sep: &Vec<char>) -> (r: Vec<Vec<char>>)
    ensures
        lines_of(r@) == split(s@, sep@),
{
    let mut out: Vec<Vec<char>> = Vec::new();
    if sep.len() == 0 {
        let whole = subvec(s, 0, s.len());
        assert(whole@ == s@);
        out.push(whole);
        assert(lines_of(out@) == seq![s@]);
        return out;
    }
    let mut start: usize = 0;
    assert(s@.skip(0) == s@);
    assert(lines_of(out@) + split(s@, sep@) == split(s@, sep@));
    loop
        invariant
            sep.len() > 0,
            start <= s.len(),
            split(s@, sep@) == lines_of(out@) + split(s@.skip(start as int), sep@),
        decreases s.len() - start,
    {
        proof {
            lemma_find_skip(s@, sep@, start as int);
        }
        let ghost prev = lines_of(out@);
        let ghost tail = s@.skip(start as int);
        match find_in(s, sep, start) {
            Some(i) => {
                let piece = subvec(s, start, i);
                out.push(piece);
                proof {
                    assert(tail.take(i - start) == piece@);
                    assert(tail.skip(i - start + sep.len()) == s@.skip(i + sep.len()));
                    assert(lines_of(out@) == prev + seq![piece@]);
                }
                start = i + sep.len();
            },
            None => {
                let piece = subvec(s, start, s.len());
                out.push(piece);
                proof {
                    assert(tail == piece@);
                    assert(lines_of(out@) == prev + seq![piece@]);
                }
                return out;
            },
        }
    }
}

/// A document read into its lines, with its newline style and its
/// trailing-newline flag.
#[derive(Debug, Clone)]
pub struct Document {
    pub lines: Vec<Vec<char>>,
    pub newline: Newline,
    pub trailing_newline: bool,
}

impl Document {
    /// Whether this is the document with the text `text`.
    pub open spec fn is_reading_of(&self, text: Seq<char>) -> bool {
        &&& lines_of(self.lines@) == doc_lines(text)
        &&& self.newline == newline_of(text)
        &&& self.trailing_newline == ends_with_newline(text)
    }

    /// Reads `content` into its lines.
    pub fn read(content: &str) -> (r: Document)
        ensures
            r.is_reading_of(content@),
    {
        let text = to_chars(content);
        let (newline, trailing_newline) = detect_newline(&text);
        let sep = newline.chars();
        let lines = if text.len() == 0 {
            let none: Vec<Vec<char>> = Vec::new();
            assert(lines_of(none@) == Seq::<Seq<char>>::empty());
            none
        } else if trailing_newline {
            let body = subvec(&text, 0, text.len() - sep.len());
            split_on(&body, &sep)
        } else {
            split_on(&text, &sep)
        };
        Document { lines, newline, trailing_newline }
    }
}

/// The lines of `lines` with `sep` between each two neighbours.
pub fn join_pieces(lines: &Vec<Vec<char>>, sep: &Vec<char>) -> (r: Vec<char>)
    ensures
        r@ == join(lines_of(lines@), sep@),
{
    let mut out: Vec<char> = Vec::new();
    let ghost all = lines_of(lines@);
    let mut i: usize = 0;
    while i < lines.len()
        invariant
            i <= lines.len(),
            all == lines_of(lines@),
            out@ == join(all.take(i as int), sep@),
        decreases lines.len() - i,
    {
        let ghost before = all.take(i as int);
        if i > 0 {
            extend_chars(&mut out, sep);
        }
        extend_chars(&mut out, &lines[i]);
        proof {
            let now = all.take(i + 1);
            assert(now.drop_last() == before);
            assert(now.last() == lines@[i as int]@);
            if i > 0 {
                assert(block_text(before, sep@) == join(before, sep@) + sep@);
            }
        }
        i += 1;
    }
    assert(all.take(lines.len() as int) == all);
    out
}

/// The text of the document with the given lines, style and flag.
pub fn join_lines(lines: &Vec<Vec<char>>, nl: Newline, trailing: bool) -> (r: Vec<char>)
    ensures
        r@ == doc_text(lines_of(lines@), nl, trailing),
{
    let sep = nl.chars();
    let mut out = join_pieces(lines, &sep);
    if trailing {
        extend_chars(&mut out, &sep);
    }
    out
}

/// `s` with every occurrence of `from` replaced by `to`, the occurrences
/// found from left to right without overlap; `s` itself where `from` is
/// empty.
pub open spec fn replace(s: Seq<char>, from: Seq<char>, to: Seq<char>) -> Seq<char> {
    join(split(s, from), to)
}

/// Executable form of [`replace`].
pub fn replace_all(s: &Vec<char>, from: &Vec<char>, to: &Vec<char>) -> (r: Vec<char>)
    ensures
        r@ == replace(s@, from@, to@),
{
    let parts = split_on(s, from);
    join_pieces(&parts, to)
}

} // verus!
