//! The steps by which the laws of this crate are proved: how fences and
//! sentinels are read in lists of lines that are put together, and how the
//! text of a document is made of the texts of its parts.

use vstd::prelude::*;
use crate::document::{
    all_free_of, block_text, doc_lines, doc_text, ends_with_newline, join,
    lemma_block_text_concat, lemma_doc_lines_free, lemma_doc_round_trip, lemma_join_concat,
    lemma_pieces_concat, lemma_pieces_free, lemma_split_join, newline_of, pieces, split,
    Newline,
};
use crate::laws::{
    all_plain, is_plain,
    discriminator, head_lines, id_prefix, is_neutral, kind_name, leading_text,
    meta_discriminator, tail_lines, trailing_text,
};
use crate::readme::{
    begin_marker, begin_positions, block_lines, end_marker, end_positions, ensured, fence_open,
    first_heading, insertion_index, is_code_fence, is_heading_at, is_marker_at,
    lemma_locate_block, locate_block, marker_positions, rewritten, BlockError,
};
use crate::readme_badges::{kind_of, parsed};
use crate::text::{
    contains, ends_with, find, first_non_ws, lemma_find_from, lemma_find_from_none, occurs_at,
    starts_with,
};

verus! {

/// The positions `p`, each moved up by `k`.
pub open spec fn shifted(p: Seq<int>, k: int) -> Seq<int> {
    Seq::new(p.len(), |i: int| p[i] + k)
}

/// Within the first of two lists the fences are read as in that list alone.
pub proof fn lemma_fence_open_prefix(a: Seq<Seq<char>>, b: Seq<Seq<char>>, i: int)
    requires
        0 <= i <= a.len(),
    ensures
        fence_open(a + b, i) == fence_open(a, i),
    decreases i,
{
    if i > 0 {
        lemma_fence_open_prefix(a, b, i - 1);
        assert((a + b)[i - 1] == a[i - 1]);
    }
}

/// Behind a list that closes its fences, the fences of the next list are
/// read as in that list alone.
pub proof fn lemma_fence_open_suffix(a: Seq<Seq<char>>, b: Seq<Seq<char>>, j: int)
    requires
        0 <= j <= b.len(),
        !fence_open(a, a.len() as int),
    ensures
        fence_open(a + b, a.len() + j) == fence_open(b, j),
    decreases j,
{
    if j == 0 {
        lemma_fence_open_prefix(a, b, a.len() as int);
    } else {
        lemma_fence_open_suffix(a, b, j - 1);
        assert((a + b)[a.len() + j - 1] == b[j - 1]);
    }
}

/// Within the first of two lists the sentinels are found as in that list
/// alone.
pub proof fn lemma_positions_prefix(
    a: Seq<Seq<char>>,
    b: Seq<Seq<char>>,
    marker: Seq<char>,
    i: int,
)
    requires
        0 <= i <= a.len(),
    ensures
        marker_positions(a + b, marker, i) == marker_positions(a, marker, i),
    decreases i,
{
    if i > 0 {
        lemma_positions_prefix(a, b, marker, i - 1);
        lemma_fence_open_prefix(a, b, i - 1);
        assert((a + b)[i - 1] == a[i - 1]);
    }
}

/// Behind a list that closes its fences, the sentinels of the next list are
/// found as in that list alone, at positions moved up by the length of the
/// first.
pub proof fn lemma_positions_concat(
    a: Seq<Seq<char>>,
    b: Seq<Seq<char>>,
    marker: Seq<char>,
    j: int,
)
    requires
        0 <= j <= b.len(),
        !fence_open(a, a.len() as int),
    ensures
        marker_positions(a + b, marker, a.len() + j) == marker_positions(
            a,
            marker,
            a.len() as int,
        ) + shifted(marker_positions(b, marker, j), a.len() as int),
    decreases j,
{
    let n = a.len() as int;
    if j == 0 {
        lemma_positions_prefix(a, b, marker, n);
        assert(shifted(marker_positions(b, marker, 0), n) == Seq::<int>::empty());
        assert(marker_positions(a, marker, n) + Seq::<int>::empty() == marker_positions(
            a,
            marker,
            n,
        ));
    } else {
        lemma_positions_concat(a, b, marker, j - 1);
        lemma_fence_open_suffix(a, b, j - 1);
        assert((a + b)[n + j - 1] == b[j - 1]);
        let before = marker_positions(b, marker, j - 1);
        if is_marker_at(b, marker, j - 1) {
            assert(is_marker_at(a + b, marker, n + j - 1));
            assert(shifted(before.push(j - 1), n) == shifted(before, n).push(n + j - 1));
            assert((marker_positions(a, marker, n) + shifted(before, n)).push(n + j - 1)
                == marker_positions(a, marker, n) + shifted(before, n).push(n + j - 1));
        } else {
            assert(!is_marker_at(a + b, marker, n + j - 1));
        }
    }
}

/// A sentinel line below `n` is among the positions below `n`.
pub proof fn lemma_positions_hold(lines: Seq<Seq<char>>, marker: Seq<char>, i: int, n: int)
    requires
        is_marker_at(lines, marker, i),
        i < n <= lines.len(),
    ensures
        marker_positions(lines, marker, n).len() >= 1,
    decreases n,
{
    if n - 1 > i {
        lemma_positions_hold(lines, marker, i, n - 1);
    }
}

/// The begin and the end sentinel are no fence lines.
pub proof fn lemma_sentinels_are_no_fences()
    ensures
        !is_code_fence(begin_marker()),
        !is_code_fence(end_marker()),
        begin_marker().len() == 18,
        end_marker().len() == 16,
        begin_marker() != end_marker(),
{
    reveal_strlit("<!-- bdg:begin -->");
    reveal_strlit("<!-- bdg:end -->");
    reveal_strlit("```");
    let b = begin_marker();
    let e = end_marker();
    assert(b[0] == '<' && e[0] == '<');
    assert(first_non_ws(b, 0) == 0);
    assert(first_non_ws(e, 0) == 0);
    assert(b.skip(0) == b);
    assert(e.skip(0) == e);
    assert(b.subrange(0, 3)[0] == '<');
    assert(e.subrange(0, 3)[0] == '<');
    assert("```"@[0] == '`');
}

/// How a document with a managed block is built: the lines up to the begin
/// sentinel close their fences and hold that one sentinel, the lines of the
/// block are neutral, and the lines from the end sentinel on hold that one
/// sentinel, as their first line.
pub proof fn lemma_block_structure(lines: Seq<Seq<char>>)
    requires
        locate_block(lines) is Ok,
    ensures
        ({
            let (b, e) = locate_block(lines)->Ok_0;
            let head = lines.take(b + 1);
            let old = lines.subrange(b + 1, e);
            let tail = lines.skip(e);
            &&& 0 <= b < e < lines.len()
            &&& lines == head + old + tail
            &&& lines[b] == begin_marker()
            &&& lines[e] == end_marker()
            &&& !fence_open(head, head.len() as int)
            &&& marker_positions(head, begin_marker(), head.len() as int) == seq![b]
            &&& marker_positions(head, end_marker(), head.len() as int).len() == 0
            &&& is_neutral(old)
            &&& marker_positions(tail, begin_marker(), tail.len() as int).len() == 0
            &&& marker_positions(tail, end_marker(), tail.len() as int) == seq![0int]
        }),
{
    lemma_locate_block(lines);
    lemma_sentinels_are_no_fences();
    let (b, e) = locate_block(lines)->Ok_0;
    let head = lines.take(b + 1);
    let old = lines.subrange(b + 1, e);
    let tail = lines.skip(e);
    let front = head + old;
    let n = lines.len() as int;
    assert(lines == front + tail);
    assert(lines == head + (old + tail));
    // Fences.
    lemma_fence_open_prefix(head, old + tail, b + 1);
    lemma_fence_open_prefix(head, old + tail, b);
    assert(!fence_open(lines, b + 1));
    lemma_fence_open_prefix(front, tail, e);
    lemma_fence_open_suffix(head, old, old.len() as int);
    assert(!fence_open(old, old.len() as int));
    // The end sentinel is the first line of the tail.
    let first = seq![tail[0]];
    let rest = tail.skip(1);
    assert(tail == first + rest);
    assert(tail[0] == end_marker());
    assert(!fence_open(first, 1)) by {
        reveal_with_fuel(fence_open, 2);
    }
    assert(is_marker_at(first, end_marker(), 0));
    assert(!is_marker_at(first, begin_marker(), 0));
    assert(marker_positions(first, end_marker(), 1) == seq![0int]) by {
        reveal_with_fuel(marker_positions, 2);
    }
    assert(marker_positions(first, begin_marker(), 1).len() == 0) by {
        reveal_with_fuel(marker_positions, 2);
    }
    lemma_positions_concat(first, rest, end_marker(), rest.len() as int);
    lemma_positions_concat(first, rest, begin_marker(), rest.len() as int);
    // The begin sentinel is the last line of the head.
    assert(head[b] == begin_marker());
    assert(is_marker_at(head, begin_marker(), b));
    lemma_positions_hold(head, begin_marker(), b, b + 1);
    // Counting.
    lemma_positions_concat(head, old, begin_marker(), old.len() as int);
    lemma_positions_concat(head, old, end_marker(), old.len() as int);
    lemma_fence_open_suffix(head, old, old.len() as int);
    lemma_positions_concat(front, tail, begin_marker(), tail.len() as int);
    lemma_positions_concat(front, tail, end_marker(), tail.len() as int);
    assert(begin_positions(lines).len() == 1);
    assert(end_positions(lines).len() == 1);
    let hb = marker_positions(head, begin_marker(), head.len() as int);
    assert(hb.len() == 1);
    assert(hb == marker_positions(head, begin_marker(), b).push(b));
    assert(hb == seq![b]);
    let te = marker_positions(tail, end_marker(), tail.len() as int);
    assert(te.len() == 1);
    assert(shifted(marker_positions(rest, end_marker(), rest.len() as int), 1).len() == 0);
    assert(te == seq![0int]);
}

/// Where the managed block is once the lines between the sentinels were
/// replaced by neutral lines.
pub proof fn lemma_locate_rebuilt(head: Seq<Seq<char>>, mid: Seq<Seq<char>>, tail: Seq<Seq<char>>)
    requires
        head.len() > 0,
        !fence_open(head, head.len() as int),
        marker_positions(head, begin_marker(), head.len() as int) == seq![head.len() - 1],
        marker_positions(head, end_marker(), head.len() as int).len() == 0,
        is_neutral(mid),
        marker_positions(tail, begin_marker(), tail.len() as int).len() == 0,
        marker_positions(tail, end_marker(), tail.len() as int) == seq![0int],
    ensures
        locate_block(head + mid + tail) == Ok::<(int, int), BlockError>(
            (head.len() - 1, (head.len() + mid.len()) as int),
        ),
{
    let front = head + mid;
    let lines = front + tail;
    lemma_fence_open_suffix(head, mid, mid.len() as int);
    lemma_positions_concat(head, mid, begin_marker(), mid.len() as int);
    lemma_positions_concat(head, mid, end_marker(), mid.len() as int);
    lemma_positions_concat(front, tail, begin_marker(), tail.len() as int);
    lemma_positions_concat(front, tail, end_marker(), tail.len() as int);
    let k = front.len() as int;
    assert(shifted(marker_positions(tail, end_marker(), tail.len() as int), k) == seq![k]);
    assert(begin_positions(lines) == seq![head.len() - 1]);
    assert(end_positions(lines) == seq![k]);
}

/// The text of a document whose lines come in three parts, the last of them
/// not empty.
pub proof fn lemma_doc_text_parts(
    a: Seq<Seq<char>>,
    b: Seq<Seq<char>>,
    tail: Seq<Seq<char>>,
    nl: Newline,
    trailing: bool,
)
    requires
        tail.len() > 0,
    ensures
        doc_text(a + b + tail, nl, trailing) == block_text(a, nl.seq()) + block_text(
            b,
            nl.seq(),
        ) + doc_text(tail, nl, trailing),
{
    lemma_join_concat(a + b, tail, nl.seq());
    lemma_block_text_concat(a, b, nl.seq());
    let x = block_text(a, nl.seq()) + block_text(b, nl.seq());
    if trailing {
        assert((x + join(tail, nl.seq())) + nl.seq() == x + (join(tail, nl.seq()) + nl.seq()));
    }
}

/// A joined text begins with its first line.
pub proof fn lemma_join_starts(lines: Seq<Seq<char>>, nl: Seq<char>)
    requires
        lines.len() > 0,
    ensures
        starts_with(join(lines, nl), lines[0]),
{
    let first = seq![lines[0]];
    let rest = lines.skip(1);
    assert(lines == first + rest);
    let l = lines[0];
    if rest.len() > 0 {
        lemma_join_concat(first, rest, nl);
        crate::document::lemma_block_text_one(l, nl);
        assert(join(lines, nl).subrange(0, l.len() as int) == l);
    } else {
        assert(lines.drop_last() == Seq::<Seq<char>>::empty());
        assert(join(lines, nl) == l);
        assert(l.subrange(0, l.len() as int) == l);
    }
}

/// Whether a text ends with `p` is decided by any of its suffixes that is as
/// long as `p`.
pub proof fn lemma_ends_with_suffix(x: Seq<char>, s: Seq<char>, p: Seq<char>)
    requires
        s.len() >= p.len(),
    ensures
        ends_with(x + s, p) == ends_with(s, p),
{
    let whole = x + s;
    assert(whole.subrange(whole.len() - p.len(), whole.len() as int) == s.subrange(
        s.len() - p.len(),
        s.len() as int,
    ));
}

/// A text that holds `p` at some index contains `p`.
pub proof fn lemma_contains(s: Seq<char>, p: Seq<char>, i: int)
    requires
        occurs_at(s, p, i),
    ensures
        contains(s, p),
{
    lemma_find_from(s, p, 0);
}

/// The parts of a document with a managed block and of what a rewrite makes
/// of it.
pub proof fn lemma_rewrite_parts(text: Seq<char>, inner: Seq<Seq<char>>)
    requires
        rewritten(text, inner) is Ok,
    ensures
        text == leading_text(text) + block_text(
            block_lines(text)->Ok_0,
            newline_of(text).seq(),
        ) + trailing_text(text),
        rewritten(text, inner)->Ok_0 == leading_text(text) + block_text(
            inner,
            newline_of(text).seq(),
        ) + trailing_text(text),
        trailing_text(text).len() >= 16,
        leading_text(text).len() >= 18 + newline_of(text).seq().len(),
        ends_with(leading_text(text), newline_of(text).seq()),
{
    let lines = doc_lines(text);
    let nl = newline_of(text);
    let t = ends_with_newline(text);
    lemma_block_structure(lines);
    lemma_sentinels_are_no_fences();
    lemma_doc_round_trip(text);
    let (b, e) = locate_block(lines)->Ok_0;
    let head = lines.take(b + 1);
    let old = lines.subrange(b + 1, e);
    let tail = lines.skip(e);
    lemma_doc_text_parts(head, old, tail, nl, t);
    lemma_doc_text_parts(head, inner, tail, nl, t);
    lemma_join_starts(tail, nl.seq());
    assert(tail[0] == end_marker());
    assert(join(tail, nl.seq()).len() >= 16);
    assert(head.last() == begin_marker());
    let lead = block_text(head, nl.seq());
    assert(lead == block_text(head.drop_last(), nl.seq()) + begin_marker() + nl.seq());
    assert(lead.len() >= 18 + nl.seq().len());
    assert(lead.subrange(lead.len() - nl.seq().len(), lead.len() as int) == nl.seq());
}

/// A rewrite that keeps the newline style keeps the trailing-newline flag.
pub proof fn lemma_trailing_flag_kept(text: Seq<char>, inner: Seq<Seq<char>>)
    requires
        rewritten(text, inner) is Ok,
        newline_of(rewritten(text, inner)->Ok_0) == newline_of(text),
    ensures
        ends_with_newline(rewritten(text, inner)->Ok_0) == ends_with_newline(text),
{
    lemma_rewrite_parts(text, inner);
    let nl = newline_of(text).seq();
    let tail = trailing_text(text);
    lemma_ends_with_suffix(
        leading_text(text) + block_text(block_lines(text)->Ok_0, nl),
        tail,
        nl,
    );
    lemma_ends_with_suffix(leading_text(text) + block_text(inner, nl), tail, nl);
}

/// The first level-one heading at or after `from`, where there is one,
/// stands outside fenced code.
pub proof fn lemma_first_heading(lines: Seq<Seq<char>>, from: int)
    requires
        0 <= from,
    ensures
        match first_heading(lines, from) {
            Some(i) => from <= i < lines.len() && is_heading_at(lines, i),
            None => true,
        },
    decreases lines.len() - from,
{
    if from < lines.len() && !is_heading_at(lines, from) {
        lemma_first_heading(lines, from + 1);
    }
}

/// Where the last piece of a split is empty, the text is empty or ends with
/// the separator.
pub proof fn lemma_split_last(s: Seq<char>, sep: Seq<char>)
    requires
        sep.len() > 0,
    ensures
        split(s, sep).last().len() == 0 ==> s.len() == 0 || ends_with(s, sep),
    decreases s.len(),
{
    lemma_find_from(s, sep, 0);
    match find(s, sep) {
        Some(i) => {
            let rest = s.skip(i + sep.len());
            lemma_split_last(rest, sep);
            assert(split(s, sep).last() == split(rest, sep).last());
            assert(s == s.take(i + sep.len()) + rest);
            if rest.len() == 0 {
                assert(s.subrange(s.len() - sep.len(), s.len() as int) == s.subrange(
                    i,
                    i + sep.len(),
                ));
            } else if ends_with(rest, sep) {
                lemma_ends_with_suffix(s.take(i + sep.len()), rest, sep);
            }
        },
        None => {},
    }
}

/// The two sentinels hold no newline of either style.
pub proof fn lemma_sentinels_are_single_lines(nl: Newline)
    ensures
        find(begin_marker(), nl.seq()) is None,
        find(end_marker(), nl.seq()) is None,
        !ends_with(end_marker(), nl.seq()),
{
    reveal_strlit("<!-- bdg:begin -->");
    reveal_strlit("<!-- bdg:end -->");
    let b = begin_marker();
    let e = end_marker();
    let sep = nl.seq();
    let last = (sep.len() - 1) as int;
    assert(sep[last] == '\n');
    assert forall|j: int| 0 <= j implies !occurs_at(b, sep, j) by {
        if j + sep.len() <= b.len() {
            assert(b.subrange(j, j + sep.len())[last] == b[j + last]);
        }
    }
    assert forall|j: int| 0 <= j implies !occurs_at(e, sep, j) by {
        if j + sep.len() <= e.len() {
            assert(e.subrange(j, j + sep.len())[last] == e[j + last]);
        }
    }
    lemma_find_from_none(b, sep, 0);
    lemma_find_from_none(e, sep, 0);
}

/// The trailing-newline flag of a document that got a fresh block, where
/// the newline style stayed.
pub proof fn lemma_ensured_trailing_flag(text: Seq<char>)
    requires
        !crate::readme::has_one_pair(doc_lines(text)),
        newline_of(ensured(text)) == newline_of(text),
    ensures
        ends_with_newline(ensured(text)) == ends_with_newline(text),
{
    let lines = doc_lines(text);
    let nl = newline_of(text);
    let sep = nl.seq();
    let at = insertion_index(lines);
    lemma_first_heading(lines, 0);
    let head = lines.take(at);
    let tail = lines.skip(at);
    let mid = seq![begin_marker(), end_marker()];
    let all = head + mid + tail;
    let fresh = ensured(text);
    assert(fresh == doc_text(all, nl, ends_with_newline(text)));
    lemma_sentinels_are_single_lines(nl);
    lemma_sentinels_are_no_fences();
    if ends_with_newline(text) {
        assert(fresh.subrange(fresh.len() - sep.len(), fresh.len() as int) == sep);
    } else {
        lemma_doc_round_trip(text);
        if tail.len() == 0 {
            assert(all == head + mid);
            assert(all.last() == end_marker());
            let front = block_text(all.drop_last(), sep);
            assert(fresh == front + end_marker());
            lemma_ends_with_suffix(front, end_marker(), sep);
        } else {
            assert(lines == head + tail);
            lemma_join_concat(head, tail, sep);
            lemma_join_concat(head + mid, tail, sep);
            let rest = join(tail, sep);
            if rest.len() >= sep.len() {
                lemma_ends_with_suffix(block_text(head, sep), rest, sep);
                lemma_ends_with_suffix(block_text(head + mid, sep), rest, sep);
            } else {
                // A text shorter than the separator: one line, and not an empty one.
                if tail.len() > 1 {
                    lemma_join_concat(tail.drop_last(), seq![tail.last()], sep);
                    assert(tail == tail.drop_last() + seq![tail.last()]);
                    assert(block_text(tail.drop_last(), sep) == block_text(
                        tail.drop_last().drop_last(),
                        sep,
                    ) + tail.drop_last().last() + sep);
                }
                assert(tail.len() == 1);
                assert(tail.drop_last() == Seq::<Seq<char>>::empty());
                assert(rest == tail[0]);
                assert(tail[0] == lines.last());
                if text.len() > 0 {
                    lemma_split_last(text, sep);
                }
                assert(rest.len() == 1);
                let lead = block_text(head + mid, sep);
                lemma_block_text_concat(head, mid, sep);
                assert((head + mid).last() == end_marker());
                assert(lead == block_text((head + mid).drop_last(), sep) + end_marker() + sep);
                assert(fresh == lead + rest);
                assert(fresh[fresh.len() - 2] == sep[sep.len() - 1]);
                assert(fresh.subrange(fresh.len() - 2, fresh.len() as int)[0] == '\n');
            }
        }
    }
}

/// A document with a fresh block in it is not empty.
pub proof fn lemma_fresh_is_not_empty(
    head: Seq<Seq<char>>,
    tail: Seq<Seq<char>>,
    nl: Newline,
    trailing: bool,
)
    ensures
        doc_text(head + seq![begin_marker(), end_marker()] + tail, nl, trailing).len() > 0,
{
    lemma_sentinels_are_no_fences();
    let sep = nl.seq();
    let rest = seq![begin_marker(), end_marker()] + tail;
    assert(head + seq![begin_marker(), end_marker()] + tail == head + rest);
    lemma_join_concat(head, rest, sep);
    lemma_join_starts(rest, sep);
}

/// The text of a document begins with the joined text of its first lines.
pub proof fn lemma_doc_text_prefix(
    p: Seq<Seq<char>>,
    rest: Seq<Seq<char>>,
    nl: Newline,
    trailing: bool,
)
    requires
        rest.len() > 0,
    ensures
        starts_with(doc_text(p + rest, nl, trailing), join(p, nl.seq())),
{
    let sep = nl.seq();
    let before = join(p, sep);
    let whole = doc_text(p + rest, nl, trailing);
    lemma_join_concat(p, rest, sep);
    if p.len() > 0 {
        assert(block_text(p, sep) == before + sep);
    }
    assert(whole.subrange(0, before.len() as int) == before);
}

/// The text of a document ends with the text of its last lines.
pub proof fn lemma_doc_text_suffix(
    front: Seq<Seq<char>>,
    s: Seq<Seq<char>>,
    nl: Newline,
    trailing: bool,
)
    requires
        front.len() > 0,
    ensures
        ends_with(doc_text(front + s, nl, trailing), doc_text(s, nl, trailing)),
{
    let sep = nl.seq();
    let after = doc_text(s, nl, trailing);
    let whole = doc_text(front + s, nl, trailing);
    if s.len() > 0 {
        lemma_join_concat(front, s, sep);
        assert(whole == block_text(front, sep) + after);
    } else {
        assert(front + s == front);
        assert(join(s, sep) == Seq::<char>::empty());
    }
    assert(whole.subrange(whole.len() - after.len(), whole.len() as int) == after);
}

/// The text of a document made of two lists of lines: the joined text of the
/// first, a separator where both have lines, and the text of the second.
pub proof fn lemma_doc_text_glue(p: Seq<Seq<char>>, s: Seq<Seq<char>>, nl: Newline, trailing: bool)
    ensures
        doc_text(p + s, nl, trailing) == join(p, nl.seq()) + (if p.len() > 0 && s.len() > 0 {
            nl.seq()
        } else {
            Seq::<char>::empty()
        }) + doc_text(s, nl, trailing),
{
    let sep = nl.seq();
    let before = join(p, sep);
    if s.len() > 0 {
        lemma_join_concat(p, s, sep);
        if p.len() > 0 {
            assert(block_text(p, sep) == before + sep);
        } else {
            assert(block_text(p, sep) == Seq::<char>::empty());
        }
    } else {
        assert(p + s == p);
        assert(join(s, sep) == Seq::<char>::empty());
    }
}

/// The lines of a document that was joined from three lists of lines, the
/// first and the last of them free of the separator.
pub proof fn lemma_lines_of_joined(
    head: Seq<Seq<char>>,
    inner: Seq<Seq<char>>,
    tail: Seq<Seq<char>>,
    nl: Newline,
    trailing: bool,
)
    requires
        doc_text(head + inner + tail, nl, trailing).len() > 0,
        (head + inner + tail).len() > 0,
        all_free_of(head, nl.seq()),
        all_free_of(tail, nl.seq()),
        newline_of(doc_text(head + inner + tail, nl, trailing)) == nl,
        ends_with_newline(doc_text(head + inner + tail, nl, trailing)) == trailing,
    ensures
        doc_lines(doc_text(head + inner + tail, nl, trailing)) == head + pieces(
            inner,
            nl.seq(),
        ) + tail,
{
    let sep = nl.seq();
    let all = head + inner + tail;
    let once = doc_text(all, nl, trailing);
    lemma_split_join(all, nl);
    lemma_pieces_concat(head + inner, tail, sep);
    lemma_pieces_concat(head, inner, sep);
    lemma_pieces_free(head, sep);
    lemma_pieces_free(tail, sep);
    if trailing {
        assert(once.take(once.len() - sep.len()) == join(all, sep));
    }
}

/// The lines and the block of a rewritten document, where the new lines keep
/// the newline style: the lines up to the begin sentinel, the lines that the
/// new lines are read as, and the lines from the end sentinel on; and if the
/// lines in the middle are neutral, the block is made of them.
pub proof fn lemma_rewritten_document(text: Seq<char>, inner: Seq<Seq<char>>)
    requires
        rewritten(text, inner) is Ok,
        newline_of(rewritten(text, inner)->Ok_0) == newline_of(text),
    ensures
        doc_lines(rewritten(text, inner)->Ok_0) == head_lines(text) + pieces(
            inner,
            newline_of(text).seq(),
        ) + tail_lines(text),
        ends_with_newline(rewritten(text, inner)->Ok_0) == ends_with_newline(text),
        is_neutral(pieces(inner, newline_of(text).seq())) ==> locate_block(
            doc_lines(rewritten(text, inner)->Ok_0),
        ) == Ok::<(int, int), BlockError>(
            (
                head_lines(text).len() - 1,
                (head_lines(text).len() + pieces(inner, newline_of(text).seq()).len()) as int,
            ),
        ),
{
    let lines = doc_lines(text);
    let nl = newline_of(text);
    let sep = nl.seq();
    let t = ends_with_newline(text);
    let (b, e) = locate_block(lines)->Ok_0;
    let head = lines.take(b + 1);
    let tail = lines.skip(e);
    let mid = pieces(inner, sep);
    lemma_locate_block(lines);
    lemma_trailing_flag_kept(text, inner);
    assert(doc_lines(rewritten(text, inner)->Ok_0) == head + mid + tail) by {
        lemma_doc_lines_free(text);
        assert(all_free_of(head, sep)) by {
            assert forall|i: int| 0 <= i < head.len() implies find(#[trigger] head[i], sep)
                is None by {
                assert(head[i] == lines[i]);
            }
        }
        assert(all_free_of(tail, sep)) by {
            assert forall|i: int| 0 <= i < tail.len() implies find(#[trigger] tail[i], sep)
                is None by {
                assert(tail[i] == lines[e + i]);
            }
        }
        lemma_rewrite_parts(text, inner);
        lemma_lines_of_joined(head, inner, tail, nl, t);
    }
    if is_neutral(mid) {
        lemma_block_structure(lines);
        lemma_locate_rebuilt(head, mid, tail);
    }
}

/// An image with a discriminator has one of five kinds, and its id is the
/// prefix of that kind followed by the discriminator.
pub proof fn lemma_kind_shape(image: Seq<char>, raw: Seq<char>) -> (tag: int)
    requires
        meta_discriminator(kind_of(image, raw).2) is Some,
    ensures
        1 <= tag <= 5,
        kind_of(image, raw).0 == kind_name(tag),
        kind_of(image, raw).1 == id_prefix(tag) + meta_discriminator(kind_of(image, raw).2)->0,
{
    let url = crate::text::trim(image);
    if !crate::readme_badges::is_http_url(url) {
        1
    } else if contains(url, "/actions/workflows/"@) && contains(url, "/badge.svg"@) {
        1
    } else if crate::readme_badges::name_after_prefix(url, "img.shields.io/npm/v/"@) is Some {
        2
    } else if crate::readme_badges::npm_downloads_package(url) is Some {
        3
    } else if crate::readme_badges::name_after_prefix(url, "img.shields.io/crates/v/"@) is Some {
        4
    } else {
        5
    }
}

/// A badge with a discriminator has one of five kinds, and its id is the
/// prefix of that kind followed by the discriminator.
pub proof fn lemma_id_shape(line: Seq<char>) -> (tag: int)
    requires
        discriminator(parsed(line)) is Some,
    ensures
        1 <= tag <= 5,
        parsed(line).kind == kind_name(tag),
        parsed(line).id == id_prefix(tag) + discriminator(parsed(line))->0,
{
    if let Some((label, image, link)) = crate::readme_badges::linked_image(line) {
        lemma_kind_shape(image, line)
    } else if let Some((label, image)) = crate::readme_badges::bare_image(line) {
        lemma_kind_shape(image, line)
    } else {
        1
    }
}

/// Two texts with the same prefix differ where their rests differ.
pub proof fn lemma_same_prefix(p: Seq<char>, x: Seq<char>, y: Seq<char>)
    requires
        x != y,
    ensures
        p + x != p + y,
{
    assert((p + x).skip(p.len() as int) == x);
    assert((p + y).skip(p.len() as int) == y);
}

/// Two texts whose prefixes differ at an index differ.
pub proof fn lemma_other_prefix(p: Seq<char>, q: Seq<char>, x: Seq<char>, y: Seq<char>, i: int)
    requires
        0 <= i < p.len(),
        i < q.len(),
        p[i] != q[i],
    ensures
        p + x != q + y,
{
    assert((p + x)[i] == p[i]);
    assert((q + y)[i] == q[i]);
}

/// The prefixes of two different kinds differ at some index.
pub proof fn lemma_prefixes_differ(s: int, t: int, x: Seq<char>, y: Seq<char>)
    requires
        1 <= s < t <= 5,
    ensures
        id_prefix(s) + x != id_prefix(t) + y,
{
    reveal_strlit("ci:");
    reveal_strlit("npm:");
    reveal_strlit("npm_downloads:");
    reveal_strlit("crates:");
    reveal_strlit("crates_downloads:");
    let p = id_prefix(s);
    let q = id_prefix(t);
    if s == 1 {
        if t == 2 || t == 3 {
            lemma_other_prefix(p, q, x, y, 0);
        } else {
            lemma_other_prefix(p, q, x, y, 1);
        }
    } else if s == 2 {
        if t == 3 {
            lemma_other_prefix(p, q, x, y, 3);
        } else {
            lemma_other_prefix(p, q, x, y, 0);
        }
    } else if s == 3 {
        lemma_other_prefix(p, q, x, y, 0);
    } else {
        lemma_other_prefix(p, q, x, y, 6);
    }
}

/// A year read from two digits lies between 2000 and 2099.
pub proof fn lemma_short_year(field: Seq<char>)
    requires
        crate::version::short_year_of(field) is Some,
    ensures
        2000 <= crate::version::short_year_of(field)->0 <= 2099,
{
    reveal_with_fuel(crate::version::digits_value, 3);
    assert(crate::text::is_digit(field[0]) && crate::text::is_digit(field[1]));
    assert(field.drop_last().drop_last().len() == 0);
}

/// A line without a line break holds no newline of either style.
pub proof fn lemma_plain_is_free(line: Seq<char>, nl: Newline)
    requires
        is_plain(line),
    ensures
        find(line, nl.seq()) is None,
{
    let sep = nl.seq();
    let last = (sep.len() - 1) as int;
    assert(sep[last] == '\n');
    assert forall|j: int| 0 <= j implies !occurs_at(line, sep, j) by {
        if j + sep.len() <= line.len() {
            assert(line.subrange(j, j + sep.len())[last] == line[j + last]);
        }
    }
    lemma_find_from_none(line, sep, 0);
}

/// Lines without a line break are read as themselves, in either style.
pub proof fn lemma_plain_lines_are_free(lines: Seq<Seq<char>>, nl: Newline)
    requires
        all_plain(lines),
    ensures
        all_free_of(lines, nl.seq()),
        pieces(lines, nl.seq()) == lines,
{
    assert forall|i: int| 0 <= i < lines.len() implies find(#[trigger] lines[i], nl.seq())
        is None by {
        lemma_plain_is_free(lines[i], nl);
    }
    lemma_pieces_free(lines, nl.seq());
}

/// Whether `s` holds no carriage return.
pub open spec fn has_no_cr(s: Seq<char>) -> bool {
    forall|k: int| 0 <= k < s.len() ==> #[trigger] s[k] != '\r'
}

/// The text of lines without a line break, each followed by a line feed,
/// holds no carriage return.
pub proof fn lemma_block_text_has_no_cr(lines: Seq<Seq<char>>)
    requires
        all_plain(lines),
    ensures
        has_no_cr(block_text(lines, Newline::Lf.seq())),
    decreases lines.len(),
{
    if lines.len() > 0 {
        let front = lines.drop_last();
        let last = lines.last();
        assert forall|i: int| 0 <= i < front.len() implies is_plain(#[trigger] front[i]) by {
            assert(front[i] == lines[i]);
        }
        lemma_block_text_has_no_cr(front);
        assert(is_plain(lines[lines.len() - 1]));
        let a = block_text(front, Newline::Lf.seq());
        let whole = a + last + Newline::Lf.seq();
        assert forall|k: int| 0 <= k < whole.len() implies #[trigger] whole[k] != '\r' by {
            if k < a.len() {
                assert(whole[k] == a[k]);
            } else if k < a.len() + last.len() {
                assert(whole[k] == last[k - a.len()]);
            } else {
                assert(whole[k] == '\n');
            }
        }
    }
}

/// A text without `\r\n` stays without it when a part of it that stands
/// behind a line feed is replaced by a text without a carriage return.
pub proof fn lemma_no_crlf_after_replacing(
    lead: Seq<char>,
    old: Seq<char>,
    new: Seq<char>,
    trail: Seq<char>,
)
    requires
        find(lead + old + trail, Newline::Crlf.seq()) is None,
        has_no_cr(new),
        lead.len() > 0,
        lead.last() == '\n',
    ensures
        find(lead + new + trail, Newline::Crlf.seq()) is None,
{
    let crlf = Newline::Crlf.seq();
    let text = lead + old + trail;
    let once = lead + new + trail;
    lemma_find_from(text, crlf, 0);
    assert forall|j: int| 0 <= j implies !occurs_at(once, crlf, j) by {
        if occurs_at(once, crlf, j) {
            assert(once.subrange(j, j + 2)[0] == once[j]);
            assert(once.subrange(j, j + 2)[1] == once[j + 1]);
            if j + 1 < lead.len() {
                assert(text.subrange(j, j + 2) == crlf);
                assert(occurs_at(text, crlf, j));
            } else if j < lead.len() {
                assert(once[j] == lead[j]);
            } else if j < lead.len() + new.len() {
                assert(once[j] == new[j - lead.len()]);
            } else {
                let k = j - new.len() + old.len();
                assert(text.subrange(k, k + 2) == crlf);
                assert(occurs_at(text, crlf, k));
            }
        }
    }
    lemma_find_from_none(once, crlf, 0);
}

/// A rewrite with lines without a line break keeps the newline style.
pub proof fn lemma_plain_lines_keep_style(text: Seq<char>, inner: Seq<Seq<char>>)
    requires
        rewritten(text, inner) is Ok,
        all_plain(inner),
    ensures
        newline_of(rewritten(text, inner)->Ok_0) == newline_of(text),
{
    lemma_rewrite_parts(text, inner);
    let once = rewritten(text, inner)->Ok_0;
    let sep = newline_of(text).seq();
    let lead = leading_text(text);
    if newline_of(text) == Newline::Crlf {
        let at = lead.len() - sep.len();
        assert(once.subrange(at, at + sep.len()) == lead.subrange(at, lead.len() as int));
        lemma_contains(once, sep, at);
    } else {
        lemma_block_text_has_no_cr(inner);
        assert(lead.last() == '\n') by {
            assert(lead.subrange(lead.len() - 1, lead.len() as int)[0] == sep[0]);
        }
        lemma_no_crlf_after_replacing(
            lead,
            block_text(block_lines(text)->Ok_0, sep),
            block_text(inner, sep),
            trailing_text(text),
        );
    }
}

} // verus!
