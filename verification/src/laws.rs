//! What holds of the operations on the managed block, of the badge parser
//! and of the version classifier, for every input.

use vstd::prelude::*;
use crate::document::{
    all_free_of, block_text, doc_lines, doc_text, ends_with_newline, join, lemma_doc_lines_free,
    lemma_doc_round_trip, lemma_pieces_free, newline_of, pieces, Newline,
};
use crate::lemmas::{
    lemma_plain_lines_are_free, lemma_plain_lines_keep_style,
    lemma_contains, lemma_doc_text_glue, lemma_doc_text_prefix, lemma_doc_text_suffix,
    lemma_ensured_trailing_flag, lemma_fence_open_prefix, lemma_fence_open_suffix,
    lemma_first_heading, lemma_fresh_is_not_empty, lemma_id_shape, lemma_lines_of_joined,
    lemma_positions_concat, lemma_prefixes_differ, lemma_rewrite_parts,
    lemma_rewritten_document, lemma_same_prefix, lemma_sentinels_are_no_fences,
    lemma_sentinels_are_single_lines, lemma_short_year, lemma_trailing_flag_kept, shifted,
};
use crate::readme::{
    begin_marker, begin_positions, block_lines, block_removed, end_marker, end_positions,
    ensured, fence_open, insertion_index, is_code_fence, is_marker_at, lemma_locate_block,
    locate_block, marker_positions, rewritten, BlockError,
};
use crate::readme_badges::{
    bare_image, is_badge_line, is_http_url, linked_image, parsed, unknown_id, BadgeModel,
    MetaModel,
};
use crate::readme_remove::{is_removed, kept_lines};
use crate::text::{contains, ends_with, find, starts_with, trim};
use crate::version::{calendar_of, classified, year_in_bounds, VersionOptions};

verus! {

/// Whether a list of lines, put into a block, leaves the reading of the
/// lines behind it as it was: it closes every fence that it opens, and none
/// of its lines is read as a sentinel.
pub open spec fn is_neutral(lines: Seq<Seq<char>>) -> bool {
    &&& !fence_open(lines, lines.len() as int)
    &&& marker_positions(lines, begin_marker(), lines.len() as int).len() == 0
    &&& marker_positions(lines, end_marker(), lines.len() as int).len() == 0
}

/// The lines of a document up to and including its begin sentinel.
pub open spec fn head_lines(text: Seq<char>) -> Seq<Seq<char>> {
    match locate_block(doc_lines(text)) {
        Ok((b, e)) => doc_lines(text).take(b + 1),
        Err(_) => Seq::empty(),
    }
}

/// The lines of a document from its end sentinel on.
pub open spec fn tail_lines(text: Seq<char>) -> Seq<Seq<char>> {
    match locate_block(doc_lines(text)) {
        Ok((b, e)) => doc_lines(text).skip(e),
        Err(_) => Seq::empty(),
    }
}

/// The text of a document up to and including the line of its begin
/// sentinel and the newline behind it.
pub open spec fn leading_text(text: Seq<char>) -> Seq<char> {
    block_text(head_lines(text), newline_of(text).seq())
}

/// The text of a document from its end sentinel on.
pub open spec fn trailing_text(text: Seq<char>) -> Seq<char> {
    doc_text(tail_lines(text), newline_of(text), ends_with_newline(text))
}

/// The lines of a document before its begin sentinel.
pub open spec fn lines_before_block(text: Seq<char>) -> Seq<Seq<char>> {
    match locate_block(doc_lines(text)) {
        Ok((b, e)) => doc_lines(text).take(b),
        Err(_) => Seq::empty(),
    }
}

/// The lines of a document behind its end sentinel.
pub open spec fn lines_after_block(text: Seq<char>) -> Seq<Seq<char>> {
    match locate_block(doc_lines(text)) {
        Ok((b, e)) => doc_lines(text).skip(e + 1),
        Err(_) => Seq::empty(),
    }
}

/// Self-healing: a document without a sentinel outside fenced code has,
/// once `ensure_marker_block` went over it, exactly one valid managed block,
/// and that block is empty.
///
/// This holds where the fresh block keeps the newline style of the document,
/// which it does unless the document uses `\n`, does not end with a newline,
/// and has its first level-one heading as its last line, ending with `\r`.
pub proof fn law_ensure_gives_block(text: Seq<char>)
    requires
        begin_positions(doc_lines(text)).len() == 0,
        end_positions(doc_lines(text)).len() == 0,
        newline_of(ensured(text)) == newline_of(text),
    ensures
        block_lines(ensured(text)) == Ok::<Seq<Seq<char>>, BlockError>(Seq::empty()),
{
    let lines = doc_lines(text);
    let nl = newline_of(text);
    let sep = nl.seq();
    let t = ends_with_newline(text);
    let at = insertion_index(lines);
    lemma_first_heading(lines, 0);
    let head = lines.take(at);
    let tail = lines.skip(at);
    let mid = seq![begin_marker(), end_marker()];
    let fresh = ensured(text);
    assert(fresh == doc_text(head + mid + tail, nl, t));
    lemma_sentinels_are_no_fences();
    lemma_sentinels_are_single_lines(nl);
    // The lines of the fresh document.
    assert(doc_lines(fresh) == head + mid + tail) by {
        lemma_ensured_trailing_flag(text);
        lemma_doc_lines_free(text);
        assert(all_free_of(head, sep)) by {
            assert forall|i: int| 0 <= i < head.len() implies find(#[trigger] head[i], sep)
                is None by {
                assert(head[i] == lines[i]);
            }
        }
        assert(all_free_of(tail, sep)) by {
            assert forall|i: int| 0 <= i < tail.len() implies find(#[trigger] tail[i], sep)
                is None by {
                assert(tail[i] == lines[at + i]);
            }
        }
        assert(all_free_of(mid, sep));
        lemma_pieces_free(mid, sep);
        lemma_fresh_is_not_empty(head, tail, nl, t);
        lemma_lines_of_joined(head, mid, tail, nl, t);
    }
    // The block of the fresh document.
    assert(lines == head + tail);
    lemma_fence_open_prefix(head, tail, at);
    assert(!fence_open(head, at));
    lemma_positions_concat(head, tail, begin_marker(), tail.len() as int);
    lemma_positions_concat(head, tail, end_marker(), tail.len() as int);
    assert(!fence_open(mid, 2)) by {
        reveal_with_fuel(fence_open, 3);
    }
    assert(marker_positions(mid, begin_marker(), 2) == seq![0int]) by {
        reveal_with_fuel(marker_positions, 3);
        reveal_with_fuel(fence_open, 3);
    }
    assert(marker_positions(mid, end_marker(), 2) == seq![1int]) by {
        reveal_with_fuel(marker_positions, 3);
        reveal_with_fuel(fence_open, 3);
    }
    let front = head + mid;
    let all = front + tail;
    lemma_fence_open_suffix(head, mid, 2);
    lemma_positions_concat(head, mid, begin_marker(), 2);
    lemma_positions_concat(head, mid, end_marker(), 2);
    lemma_positions_concat(front, tail, begin_marker(), tail.len() as int);
    lemma_positions_concat(front, tail, end_marker(), tail.len() as int);
    assert(shifted(seq![0int], at) == seq![at]);
    assert(shifted(seq![1int], at) == seq![at + 1]);
    assert(begin_positions(all) == seq![at]);
    assert(end_positions(all) == seq![at + 1]);
    assert(all.subrange(at + 1, at + 1) == Seq::<Seq<char>>::empty());
}

/// Round trip: on a document that holds exactly one valid managed block,
/// `ensure_marker_block` returns the document itself.
pub proof fn law_ensure_keeps_document_with_block(text: Seq<char>)
    requires
        locate_block(doc_lines(text)) is Ok,
    ensures
        ensured(text) == text,
{
}

/// Locality of a rewrite: the text up to and including the line of the begin
/// sentinel, and the text from the end sentinel on, are the same in the
/// document and in the rewritten document; between them stand the old and the
/// new lines of the block.
pub proof fn law_rewrite_is_local(text: Seq<char>, inner: Seq<Seq<char>>)
    requires
        rewritten(text, inner) is Ok,
    ensures
        text == leading_text(text) + block_text(
            block_lines(text)->Ok_0,
            newline_of(text).seq(),
        ) + trailing_text(text),
        rewritten(text, inner)->Ok_0 == leading_text(text) + block_text(
            inner,
            newline_of(text).seq(),
        ) + trailing_text(text),
{
    lemma_rewrite_parts(text, inner);
}

/// The separator that stands between the text before the block and the text
/// behind it once the block is gone: a newline if there are lines on both
/// sides, nothing else.
pub open spec fn joint(text: Seq<char>) -> Seq<char> {
    if lines_before_block(text).len() > 0 && lines_after_block(text).len() > 0 {
        newline_of(text).seq()
    } else {
        Seq::empty()
    }
}

/// Locality of a removal: the document begins with the text of the lines
/// before the begin sentinel and ends with the text of the lines behind the
/// end sentinel, and the document without its block is made of these two
/// texts, with a newline between them where both have lines.
pub proof fn law_remove_is_local(text: Seq<char>)
    requires
        block_removed(text) is Ok,
    ensures
        ({
            let nl = newline_of(text);
            let before = join(lines_before_block(text), nl.seq());
            let after = doc_text(lines_after_block(text), nl, ends_with_newline(text));
            &&& starts_with(text, before)
            &&& ends_with(text, after)
            &&& block_removed(text)->Ok_0 == before + joint(text) + after
        }),
{
    let lines = doc_lines(text);
    let nl = newline_of(text);
    let t = ends_with_newline(text);
    lemma_locate_block(lines);
    lemma_doc_round_trip(text);
    let (b, e) = locate_block(lines)->Ok_0;
    let p = lines.take(b);
    let s = lines.skip(e + 1);
    assert(lines == p + lines.skip(b));
    assert(lines == lines.take(e + 1) + s);
    lemma_doc_text_glue(p, s, nl, t);
    lemma_doc_text_prefix(p, lines.skip(b), nl, t);
    lemma_doc_text_suffix(lines.take(e + 1), s, nl, t);
}

/// Idempotence of a rewrite: rewriting the rewritten document with the same
/// lines gives the rewritten document again.
///
/// This holds where the new lines keep the newline style of the document and
/// where the lines that they are read as, once they stand in the document,
/// are neutral: they close the fences that they open, and none of them is
/// read as a sentinel.
pub proof fn law_rewrite_is_idempotent(text: Seq<char>, inner: Seq<Seq<char>>)
    requires
        rewritten(text, inner) is Ok,
        newline_of(rewritten(text, inner)->Ok_0) == newline_of(text),
        is_neutral(pieces(inner, newline_of(text).seq())),
    ensures
        rewritten(rewritten(text, inner)->Ok_0, inner) == rewritten(text, inner),
{
    let once = rewritten(text, inner)->Ok_0;
    let head = head_lines(text);
    let tail = tail_lines(text);
    let mid = pieces(inner, newline_of(text).seq());
    let again = head + mid + tail;
    lemma_rewritten_document(text, inner);
    lemma_locate_block(doc_lines(text));
    assert(again.take(head.len() as int) == head);
    assert(again.skip((head.len() + mid.len()) as int) == tail);
    assert(once == doc_text(head + inner + tail, newline_of(text), ends_with_newline(text)));
}

/// Whether `line` holds no line break: neither a line feed nor a carriage
/// return.
pub open spec fn is_plain(line: Seq<char>) -> bool {
    forall|k: int| 0 <= k < line.len() ==> #[trigger] line[k] != '\n' && line[k] != '\r'
}

/// Whether no line of `lines` holds a line break.
pub open spec fn all_plain(lines: Seq<Seq<char>>) -> bool {
    forall|i: int| 0 <= i < lines.len() ==> is_plain(#[trigger] lines[i])
}

/// Idempotence of a rewrite with plain lines: where no new line holds a
/// line break, and the new lines close the fences that they open and hold no
/// sentinel outside fenced code, rewriting twice with these lines is
/// rewriting once, and the block of the rewritten document holds exactly
/// these lines.
pub proof fn law_rewrite_with_plain_lines_is_idempotent(text: Seq<char>, inner: Seq<Seq<char>>)
    requires
        rewritten(text, inner) is Ok,
        all_plain(inner),
        is_neutral(inner),
    ensures
        rewritten(rewritten(text, inner)->Ok_0, inner) == rewritten(text, inner),
        block_lines(rewritten(text, inner)->Ok_0) == Ok::<Seq<Seq<char>>, BlockError>(inner),
{
    lemma_plain_lines_keep_style(text, inner);
    lemma_plain_lines_are_free(inner, newline_of(text));
    law_rewrite_is_idempotent(text, inner);
    law_rewritten_block_reads_back(text, inner);
}

/// What was written is what is read: the block of a rewritten document
/// holds the new lines, as they are read once they stand in the document.
/// For new lines without a newline in them these are the new lines
/// themselves.
///
/// This holds where [`law_rewrite_is_idempotent`] holds.
pub proof fn law_rewritten_block_reads_back(text: Seq<char>, inner: Seq<Seq<char>>)
    requires
        rewritten(text, inner) is Ok,
        newline_of(rewritten(text, inner)->Ok_0) == newline_of(text),
        is_neutral(pieces(inner, newline_of(text).seq())),
    ensures
        block_lines(rewritten(text, inner)->Ok_0) == Ok::<Seq<Seq<char>>, BlockError>(
            pieces(inner, newline_of(text).seq()),
        ),
        all_free_of(inner, newline_of(text).seq()) ==> block_lines(rewritten(text, inner)->Ok_0)
            == Ok::<Seq<Seq<char>>, BlockError>(inner),
{
    let head = head_lines(text);
    let tail = tail_lines(text);
    let mid = pieces(inner, newline_of(text).seq());
    let again = head + mid + tail;
    lemma_rewritten_document(text, inner);
    lemma_locate_block(doc_lines(text));
    assert(again.subrange(head.len() as int, (head.len() + mid.len()) as int) == mid);
    if all_free_of(inner, newline_of(text).seq()) {
        lemma_pieces_free(inner, newline_of(text).seq());
    }
}

/// Newline preservation: a document that uses `\r\n` and does not end with
/// a newline still uses `\r\n` and still does not end with a newline once
/// its block was rewritten, whatever the new lines are; every newline that
/// the rewrite puts in is `\r\n`.
pub proof fn law_rewrite_keeps_crlf(text: Seq<char>, inner: Seq<Seq<char>>)
    requires
        rewritten(text, inner) is Ok,
        newline_of(text) == Newline::Crlf,
        !ends_with_newline(text),
    ensures
        newline_of(rewritten(text, inner)->Ok_0) == Newline::Crlf,
        !ends_with_newline(rewritten(text, inner)->Ok_0),
        rewritten(text, inner)->Ok_0 == leading_text(text) + block_text(
            inner,
            Newline::Crlf.seq(),
        ) + trailing_text(text),
{
    lemma_rewrite_parts(text, inner);
    let sep = Newline::Crlf.seq();
    let lead = leading_text(text);
    let once = rewritten(text, inner)->Ok_0;
    let at = lead.len() - sep.len();
    assert(once.subrange(at, at + sep.len()) == lead.subrange(at, lead.len() as int));
    lemma_contains(once, sep, at);
    lemma_trailing_flag_kept(text, inner);
}

/// Fence immunity of the sentinels: a fence line, and a line inside fenced
/// code, is never read as a sentinel and never counted as one.
pub proof fn law_fenced_lines_hold_no_sentinel(lines: Seq<Seq<char>>, marker: Seq<char>, i: int)
    requires
        0 <= i < lines.len(),
        fence_open(lines, i) || is_code_fence(lines[i]),
    ensures
        !is_marker_at(lines, marker, i),
        !marker_positions(lines, marker, lines.len() as int).contains(i),
{
    crate::readme::lemma_marker_positions(lines, marker, lines.len() as int);
}

/// Fence immunity of a removal: a fence line, and a line inside fenced code,
/// is never removed; it is among the lines that stay.
pub proof fn law_fenced_lines_are_kept(
    block: Seq<Seq<char>>,
    ids: Seq<Seq<char>>,
    kinds: Seq<Seq<char>>,
    i: int,
    n: int,
)
    requires
        0 <= i < n <= block.len(),
        fence_open(block, i) || is_code_fence(block[i]),
    ensures
        !is_removed(block, ids, kinds, i),
        kept_lines(block, ids, kinds, n).contains(block[i]),
    decreases n,
{
    if n - 1 > i {
        law_fenced_lines_are_kept(block, ids, kinds, i, n - 1);
        let before = kept_lines(block, ids, kinds, n - 1);
        let k = choose|k: int| 0 <= k < before.len() && before[k] == block[i];
        if !is_removed(block, ids, kinds, n - 1) {
            assert(before.push(block[n - 1])[k] == block[i]);
        }
    } else {
        let before = kept_lines(block, ids, kinds, n - 1);
        assert(before.push(block[i])[before.len() as int] == block[i]);
    }
}

/// The prefix of the ids of the kinds that carry a discriminator, by number.
pub open spec fn id_prefix(tag: int) -> Seq<char> {
    if tag == 1 {
        "ci:"@
    } else if tag == 2 {
        "npm:"@
    } else if tag == 3 {
        "npm_downloads:"@
    } else if tag == 4 {
        "crates:"@
    } else {
        "crates_downloads:"@
    }
}

/// The kind of the ids that carry a discriminator, by number.
pub open spec fn kind_name(tag: int) -> Seq<char> {
    if tag == 1 {
        "github_actions"@
    } else if tag == 2 {
        "npm_version"@
    } else if tag == 3 {
        "npm_downloads"@
    } else if tag == 4 {
        "crates_version"@
    } else {
        "crates_downloads"@
    }
}

/// The discriminator of a badge: the workflow file, the package or the
/// crate that its id is made of.
pub open spec fn discriminator(badge: BadgeModel) -> Option<Seq<char>> {
    match badge.meta {
        Some(MetaModel::Workflow { workflow_file }) => Some(workflow_file),
        Some(MetaModel::Package { package }) => Some(package),
        Some(MetaModel::Crate { crate_name }) => Some(crate_name),
        _ => None,
    }
}

/// The discriminator among the further data of a badge.
pub open spec fn meta_discriminator(meta: Option<MetaModel>) -> Option<Seq<char>> {
    match meta {
        Some(MetaModel::Workflow { workflow_file }) => Some(workflow_file),
        Some(MetaModel::Package { package }) => Some(package),
        Some(MetaModel::Crate { crate_name }) => Some(crate_name),
        _ => None,
    }
}

/// Id determinism: the record of a line, and so its id, depends on the
/// characters of the line alone.
pub proof fn law_same_line_same_id(a: Seq<char>, b: Seq<char>)
    requires
        a == b,
    ensures
        parsed(a).id == parsed(b).id,
        parsed(a) == parsed(b),
{
}

/// Ids tell badges apart: two badges with a discriminator that differ in
/// their kind or in their discriminator have different ids.
pub proof fn law_discriminators_tell_ids_apart(a: Seq<char>, b: Seq<char>)
    requires
        discriminator(parsed(a)) is Some,
        discriminator(parsed(b)) is Some,
        parsed(a).kind != parsed(b).kind || discriminator(parsed(a)) != discriminator(parsed(b)),
    ensures
        parsed(a).id != parsed(b).id,
{
    let s = lemma_id_shape(a);
    let t = lemma_id_shape(b);
    let x = discriminator(parsed(a))->0;
    let y = discriminator(parsed(b))->0;
    if s == t {
        lemma_same_prefix(id_prefix(s), x, y);
    } else if s < t {
        lemma_prefixes_differ(s, t, x, y);
    } else {
        lemma_prefixes_differ(t, s, y, x);
    }
}

/// The image URL of a line that has one of the two badge shapes.
pub open spec fn image_of(line: Seq<char>) -> Seq<char> {
    match linked_image(line) {
        Some((label, image, link)) => image,
        None => match bare_image(line) {
            Some((label, image)) => image,
            None => Seq::empty(),
        },
    }
}

/// A badge whose image is no absolute `http://` or `https://` URL is of
/// kind `unknown`, whatever else the URL holds, and its id is the hash id of
/// the line.
pub proof fn law_relative_image_is_unknown(line: Seq<char>)
    requires
        !is_http_url(trim(image_of(line))),
    ensures
        parsed(line).kind == "unknown"@,
        parsed(line).id == unknown_id(line),
        parsed(line).meta is None,
        parsed(line).raw == line,
{
}

/// A line of no badge shape is read as the record of kind `unknown` with
/// empty label and image and without a link; a line of a badge shape keeps
/// its label, its image and its link.
pub proof fn law_every_line_is_read(line: Seq<char>)
    ensures
        parsed(line).raw == line,
        parsed(line).source == "readme"@,
        !is_badge_line(line) ==> parsed(line).kind == "unknown"@ && parsed(line).id == unknown_id(
            line,
        ) && parsed(line).label.len() == 0 && parsed(line).image.len() == 0 && parsed(line).link
            is None,
        is_badge_line(line) ==> parsed(line).image == image_of(line),
{
}

/// The fields of a calendar version lie in their ranges: the month from 1
/// to 12, the day from 1 to 31, and the year within the bounds of the
/// options or, where it was read from two digits, from 2000 to 2099.
pub proof fn law_calendar_fields_in_range(raw: Seq<char>, options: VersionOptions)
    requires
        calendar_of(raw, options) is Some,
    ensures
        ({
            let info = calendar_of(raw, options)->0;
            let parts = info.calver_parts->0;
            &&& info.version_format == "calver"@
            &&& info.calver_scheme is Some
            &&& info.calver_parts is Some
            &&& info.semver_parts is None
            &&& 1 <= parts.month <= 12
            &&& parts.day matches Some(day) ==> 1 <= day <= 31
            &&& year_in_bounds(parts.year as nat, options) || (options.allow_yy_calver && 2000
                <= parts.year <= 2099)
        }),
{
    let (core, modifier) = crate::version::split_modifier(trim(raw));
    let f = crate::document::split(core, seq!['.']);
    if crate::version::yyyy_mm(core, options) is Some {
    } else if crate::version::yyyy_mm_micro(core, options) is Some {
    } else if crate::version::yyyy_mm_dd(core, options) is Some {
    } else if crate::version::yyyymmdd(core, options) is Some {
    } else if crate::version::yy_mm(core) is Some {
        lemma_short_year(f[0]);
    } else {
        lemma_short_year(f[0]);
    }
}

/// Every version string is classified as one of the three formats,
/// and only a calendar version has a scheme, calendar fields or a modifier.
pub proof fn law_format_is_one_of_three(
    raw: Seq<char>,
    options: VersionOptions,
    parsed_semver: Option<(u64, u64, u64, Seq<char>, Seq<char>)>,
)
    ensures
        ({
            let info = classified(raw, options, parsed_semver);
            &&& info.version_format == "calver"@ || info.version_format == "semver"@
                || info.version_format == "unknown"@
            &&& calendar_of(raw, options) is Some ==> info == calendar_of(raw, options)->0
            &&& calendar_of(raw, options) is None ==> info.raw == trim(raw) && info.calver_scheme
                is None && info.calver_parts is None && info.modifier is None && (
            info.semver_parts is Some <==> parsed_semver is Some)
        }),
{
    if calendar_of(raw, options) is Some {
        law_calendar_fields_in_range(raw, options);
    }
}

} // verus!
