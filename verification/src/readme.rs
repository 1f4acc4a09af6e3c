//! The managed block of a README: the lines between one begin sentinel and
//! one end sentinel, both outside fenced code.
//!
//! Every operation reads the whole document, finds the sentinels anew and
//! leaves all text outside the block as it was.

use vstd::prelude::*;
use crate::document::{
    detect_newline, doc_lines, doc_text, ends_with_newline, join_lines, lines_of, newline_of,
    texts_of, Document, Newline,
};
use crate::text::{
    chars_eq, chars_start_with, chars_trim, chars_trim_start, from_chars, starts_with, subvec,
    to_chars, trim, trim_start,
};

verus! {

/// The line that opens the managed block.
pub const BDG_BEGIN: &'static str = "<!-- bdg:begin -->";

/// The line that closes the managed block.
pub const BDG_END: &'static str = "<!-- bdg:end -->";

/// Why a document has no managed block to work on.
#[derive(Clone, Copy, Debug, PartialEq, Eq, Structural)]
pub enum BlockError {
    /// The document does not hold exactly one begin and one end sentinel.
    MissingOrDuplicated,
    /// The begin sentinel does not stand before the end sentinel.
    Invalid,
}

impl BlockError {
    /// The message of the error.
    pub open spec fn message_spec(self) -> Seq<char> {
        match self {
            BlockError::MissingOrDuplicated => "marker block missing or duplicated"@,
            BlockError::Invalid => "invalid marker block"@,
        }
    }

    /// The message of the error.
    pub fn message(&self) -> (r: String)
        ensures
            r@ == self.message_spec(),
    {
        match self {
            BlockError::MissingOrDuplicated => String::from_str(
                "marker block missing or duplicated",
            ),
            BlockError::Invalid => String::from_str("invalid marker block"),
        }
    }
}

/// The characters of the begin sentinel.
pub open spec fn begin_marker() -> Seq<char> {
    "<!-- bdg:begin -->"@
}

/// The characters of the end sentinel.
pub open spec fn end_marker() -> Seq<char> {
    "<!-- bdg:end -->"@
}

/// Whether `line` opens or closes a fenced code region: its text after the
/// leading whitespace starts with three backticks.
pub open spec fn is_code_fence(line: Seq<char>) -> bool {
    starts_with(trim_start(line), "```"@)
}

/// Whether a fenced code region is open after the first `n` lines.
pub open spec fn fence_open(lines: Seq<Seq<char>>, n: int) -> bool
    decreases n,
{
    if n <= 0 || n > lines.len() {
        false
    } else {
        fence_open(lines, n - 1) != is_code_fence(lines[n - 1])
    }
}

/// Whether line `i` is read as text outside fenced code: it is no fence line
/// and no fenced region is open where it stands.
pub open spec fn outside_fence(lines: Seq<Seq<char>>, i: int) -> bool {
    &&& 0 <= i < lines.len()
    &&& !is_code_fence(lines[i])
    &&& !fence_open(lines, i)
}

/// Whether line `i` is the sentinel `marker`, outside fenced code.
pub open spec fn is_marker_at(lines: Seq<Seq<char>>, marker: Seq<char>, i: int) -> bool {
    outside_fence(lines, i) && lines[i] == marker
}

/// The indices below `n`, in rising order, at which `marker` stands outside
/// fenced code.
pub open spec fn marker_positions(lines: Seq<Seq<char>>, marker: Seq<char>, n: int) -> Seq<int>
    decreases n,
{
    if n <= 0 {
        Seq::empty()
    } else if is_marker_at(lines, marker, n - 1) {
        marker_positions(lines, marker, n - 1).push(n - 1)
    } else {
        marker_positions(lines, marker, n - 1)
    }
}

/// The indices of the begin sentinels of `lines`.
pub open spec fn begin_positions(lines: Seq<Seq<char>>) -> Seq<int> {
    marker_positions(lines, begin_marker(), lines.len() as int)
}

/// The indices of the end sentinels of `lines`.
pub open spec fn end_positions(lines: Seq<Seq<char>>) -> Seq<int> {
    marker_positions(lines, end_marker(), lines.len() as int)
}

/// Whether `lines` holds exactly one begin and one end sentinel.
pub open spec fn has_one_pair(lines: Seq<Seq<char>>) -> bool {
    begin_positions(lines).len() == 1 && end_positions(lines).len() == 1
}

/// The indices of the begin and the end sentinel of the managed block, or
/// the reason why there is no such block.
pub open spec fn locate_block(lines: Seq<Seq<char>>) -> Result<(int, int), BlockError> {
    let begins = begin_positions(lines);
    let ends = end_positions(lines);
    if !has_one_pair(lines) {
        Err(BlockError::MissingOrDuplicated)
    } else if begins[0] >= ends[0] {
        Err(BlockError::Invalid)
    } else {
        Ok((begins[0], ends[0]))
    }
}

/// Whether the text of `line` is empty once whitespace is trimmed.
pub open spec fn is_blank(line: Seq<char>) -> bool {
    trim(line).len() == 0
}

/// Whether line `i` is a level-one heading outside fenced code.
pub open spec fn is_heading_at(lines: Seq<Seq<char>>, i: int) -> bool {
    outside_fence(lines, i) && starts_with(lines[i], "# "@)
}

/// Index of the first level-one heading outside fenced code at or after
/// `from`.
pub open spec fn first_heading(lines: Seq<Seq<char>>, from: int) -> Option<int>
    decreases lines.len() - from,
{
    if from < 0 || from >= lines.len() {
        None
    } else if is_heading_at(lines, from) {
        Some(from)
    } else {
        first_heading(lines, from + 1)
    }
}

/// Where a fresh block is inserted: behind the first level-one heading, or
/// at the top when there is none.
pub open spec fn insertion_index(lines: Seq<Seq<char>>) -> int {
    match first_heading(lines, 0) {
        Some(i) => i + 1,
        None => 0,
    }
}

/// The document that `ensure_marker_block` returns for `text`.
pub open spec fn ensured(text: Seq<char>) -> Seq<char> {
    let lines = doc_lines(text);
    if has_one_pair(lines) {
        text
    } else {
        let at = insertion_index(lines);
        doc_text(
            lines.take(at) + seq![begin_marker(), end_marker()] + lines.skip(at),
            newline_of(text),
            ends_with_newline(text),
        )
    }
}

/// The lines of the managed block of `text`, blank ones included.
pub open spec fn block_lines(text: Seq<char>) -> Result<Seq<Seq<char>>, BlockError> {
    let lines = doc_lines(text);
    match locate_block(lines) {
        Ok((b, e)) => Ok(lines.subrange(b + 1, e)),
        Err(err) => Err(err),
    }
}

/// The lines of the managed block of `text` that are not blank; none when
/// the document has no managed block.
pub open spec fn managed_lines(text: Seq<char>) -> Seq<Seq<char>> {
    match block_lines(text) {
        Ok(inner) => inner.filter(|line: Seq<char>| !is_blank(line)),
        Err(_) => Seq::empty(),
    }
}

/// The document `text` with `inner` as the lines of its managed block.
pub open spec fn rewritten(text: Seq<char>, inner: Seq<Seq<char>>) -> Result<
    Seq<char>,
    BlockError,
> {
    let lines = doc_lines(text);
    match locate_block(lines) {
        Ok((b, e)) => Ok(
            doc_text(
                lines.take(b + 1) + inner + lines.skip(e),
                newline_of(text),
                ends_with_newline(text),
            ),
        ),
        Err(err) => Err(err),
    }
}

/// The document `text` without its managed block and without the two
/// sentinel lines.
pub open spec fn block_removed(text: Seq<char>) -> Result<Seq<char>, BlockError> {
    let lines = doc_lines(text);
    match locate_block(lines) {
        Ok((b, e)) => Ok(
            doc_text(
                lines.take(b) + lines.skip(e + 1),
                newline_of(text),
                ends_with_newline(text),
            ),
        ),
        Err(err) => Err(err),
    }
}

/// The label of a newline style: `LF` or `CRLF`.
pub open spec fn newline_label(nl: Newline) -> Seq<char> {
    match nl {
        Newline::Lf => "LF"@,
        Newline::Crlf => "CRLF"@,
    }
}

/// A position that `marker_positions` lists is a sentinel line below `n`.
pub proof fn lemma_marker_positions(lines: Seq<Seq<char>>, marker: Seq<char>, n: int)
    requires
        0 <= n <= lines.len(),
    ensures
        forall|k: int|
            0 <= k < marker_positions(lines, marker, n).len() ==> 0 <= (
            #[trigger] marker_positions(lines, marker, n)[k]) < n && is_marker_at(
                lines,
                marker,
                marker_positions(lines, marker, n)[k],
            ),
    decreases n,
{
    if n > 0 {
        lemma_marker_positions(lines, marker, n - 1);
        let prev = marker_positions(lines, marker, n - 1);
        let now = marker_positions(lines, marker, n);
        assert forall|k: int| 0 <= k < now.len() implies 0 <= (#[trigger] now[k]) < n
            && is_marker_at(lines, marker, now[k]) by {
            if k < prev.len() {
                assert(now[k] == prev[k]);
            }
        }
    }
}

/// The sentinels of a located block stand at its two indices, in order.
pub proof fn lemma_locate_block(lines: Seq<Seq<char>>)
    ensures
        match locate_block(lines) {
            Ok((b, e)) => 0 <= b < e < lines.len() && is_marker_at(lines, begin_marker(), b)
                && is_marker_at(lines, end_marker(), e),
            Err(_) => true,
        },
{
    lemma_marker_positions(lines, begin_marker(), lines.len() as int);
    lemma_marker_positions(lines, end_marker(), lines.len() as int);
    if has_one_pair(lines) {
        let b = begin_positions(lines)[0];
        let e = end_positions(lines)[0];
        assert(is_marker_at(lines, begin_marker(), b));
        assert(is_marker_at(lines, end_marker(), e));
    }
}

/// Executable form of [`is_code_fence`].
pub fn line_is_code_fence(line: &Vec<char>) -> (r: bool)
    ensures
        r == is_code_fence(line@),
{
    let trimmed = chars_trim_start(line);
    let mark = to_chars("```");
    chars_start_with(&trimmed, &mark)
}

/// The indices of the begin and of the end sentinels of `lines`.
pub fn collect_marker_indices(lines: &Vec<Vec<char>>) -> (r: (Vec<usize>, Vec<usize>))
    ensures
        r.0@.map_values(|i: usize| i as int) == begin_positions(lines_of(lines@)),
        r.1@.map_values(|i: usize| i as int) == end_positions(lines_of(lines@)),
{
    let begin = to_chars(BDG_BEGIN);
    let end = to_chars(BDG_END);
    let mut begin_indices: Vec<usize> = Vec::new();
    let mut end_indices: Vec<usize> = Vec::new();
    let mut in_code_fence = false;
    let ghost all = lines_of(lines@);
    let mut idx: usize = 0;
    while idx < lines.len()
        invariant
            idx <= lines.len(),
            all == lines_of(lines@),
            begin@ == begin_marker(),
            end@ == end_marker(),
            in_code_fence == fence_open(all, idx as int),
            begin_indices@.map_values(|i: usize| i as int) == marker_positions(
                all,
                begin_marker(),
                idx as int,
            ),
            end_indices@.map_values(|i: usize| i as int) == marker_positions(
                all,
                end_marker(),
                idx as int,
            ),
        decreases lines.len() - idx,
    {
        let line = &lines[idx];
        let ghost begins_before = begin_indices@.map_values(|i: usize| i as int);
        let ghost ends_before = end_indices@.map_values(|i: usize| i as int);
        assert(all[idx as int] == line@);
        if line_is_code_fence(line) {
            in_code_fence = !in_code_fence;
        } else if !in_code_fence {
            if chars_eq(line, &begin) {
                begin_indices.push(idx);
                assert(begin_indices@.map_values(|i: usize| i as int) == begins_before.push(
                    idx as int,
                ));
            }
            if chars_eq(line, &end) {
                end_indices.push(idx);
                assert(end_indices@.map_values(|i: usize| i as int) == ends_before.push(
                    idx as int,
                ));
            }
        }
        idx += 1;
    }
    (begin_indices, end_indices)
}

/// The indices of the two sentinels of the managed block of `lines`.
pub fn find_block(lines: &Vec<Vec<char>>) -> (r: Result<(usize, usize), BlockError>)
    ensures
        match r {
            Ok((b, e)) => locate_block(lines_of(lines@)) == Ok::<(int, int), BlockError>(
                (b as int, e as int),
            ) && b < e < lines.len(),
            Err(err) => locate_block(lines_of(lines@)) == Err::<(int, int), BlockError>(err),
        },
{
    let (begin_indices, end_indices) = collect_marker_indices(lines);
    let ghost begins = begin_indices@.map_values(|i: usize| i as int);
    let ghost ends = end_indices@.map_values(|i: usize| i as int);
    if begin_indices.len() != 1 || end_indices.len() != 1 {
        assert(begins.len() == begin_indices.len());
        assert(ends.len() == end_indices.len());
        return Err(BlockError::MissingOrDuplicated);
    }
    let begin = begin_indices[0];
    let end = end_indices[0];
    assert(begins[0] == begin as int);
    assert(ends[0] == end as int);
    if begin >= end {
        return Err(BlockError::Invalid);
    }
    proof {
        lemma_locate_block(lines_of(lines@));
    }
    Ok((begin, end))
}

/// The texts of `items` as lines of characters.
pub fn lines_from_strings(items: &[String]) -> (r: Vec<Vec<char>>)
    ensures
        lines_of(r@) == texts_of(items@),
{
    let mut out: Vec<Vec<char>> = Vec::new();
    let mut i: usize = 0;
    while i < items.len()
        invariant
            i <= items.len(),
            lines_of(out@) == texts_of(items@).take(i as int),
        decreases items.len() - i,
    {
        let ghost before = lines_of(out@);
        let line = to_chars(items[i].as_str());
        out.push(line);
        assert(lines_of(out@) == before.push(items@[i as int]@));
        i += 1;
    }
    out
}

/// The lines `lines[from..to]` as strings.
pub(crate) fn strings_from_lines(lines: &Vec<Vec<char>>, from: usize, to: usize) -> (r: Vec<
    String,
>)
    requires
        from <= to <= lines.len(),
    ensures
        texts_of(r@) == lines_of(lines@).subrange(from as int, to as int),
{
    let mut out: Vec<String> = Vec::new();
    let mut i: usize = from;
    while i < to
        invariant
            from <= i <= to <= lines.len(),
            texts_of(out@) == lines_of(lines@).subrange(from as int, i as int),
        decreases to - i,
    {
        let ghost before = texts_of(out@);
        let s = from_chars(&lines[i]);
        out.push(s);
        assert(texts_of(out@) == before.push(lines@[i as int]@));
        i += 1;
    }
    out
}

/// Appends copies of `lines[from..to]` to `out`.
pub(crate) fn extend_lines(
    out: &mut Vec<Vec<char>>,
    lines: &Vec<Vec<char>>,
    from: usize,
    to: usize,
)
    requires
        from <= to <= lines.len(),
    ensures
        lines_of(final(out)@) == lines_of(old(out)@) + lines_of(lines@).subrange(
            from as int,
            to as int,
        ),
{
    let mut i: usize = from;
    while i < to
        invariant
            from <= i <= to <= lines.len(),
            lines_of(out@) == lines_of(old(out)@) + lines_of(lines@).subrange(
                from as int,
                i as int,
            ),
        decreases to - i,
    {
        let ghost before = lines_of(out@);
        let line = &lines[i];
        let copy = subvec(line, 0, line.len());
        assert(copy@ == line@);
        out.push(copy);
        assert(lines_of(out@) == before.push(lines@[i as int]@));
        i += 1;
    }
}

/// Returns `content` with a managed block in it.
///
/// A document that holds exactly one begin and one end sentinel outside
/// fenced code comes back unchanged. Any other document gets a fresh empty
/// block: behind its first level-one heading outside fenced code, or at the
/// top when it has none. The newline style and the trailing-newline flag of
/// the document are kept.
pub fn ensure_marker_block(content: &str) -> (r: String)
    ensures
        r@ == ensured(content@),
{
    let document = Document::read(content);
    let lines = &document.lines;
    let (begin_indices, end_indices) = collect_marker_indices(lines);
    let ghost all = lines_of(lines@);
    if begin_indices.len() == 1 && end_indices.len() == 1 {
        assert(begin_indices@.map_values(|i: usize| i as int).len() == 1);
        assert(end_indices@.map_values(|i: usize| i as int).len() == 1);
        return String::from_str(content);
    }
    assert(!has_one_pair(all)) by {
        assert(begin_indices@.map_values(|i: usize| i as int).len() == begin_indices.len());
        assert(end_indices@.map_values(|i: usize| i as int).len() == end_indices.len());
    }
    let heading = to_chars("# ");
    let mut insert_at: usize = 0;
    let mut in_code_fence = false;
    let mut idx: usize = 0;
    while idx < lines.len()
        invariant_except_break
            in_code_fence == fence_open(all, idx as int),
            insert_at == 0,
            first_heading(all, 0) == first_heading(all, idx as int),
        invariant
            idx <= lines.len(),
            all == lines_of(lines@),
            heading@ == "# "@,
        ensures
            insert_at as int == insertion_index(all),
            insert_at <= lines.len(),
        decreases lines.len() - idx,
    {
        let line = &lines[idx];
        assert(all[idx as int] == line@);
        if line_is_code_fence(line) {
            in_code_fence = !in_code_fence;
        } else if !in_code_fence && chars_start_with(line, &heading) {
            insert_at = idx + 1;
            break;
        }
        idx += 1;
    }
    let mut output: Vec<Vec<char>> = Vec::new();
    extend_lines(&mut output, lines, 0, insert_at);
    let ghost head = lines_of(output@);
    output.push(to_chars(BDG_BEGIN));
    output.push(to_chars(BDG_END));
    assert(lines_of(output@) == head + seq![begin_marker(), end_marker()]);
    extend_lines(&mut output, lines, insert_at, lines.len());
    assert(all.subrange(0, insert_at as int) == all.take(insert_at as int));
    assert(all.subrange(insert_at as int, lines.len() as int) == all.skip(insert_at as int));
    let text = join_lines(&output, document.newline, document.trailing_newline);
    from_chars(&text)
}

/// Replaces the lines of the managed block of `content` by `badges`, in
/// order.
///
/// The lines up to and including the begin sentinel, and the lines from the
/// end sentinel on, stay as they are. Fails when the document does not hold
/// exactly one begin and one end sentinel, or when the begin sentinel does
/// not stand before the end sentinel.
pub fn rewrite_marker_block(content: &str, badges: &[String]) -> (r: Result<String, BlockError>)
    ensures
        match r {
            Ok(text) => rewritten(content@, texts_of(badges@)) == Ok::<Seq<char>, BlockError>(
                text@,
            ),
            Err(err) => rewritten(content@, texts_of(badges@)) == Err::<Seq<char>, BlockError>(
                err,
            ),
        },
{
    rewrite_marker_block_lines(content, badges)
}

/// Replaces the lines of the managed block of `content` by `lines`, in
/// order, under the contract of [`rewrite_marker_block`].
pub fn rewrite_marker_block_lines(content: &str, lines: &[String]) -> (r: Result<
    String,
    BlockError,
>)
    ensures
        match r {
            Ok(text) => rewritten(content@, texts_of(lines@)) == Ok::<Seq<char>, BlockError>(
                text@,
            ),
            Err(err) => rewritten(content@, texts_of(lines@)) == Err::<Seq<char>, BlockError>(
                err,
            ),
        },
{
    let document = Document::read(content);
    let content_lines = &document.lines;
    let (begin, end) = match find_block(content_lines) {
        Ok(found) => found,
        Err(err) => {
            return Err(err);
        },
    };
    let ghost all = lines_of(content_lines@);
    let inner = lines_from_strings(lines);
    let mut output: Vec<Vec<char>> = Vec::new();
    extend_lines(&mut output, content_lines, 0, begin + 1);
    extend_lines(&mut output, &inner, 0, inner.len());
    extend_lines(&mut output, content_lines, end, content_lines.len());
    proof {
        assert(all.subrange(0, begin + 1) == all.take(begin + 1));
        assert(all.subrange(end as int, all.len() as int) == all.skip(end as int));
        assert(lines_of(inner@).subrange(0, inner.len() as int) == texts_of(lines@));
    }
    let text = join_lines(&output, document.newline, document.trailing_newline);
    Ok(from_chars(&text))
}

/// The lines of the managed block of `content` that are not blank.
///
/// Returns no line when the document has no managed block: this query never
/// fails.
pub fn extract_managed_block(content: &str) -> (r: Vec<String>)
    ensures
        texts_of(r@) == managed_lines(content@),
{
    let document = Document::read(content);
    let lines = &document.lines;
    let (begin, end) = match find_block(lines) {
        Ok(found) => found,
        Err(_) => {
            let none: Vec<String> = Vec::new();
            assert(texts_of(none@) == Seq::<Seq<char>>::empty());
            return none;
        },
    };
    let ghost all = lines_of(lines@);
    let ghost inner = all.subrange(begin + 1, end as int);
    let ghost keep = |line: Seq<char>| !is_blank(line);
    let mut out: Vec<String> = Vec::new();
    let mut i: usize = begin + 1;
    proof {
        reveal(Seq::filter);
        assert(inner.take(0).filter(keep) == Seq::<Seq<char>>::empty());
    }
    while i < end
        invariant
            begin + 1 <= i <= end < lines.len(),
            all == lines_of(lines@),
            inner == all.subrange(begin + 1, end as int),
            keep == |line: Seq<char>| !is_blank(line),
            texts_of(out@) == inner.take(i - begin - 1).filter(keep),
        decreases end - i,
    {
        let ghost before = texts_of(out@);
        let ghost seen = inner.take(i - begin - 1);
        let line = &lines[i];
        proof {
            reveal(Seq::filter);
            let now = inner.take(i - begin);
            assert(now.drop_last() == seen);
            assert(now.last() == line@);
        }
        if chars_trim(line).len() != 0 {
            out.push(from_chars(line));
            assert(texts_of(out@) == before.push(line@));
        }
        i += 1;
    }
    assert(inner.take(end - begin - 1) == inner);
    out
}

/// The lines of the managed block of `content`, blank ones included.
///
/// Fails as [`rewrite_marker_block`] does.
pub fn extract_marker_block_lines(content: &str) -> (r: Result<Vec<String>, BlockError>)
    ensures
        match r {
            Ok(lines) => block_lines(content@) == Ok::<Seq<Seq<char>>, BlockError>(
                texts_of(lines@),
            ),
            Err(err) => block_lines(content@) == Err::<Seq<Seq<char>>, BlockError>(err),
        },
{
    let document = Document::read(content);
    let lines = &document.lines;
    let (begin, end) = match find_block(lines) {
        Ok(found) => found,
        Err(err) => {
            return Err(err);
        },
    };
    Ok(strings_from_lines(lines, begin + 1, end))
}

/// Deletes the managed block of `content` together with its two sentinel
/// lines.
///
/// Fails as [`rewrite_marker_block`] does.
pub fn remove_marker_block(content: &str) -> (r: Result<String, BlockError>)
    ensures
        match r {
            Ok(text) => block_removed(content@) == Ok::<Seq<char>, BlockError>(text@),
            Err(err) => block_removed(content@) == Err::<Seq<char>, BlockError>(err),
        },
{
    let document = Document::read(content);
    let content_lines = &document.lines;
    let (begin, end) = match find_block(content_lines) {
        Ok(found) => found,
        Err(err) => {
            return Err(err);
        },
    };
    let ghost all = lines_of(content_lines@);
    let mut output: Vec<Vec<char>> = Vec::new();
    extend_lines(&mut output, content_lines, 0, begin);
    extend_lines(&mut output, content_lines, end + 1, content_lines.len());
    proof {
        assert(all.subrange(0, begin as int) == all.take(begin as int));
        assert(all.subrange(end + 1, all.len() as int) == all.skip(end + 1));
    }
    let text = join_lines(&output, document.newline, document.trailing_newline);
    Ok(from_chars(&text))
}

/// The label of the newline style of `content`, `LF` or `CRLF`, and whether
/// `content` ends with a newline of that style.
pub fn readme_newline_info(content: &str) -> (r: (String, bool))
    ensures
        r.0@ == newline_label(newline_of(content@)),
        r.1 == ends_with_newline(content@),
{
    let (newline, trailing) = detect_newline(&to_chars(content));
    let label = match newline {
        Newline::Crlf => "CRLF",
        Newline::Lf => "LF",
    };
    (String::from_str(label), trailing)
}

/// The number of begin sentinels of `content` outside fenced code.
pub fn marker_count(content: &str) -> (r: usize)
    ensures
        r == begin_positions(doc_lines(content@)).len(),
{
    let document = Document::read(content);
    let (begin_indices, _) = collect_marker_indices(&document.lines);
    assert(begin_indices@.map_values(|i: usize| i as int).len() == begin_indices.len());
    begin_indices.len()
}

/// The names under which the README of a project is looked for, in the
/// order in which they are tried.
pub open spec fn candidate_names(prefer_moonbit: bool) -> Seq<Seq<char>> {
    if prefer_moonbit {
        seq!["README.mbt.md"@, "README.md"@, "docs/README.md"@]
    } else {
        seq!["README.md"@, "README.mbt.md"@, "docs/README.md"@]
    }
}

/// Index of the first candidate that exists, or of the first candidate
/// where none exists.
pub open spec fn first_existing(exists: Seq<bool>, from: int) -> int
    decreases exists.len() - from,
{
    if from < 0 || from >= exists.len() {
        0
    } else if exists[from] {
        from
    } else {
        first_existing(exists, from + 1)
    }
}

/// The names under which the README of a project is looked for: the
/// MoonBit README first where the project is a MoonBit project.
pub fn readme_candidates(prefer_moonbit: bool) -> (r: Vec<String>)
    ensures
        texts_of(r@) == candidate_names(prefer_moonbit),
{
    let mut out: Vec<String> = Vec::new();
    if prefer_moonbit {
        out.push(String::from_str("README.mbt.md"));
        out.push(String::from_str("README.md"));
    } else {
        out.push(String::from_str("README.md"));
        out.push(String::from_str("README.mbt.md"));
    }
    out.push(String::from_str("docs/README.md"));
    assert(texts_of(out@) == candidate_names(prefer_moonbit));
    out
}

/// Which candidate is the README: the first that exists, and the first of
/// all where none exists. `exists` tells of each candidate whether there is
/// such a file.
pub fn resolve_readme(exists: &[bool]) -> (r: usize)
    ensures
        r == first_existing(exists@, 0),
{
    let mut i: usize = 0;
    while i < exists.len()
        invariant
            i <= exists.len(),
            first_existing(exists@, 0) == first_existing(exists@, i as int),
        decreases exists.len() - i,
    {
        if exists[i] {
            return i;
        }
        i += 1;
    }
    0
}

} // verus!
