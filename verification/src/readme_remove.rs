//! Removes badges from the managed block by id or by kind.
//!
//! Every line of the block that stands outside fenced code is read as a
//! badge; it leaves the block when its id or its kind is among the wanted
//! ones. Fence lines and lines inside fenced code always stay.

use vstd::prelude::*;
use crate::document::{lines_of, texts_of};
use crate::readme::{
    block_lines, extract_marker_block_lines, fence_open, line_is_code_fence, outside_fence,
    BlockError,
};
use crate::readme_badges::{parse_badge_line, parsed};
use crate::text::{chars_eq, chars_trim, from_chars, to_chars, trim};

verus! {

/// What a removal did to the managed block.
#[derive(Debug)]
pub struct RemovalOutcome {
    /// The lines that stay, in order.
    pub remaining: Vec<String>,
    /// The number of lines that left.
    pub removed: usize,
    /// The number of lines that left because of their id.
    pub id_hits: usize,
    /// The ids of the lines that left, in order.
    pub removed_ids: Vec<String>,
    /// Each kind that left with the number of its lines, in the order in
    /// which the kinds were first met. No kind occurs twice.
    pub removed_kinds: Vec<(String, usize)>,
    /// The wanted ids that no line that left has, each once, in the order in
    /// which they were asked for.
    pub missing_ids: Vec<String>,
}

/// Why a removal did not take place.
#[derive(Clone, Copy, Debug, PartialEq, Eq, Structural)]
pub enum RemoveError {
    /// The document has no managed block.
    Block(BlockError),
    /// The removal was strict, ids were asked for, and no line has one of
    /// them.
    IdNotFound,
}

impl RemoveError {
    /// The message of the error.
    pub open spec fn message_spec(self) -> Seq<char> {
        match self {
            RemoveError::Block(err) => err.message_spec(),
            RemoveError::IdNotFound => "id_not_found"@,
        }
    }

    /// The message of the error.
    pub fn message(&self) -> (r: String)
        ensures
            r@ == self.message_spec(),
    {
        match self {
            RemoveError::Block(err) => err.message(),
            RemoveError::IdNotFound => String::from_str("id_not_found"),
        }
    }
}

/// The mathematical value of a [`RemovalOutcome`].
pub struct RemovalModel {
    pub remaining: Seq<Seq<char>>,
    pub removed: nat,
    pub id_hits: nat,
    pub removed_ids: Seq<Seq<char>>,
    pub removed_kinds: Seq<(Seq<char>, nat)>,
    pub missing_ids: Seq<Seq<char>>,
}

/// The view of a list of kinds with their counts.
pub open spec fn tally_of(v: Seq<(String, usize)>) -> Seq<(Seq<char>, nat)> {
    Seq::new(v.len(), |i: int| (v[i].0@, v[i].1 as nat))
}

impl View for RemovalOutcome {
    type V = RemovalModel;

    open spec fn view(&self) -> RemovalModel {
        RemovalModel {
            remaining: texts_of(self.remaining@),
            removed: self.removed as nat,
            id_hits: self.id_hits as nat,
            removed_ids: texts_of(self.removed_ids@),
            removed_kinds: tally_of(self.removed_kinds@),
            missing_ids: texts_of(self.missing_ids@),
        }
    }
}

/// Every text of `items`, trimmed.
pub open spec fn trim_all(items: Seq<Seq<char>>) -> Seq<Seq<char>> {
    Seq::new(items.len(), |i: int| trim(items[i]))
}

/// The texts of `s` without repetitions, each where it first occurs.
pub open spec fn distinct(s: Seq<Seq<char>>) -> Seq<Seq<char>>
    decreases s.len(),
{
    if s.len() == 0 {
        Seq::empty()
    } else if distinct(s.drop_last()).contains(s.last()) {
        distinct(s.drop_last())
    } else {
        distinct(s.drop_last()).push(s.last())
    }
}

/// How often `x` occurs in `s`.
pub open spec fn occurrences(s: Seq<Seq<char>>, x: Seq<char>) -> nat
    decreases s.len(),
{
    if s.len() == 0 {
        0
    } else if s.last() == x {
        occurrences(s.drop_last(), x) + 1
    } else {
        occurrences(s.drop_last(), x)
    }
}

/// Whether line `i` of the block leaves because of its id.
pub open spec fn id_hit(block: Seq<Seq<char>>, ids: Seq<Seq<char>>, i: int) -> bool {
    outside_fence(block, i) && ids.contains(parsed(block[i]).id)
}

/// Whether line `i` of the block leaves because of its kind.
pub open spec fn kind_hit(block: Seq<Seq<char>>, kinds: Seq<Seq<char>>, i: int) -> bool {
    outside_fence(block, i) && kinds.contains(parsed(block[i]).kind)
}

/// Whether line `i` of the block leaves.
pub open spec fn is_removed(
    block: Seq<Seq<char>>,
    ids: Seq<Seq<char>>,
    kinds: Seq<Seq<char>>,
    i: int,
) -> bool {
    id_hit(block, ids, i) || kind_hit(block, kinds, i)
}

/// The lines among the first `n` of the block that stay, in order.
pub open spec fn kept_lines(
    block: Seq<Seq<char>>,
    ids: Seq<Seq<char>>,
    kinds: Seq<Seq<char>>,
    n: int,
) -> Seq<Seq<char>>
    decreases n,
{
    if n <= 0 {
        Seq::empty()
    } else if is_removed(block, ids, kinds, n - 1) {
        kept_lines(block, ids, kinds, n - 1)
    } else {
        kept_lines(block, ids, kinds, n - 1).push(block[n - 1])
    }
}

/// The ids of the lines among the first `n` of the block that leave, in
/// order.
pub open spec fn removed_ids(
    block: Seq<Seq<char>>,
    ids: Seq<Seq<char>>,
    kinds: Seq<Seq<char>>,
    n: int,
) -> Seq<Seq<char>>
    decreases n,
{
    if n <= 0 {
        Seq::empty()
    } else if is_removed(block, ids, kinds, n - 1) {
        removed_ids(block, ids, kinds, n - 1).push(parsed(block[n - 1]).id)
    } else {
        removed_ids(block, ids, kinds, n - 1)
    }
}

/// The kinds of the lines among the first `n` of the block that leave, in
/// order.
pub open spec fn removed_kinds(
    block: Seq<Seq<char>>,
    ids: Seq<Seq<char>>,
    kinds: Seq<Seq<char>>,
    n: int,
) -> Seq<Seq<char>>
    decreases n,
{
    if n <= 0 {
        Seq::empty()
    } else if is_removed(block, ids, kinds, n - 1) {
        removed_kinds(block, ids, kinds, n - 1).push(parsed(block[n - 1]).kind)
    } else {
        removed_kinds(block, ids, kinds, n - 1)
    }
}

/// The number of lines among the first `n` of the block that leave because
/// of their id.
pub open spec fn id_hit_count(block: Seq<Seq<char>>, ids: Seq<Seq<char>>, n: int) -> nat
    decreases n,
{
    if n <= 0 {
        0
    } else if id_hit(block, ids, n - 1) {
        id_hit_count(block, ids, n - 1) + 1
    } else {
        id_hit_count(block, ids, n - 1)
    }
}

/// Each distinct text of `s` with the number of its occurrences.
pub open spec fn tally(s: Seq<Seq<char>>) -> Seq<(Seq<char>, nat)> {
    Seq::new(distinct(s).len(), |i: int| (distinct(s)[i], occurrences(s, distinct(s)[i])))
}

/// The wanted ids that are not among `gone`, each once.
pub open spec fn missing(wanted: Seq<Seq<char>>, gone: Seq<Seq<char>>) -> Seq<Seq<char>> {
    distinct(wanted).filter(|id: Seq<char>| !gone.contains(id))
}

/// What the removal of the ids `ids` and the kinds `kinds`, both trimmed,
/// does to the block `block`.
pub open spec fn outcome_of(
    block: Seq<Seq<char>>,
    ids: Seq<Seq<char>>,
    kinds: Seq<Seq<char>>,
) -> RemovalModel {
    let n = block.len() as int;
    RemovalModel {
        remaining: kept_lines(block, ids, kinds, n),
        removed: removed_ids(block, ids, kinds, n).len(),
        id_hits: id_hit_count(block, ids, n),
        removed_ids: removed_ids(block, ids, kinds, n),
        removed_kinds: tally(removed_kinds(block, ids, kinds, n)),
        missing_ids: missing(ids, removed_ids(block, ids, kinds, n)),
    }
}

/// What `remove_block_lines_by_id_kind` returns for the document `text`.
pub open spec fn removal(
    text: Seq<char>,
    ids: Seq<Seq<char>>,
    kinds: Seq<Seq<char>>,
    strict: bool,
) -> Result<RemovalModel, RemoveError> {
    match block_lines(text) {
        Err(err) => Err(RemoveError::Block(err)),
        Ok(block) => {
            let wanted = trim_all(ids);
            if strict && wanted.len() > 0 && id_hit_count(block, wanted, block.len() as int) == 0 {
                Err(RemoveError::IdNotFound)
            } else {
                Ok(outcome_of(block, wanted, trim_all(kinds)))
            }
        },
    }
}

/// A text that is not among the distinct texts of `s` does not occur in `s`.
pub proof fn lemma_absent_from_distinct(s: Seq<Seq<char>>, x: Seq<char>)
    requires
        !distinct(s).contains(x),
    ensures
        occurrences(s, x) == 0,
    decreases s.len(),
{
    if s.len() > 0 {
        let d = distinct(s.drop_last());
        if d.contains(s.last()) {
            lemma_absent_from_distinct(s.drop_last(), x);
        } else {
            assert(d.push(s.last()).last() == s.last());
            assert(s.last() != x);
            if d.contains(x) {
                let k = choose|k: int| 0 <= k < d.len() && d[k] == x;
                assert(d.push(s.last())[k] == x);
            }
            lemma_absent_from_distinct(s.drop_last(), x);
        }
    }
}

/// Whether `item` is among `list`.
fn contains_text(list: &Vec<Vec<char>>, item: &Vec<char>) -> (r: bool)
    ensures
        r == lines_of(list@).contains(item@),
{
    let mut i: usize = 0;
    while i < list.len()
        invariant
            i <= list.len(),
            forall|j: int| 0 <= j < i ==> lines_of(list@)[j] != item@,
        decreases list.len() - i,
    {
        if chars_eq(&list[i], item) {
            assert(lines_of(list@)[i as int] == item@);
            return true;
        }
        i += 1;
    }
    false
}

/// The texts of `items`, trimmed.
fn trimmed_texts(items: &[String]) -> (r: Vec<Vec<char>>)
    ensures
        lines_of(r@) == trim_all(texts_of(items@)),
{
    let mut out: Vec<Vec<char>> = Vec::new();
    let mut i: usize = 0;
    while i < items.len()
        invariant
            i <= items.len(),
            lines_of(out@) == trim_all(texts_of(items@)).take(i as int),
        decreases items.len() - i,
    {
        let ghost before = lines_of(out@);
        let t = chars_trim(&to_chars(items[i].as_str()));
        out.push(t);
        assert(lines_of(out@) == before.push(trim(items@[i as int]@)));
        i += 1;
    }
    out
}

/// The strings with the characters of `lines`.
fn strings_of(lines: &Vec<Vec<char>>) -> (r: Vec<String>)
    ensures
        texts_of(r@) == lines_of(lines@),
{
    let out = crate::readme::strings_from_lines(lines, 0, lines.len());
    assert(lines_of(lines@).subrange(0, lines.len() as int) == lines_of(lines@));
    out
}

/// Counts one more occurrence of `kind`: `keys` holds the distinct kinds met
/// so far and `counts` the number of occurrences of each.
fn count_kind(
    keys: &mut Vec<Vec<char>>,
    counts: &mut Vec<usize>,
    kind: Vec<char>,
    Ghost(seen): Ghost<Seq<Seq<char>>>,
)
    requires
        lines_of(old(keys)@) == distinct(seen),
        old(counts).len() == old(keys).len(),
        forall|j: int|
            0 <= j < old(counts).len() ==> old(counts)@[j] as nat == occurrences(
                seen,
                #[trigger] lines_of(old(keys)@)[j],
            ),
        forall|x: Seq<char>| occurrences(seen, x) < usize::MAX,
    ensures
        lines_of(final(keys)@) == distinct(seen.push(kind@)),
        final(counts).len() == final(keys).len(),
        forall|j: int|
            0 <= j < final(counts).len() ==> final(counts)@[j] as nat == occurrences(
                seen.push(kind@),
                #[trigger] lines_of(final(keys)@)[j],
            ),
{
    let ghost now = seen.push(kind@);
    assert(now.drop_last() == seen);
    assert(now.last() == kind@);
    let found = contains_text(keys, &kind);
    let n = keys.len();
    let mut j: usize = 0;
    while j < n
        invariant
            j <= n,
            n == keys.len(),
            counts.len() == n,
            keys@ == old(keys)@,
            now == seen.push(kind@),
            now.drop_last() == seen,
            now.last() == kind@,
            lines_of(keys@) == distinct(seen),
            forall|x: Seq<char>| occurrences(seen, x) < usize::MAX,
            forall|k: int|
                0 <= k < j ==> counts@[k] as nat == occurrences(now, #[trigger] lines_of(keys@)[k]),
            forall|k: int|
                j <= k < n ==> counts@[k] as nat == occurrences(
                    seen,
                    #[trigger] lines_of(keys@)[k],
                ),
        decreases n - j,
    {
        assert(lines_of(keys@)[j as int] == keys@[j as int]@);
        if chars_eq(&keys[j], &kind) {
            let c = counts[j];
            counts.set(j, c + 1);
        }
        j += 1;
    }
    if !found {
        proof {
            lemma_absent_from_distinct(seen, kind@);
        }
        let ghost before = lines_of(keys@);
        keys.push(kind);
        counts.push(1);
        assert(lines_of(keys@) == before.push(kind@));
    }
}

/// The list of kinds with their counts.
fn zip_tally(keys: &Vec<Vec<char>>, counts: &Vec<usize>) -> (r: Vec<(String, usize)>)
    requires
        keys.len() == counts.len(),
    ensures
        r.len() == keys.len(),
        forall|i: int|
            0 <= i < r.len() ==> (#[trigger] r@[i]).0@ == keys@[i]@ && r@[i].1 == counts@[i],
{
    let mut out: Vec<(String, usize)> = Vec::new();
    let mut i: usize = 0;
    while i < keys.len()
        invariant
            i <= keys.len(),
            keys.len() == counts.len(),
            out.len() == i,
            forall|k: int|
                0 <= k < i ==> (#[trigger] out@[k]).0@ == keys@[k]@ && out@[k].1 == counts@[k],
        decreases keys.len() - i,
    {
        let key = from_chars(&keys[i]);
        let count = counts[i];
        out.push((key, count));
        i += 1;
    }
    out
}

/// The distinct texts of `items`, each where it first occurs.
fn distinct_texts(items: &Vec<Vec<char>>) -> (r: Vec<Vec<char>>)
    ensures
        lines_of(r@) == distinct(lines_of(items@)),
{
    let mut out: Vec<Vec<char>> = Vec::new();
    let ghost all = lines_of(items@);
    let mut i: usize = 0;
    while i < items.len()
        invariant
            i <= items.len(),
            all == lines_of(items@),
            lines_of(out@) == distinct(all.take(i as int)),
        decreases items.len() - i,
    {
        let ghost before = lines_of(out@);
        let item = &items[i];
        proof {
            let now = all.take(i + 1);
            assert(now.drop_last() == all.take(i as int));
            assert(now.last() == item@);
        }
        if !contains_text(&out, item) {
            let copy = crate::text::subvec(item, 0, item.len());
            assert(copy@ == item@);
            out.push(copy);
            assert(lines_of(out@) == before.push(item@));
        }
        i += 1;
    }
    assert(all.take(items.len() as int) == all);
    out
}

/// The texts of `wanted` that are not among `gone`, each once.
fn missing_texts(wanted: &Vec<Vec<char>>, gone: &Vec<Vec<char>>) -> (r: Vec<Vec<char>>)
    ensures
        lines_of(r@) == missing(lines_of(wanted@), lines_of(gone@)),
{
    let unique = distinct_texts(wanted);
    let ghost all = lines_of(unique@);
    let ghost absent = |id: Seq<char>| !lines_of(gone@).contains(id);
    let mut out: Vec<Vec<char>> = Vec::new();
    let mut i: usize = 0;
    proof {
        reveal(Seq::filter);
        assert(all.take(0).filter(absent) == Seq::<Seq<char>>::empty());
    }
    while i < unique.len()
        invariant
            i <= unique.len(),
            all == lines_of(unique@),
            absent == |id: Seq<char>| !lines_of(gone@).contains(id),
            lines_of(out@) == all.take(i as int).filter(absent),
        decreases unique.len() - i,
    {
        let ghost before = lines_of(out@);
        let item = &unique[i];
        proof {
            reveal(Seq::filter);
            let now = all.take(i + 1);
            assert(now.drop_last() == all.take(i as int));
            assert(now.last() == item@);
        }
        if !contains_text(gone, item) {
            let copy = crate::text::subvec(item, 0, item.len());
            assert(copy@ == item@);
            out.push(copy);
            assert(lines_of(out@) == before.push(item@));
        }
        i += 1;
    }
    assert(all.take(unique.len() as int) == all);
    out
}

/// The number of occurrences of a text among at most `n` texts is at most `n`.
proof fn lemma_occurrences_bound(s: Seq<Seq<char>>, x: Seq<char>)
    ensures
        occurrences(s, x) <= s.len(),
    decreases s.len(),
{
    if s.len() > 0 {
        lemma_occurrences_bound(s.drop_last(), x);
    }
}

/// The lists of what leaves are no longer than the part of the block that
/// was read.
proof fn lemma_removed_lengths(
    block: Seq<Seq<char>>,
    ids: Seq<Seq<char>>,
    kinds: Seq<Seq<char>>,
    n: int,
)
    requires
        0 <= n,
    ensures
        removed_ids(block, ids, kinds, n).len() <= n,
        removed_kinds(block, ids, kinds, n).len() <= n,
        id_hit_count(block, ids, n) <= n,
    decreases n,
{
    if n > 0 {
        lemma_removed_lengths(block, ids, kinds, n - 1);
    }
}

/// Removes from the managed block of `content` every badge whose id is among
/// `ids` or whose kind is among `kinds`, and reports what left and what
/// stays. The ids and kinds are trimmed before they are compared.
///
/// Fails when the document has no managed block, and, if `strict` is set
/// and ids were asked for, when no line of the block has one of them.
pub fn remove_block_lines_by_id_kind(
    content: &str,
    ids: &[String],
    kinds: &[String],
    strict: bool,
) -> (r: Result<RemovalOutcome, RemoveError>)
    ensures
        match r {
            Ok(outcome) => removal(content@, texts_of(ids@), texts_of(kinds@), strict) == Ok::<
                RemovalModel,
                RemoveError,
            >(outcome@),
            Err(err) => removal(content@, texts_of(ids@), texts_of(kinds@), strict) == Err::<
                RemovalModel,
                RemoveError,
            >(err),
        },
{
    let lines = match extract_marker_block_lines(content) {
        Ok(lines) => crate::readme::lines_from_strings(lines.as_slice()),
        Err(err) => {
            return Err(RemoveError::Block(err));
        },
    };
    let id_set = trimmed_texts(ids);
    let kind_set = trimmed_texts(kinds);
    let ghost block = lines_of(lines@);
    let ghost want_ids = lines_of(id_set@);
    let ghost want_kinds = lines_of(kind_set@);
    let mut remaining: Vec<Vec<char>> = Vec::new();
    let mut id_hits: usize = 0;
    let mut removed_id_list: Vec<Vec<char>> = Vec::new();
    let mut kind_keys: Vec<Vec<char>> = Vec::new();
    let mut kind_counts: Vec<usize> = Vec::new();
    let mut in_code_fence = false;
    let mut idx: usize = 0;
    while idx < lines.len()
        invariant
            idx <= lines.len(),
            block == lines_of(lines@),
            want_ids == lines_of(id_set@),
            want_kinds == lines_of(kind_set@),
            in_code_fence == fence_open(block, idx as int),
            lines_of(remaining@) == kept_lines(block, want_ids, want_kinds, idx as int),
            id_hits as nat == id_hit_count(block, want_ids, idx as int),
            lines_of(removed_id_list@) == removed_ids(block, want_ids, want_kinds, idx as int),
            lines_of(kind_keys@) == distinct(
                removed_kinds(block, want_ids, want_kinds, idx as int),
            ),
            kind_counts.len() == kind_keys.len(),
            forall|j: int|
                0 <= j < kind_counts.len() ==> kind_counts@[j] as nat == occurrences(
                    removed_kinds(block, want_ids, want_kinds, idx as int),
                    #[trigger] lines_of(kind_keys@)[j],
                ),
        decreases lines.len() - idx,
    {
        let line = &lines[idx];
        assert(block[idx as int] == line@);
        let ghost kept_before = lines_of(remaining@);
        let ghost gone_before = lines_of(removed_id_list@);
        let ghost kinds_before = removed_kinds(block, want_ids, want_kinds, idx as int);
        proof {
            lemma_removed_lengths(block, want_ids, want_kinds, idx as int);
        }
        let copy = crate::text::subvec(line, 0, line.len());
        assert(copy@ == line@);
        if line_is_code_fence(line) {
            in_code_fence = !in_code_fence;
            remaining.push(copy);
            assert(lines_of(remaining@) == kept_before.push(line@));
        } else if in_code_fence {
            remaining.push(copy);
            assert(lines_of(remaining@) == kept_before.push(line@));
        } else {
            let text = from_chars(line);
            let badge = parse_badge_line(text.as_str());
            let id_candidate = to_chars(badge.id.as_str());
            let kind_candidate = to_chars(badge.kind.as_str());
            let remove_by_id = contains_text(&id_set, &id_candidate);
            let remove_by_kind = contains_text(&kind_set, &kind_candidate);
            if remove_by_id || remove_by_kind {
                if remove_by_id {
                    id_hits += 1;
                }
                removed_id_list.push(id_candidate);
                assert(lines_of(removed_id_list@) == gone_before.push(parsed(line@).id));
                proof {
                    assert forall|x: Seq<char>| occurrences(kinds_before, x) < usize::MAX by {
                        lemma_occurrences_bound(kinds_before, x);
                    }
                }
                count_kind(&mut kind_keys, &mut kind_counts, kind_candidate, Ghost(kinds_before));
            } else {
                remaining.push(copy);
                assert(lines_of(remaining@) == kept_before.push(line@));
            }
        }
        idx += 1;
    }
    if strict && id_set.len() > 0 && id_hits == 0 {
        return Err(RemoveError::IdNotFound);
    }
    let missing_ids = missing_texts(&id_set, &removed_id_list);
    let removed = removed_id_list.len();
    let removed_kinds_list = zip_tally(&kind_keys, &kind_counts);
    let outcome = RemovalOutcome {
        remaining: strings_of(&remaining),
        removed,
        id_hits,
        removed_ids: strings_of(&removed_id_list),
        removed_kinds: removed_kinds_list,
        missing_ids: strings_of(&missing_ids),
    };
    proof {
        let model = outcome_of(block, want_ids, want_kinds);
        assert forall|i: int| 0 <= i < removed_kinds_list.len() implies tally_of(
            removed_kinds_list@,
        )[i] == model.removed_kinds[i] by {
            assert(removed_kinds_list@[i].0@ == lines_of(kind_keys@)[i]);
        }
        assert(outcome@.removed_kinds =~= model.removed_kinds);
        assert(outcome@.remaining == model.remaining);
        assert(outcome@.missing_ids == model.missing_ids);
        assert(outcome@.removed_ids == model.removed_ids);
    }
    Ok(outcome)
}

} // verus!
