//! What the commands compute between reading the project and writing the
//! README: which badges to offer, how to label them, and how to report what
//! was done.

use vstd::prelude::*;
use crate::badges::{Badge, BadgeKind, BadgeSpec};
use crate::document::{block_text, join, join_pieces, lines_of, split, split_on, texts_of};
use crate::project::GitContext;
use crate::readme::{
    begin_marker, block_removed, end_marker, fence_open, is_code_fence, line_is_code_fence,
    outside_fence, remove_marker_block, rewrite_marker_block, rewritten, BlockError,
};
use crate::readme_badges::{
    is_badge_line, parse_badge_line, parse_badge_line_optional, parsed, BadgeModel,
    ParsedBadge,
};
use crate::text::{
    before_char, before_either, chars_before_char, chars_before_either, chars_contain,
    chars_eq_ignore_ascii_case, chars_strip_trailing, chars_trim, contains, decimal,
    eq_ignore_ascii_case, extend_chars, from_chars, opt_text, push_decimal, strip_trailing,
    subvec, to_chars, trim,
};
use crate::version::{classified, classify_version, semver_parse, VersionOptions};
use crate::workflows::GhRunInfo;

verus! {

/// The word by which a kind of badge is asked for.
pub open spec fn kind_word(kind: BadgeKind) -> Seq<char> {
    match kind {
        BadgeKind::Ci => "ci"@,
        BadgeKind::Version => "version"@,
        BadgeKind::License => "license"@,
        BadgeKind::Release => "release"@,
        BadgeKind::Docs => "docs"@,
        BadgeKind::Downloads => "downloads"@,
    }
}

/// Whether `kind` is asked for by one of the words `only`, each trimmed and
/// compared without regard to the case of its letters.
pub open spec fn is_wanted(kind: BadgeKind, only: Seq<Seq<char>>) -> bool {
    exists|i: int|
        0 <= i < only.len() && eq_ignore_ascii_case(trim(#[trigger] only[i]), kind_word(kind))
}

/// The badges of `badges` that `only` asks for, in order; all of them when
/// `only` is empty.
pub open spec fn filtered(badges: Seq<Badge>, only: Seq<Seq<char>>) -> Seq<Badge> {
    if only.len() == 0 {
        badges
    } else {
        badges.filter(|badge: Badge| is_wanted(badge.kind, only))
    }
}

/// Whether badge `i` is chosen in advance: it is the first CI badge, the
/// first license badge, or a version badge of a package registry.
pub open spec fn is_recommended(badges: Seq<Badge>, i: int) -> bool {
    let badge = badges[i];
    ||| badge.kind == BadgeKind::Ci && forall|j: int|
        0 <= j < i ==> (#[trigger] badges[j]).kind != BadgeKind::Ci
    ||| badge.kind == BadgeKind::License && forall|j: int|
        0 <= j < i ==> (#[trigger] badges[j]).kind != BadgeKind::License
    ||| badge.kind == BadgeKind::Version && (contains(badge.label@, "crates"@) || contains(
        badge.label@,
        "npm"@,
    ) || contains(badge.label@, "moonbit"@))
}

/// The indices below `n`, in rising order, of the badges chosen in advance.
pub open spec fn recommended(badges: Seq<Badge>, n: int) -> Seq<int>
    decreases n,
{
    if n <= 0 {
        Seq::empty()
    } else if is_recommended(badges, n - 1) {
        recommended(badges, n - 1).push(n - 1)
    } else {
        recommended(badges, n - 1)
    }
}

/// `text` as it is where its UTF-8 form has at most `max` bytes, and else
/// its first `max` characters followed by an ellipsis.
pub open spec fn shortened(text: Seq<char>, max: int) -> Seq<char> {
    if vstd::utf8::encode_utf8(text).len() <= max {
        text
    } else if max <= text.len() {
        text.take(max).push('\u{2026}')
    } else {
        text.push('\u{2026}')
    }
}

/// The items joined by `, ` where there are at most `max` of them, and else
/// the first `max` of them followed by the number of those left out.
pub open spec fn summary(items: Seq<Seq<char>>, max: int) -> Seq<char> {
    if items.len() <= max {
        join(items, ", "@)
    } else {
        join(items.take(max), ", "@) + " \u{2026}+"@ + decimal((items.len() - max) as nat)
    }
}

/// The workflow that the image of a CI badge names, or `workflow` where it
/// names none.
pub open spec fn ci_workflow(image_url: Seq<char>) -> Seq<char> {
    let parts = split(image_url, "/actions/workflows/"@);
    if parts.len() >= 2 {
        before_char(parts[1], '/')
    } else {
        "workflow"@
    }
}

/// The name in the image of a version badge of npm or crates.io, which
/// stands where another badge has the version.
pub open spec fn version_in_badge(image_url: Seq<char>) -> Option<Seq<char>> {
    let npm = split(image_url, "img.shields.io/npm/v/"@);
    let crates = split(image_url, "img.shields.io/crates/v/"@);
    if npm.len() >= 2 {
        Some(strip_trailing(before_either(npm[1], '/', '?'), ".svg"@))
    } else if crates.len() >= 2 {
        Some(strip_trailing(before_either(crates[1], '/', '?'), ".svg"@))
    } else {
        None
    }
}

/// The conclusion of the last run, where the run could be read and has one.
pub open spec fn conclusion_of(status: Option<GhRunInfo>) -> Option<Seq<char>> {
    match status {
        Some(info) => if info.ok {
            opt_text(info.conclusion)
        } else {
            None
        },
        None => None,
    }
}

/// The label under which a badge is offered. `conclusion` is the conclusion
/// of the last run of the workflow of a CI badge, and `format` the format
/// that the version of a version badge was classified as.
pub open spec fn label_of(
    badge: BadgeSpec,
    conclusion: Option<Seq<char>>,
    format: Seq<char>,
) -> Seq<char> {
    match badge.kind {
        BadgeKind::Ci => match conclusion {
            Some(c) => "CI ("@ + ci_workflow(badge.image_url) + ") last: "@ + c,
            None => "CI ("@ + ci_workflow(badge.image_url) + ")"@,
        },
        BadgeKind::Version => match version_in_badge(badge.image_url) {
            Some(version) => badge.label + " version ("@ + version + ", "@ + format + ")"@,
            None => badge.label + " version"@,
        },
        BadgeKind::License => "license"@,
        BadgeKind::Release => "release"@,
        BadgeKind::Docs => "docs"@,
        BadgeKind::Downloads => "downloads"@,
    }
}

/// The format that the version in the image of a badge is classified as;
/// empty where the image holds none.
pub open spec fn format_in_badge(image_url: Seq<char>, options: VersionOptions) -> Seq<char> {
    match version_in_badge(image_url) {
        Some(version) => classified(version, options, semver_parse(trim(version))).version_format,
        None => Seq::empty(),
    }
}

/// The line by which a line of the block is offered for removal.
pub open spec fn remove_item(line: Seq<char>) -> Seq<char> {
    if is_badge_line(line) {
        let badge = parsed(line);
        let head = badge.kind + " ["@ + badge.id + "]"@;
        let with_label = if badge.label.len() > 0 {
            head + " \""@ + badge.label + "\""@
        } else {
            head
        };
        if badge.image.len() > 0 {
            with_label + " "@ + shortened(badge.image, 48)
        } else {
            with_label
        }
    } else {
        "unknown "@ + shortened(line, 48)
    }
}

/// The badges read from the lines among the first `n` of `lines` that
/// stand outside fenced code.
pub open spec fn badges_outside_fences(lines: Seq<Seq<char>>, n: int) -> Seq<BadgeModel>
    decreases n,
{
    if n <= 0 {
        Seq::empty()
    } else if outside_fence(lines, n - 1) {
        badges_outside_fences(lines, n - 1).push(parsed(lines[n - 1]))
    } else {
        badges_outside_fences(lines, n - 1)
    }
}

/// The view of each badge of a list.
pub open spec fn models_of(v: Seq<ParsedBadge>) -> Seq<BadgeModel> {
    Seq::new(v.len(), |i: int| v[i]@)
}

/// Image and link of the badge of the workflow file `file` in the
/// repository `owner/repo`.
pub open spec fn workflow_links_of(owner: Seq<char>, repo: Seq<char>, file: Seq<char>) -> (
    Seq<char>,
    Seq<char>,
) {
    let link = "https://github.com/"@ + owner + "/"@ + repo + "/actions/workflows/"@ + file;
    (link + "/badge.svg"@, link)
}

/// A copy of `badge`.
pub fn clone_badge(badge: &Badge) -> (r: Badge)
    ensures
        r == *badge,
{
    Badge {
        kind: badge.kind,
        label: badge.label.clone(),
        image_url: badge.image_url.clone(),
        link_url: match &badge.link_url {
            Some(link) => Some(link.clone()),
            None => None,
        },
    }
}

/// The word by which `kind` is asked for.
fn word_of(kind: BadgeKind) -> (r: Vec<char>)
    ensures
        r@ == kind_word(kind),
{
    match kind {
        BadgeKind::Ci => to_chars("ci"),
        BadgeKind::Version => to_chars("version"),
        BadgeKind::License => to_chars("license"),
        BadgeKind::Release => to_chars("release"),
        BadgeKind::Docs => to_chars("docs"),
        BadgeKind::Downloads => to_chars("downloads"),
    }
}

/// Executable form of [`is_wanted`].
fn wants(kind: BadgeKind, only: &[String]) -> (r: bool)
    ensures
        r == is_wanted(kind, texts_of(only@)),
{
    let word = word_of(kind);
    let mut i: usize = 0;
    while i < only.len()
        invariant
            i <= only.len(),
            word@ == kind_word(kind),
            forall|j: int|
                0 <= j < i ==> !eq_ignore_ascii_case(
                    trim(#[trigger] texts_of(only@)[j]),
                    kind_word(kind),
                ),
        decreases only.len() - i,
    {
        let asked = chars_trim(&to_chars(only[i].as_str()));
        assert(texts_of(only@)[i as int] == only@[i as int]@);
        if chars_eq_ignore_ascii_case(&asked, &word) {
            return true;
        }
        i += 1;
    }
    false
}

/// The badges of `badges` whose kind is asked for by one of the words
/// `only`; all of them when `only` is empty.
pub fn filter_badges(badges: Vec<Badge>, only: &[String]) -> (r: Vec<Badge>)
    ensures
        r@ == filtered(badges@, texts_of(only@)),
{
    if only.len() == 0 {
        return badges;
    }
    let ghost keep = |badge: Badge| is_wanted(badge.kind, texts_of(only@));
    let mut out: Vec<Badge> = Vec::new();
    let mut i: usize = 0;
    proof {
        reveal(Seq::filter);
        assert(badges@.take(0).filter(keep) == Seq::<Badge>::empty());
    }
    while i < badges.len()
        invariant
            i <= badges.len(),
            keep == |badge: Badge| is_wanted(badge.kind, texts_of(only@)),
            out@ == badges@.take(i as int).filter(keep),
        decreases badges.len() - i,
    {
        proof {
            reveal(Seq::filter);
            let now = badges@.take(i + 1);
            assert(now.drop_last() == badges@.take(i as int));
            assert(now.last() == badges@[i as int]);
        }
        if wants(badges[i].kind, only) {
            out.push(clone_badge(&badges[i]));
        }
        i += 1;
    }
    assert(badges@.take(badges.len() as int) == badges@);
    out
}

/// The indices of the badges that are chosen in advance: the first CI
/// badge, the first license badge, and every version badge of a package
/// registry.
pub fn recommended_indices(badges: &[Badge]) -> (r: Vec<usize>)
    ensures
        r@.map_values(|i: usize| i as int) == recommended(badges@, badges@.len() as int),
{
    let mut selected: Vec<usize> = Vec::new();
    let mut seen_ci = false;
    let mut seen_license = false;
    let mut idx: usize = 0;
    while idx < badges.len()
        invariant
            idx <= badges.len(),
            seen_ci == exists|j: int| 0 <= j < idx && (#[trigger] badges@[j]).kind == BadgeKind::Ci,
            seen_license == exists|j: int|
                0 <= j < idx && (#[trigger] badges@[j]).kind == BadgeKind::License,
            selected@.map_values(|i: usize| i as int) == recommended(badges@, idx as int),
        decreases badges.len() - idx,
    {
        let badge = &badges[idx];
        let ghost before = selected@.map_values(|i: usize| i as int);
        let chosen = match badge.kind {
            BadgeKind::Ci => !seen_ci,
            BadgeKind::License => !seen_license,
            BadgeKind::Version => {
                let label = to_chars(badge.label.as_str());
                chars_contain(&label, &to_chars("crates")) || chars_contain(
                    &label,
                    &to_chars("npm"),
                ) || chars_contain(&label, &to_chars("moonbit"))
            },
            _ => false,
        };
        assert(chosen == is_recommended(badges@, idx as int));
        if chosen {
            selected.push(idx);
            assert(selected@.map_values(|i: usize| i as int) == before.push(idx as int));
        }
        if badge.kind == BadgeKind::Ci {
            seen_ci = true;
        }
        if badge.kind == BadgeKind::License {
            seen_license = true;
        }
        idx += 1;
    }
    selected
}

/// `text`, cut to its first `max` characters and an ellipsis where its
/// UTF-8 form has more than `max` bytes.
pub fn shorten(text: &str, max: usize) -> (r: String)
    ensures
        r@ == shortened(text@, max as int),
{
    if text.as_bytes().len() <= max {
        return String::from_str(text);
    }
    let chars = to_chars(text);
    let end = if max <= chars.len() {
        max
    } else {
        chars.len()
    };
    let mut out = subvec(&chars, 0, end);
    assert(chars@.take(chars.len() as int) == chars@);
    out.push('\u{2026}');
    from_chars(&out)
}

/// The items joined by `, `, cut to the first `max` of them and the number
/// of those left out where there are more.
pub fn summarize_items(items: &[String], max: usize) -> (r: String)
    ensures
        r@ == summary(texts_of(items@), max as int),
{
    let all = crate::readme::lines_from_strings(items);
    let comma = to_chars(", ");
    if items.len() <= max {
        return from_chars(&join_pieces(&all, &comma));
    }
    let mut shown: Vec<Vec<char>> = Vec::new();
    assert(lines_of(all@).len() == texts_of(items@).len());
    crate::readme::extend_lines(&mut shown, &all, 0, max);
    assert(lines_of(shown@) == texts_of(items@).take(max as int)) by {
        assert(lines_of(all@).subrange(0, max as int) == lines_of(all@).take(max as int));
    }
    let mut out = join_pieces(&shown, &comma);
    extend_chars(&mut out, &to_chars(" \u{2026}+"));
    push_decimal(&mut out, items.len() - max);
    from_chars(&out)
}

/// The second of the pieces that `pattern` cuts `text` into, where there
/// are two.
fn second_piece(text: &Vec<char>, pattern: &str) -> (r: Option<Vec<char>>)
    ensures
        match r {
            Some(piece) => split(text@, pattern@).len() >= 2 && split(text@, pattern@)[1]
                == piece@,
            None => split(text@, pattern@).len() < 2,
        },
{
    let parts = split_on(text, &to_chars(pattern));
    if parts.len() >= 2 {
        let piece = &parts[1];
        assert(lines_of(parts@)[1] == piece@);
        Some(subvec(piece, 0, piece.len()))
    } else {
        None
    }
}

/// The workflow that the image of the CI badge `badge` names.
pub fn ci_workflow_name(badge: &Badge) -> (r: String)
    ensures
        r@ == ci_workflow(badge.image_url@),
{
    match second_piece(&to_chars(badge.image_url.as_str()), "/actions/workflows/") {
        Some(rest) => from_chars(&chars_before_char(&rest, '/')),
        None => String::from_str("workflow"),
    }
}

/// The name in the image of a version badge of npm or crates.io.
pub fn extract_version_from_badge(badge: &Badge) -> (r: Option<String>)
    ensures
        opt_text(r) == version_in_badge(badge.image_url@),
{
    let image = to_chars(badge.image_url.as_str());
    let svg = to_chars(".svg");
    if let Some(url) = second_piece(&image, "img.shields.io/npm/v/") {
        let segment = chars_before_either(&url, '/', '?');
        return Some(from_chars(&chars_strip_trailing(&segment, &svg)));
    }
    if let Some(url) = second_piece(&image, "img.shields.io/crates/v/") {
        let segment = chars_before_either(&url, '/', '?');
        return Some(from_chars(&chars_strip_trailing(&segment, &svg)));
    }
    None
}

/// The label of the badge `badge`, where `conclusion` is the conclusion of
/// the last run of the workflow of a CI badge, and `format` what the version
/// in a version badge was classified as.
pub fn badge_label(badge: &Badge, conclusion: Option<&str>, format: &str) -> (r: String)
    ensures
        r@ == label_of(
            badge@,
            match conclusion {
                Some(c) => Some(c@),
                None => None,
            },
            format@,
        ),
{
    match badge.kind {
        BadgeKind::Ci => {
            let mut out = String::from_str("CI (");
            out.append(ci_workflow_name(badge).as_str());
            match conclusion {
                Some(c) => {
                    out.append(") last: ");
                    out.append(c);
                },
                None => {
                    out.append(")");
                },
            }
            out
        },
        BadgeKind::Version => {
            let mut out = badge.label.clone();
            match extract_version_from_badge(badge) {
                Some(version) => {
                    out.append(" version (");
                    out.append(version.as_str());
                    out.append(", ");
                    out.append(format);
                    out.append(")");
                },
                None => {
                    out.append(" version");
                },
            }
            out
        },
        BadgeKind::License => String::from_str("license"),
        BadgeKind::Release => String::from_str("release"),
        BadgeKind::Docs => String::from_str("docs"),
        BadgeKind::Downloads => String::from_str("downloads"),
    }
}

/// The label under which `badge` is offered for selection. `status` is
/// what is known of the last run of the workflow of a CI badge.
pub fn format_badge_label(
    badge: &Badge,
    options: &VersionOptions,
    status: Option<&GhRunInfo>,
) -> (r: String)
    ensures
        r@ == label_of(
            badge@,
            conclusion_of(
                match status {
                    Some(info) => Some(*info),
                    None => None,
                },
            ),
            format_in_badge(badge.image_url@, *options),
        ),
{
    let conclusion: Option<&str> = match status {
        Some(info) => if info.ok {
            match &info.conclusion {
                Some(c) => Some(c.as_str()),
                None => None,
            }
        } else {
            None
        },
        None => None,
    };
    match extract_version_from_badge(badge) {
        Some(version) => {
            let info = classify_version(version.as_str(), options);
            badge_label(badge, conclusion, info.version_format.as_str())
        },
        None => badge_label(badge, conclusion, ""),
    }
}

/// The lines by which the lines of the block are offered for removal.
pub fn format_remove_items(lines: &[String]) -> (r: Vec<String>)
    ensures
        r.len() == lines.len(),
        forall|i: int| 0 <= i < r.len() ==> (#[trigger] r@[i])@ == remove_item(lines@[i]@),
{
    let mut out: Vec<String> = Vec::new();
    let mut i: usize = 0;
    while i < lines.len()
        invariant
            i <= lines.len(),
            out.len() == i,
            forall|j: int| 0 <= j < i ==> (#[trigger] out@[j])@ == remove_item(lines@[j]@),
        decreases lines.len() - i,
    {
        let line = lines[i].as_str();
        let item = match parse_badge_line_optional(line) {
            Some(badge) => {
                let mut summary = badge.kind.clone();
                summary.append(" [");
                summary.append(badge.id.as_str());
                summary.append("]");
                if !badge.label.as_str().is_empty() {
                    summary.append(" \"");
                    summary.append(badge.label.as_str());
                    summary.append("\"");
                }
                if !badge.image.as_str().is_empty() {
                    summary.append(" ");
                    summary.append(shorten(badge.image.as_str(), 48).as_str());
                }
                summary
            },
            None => {
                let mut summary = String::from_str("unknown ");
                summary.append(shorten(line, 48).as_str());
                summary
            },
        };
        out.push(item);
        i += 1;
    }
    out
}

/// The block as one text, every line followed by a line feed, and the
/// badges read from its lines outside fenced code.
pub fn build_readme_block(badges: &[String]) -> (r: (String, Vec<ParsedBadge>))
    ensures
        r.0@ == block_text(texts_of(badges@), seq!['\n']),
        models_of(r.1@) == badges_outside_fences(texts_of(badges@), badges@.len() as int),
{
    let lines = crate::readme::lines_from_strings(badges);
    let ghost all = texts_of(badges@);
    let mut feed: Vec<char> = Vec::new();
    feed.push('\n');
    assert(feed@ == seq!['\n']);
    let mut raw = join_pieces(&lines, &feed);
    if badges.len() > 0 {
        extend_chars(&mut raw, &feed);
    }
    let mut found: Vec<ParsedBadge> = Vec::new();
    let mut in_code_fence = false;
    let mut idx: usize = 0;
    while idx < lines.len()
        invariant
            idx <= lines.len(),
            lines.len() == badges.len(),
            all == texts_of(badges@),
            all == lines_of(lines@),
            in_code_fence == fence_open(all, idx as int),
            models_of(found@) == badges_outside_fences(all, idx as int),
        decreases lines.len() - idx,
    {
        let ghost before = models_of(found@);
        assert(all[idx as int] == lines@[idx as int]@);
        assert(all[idx as int] == badges@[idx as int]@);
        if line_is_code_fence(&lines[idx]) {
            in_code_fence = !in_code_fence;
        } else if !in_code_fence {
            let badge = parse_badge_line(badges[idx].as_str());
            found.push(badge);
            assert(models_of(found@) == before.push(parsed(all[idx as int])));
        }
        idx += 1;
    }
    (from_chars(&raw), found)
}

/// Image and link of the badge of the workflow file `file`: both empty
/// where the owner or the name of the repository is not known.
pub fn workflow_links(git: &Option<GitContext>, file: &str) -> (r: (String, String))
    ensures
        match *git {
            Some(context) => match (context.owner, context.repo) {
                (Some(owner), Some(repo)) => (r.0@, r.1@) == workflow_links_of(
                    owner@,
                    repo@,
                    file@,
                ),
                _ => r.0@.len() == 0 && r.1@.len() == 0,
            },
            None => r.0@.len() == 0 && r.1@.len() == 0,
        },
{
    if let Some(context) = git {
        if let (Some(owner), Some(repo)) = (&context.owner, &context.repo) {
            let mut link = String::from_str("https://github.com/");
            link.append(owner.as_str());
            link.append("/");
            link.append(repo.as_str());
            link.append("/actions/workflows/");
            link.append(file);
            let mut image = link.clone();
            image.append("/badge.svg");
            return (image, link);
        }
    }
    (String::new(), String::new())
}

/// Whether `line` opens or closes a fenced code region.
pub fn is_code_fence_line(line: &str) -> (r: bool)
    ensures
        r == is_code_fence(line@),
{
    line_is_code_fence(&to_chars(line))
}

/// The badges at the indices `indices[..n]`, in that order; an index
/// beyond the list names no badge.
pub open spec fn picked(badges: Seq<Badge>, indices: Seq<usize>, n: int) -> Seq<Badge>
    decreases n,
{
    if n <= 0 {
        Seq::empty()
    } else if indices[n - 1] < badges.len() {
        picked(badges, indices, n - 1).push(badges[indices[n - 1] as int])
    } else {
        picked(badges, indices, n - 1)
    }
}

/// The badges of `badges` that were selected, in the order of the
/// selection.
pub fn pick_badges(badges: &[Badge], indices: &[usize]) -> (r: Vec<Badge>)
    ensures
        r@ == picked(badges@, indices@, indices@.len() as int),
{
    let mut out: Vec<Badge> = Vec::new();
    let mut i: usize = 0;
    while i < indices.len()
        invariant
            i <= indices.len(),
            out@ == picked(badges@, indices@, i as int),
        decreases indices.len() - i,
    {
        let idx = indices[i];
        if idx < badges.len() {
            out.push(clone_badge(&badges[idx]));
        }
        i += 1;
    }
    out
}

/// The items among the first `n` whose index was not selected, in order.
pub open spec fn unselected(items: Seq<Seq<char>>, selected: Seq<usize>, n: int) -> Seq<
    Seq<char>,
>
    decreases n,
{
    if n <= 0 {
        Seq::empty()
    } else if selected.contains((n - 1) as usize) {
        unselected(items, selected, n - 1)
    } else {
        unselected(items, selected, n - 1).push(items[n - 1])
    }
}

/// The lines that stay when the lines at the indices `selected` leave.
pub fn keep_unselected(items: &[String], selected: &[usize]) -> (r: Vec<String>)
    ensures
        texts_of(r@) == unselected(texts_of(items@), selected@, items@.len() as int),
{
    let mut out: Vec<String> = Vec::new();
    let mut i: usize = 0;
    while i < items.len()
        invariant
            i <= items.len(),
            texts_of(out@) == unselected(texts_of(items@), selected@, i as int),
        decreases items.len() - i,
    {
        let ghost before = texts_of(out@);
        let mut found = false;
        let mut k: usize = 0;
        while k < selected.len()
            invariant
                k <= selected.len(),
                found == exists|j: int| 0 <= j < k && selected@[j] == i,
            decreases selected.len() - k,
        {
            if selected[k] == i {
                found = true;
            }
            k += 1;
        }
        assert(found == selected@.contains(i));
        if !found {
            out.push(items[i].clone());
            assert(texts_of(out@) == before.push(items@[i as int]@));
        }
        i += 1;
    }
    out
}

/// The document whose block holds the lines `remaining`; without a block
/// where no line remains.
pub open spec fn with_remaining(text: Seq<char>, remaining: Seq<Seq<char>>) -> Result<
    Seq<char>,
    BlockError,
> {
    if remaining.len() == 0 {
        block_removed(text)
    } else {
        rewritten(text, remaining)
    }
}

/// The document `content` once only the lines `remaining` are left in its
/// block: the block and its sentinels go where no line remains.
pub fn apply_remaining(content: &str, remaining: &[String]) -> (r: Result<String, BlockError>)
    ensures
        match r {
            Ok(text) => with_remaining(content@, texts_of(remaining@)) == Ok::<
                Seq<char>,
                BlockError,
            >(text@),
            Err(err) => with_remaining(content@, texts_of(remaining@)) == Err::<
                Seq<char>,
                BlockError,
            >(err),
        },
{
    if remaining.len() == 0 {
        assert(texts_of(remaining@).len() == 0);
        remove_marker_block(content)
    } else {
        assert(texts_of(remaining@).len() > 0);
        rewrite_marker_block(content, remaining)
    }
}

/// The exit code of a dry run: 0 where nothing would change, 2 where the
/// README would.
pub fn dry_run_code(diff: &str) -> (r: i32)
    ensures
        r == if diff@.len() == 0 {
            0i32
        } else {
            2i32
        },
{
    if diff.is_empty() {
        0
    } else {
        2
    }
}

/// Whether both sentinels occur somewhere in `content`, be it inside
/// fenced code or within a line.
pub fn markers_present(content: &str) -> (r: bool)
    ensures
        r == (contains(content@, begin_marker()) && contains(content@, end_marker())),
{
    let text = to_chars(content);
    chars_contain(&text, &to_chars(crate::readme::BDG_BEGIN)) && chars_contain(
        &text,
        &to_chars(crate::readme::BDG_END),
    )
}

/// How the badges to add are chosen.
#[derive(Debug, Clone, Copy, PartialEq, Eq, Structural)]
pub enum AddMode {
    /// Every badge that is offered is added.
    Everything,
    /// The user is asked with a plain prompt.
    Prompt,
    /// The user is asked with the checkbox list.
    Checklist,
}

/// How the badges to add are chosen: all of them where the user said yes in
/// advance, by a prompt where kinds were asked for, and else by the
/// checkbox list.
pub fn add_mode(yes: bool, kinds_asked: usize) -> (r: AddMode)
    ensures
        r == if yes {
            AddMode::Everything
        } else if kinds_asked > 0 {
            AddMode::Prompt
        } else {
            AddMode::Checklist
        },
{
    if yes {
        AddMode::Everything
    } else if kinds_asked > 0 {
        AddMode::Prompt
    } else {
        AddMode::Checklist
    }
}

/// How the badges to remove are chosen.
#[derive(Debug, Clone, Copy, PartialEq, Eq, Structural)]
pub enum RemoveMode {
    /// Every badge leaves.
    All,
    /// The badges with the given ids or kinds leave.
    ByIdOrKind,
    /// The user is asked with the checkbox list.
    Checklist,
}

/// How the badges to remove are chosen; none where all badges are to leave
/// and ids or kinds are given as well, which is a contradiction.
pub fn remove_mode(all: bool, ids: usize, kinds: usize) -> (r: Option<RemoveMode>)
    ensures
        r == if all && (ids > 0 || kinds > 0) {
            None::<RemoveMode>
        } else if all {
            Some(RemoveMode::All)
        } else if ids > 0 || kinds > 0 {
            Some(RemoveMode::ByIdOrKind)
        } else {
            Some(RemoveMode::Checklist)
        },
{
    if all && (ids > 0 || kinds > 0) {
        None
    } else if all {
        Some(RemoveMode::All)
    } else if ids > 0 || kinds > 0 {
        Some(RemoveMode::ByIdOrKind)
    } else {
        Some(RemoveMode::Checklist)
    }
}

} // verus!
