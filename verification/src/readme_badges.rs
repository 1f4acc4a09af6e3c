//! Reads one line of badge markup back into a record with a stable id and an
//! inferred kind.
//!
//! Two shapes are recognised, in this order: a linked image
//! `[![label](image)](link)` and a bare image `![label](image)`. The kind and
//! the id follow from the image URL; a line of no known shape, or with an
//! image of no known kind, gets an id made of a hash of the whole line.

use std::collections::hash_map::DefaultHasher;
use std::hash::Hasher;
use vstd::prelude::*;
use vstd::std_specs::hash::DefaultHasherAdditionalSpecFns;
use crate::text::{
    after_first, before_char, chars_after_first, chars_before_char, chars_contain,
    chars_end_with, chars_eq_ignore_ascii_case, chars_start_with, chars_strip_trailing,
    chars_trim, contains, ends_with, eq_ignore_ascii_case, find, find_from, find_in, from_chars,
    opt_text, starts_with, strip_trailing, subvec, to_chars, trim,
};

verus! {

/// What the image URL of a badge tells beyond its kind.
#[derive(Debug, Clone)]
pub enum BadgeMeta {
    /// The workflow file of a GitHub Actions badge.
    Workflow { workflow_file: String },
    /// The package of an npm badge.
    Package { package: String },
    /// The crate of a crates.io badge.
    Crate { crate_name: String },
    /// The repository of a coverage badge.
    Repository { owner: String, repo: String },
    /// The two first fields of a custom badge.
    Custom { label: String, message: String },
}

/// A badge read from one line of markup.
#[derive(Debug, Clone)]
pub struct ParsedBadge {
    pub id: String,
    pub kind: String,
    pub label: String,
    pub image: String,
    pub link: Option<String>,
    pub source: String,
    pub meta: Option<BadgeMeta>,
    pub raw: String,
}

/// The mathematical value of a [`BadgeMeta`].
pub enum MetaModel {
    Workflow { workflow_file: Seq<char> },
    Package { package: Seq<char> },
    Crate { crate_name: Seq<char> },
    Repository { owner: Seq<char>, repo: Seq<char> },
    Custom { label: Seq<char>, message: Seq<char> },
}

/// The mathematical value of a [`ParsedBadge`].
pub struct BadgeModel {
    pub id: Seq<char>,
    pub kind: Seq<char>,
    pub label: Seq<char>,
    pub image: Seq<char>,
    pub link: Option<Seq<char>>,
    pub source: Seq<char>,
    pub meta: Option<MetaModel>,
    pub raw: Seq<char>,
}

impl View for BadgeMeta {
    type V = MetaModel;

    open spec fn view(&self) -> MetaModel {
        match self {
            BadgeMeta::Workflow { workflow_file } => MetaModel::Workflow {
                workflow_file: workflow_file@,
            },
            BadgeMeta::Package { package } => MetaModel::Package { package: package@ },
            BadgeMeta::Crate { crate_name } => MetaModel::Crate { crate_name: crate_name@ },
            BadgeMeta::Repository { owner, repo } => MetaModel::Repository {
                owner: owner@,
                repo: repo@,
            },
            BadgeMeta::Custom { label, message } => MetaModel::Custom {
                label: label@,
                message: message@,
            },
        }
    }
}

/// The view of an optional [`BadgeMeta`].
pub open spec fn opt_meta(m: Option<BadgeMeta>) -> Option<MetaModel> {
    match m {
        Some(t) => Some(t@),
        None => None,
    }
}

impl View for ParsedBadge {
    type V = BadgeModel;

    open spec fn view(&self) -> BadgeModel {
        BadgeModel {
            id: self.id@,
            kind: self.kind@,
            label: self.label@,
            image: self.image@,
            link: opt_text(self.link),
            source: self.source@,
            meta: opt_meta(self.meta),
            raw: self.raw@,
        }
    }
}

/// The sixteen lower-case hexadecimal digits.
pub open spec fn hex_digit(d: int) -> char {
    seq![
        '0',
        '1',
        '2',
        '3',
        '4',
        '5',
        '6',
        '7',
        '8',
        '9',
        'a',
        'b',
        'c',
        'd',
        'e',
        'f',
    ][d]
}

/// `n` in lower-case hexadecimal, without leading zeros.
pub open spec fn hex_digits(n: nat) -> Seq<char>
    decreases n,
{
    if n < 16 {
        seq![hex_digit(n as int)]
    } else {
        hex_digits(n / 16).push(hex_digit((n % 16) as int))
    }
}

/// The hash of a line: what the default hasher of the standard library
/// returns once it was fed the UTF-8 bytes of the line and then the byte
/// `0xff`.
pub open spec fn line_hash(line: Seq<char>) -> u64 {
    DefaultHasher::spec_finish(seq![vstd::utf8::encode_utf8(line), seq![0xffu8]])
}

/// The id of a line that no known kind of badge matches.
pub open spec fn unknown_id(raw: Seq<char>) -> Seq<char> {
    "unknown:"@ + hex_digits(line_hash(raw) as nat)
}

/// The label, image URL and link URL of a line of the shape
/// `[![label](image)](link)`.
///
/// The line is trimmed first. The label ends at the first `](`, the image at
/// the first `)]` after that, and the link stands between the next `(` and
/// the first `)` behind it. A line whose image is empty has not this shape.
pub open spec fn linked_image(line: Seq<char>) -> Option<(Seq<char>, Seq<char>, Seq<char>)> {
    let t = trim(line);
    if !starts_with(t, "[!["@) || !ends_with(t, ")"@) {
        None
    } else {
        match find_from(t, "]("@, 3) {
            None => None,
            Some(end_label) => match find_from(t, ")]"@, end_label + 2) {
                None => None,
                Some(end_image) => match find_from(t, "("@, end_image + 2) {
                    None => None,
                    Some(open) => match find_from(t, ")"@, open + 1) {
                        None => None,
                        Some(end_link) => if end_image == end_label + 2 {
                            None
                        } else {
                            Some(
                                (
                                    t.subrange(3, end_label),
                                    trim(t.subrange(end_label + 2, end_image)),
                                    trim(t.subrange(open + 1, end_link)),
                                ),
                            )
                        },
                    },
                },
            },
        }
    }
}

/// The label and image URL of a line of the shape `![label](image)`.
///
/// The line is trimmed first. The label ends at the first `](` and the image
/// at the first `)` after that. A line whose image is empty has not this
/// shape.
pub open spec fn bare_image(line: Seq<char>) -> Option<(Seq<char>, Seq<char>)> {
    let t = trim(line);
    if !starts_with(t, "!["@) || !ends_with(t, ")"@) {
        None
    } else {
        match find_from(t, "]("@, 2) {
            None => None,
            Some(end_label) => match find_from(t, ")"@, end_label + 2) {
                None => None,
                Some(end_image) => if end_image == end_label + 2 {
                    None
                } else {
                    Some((t.subrange(2, end_label), trim(t.subrange(end_label + 2, end_image))))
                },
            },
        }
    }
}

/// Whether `line` has one of the two badge shapes.
pub open spec fn is_badge_line(line: Seq<char>) -> bool {
    linked_image(line) is Some || bare_image(line) is Some
}

/// Whether `url` is an absolute `http://` or `https://` URL.
pub open spec fn is_http_url(url: Seq<char>) -> bool {
    starts_with(url, "http://"@) || starts_with(url, "https://"@)
}

/// The name behind the first occurrence of `prefix` in `image`: the text up
/// to the first `?`, without any trailing `.svg`. None when `prefix` does not
/// occur or the name is empty.
pub open spec fn name_after_prefix(image: Seq<char>, prefix: Seq<char>) -> Option<Seq<char>> {
    match after_first(image, prefix) {
        None => None,
        Some(rest) => {
            let name = strip_trailing(before_char(rest, '?'), ".svg"@);
            if name.len() == 0 {
                None
            } else {
                Some(name)
            }
        },
    }
}

/// The package of an npm downloads badge, for the weekly, the monthly and
/// the total count, tried in this order.
pub open spec fn npm_downloads_package(image: Seq<char>) -> Option<Seq<char>> {
    if name_after_prefix(image, "img.shields.io/npm/dw/"@) is Some {
        name_after_prefix(image, "img.shields.io/npm/dw/"@)
    } else if name_after_prefix(image, "img.shields.io/npm/dm/"@) is Some {
        name_after_prefix(image, "img.shields.io/npm/dm/"@)
    } else {
        name_after_prefix(image, "img.shields.io/npm/dt/"@)
    }
}

/// The workflow file of a GitHub Actions badge: the path segment behind the
/// first `/actions/workflows/`.
pub open spec fn workflow_file(image: Seq<char>) -> Seq<char> {
    match after_first(image, "/actions/workflows/"@) {
        Some(rest) => before_char(rest, '/'),
        None => Seq::empty(),
    }
}

/// Owner and repository of a codecov badge.
pub open spec fn codecov_repo(image: Seq<char>) -> Option<(Seq<char>, Seq<char>)> {
    match after_first(image, "img.shields.io/codecov/c/github/"@) {
        None => None,
        Some(rest) => {
            let path = before_char(rest, '?');
            match find(path, seq!['/']) {
                None => None,
                Some(i) => {
                    let owner = path.take(i);
                    let repo = strip_trailing(before_char(path.skip(i + 1), '/'), ".svg"@);
                    if owner.len() == 0 || repo.len() == 0 {
                        None
                    } else {
                        Some((owner, repo))
                    }
                },
            }
        },
    }
}

/// Label and message of a custom badge `img.shields.io/badge/<label>-<message>`.
pub open spec fn custom_badge(image: Seq<char>) -> Option<(Seq<char>, Seq<char>)> {
    match after_first(image, "img.shields.io/badge/"@) {
        None => None,
        Some(rest) => {
            let path = before_char(rest, '?');
            let label = before_char(path, '-');
            let message = match find(path, seq!['-']) {
                Some(i) => before_char(path.skip(i + 1), '-'),
                None => Seq::empty(),
            };
            if label.len() == 0 {
                None
            } else {
                Some((label, message))
            }
        },
    }
}

/// Label and message of a custom badge whose label is `docs`, in any case of
/// its letters.
pub open spec fn docs_badge(image: Seq<char>) -> Option<(Seq<char>, Seq<char>)> {
    match custom_badge(image) {
        Some((label, message)) => if eq_ignore_ascii_case(label, "docs"@) {
            Some((label, message))
        } else {
            None
        },
        None => None,
    }
}

/// Kind, id and further data of a badge with the image URL `image` on the
/// line `raw`. The first rule that applies decides.
pub open spec fn kind_of(image: Seq<char>, raw: Seq<char>) -> (
    Seq<char>,
    Seq<char>,
    Option<MetaModel>,
) {
    let url = trim(image);
    if !is_http_url(url) {
        ("unknown"@, unknown_id(raw), None)
    } else if contains(url, "/actions/workflows/"@) && contains(url, "/badge.svg"@) {
        (
            "github_actions"@,
            "ci:"@ + workflow_file(url),
            Some(MetaModel::Workflow { workflow_file: workflow_file(url) }),
        )
    } else if let Some(package) = name_after_prefix(url, "img.shields.io/npm/v/"@) {
        ("npm_version"@, "npm:"@ + package, Some(MetaModel::Package { package }))
    } else if let Some(package) = npm_downloads_package(url) {
        ("npm_downloads"@, "npm_downloads:"@ + package, Some(MetaModel::Package { package }))
    } else if let Some(crate_name) = name_after_prefix(url, "img.shields.io/crates/v/"@) {
        ("crates_version"@, "crates:"@ + crate_name, Some(MetaModel::Crate { crate_name }))
    } else if let Some(crate_name) = name_after_prefix(url, "img.shields.io/crates/d/"@) {
        (
            "crates_downloads"@,
            "crates_downloads:"@ + crate_name,
            Some(MetaModel::Crate { crate_name }),
        )
    } else if contains(url, "img.shields.io/github/license/"@) {
        ("license"@, "license:github"@, None)
    } else if contains(url, "img.shields.io/github/v/release/"@) {
        ("github_release"@, "release:github"@, None)
    } else if let Some((owner, repo)) = codecov_repo(url) {
        ("coverage"@, "coverage:codecov"@, Some(MetaModel::Repository { owner, repo }))
    } else if let Some((label, message)) = docs_badge(url) {
        ("docs"@, "docs:custom"@, Some(MetaModel::Custom { label, message }))
    } else {
        ("unknown"@, unknown_id(raw), None)
    }
}

/// The badge with the given parts, read from the line `raw`.
pub open spec fn badge_of(
    raw: Seq<char>,
    label: Seq<char>,
    image: Seq<char>,
    link: Option<Seq<char>>,
) -> BadgeModel {
    let (kind, id, meta) = kind_of(image, raw);
    BadgeModel { id, kind, label, image, link, source: "readme"@, meta, raw }
}

/// The record of a line that has none of the badge shapes.
pub open spec fn unmatched(raw: Seq<char>) -> BadgeModel {
    BadgeModel {
        id: unknown_id(raw),
        kind: "unknown"@,
        label: Seq::empty(),
        image: Seq::empty(),
        link: None,
        source: "readme"@,
        meta: None,
        raw,
    }
}

/// The badge that `line` is read as.
pub open spec fn parsed(line: Seq<char>) -> BadgeModel {
    if let Some((label, image, link)) = linked_image(line) {
        badge_of(line, label, image, Some(link))
    } else if let Some((label, image)) = bare_image(line) {
        badge_of(line, label, image, None)
    } else {
        unmatched(line)
    }
}

/// Executable form of [`hex_digit`].
fn hex_char(d: u64) -> (c: char)
    requires
        d < 16,
    ensures
        c == hex_digit(d as int),
{
    if d == 0 {
        '0'
    } else if d == 1 {
        '1'
    } else if d == 2 {
        '2'
    } else if d == 3 {
        '3'
    } else if d == 4 {
        '4'
    } else if d == 5 {
        '5'
    } else if d == 6 {
        '6'
    } else if d == 7 {
        '7'
    } else if d == 8 {
        '8'
    } else if d == 9 {
        '9'
    } else if d == 10 {
        'a'
    } else if d == 11 {
        'b'
    } else if d == 12 {
        'c'
    } else if d == 13 {
        'd'
    } else if d == 14 {
        'e'
    } else {
        'f'
    }
}

/// Appends `n` in lower-case hexadecimal to `out`.
fn push_hex(out: &mut Vec<char>, n: u64)
    ensures
        final(out)@ == old(out)@ + hex_digits(n as nat),
    decreases n,
{
    if n >= 16 {
        push_hex(out, n / 16);
    }
    out.push(hex_char(n % 16));
}

/// The hash of `line` in lower-case hexadecimal.
pub fn hash_line(line: &str) -> (r: String)
    ensures
        r@ == hex_digits(line_hash(line@) as nat),
{
    let mut hasher = DefaultHasher::new();
    hasher.write(line.as_bytes());
    let end: [u8; 1] = [0xff];
    let tail = end.as_slice();
    assert(tail@ =~= seq![0xffu8]);
    hasher.write(tail);
    assert(hasher@ =~= seq![vstd::utf8::encode_utf8(line@), seq![0xffu8]]);
    let mut digits: Vec<char> = Vec::new();
    push_hex(&mut digits, hasher.finish());
    from_chars(&digits)
}

/// The text `prefix` followed by `rest`.
fn prefixed(prefix: &str, rest: &Vec<char>) -> (r: String)
    ensures
        r@ == prefix@ + rest@,
{
    let mut out = to_chars(prefix);
    crate::text::extend_chars(&mut out, rest);
    from_chars(&out)
}

/// The id that [`unknown_id`] describes.
fn unknown_id_of(raw: &str) -> (r: String)
    ensures
        r@ == unknown_id(raw@),
{
    let hash = hash_line(raw);
    prefixed("unknown:", &to_chars(hash.as_str()))
}

/// Executable form of [`linked_image`].
pub fn parse_linked_image(line: &str) -> (r: Option<(String, String, String)>)
    ensures
        match r {
            Some((label, image, link)) => linked_image(line@) == Some((label@, image@, link@)),
            None => linked_image(line@) is None,
        },
{
    let trimmed = chars_trim(&to_chars(line));
    if !chars_start_with(&trimmed, &to_chars("[![")) || !chars_end_with(&trimmed, &to_chars(")")) {
        return None;
    }
    proof {
        reveal_strlit("[![");
        reveal_strlit("](");
        reveal_strlit(")]");
        reveal_strlit("(");
        reveal_strlit(")");
    }
    let start_label: usize = 3;
    let end_label = match find_in(&trimmed, &to_chars("]("), start_label) {
        Some(i) => i,
        None => {
            return None;
        },
    };
    let start_image = end_label + 2;
    let end_image = match find_in(&trimmed, &to_chars(")]"), start_image) {
        Some(i) => i,
        None => {
            return None;
        },
    };
    let open = match find_in(&trimmed, &to_chars("("), end_image + 2) {
        Some(i) => i,
        None => {
            return None;
        },
    };
    let start_link = open + 1;
    let end_link = match find_in(&trimmed, &to_chars(")"), start_link) {
        Some(i) => i,
        None => {
            return None;
        },
    };
    let label = subvec(&trimmed, start_label, end_label);
    let image = subvec(&trimmed, start_image, end_image);
    let link = subvec(&trimmed, start_link, end_link);
    if image.len() == 0 {
        return None;
    }
    Some((from_chars(&label), from_chars(&chars_trim(&image)), from_chars(&chars_trim(&link))))
}

/// Executable form of [`bare_image`].
pub fn parse_image(line: &str) -> (r: Option<(String, String)>)
    ensures
        match r {
            Some((label, image)) => bare_image(line@) == Some((label@, image@)),
            None => bare_image(line@) is None,
        },
{
    let trimmed = chars_trim(&to_chars(line));
    if !chars_start_with(&trimmed, &to_chars("![")) || !chars_end_with(&trimmed, &to_chars(")")) {
        return None;
    }
    proof {
        reveal_strlit("![");
        reveal_strlit("](");
        reveal_strlit(")");
    }
    let start_label: usize = 2;
    let end_label = match find_in(&trimmed, &to_chars("]("), start_label) {
        Some(i) => i,
        None => {
            return None;
        },
    };
    let start_image = end_label + 2;
    let end_image = match find_in(&trimmed, &to_chars(")"), start_image) {
        Some(i) => i,
        None => {
            return None;
        },
    };
    let label = subvec(&trimmed, start_label, end_label);
    let image = subvec(&trimmed, start_image, end_image);
    if image.len() == 0 {
        return None;
    }
    Some((from_chars(&label), from_chars(&chars_trim(&image))))
}

/// Executable form of [`is_http_url`].
pub fn is_http(url: &Vec<char>) -> (r: bool)
    ensures
        r == is_http_url(url@),
{
    chars_start_with(url, &to_chars("http://")) || chars_start_with(url, &to_chars("https://"))
}

/// Executable form of [`name_after_prefix`].
pub fn extract_after_prefix(image: &Vec<char>, prefix: &str) -> (r: Option<Vec<char>>)
    ensures
        match r {
            Some(name) => name_after_prefix(image@, prefix@) == Some(name@),
            None => name_after_prefix(image@, prefix@) is None,
        },
{
    let remainder = match chars_after_first(image, &to_chars(prefix)) {
        Some(rest) => rest,
        None => {
            return None;
        },
    };
    let before_query = chars_before_char(&remainder, '?');
    let trimmed = chars_strip_trailing(&before_query, &to_chars(".svg"));
    if trimmed.len() == 0 {
        None
    } else {
        Some(trimmed)
    }
}

/// Executable form of [`npm_downloads_package`].
fn extract_npm_downloads(image: &Vec<char>) -> (r: Option<Vec<char>>)
    ensures
        match r {
            Some(name) => npm_downloads_package(image@) == Some(name@),
            None => npm_downloads_package(image@) is None,
        },
{
    match extract_after_prefix(image, "img.shields.io/npm/dw/") {
        Some(name) => Some(name),
        None => match extract_after_prefix(image, "img.shields.io/npm/dm/") {
            Some(name) => Some(name),
            None => extract_after_prefix(image, "img.shields.io/npm/dt/"),
        },
    }
}

/// Executable form of [`workflow_file`].
fn extract_workflow_file(image: &Vec<char>) -> (r: Vec<char>)
    ensures
        r@ == workflow_file(image@),
{
    match chars_after_first(image, &to_chars("/actions/workflows/")) {
        Some(rest) => chars_before_char(&rest, '/'),
        None => Vec::new(),
    }
}

/// Executable form of [`codecov_repo`].
pub fn extract_codecov_repo(image: &Vec<char>) -> (r: Option<(Vec<char>, Vec<char>)>)
    ensures
        match r {
            Some((owner, repo)) => codecov_repo(image@) == Some((owner@, repo@)),
            None => codecov_repo(image@) is None,
        },
{
    let remainder = match chars_after_first(image, &to_chars("img.shields.io/codecov/c/github/")) {
        Some(rest) => rest,
        None => {
            return None;
        },
    };
    let before_query = chars_before_char(&remainder, '?');
    let mut slash: Vec<char> = Vec::new();
    slash.push('/');
    assert(slash@ == seq!['/']);
    let cut = match find_in(&before_query, &slash, 0) {
        Some(i) => i,
        None => {
            return None;
        },
    };
    let owner = subvec(&before_query, 0, cut);
    let tail = subvec(&before_query, cut + 1, before_query.len());
    let repo = chars_strip_trailing(&chars_before_char(&tail, '/'), &to_chars(".svg"));
    if owner.len() == 0 || repo.len() == 0 {
        None
    } else {
        Some((owner, repo))
    }
}

/// Executable form of [`custom_badge`].
pub fn extract_custom_badge(image: &Vec<char>) -> (r: Option<(Vec<char>, Vec<char>)>)
    ensures
        match r {
            Some((label, message)) => custom_badge(image@) == Some((label@, message@)),
            None => custom_badge(image@) is None,
        },
{
    let remainder = match chars_after_first(image, &to_chars("img.shields.io/badge/")) {
        Some(rest) => rest,
        None => {
            return None;
        },
    };
    let before_query = chars_before_char(&remainder, '?');
    let label = chars_before_char(&before_query, '-');
    let mut dash: Vec<char> = Vec::new();
    dash.push('-');
    assert(dash@ == seq!['-']);
    let message = match find_in(&before_query, &dash, 0) {
        Some(i) => {
            let tail = subvec(&before_query, i + 1, before_query.len());
            chars_before_char(&tail, '-')
        },
        None => Vec::new(),
    };
    if label.len() == 0 {
        None
    } else {
        Some((label, message))
    }
}

/// Kind, id and further data of a badge with the image URL `image` on the
/// line `raw`.
pub fn infer_kind(image: &str, raw: &str) -> (r: (String, String, Option<BadgeMeta>))
    ensures
        (r.0@, r.1@, opt_meta(r.2)) == kind_of(image@, raw@),
{
    let url = chars_trim(&to_chars(image));
    if !is_http(&url) {
        return (String::from_str("unknown"), unknown_id_of(raw), None);
    }
    if chars_contain(&url, &to_chars("/actions/workflows/")) && chars_contain(
        &url,
        &to_chars("/badge.svg"),
    ) {
        let file = extract_workflow_file(&url);
        return (
            String::from_str("github_actions"),
            prefixed("ci:", &file),
            Some(BadgeMeta::Workflow { workflow_file: from_chars(&file) }),
        );
    }
    if let Some(package) = extract_after_prefix(&url, "img.shields.io/npm/v/") {
        return (
            String::from_str("npm_version"),
            prefixed("npm:", &package),
            Some(BadgeMeta::Package { package: from_chars(&package) }),
        );
    }
    if let Some(package) = extract_npm_downloads(&url) {
        return (
            String::from_str("npm_downloads"),
            prefixed("npm_downloads:", &package),
            Some(BadgeMeta::Package { package: from_chars(&package) }),
        );
    }
    if let Some(crate_name) = extract_after_prefix(&url, "img.shields.io/crates/v/") {
        return (
            String::from_str("crates_version"),
            prefixed("crates:", &crate_name),
            Some(BadgeMeta::Crate { crate_name: from_chars(&crate_name) }),
        );
    }
    if let Some(crate_name) = extract_after_prefix(&url, "img.shields.io/crates/d/") {
        return (
            String::from_str("crates_downloads"),
            prefixed("crates_downloads:", &crate_name),
            Some(BadgeMeta::Crate { crate_name: from_chars(&crate_name) }),
        );
    }
    if chars_contain(&url, &to_chars("img.shields.io/github/license/")) {
        return (String::from_str("license"), String::from_str("license:github"), None);
    }
    if chars_contain(&url, &to_chars("img.shields.io/github/v/release/")) {
        return (String::from_str("github_release"), String::from_str("release:github"), None);
    }
    if let Some((owner, repo)) = extract_codecov_repo(&url) {
        return (
            String::from_str("coverage"),
            String::from_str("coverage:codecov"),
            Some(BadgeMeta::Repository { owner: from_chars(&owner), repo: from_chars(&repo) }),
        );
    }
    if let Some((label, message)) = extract_custom_badge(&url) {
        if chars_eq_ignore_ascii_case(&label, &to_chars("docs")) {
            return (
                String::from_str("docs"),
                String::from_str("docs:custom"),
                Some(
                    BadgeMeta::Custom {
                        label: from_chars(&label),
                        message: from_chars(&message),
                    },
                ),
            );
        }
    }
    (String::from_str("unknown"), unknown_id_of(raw), None)
}

/// The badge with the given parts, read from the line `raw`.
fn build_badge(raw: &str, label: String, image: String, link: Option<String>) -> (r: ParsedBadge)
    ensures
        r@ == badge_of(raw@, label@, image@, opt_text(link)),
{
    let (kind, id, meta) = infer_kind(image.as_str(), raw);
    ParsedBadge {
        id,
        kind,
        label,
        image,
        link,
        source: String::from_str("readme"),
        meta,
        raw: String::from_str(raw),
    }
}

/// Reads `line` as a badge. Never fails: a line of no badge shape gives the
/// record of kind `unknown` with empty label and image and no link.
pub fn parse_badge_line(line: &str) -> (r: ParsedBadge)
    ensures
        r@ == parsed(line@),
{
    if let Some((label, image, link)) = parse_linked_image(line) {
        return build_badge(line, label, image, Some(link));
    }
    if let Some((label, image)) = parse_image(line) {
        return build_badge(line, label, image, None);
    }
    ParsedBadge {
        id: unknown_id_of(line),
        kind: String::from_str("unknown"),
        label: String::new(),
        image: String::new(),
        link: None,
        source: String::from_str("readme"),
        meta: None,
        raw: String::from_str(line),
    }
}

/// Reads `line` as a badge if it has one of the two badge shapes, and
/// returns nothing if it has not.
pub fn parse_badge_line_optional(line: &str) -> (r: Option<ParsedBadge>)
    ensures
        match r {
            Some(badge) => is_badge_line(line@) && badge@ == parsed(line@),
            None => !is_badge_line(line@),
        },
{
    if let Some((label, image, link)) = parse_linked_image(line) {
        return Some(build_badge(line, label, image, Some(link)));
    }
    if let Some((label, image)) = parse_image(line) {
        return Some(build_badge(line, label, image, None));
    }
    None
}

} // verus!
