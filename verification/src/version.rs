//! Classifies a version string as a semantic version, a calendar version or
//! neither.
//!
//! A trailing modifier is split off first. A core with a `+`, or with both a
//! `.` and a `-`, goes straight to the semantic-version parser. Any other core
//! is held against the calendar patterns in a fixed order, and only if none
//! of them fits is the whole trimmed input parsed as a semantic version.

use vstd::prelude::*;
use crate::document::{lines_of, split, split_on};
use crate::text::{
    after_first, before_char, char_is_ascii_letter, char_is_digit, chars_after_first,
    chars_before_char, chars_contain, chars_trim, contains, from_chars, is_ascii_letter,
    is_digit, opt_text, subvec, to_chars, trim,
};

verus! {

/// The bounds and switches of a classification.
#[derive(Debug, Clone, Copy)]
pub struct VersionOptions {
    /// Whether a two-digit year is read as a calendar year.
    pub allow_yy_calver: bool,
    /// The least year that a four-digit field may hold.
    pub year_min: i32,
    /// The greatest year that a four-digit field may hold.
    pub year_max: i32,
}

/// The fields of a calendar version. The year has four digits, whatever the
/// width of the field it was read from.
#[derive(Debug, Clone, Copy, PartialEq, Eq)]
pub struct CalverParts {
    pub year: u32,
    pub month: u32,
    pub day: Option<u32>,
    pub micro: Option<u32>,
}

/// The fields of a semantic version.
#[derive(Debug, Clone, PartialEq, Eq)]
pub struct SemverParts {
    pub major: u64,
    pub minor: u64,
    pub patch: u64,
    pub pre: Option<String>,
    pub build: Option<String>,
}

/// What a version string was classified as.
#[derive(Debug, Clone)]
pub struct VersionInfo {
    pub raw: String,
    pub version_format: String,
    pub calver_scheme: Option<String>,
    pub calver_parts: Option<CalverParts>,
    pub modifier: Option<String>,
    pub semver_parts: Option<SemverParts>,
}

/// The mathematical value of a [`SemverParts`].
pub struct SemverModel {
    pub major: u64,
    pub minor: u64,
    pub patch: u64,
    pub pre: Option<Seq<char>>,
    pub build: Option<Seq<char>>,
}

/// The mathematical value of a [`VersionInfo`].
pub struct VersionModel {
    pub raw: Seq<char>,
    pub version_format: Seq<char>,
    pub calver_scheme: Option<Seq<char>>,
    pub calver_parts: Option<CalverParts>,
    pub modifier: Option<Seq<char>>,
    pub semver_parts: Option<SemverModel>,
}

impl View for SemverParts {
    type V = SemverModel;

    open spec fn view(&self) -> SemverModel {
        SemverModel {
            major: self.major,
            minor: self.minor,
            patch: self.patch,
            pre: opt_text(self.pre),
            build: opt_text(self.build),
        }
    }
}

/// The view of an optional [`SemverParts`].
pub open spec fn opt_semver(parts: Option<SemverParts>) -> Option<SemverModel> {
    match parts {
        Some(p) => Some(p@),
        None => None,
    }
}

impl View for VersionInfo {
    type V = VersionModel;

    open spec fn view(&self) -> VersionModel {
        VersionModel {
            raw: self.raw@,
            version_format: self.version_format@,
            calver_scheme: opt_text(self.calver_scheme),
            calver_parts: self.calver_parts,
            modifier: opt_text(self.modifier),
            semver_parts: opt_semver(self.semver_parts),
        }
    }
}

/// What `semver::Version::parse` returns for `text`: nothing where it
/// reports an error, else the three numbers, the pre-release and the build
/// metadata of the version, the last two empty where the text has none.
pub uninterp spec fn semver_parse(text: Seq<char>) -> Option<
    (u64, u64, u64, Seq<char>, Seq<char>),
>;

/// Whether every character of `s` is a decimal digit.
pub open spec fn all_digits(s: Seq<char>) -> bool {
    forall|i: int| 0 <= i < s.len() ==> is_digit(#[trigger] s[i])
}

/// The number that the decimal digits `s` write.
pub open spec fn digits_value(s: Seq<char>) -> nat
    decreases s.len(),
{
    if s.len() == 0 {
        0
    } else {
        digits_value(s.drop_last()) * 10 + ((s.last() as u32 - '0' as u32) as nat)
    }
}

/// The number that `s` writes as an unsigned 32-bit integer: decimal digits,
/// at least one, behind an optional `+`. None when `s` is no such text or the
/// number does not fit.
pub open spec fn parse_u32(s: Seq<char>) -> Option<u32> {
    let digits = if s.len() > 0 && s[0] == '+' {
        s.skip(1)
    } else {
        s
    };
    if digits.len() == 0 || !all_digits(digits) || digits_value(digits) > u32::MAX {
        None
    } else {
        Some(digits_value(digits) as u32)
    }
}

/// The number that a field of exactly `width` decimal digits writes.
pub open spec fn fixed_digits(s: Seq<char>, width: nat) -> Option<nat> {
    if s.len() == width && all_digits(s) {
        Some(digits_value(s))
    } else {
        None
    }
}

/// Whether `s` holds an ASCII letter.
pub open spec fn has_letter(s: Seq<char>) -> bool {
    exists|i: int| 0 <= i < s.len() && is_ascii_letter(#[trigger] s[i])
}

/// Index of the last `-` among the first `n` characters of `s`.
pub open spec fn last_dash(s: Seq<char>, n: int) -> Option<int>
    decreases n,
{
    if n <= 0 || n > s.len() {
        None
    } else if s[n - 1] == '-' {
        Some(n - 1)
    } else {
        last_dash(s, n - 1)
    }
}

/// Index of the last decimal digit among the first `n` characters of `s`.
pub open spec fn last_digit(s: Seq<char>, n: int) -> Option<int>
    decreases n,
{
    if n <= 0 || n > s.len() {
        None
    } else if is_digit(s[n - 1]) {
        Some(n - 1)
    } else {
        last_digit(s, n - 1)
    }
}

/// The core of a version string and its trailing modifier.
///
/// The modifier is the text behind the last `-` if that text holds a letter;
/// else the text behind the last digit if that text holds a letter; else
/// there is none, and the core is the whole string.
pub open spec fn split_modifier(raw: Seq<char>) -> (Seq<char>, Option<Seq<char>>) {
    let n = raw.len() as int;
    if last_dash(raw, n) is Some && has_letter(raw.skip(last_dash(raw, n).unwrap() + 1)) {
        let i = last_dash(raw, n).unwrap();
        (raw.take(i), Some(raw.skip(i + 1)))
    } else if last_digit(raw, n) is Some && has_letter(raw.skip(last_digit(raw, n).unwrap() + 1)) {
        let i = last_digit(raw, n).unwrap();
        (raw.take(i + 1), Some(raw.skip(i + 1)))
    } else {
        (raw, None)
    }
}

/// Whether the year lies within the bounds of the options, both inclusive.
pub open spec fn year_in_bounds(year: nat, options: VersionOptions) -> bool {
    options.year_min <= year <= options.year_max
}

/// Whether `s` is a month from 1 to 12, and which.
pub open spec fn month_of(s: Seq<char>) -> Option<u32> {
    match parse_u32(s) {
        Some(m) => if 1 <= m <= 12 {
            Some(m)
        } else {
            None
        },
        None => None,
    }
}

/// Whether `s` is a day from 1 to 31, and which.
pub open spec fn day_of(s: Seq<char>) -> Option<u32> {
    match parse_u32(s) {
        Some(d) => if 1 <= d <= 31 {
            Some(d)
        } else {
            None
        },
        None => None,
    }
}

/// Whether `s` is a four-digit year within the bounds, and which.
pub open spec fn year_of(s: Seq<char>, options: VersionOptions) -> Option<u32> {
    match fixed_digits(s, 4) {
        Some(y) => if year_in_bounds(y, options) {
            Some(y as u32)
        } else {
            None
        },
        None => None,
    }
}

/// Whether `s` is a two-digit year, and which year of this century it
/// stands for.
pub open spec fn short_year_of(s: Seq<char>) -> Option<u32> {
    match fixed_digits(s, 2) {
        Some(y) => Some((2000 + y) as u32),
        None => None,
    }
}

/// The calendar version with the given scheme and fields.
pub open spec fn calver_model(
    core: Seq<char>,
    modifier: Option<Seq<char>>,
    scheme: Seq<char>,
    parts: CalverParts,
) -> VersionModel {
    VersionModel {
        raw: core,
        version_format: "calver"@,
        calver_scheme: Some(scheme),
        calver_parts: Some(parts),
        modifier,
        semver_parts: None,
    }
}

/// The scheme and the fields of `core` under the pattern `YYYY.MM`.
pub open spec fn yyyy_mm(core: Seq<char>, options: VersionOptions) -> Option<CalverParts> {
    let f = split(core, seq!['.']);
    if f.len() == 2 && year_of(f[0], options) is Some && month_of(f[1]) is Some {
        Some(
            CalverParts {
                year: year_of(f[0], options).unwrap(),
                month: month_of(f[1]).unwrap(),
                day: None,
                micro: None,
            },
        )
    } else {
        None
    }
}

/// The fields of `core` under the pattern `YYYY.MM.MICRO`.
pub open spec fn yyyy_mm_micro(core: Seq<char>, options: VersionOptions) -> Option<CalverParts> {
    let f = split(core, seq!['.']);
    if f.len() == 3 && year_of(f[0], options) is Some && month_of(f[1]) is Some && parse_u32(
        f[2],
    ) is Some {
        Some(
            CalverParts {
                year: year_of(f[0], options).unwrap(),
                month: month_of(f[1]).unwrap(),
                day: None,
                micro: parse_u32(f[2]),
            },
        )
    } else {
        None
    }
}

/// The fields of `core` under the pattern `YYYY-MM-DD`.
pub open spec fn yyyy_mm_dd(core: Seq<char>, options: VersionOptions) -> Option<CalverParts> {
    let f = split(core, seq!['-']);
    if f.len() == 3 && year_of(f[0], options) is Some && month_of(f[1]) is Some && day_of(f[2])
        is Some {
        Some(
            CalverParts {
                year: year_of(f[0], options).unwrap(),
                month: month_of(f[1]).unwrap(),
                day: day_of(f[2]),
                micro: None,
            },
        )
    } else {
        None
    }
}

/// The fields of `core` under the patterns `YYYYMMDD` and `YYYYMMDD.MICRO`:
/// eight digits, and behind a first `.`, if there is one, a number.
pub open spec fn yyyymmdd(core: Seq<char>, options: VersionOptions) -> Option<CalverParts> {
    let date = before_char(core, '.');
    let micro = after_first(core, seq!['.']);
    if date.len() == 8 && all_digits(date) && year_of(date.subrange(0, 4), options) is Some
        && month_of(date.subrange(4, 6)) is Some && day_of(date.subrange(6, 8)) is Some && (
    micro is Some ==> parse_u32(micro.unwrap()) is Some) {
        Some(
            CalverParts {
                year: year_of(date.subrange(0, 4), options).unwrap(),
                month: month_of(date.subrange(4, 6)).unwrap(),
                day: day_of(date.subrange(6, 8)),
                micro: match micro {
                    Some(m) => parse_u32(m),
                    None => None,
                },
            },
        )
    } else {
        None
    }
}

/// The fields of `core` under the pattern `YY.MM`.
pub open spec fn yy_mm(core: Seq<char>) -> Option<CalverParts> {
    let f = split(core, seq!['.']);
    if f.len() == 2 && short_year_of(f[0]) is Some && month_of(f[1]) is Some {
        Some(
            CalverParts {
                year: short_year_of(f[0]).unwrap(),
                month: month_of(f[1]).unwrap(),
                day: None,
                micro: None,
            },
        )
    } else {
        None
    }
}

/// The fields of `core` under the pattern `YY.MM.MICRO`.
pub open spec fn yy_mm_micro(core: Seq<char>) -> Option<CalverParts> {
    let f = split(core, seq!['.']);
    if f.len() == 3 && short_year_of(f[0]) is Some && month_of(f[1]) is Some && parse_u32(f[2])
        is Some {
        Some(
            CalverParts {
                year: short_year_of(f[0]).unwrap(),
                month: month_of(f[1]).unwrap(),
                day: None,
                micro: parse_u32(f[2]),
            },
        )
    } else {
        None
    }
}

/// The scheme label of the eight-digit patterns.
pub open spec fn compact_scheme(parts: CalverParts) -> Seq<char> {
    if parts.micro is Some {
        "YYYYMMDD.MICRO"@
    } else {
        "YYYYMMDD"@
    }
}

/// The calendar version that `core` is, if it is one. The patterns are tried
/// in this order: `YYYY.MM`, `YYYY.MM.MICRO`, `YYYY-MM-DD`, the eight-digit
/// patterns, and, where the options allow a two-digit year, `YY.MM` and
/// `YY.MM.MICRO`.
pub open spec fn calendar(
    core: Seq<char>,
    modifier: Option<Seq<char>>,
    options: VersionOptions,
) -> Option<VersionModel> {
    if let Some(parts) = yyyy_mm(core, options) {
        Some(calver_model(core, modifier, "YYYY.MM"@, parts))
    } else if let Some(parts) = yyyy_mm_micro(core, options) {
        Some(calver_model(core, modifier, "YYYY.MM.MICRO"@, parts))
    } else if let Some(parts) = yyyy_mm_dd(core, options) {
        Some(calver_model(core, modifier, "YYYY-MM-DD"@, parts))
    } else if let Some(parts) = yyyymmdd(core, options) {
        Some(calver_model(core, modifier, compact_scheme(parts), parts))
    } else if !options.allow_yy_calver {
        None
    } else if let Some(parts) = yy_mm(core) {
        Some(calver_model(core, modifier, "YY.MM"@, parts))
    } else if let Some(parts) = yy_mm_micro(core) {
        Some(calver_model(core, modifier, "YY.MM.MICRO"@, parts))
    } else {
        None
    }
}

/// Whether the shape of `core` rules a calendar version out: it holds a `+`,
/// or both a `.` and a `-`.
pub open spec fn forces_semver(core: Seq<char>) -> bool {
    contains(core, seq!['+']) || (contains(core, seq!['.']) && contains(core, seq!['-']))
}

/// The calendar version that `raw` is classified as, if any.
pub open spec fn calendar_of(raw: Seq<char>, options: VersionOptions) -> Option<VersionModel> {
    let (core, modifier) = split_modifier(trim(raw));
    if forces_semver(core) {
        None
    } else {
        calendar(core, modifier, options)
    }
}

/// An empty text as none, any other as itself.
pub open spec fn non_empty(s: Seq<char>) -> Option<Seq<char>> {
    if s.len() == 0 {
        None
    } else {
        Some(s)
    }
}

/// The classification of `raw` once the semantic-version parser has
/// answered `parsed`: a semantic version with its fields, or unknown.
pub open spec fn semver_model(
    raw: Seq<char>,
    parsed: Option<(u64, u64, u64, Seq<char>, Seq<char>)>,
) -> VersionModel {
    match parsed {
        Some((major, minor, patch, pre, build)) => VersionModel {
            raw,
            version_format: "semver"@,
            calver_scheme: None,
            calver_parts: None,
            modifier: None,
            semver_parts: Some(
                SemverModel { major, minor, patch, pre: non_empty(pre), build: non_empty(build) },
            ),
        },
        None => VersionModel {
            raw,
            version_format: "unknown"@,
            calver_scheme: None,
            calver_parts: None,
            modifier: None,
            semver_parts: None,
        },
    }
}

/// The classification of `raw` under `options`, where `parsed` is what the
/// semantic-version parser answers for the trimmed `raw`.
pub open spec fn classified(
    raw: Seq<char>,
    options: VersionOptions,
    parsed: Option<(u64, u64, u64, Seq<char>, Seq<char>)>,
) -> VersionModel {
    match calendar_of(raw, options) {
        Some(info) => info,
        None => semver_model(trim(raw), parsed),
    }
}

/// The value of a prefix of decimal digits is at most the value of the whole.
pub proof fn lemma_digits_value_prefix(s: Seq<char>, k: int)
    requires
        0 <= k <= s.len(),
        all_digits(s),
    ensures
        digits_value(s.take(k)) <= digits_value(s),
    decreases s.len() - k,
{
    if k == s.len() {
        assert(s.take(k) == s);
    } else {
        lemma_digits_value_prefix(s, k + 1);
        let longer = s.take(k + 1);
        assert(longer.drop_last() == s.take(k));
        assert(is_digit(s[k]));
    }
}

/// Executable form of [`all_digits`].
pub fn chars_all_digits(s: &Vec<char>) -> (r: bool)
    ensures
        r == all_digits(s@),
{
    let mut i: usize = 0;
    while i < s.len()
        invariant
            i <= s.len(),
            forall|j: int| 0 <= j < i ==> is_digit(#[trigger] s@[j]),
        decreases s.len() - i,
    {
        if !char_is_digit(s[i]) {
            return false;
        }
        i += 1;
    }
    true
}

/// Executable form of [`has_letter`].
pub fn chars_have_letter(s: &Vec<char>, from: usize) -> (r: bool)
    requires
        from <= s.len(),
    ensures
        r == has_letter(s@.skip(from as int)),
{
    let ghost tail = s@.skip(from as int);
    let mut i: usize = from;
    while i < s.len()
        invariant
            from <= i <= s.len(),
            tail == s@.skip(from as int),
            forall|j: int| 0 <= j < i - from ==> !is_ascii_letter(#[trigger] tail[j]),
        decreases s.len() - i,
    {
        if char_is_ascii_letter(s[i]) {
            assert(is_ascii_letter(tail[i - from]));
            return true;
        }
        i += 1;
    }
    false
}

/// The value of `s[..]` when every character is a digit and the value fits
/// into 32 bits.
fn digits_to_u32(s: &Vec<char>) -> (r: Option<u32>)
    ensures
        r == if s.len() > 0 && all_digits(s@) && digits_value(s@) <= u32::MAX {
            Some(digits_value(s@) as u32)
        } else {
            None
        },
{
    if s.len() == 0 || !chars_all_digits(s) {
        return None;
    }
    let mut value: u64 = 0;
    let mut i: usize = 0;
    while i < s.len()
        invariant
            i <= s.len(),
            all_digits(s@),
            value == digits_value(s@.take(i as int)),
            value <= u32::MAX,
        decreases s.len() - i,
    {
        let c = s[i];
        assert(is_digit(s@[i as int]));
        let digit: u64 = (c as u32 - '0' as u32) as u64;
        let next: u64 = value * 10 + digit;
        proof {
            let longer = s@.take(i + 1);
            assert(longer.drop_last() == s@.take(i as int));
            assert(longer.last() == c);
            lemma_digits_value_prefix(s@, i + 1);
        }
        if next > u32::MAX as u64 {
            return None;
        }
        value = next;
        i += 1;
    }
    assert(s@.take(s.len() as int) == s@);
    Some(value as u32)
}

/// Executable form of [`parse_u32`].
pub fn parse_number(s: &Vec<char>) -> (r: Option<u32>)
    ensures
        r == parse_u32(s@),
{
    if s.len() > 0 && s[0] == '+' {
        let digits = subvec(s, 1, s.len());
        assert(digits@ == s@.skip(1));
        digits_to_u32(&digits)
    } else {
        digits_to_u32(s)
    }
}

/// Executable form of [`month_of`].
fn parse_month(s: &Vec<char>) -> (r: Option<u32>)
    ensures
        r == month_of(s@),
{
    match parse_number(s) {
        Some(m) => if 1 <= m && m <= 12 {
            Some(m)
        } else {
            None
        },
        None => None,
    }
}

/// Executable form of [`day_of`].
fn parse_day(s: &Vec<char>) -> (r: Option<u32>)
    ensures
        r == day_of(s@),
{
    match parse_number(s) {
        Some(d) => if 1 <= d && d <= 31 {
            Some(d)
        } else {
            None
        },
        None => None,
    }
}

/// The bound on the value of `width` digits, for widths up to four.
proof fn lemma_digits_value_bound(s: Seq<char>)
    requires
        all_digits(s),
        s.len() <= 4,
    ensures
        digits_value(s) <= 9999,
        s.len() <= 2 ==> digits_value(s) <= 99,
{
    reveal_with_fuel(digits_value, 5);
    if s.len() >= 1 {
        let a = s.drop_last();
        assert(is_digit(s[s.len() - 1]));
        if a.len() >= 1 {
            let b = a.drop_last();
            assert(is_digit(s[s.len() - 2]));
            if b.len() >= 1 {
                let c = b.drop_last();
                assert(is_digit(s[s.len() - 3]));
                if c.len() >= 1 {
                    assert(is_digit(s[s.len() - 4]));
                }
            }
        }
    }
}

/// Executable form of [`year_of`].
fn parse_year(s: &Vec<char>, options: &VersionOptions) -> (r: Option<u32>)
    ensures
        r == year_of(s@, *options),
{
    if s.len() != 4 {
        return None;
    }
    match digits_to_u32(s) {
        Some(year) => {
            let y: i64 = year as i64;
            if y < options.year_min as i64 || y > options.year_max as i64 {
                None
            } else {
                Some(year)
            }
        },
        None => {
            proof {
                if all_digits(s@) {
                    lemma_digits_value_bound(s@);
                }
            }
            None
        },
    }
}

/// Executable form of [`short_year_of`].
fn parse_short_year(s: &Vec<char>) -> (r: Option<u32>)
    ensures
        r == short_year_of(s@),
{
    if s.len() != 2 {
        return None;
    }
    proof {
        if all_digits(s@) {
            lemma_digits_value_bound(s@);
        }
    }
    match digits_to_u32(s) {
        Some(year) => Some(2000 + year),
        None => None,
    }
}

/// Executable form of [`split_modifier`]: the core and the modifier of `raw`.
pub fn split_off_modifier(raw: &Vec<char>) -> (r: (Vec<char>, Option<Vec<char>>))
    ensures
        r.0@ == split_modifier(raw@).0,
        match r.1 {
            Some(m) => split_modifier(raw@).1 == Some(m@),
            None => split_modifier(raw@).1 is None,
        },
{
    let n = raw.len();
    let mut i: usize = n;
    let mut dash: Option<usize> = None;
    while i > 0
        invariant_except_break
            dash is None,
            last_dash(raw@, n as int) == last_dash(raw@, i as int),
        invariant
            i <= n,
            n == raw.len(),
        ensures
            match dash {
                Some(d) => last_dash(raw@, n as int) == Some(d as int) && d < n,
                None => last_dash(raw@, n as int) is None,
            },
        decreases i,
    {
        if raw[i - 1] == '-' {
            dash = Some(i - 1);
            break;
        }
        i -= 1;
    }
    if let Some(d) = dash {
        if chars_have_letter(raw, d + 1) {
            return (subvec(raw, 0, d), Some(subvec(raw, d + 1, n)));
        }
    }
    let mut k: usize = n;
    let mut digit: Option<usize> = None;
    while k > 0
        invariant_except_break
            digit is None,
            last_digit(raw@, n as int) == last_digit(raw@, k as int),
        invariant
            k <= n,
            n == raw.len(),
        ensures
            match digit {
                Some(d) => last_digit(raw@, n as int) == Some(d as int) && d < n,
                None => last_digit(raw@, n as int) is None,
            },
        decreases k,
    {
        if char_is_digit(raw[k - 1]) {
            digit = Some(k - 1);
            break;
        }
        k -= 1;
    }
    if let Some(d) = digit {
        if chars_have_letter(raw, d + 1) {
            return (subvec(raw, 0, d + 1), Some(subvec(raw, d + 1, n)));
        }
    }
    let whole = subvec(raw, 0, n);
    assert(whole@ == raw@);
    (whole, None)
}

/// The pieces of `core` between the occurrences of the character `sep`.
fn fields_of(core: &Vec<char>, sep: char) -> (r: Vec<Vec<char>>)
    ensures
        lines_of(r@) == split(core@, seq![sep]),
{
    let mut pattern: Vec<char> = Vec::new();
    pattern.push(sep);
    assert(pattern@ == seq![sep]);
    split_on(core, &pattern)
}

/// Executable form of [`yyyy_mm`].
pub fn parse_year_month_yyyy(core: &Vec<char>, options: &VersionOptions) -> (r: Option<
    CalverParts,
>)
    ensures
        r == yyyy_mm(core@, *options),
{
    let parts = fields_of(core, '.');
    if parts.len() != 2 {
        return None;
    }
    assert(lines_of(parts@)[0] == parts@[0]@ && lines_of(parts@)[1] == parts@[1]@);
    let year = parse_year(&parts[0], options);
    let month = parse_month(&parts[1]);
    match (year, month) {
        (Some(year), Some(month)) => Some(CalverParts { year, month, day: None, micro: None }),
        _ => None,
    }
}

/// Executable form of [`yy_mm`].
pub fn parse_year_month_yy(core: &Vec<char>) -> (r: Option<CalverParts>)
    ensures
        r == yy_mm(core@),
{
    let parts = fields_of(core, '.');
    if parts.len() != 2 {
        return None;
    }
    assert(lines_of(parts@)[0] == parts@[0]@ && lines_of(parts@)[1] == parts@[1]@);
    let year = parse_short_year(&parts[0]);
    let month = parse_month(&parts[1]);
    match (year, month) {
        (Some(year), Some(month)) => Some(CalverParts { year, month, day: None, micro: None }),
        _ => None,
    }
}

/// Executable form of [`yy_mm_micro`].
pub fn parse_year_month_micro_yy(core: &Vec<char>) -> (r: Option<CalverParts>)
    ensures
        r == yy_mm_micro(core@),
{
    let parts = fields_of(core, '.');
    if parts.len() != 3 {
        return None;
    }
    assert(lines_of(parts@)[0] == parts@[0]@ && lines_of(parts@)[1] == parts@[1]@ && lines_of(
        parts@,
    )[2] == parts@[2]@);
    let year = parse_short_year(&parts[0]);
    let month = parse_month(&parts[1]);
    let micro = parse_number(&parts[2]);
    match (year, month, micro) {
        (Some(year), Some(month), Some(micro)) => Some(
            CalverParts { year, month, day: None, micro: Some(micro) },
        ),
        _ => None,
    }
}

/// Executable form of [`yyyy_mm_micro`].
pub fn parse_year_month_micro_yyyy(core: &Vec<char>, options: &VersionOptions) -> (r: Option<
    CalverParts,
>)
    ensures
        r == yyyy_mm_micro(core@, *options),
{
    let parts = fields_of(core, '.');
    if parts.len() != 3 {
        return None;
    }
    assert(lines_of(parts@)[0] == parts@[0]@ && lines_of(parts@)[1] == parts@[1]@ && lines_of(
        parts@,
    )[2] == parts@[2]@);
    let year = parse_year(&parts[0], options);
    let month = parse_month(&parts[1]);
    let micro = parse_number(&parts[2]);
    match (year, month, micro) {
        (Some(year), Some(month), Some(micro)) => Some(
            CalverParts { year, month, day: None, micro: Some(micro) },
        ),
        _ => None,
    }
}

/// Executable form of [`yyyy_mm_dd`].
pub fn parse_year_month_day(core: &Vec<char>, options: &VersionOptions) -> (r: Option<
    CalverParts,
>)
    ensures
        r == yyyy_mm_dd(core@, *options),
{
    let parts = fields_of(core, '-');
    if parts.len() != 3 {
        return None;
    }
    assert(lines_of(parts@)[0] == parts@[0]@ && lines_of(parts@)[1] == parts@[1]@ && lines_of(
        parts@,
    )[2] == parts@[2]@);
    let year = parse_year(&parts[0], options);
    let month = parse_month(&parts[1]);
    let day = parse_day(&parts[2]);
    match (year, month, day) {
        (Some(year), Some(month), Some(day)) => Some(
            CalverParts { year, month, day: Some(day), micro: None },
        ),
        _ => None,
    }
}

/// Executable form of [`yyyymmdd`].
pub fn parse_yyyymmdd(core: &Vec<char>, options: &VersionOptions) -> (r: Option<CalverParts>)
    ensures
        r == yyyymmdd(core@, *options),
{
    let date = chars_before_char(core, '.');
    let mut dot: Vec<char> = Vec::new();
    dot.push('.');
    assert(dot@ == seq!['.']);
    let micro = chars_after_first(core, &dot);
    if date.len() != 8 || !chars_all_digits(&date) {
        return None;
    }
    let year = parse_year(&subvec(&date, 0, 4), options);
    let month = parse_month(&subvec(&date, 4, 6));
    let day = parse_day(&subvec(&date, 6, 8));
    let (year, month, day) = match (year, month, day) {
        (Some(year), Some(month), Some(day)) => (year, month, day),
        _ => {
            return None;
        },
    };
    match micro {
        Some(text) => match parse_number(&text) {
            Some(micro) => Some(CalverParts { year, month, day: Some(day), micro: Some(micro) }),
            None => None,
        },
        None => Some(CalverParts { year, month, day: Some(day), micro: None }),
    }
}

/// The calendar version with the given scheme and fields.
fn calver_info(
    core: &Vec<char>,
    modifier: &Option<Vec<char>>,
    scheme: &str,
    parts: CalverParts,
) -> (r: VersionInfo)
    ensures
        r@ == calver_model(
            core@,
            match modifier {
                Some(m) => Some(m@),
                None => None,
            },
            scheme@,
            parts,
        ),
{
    VersionInfo {
        raw: from_chars(core),
        version_format: String::from_str("calver"),
        calver_scheme: Some(String::from_str(scheme)),
        calver_parts: Some(parts),
        modifier: match modifier {
            Some(m) => Some(from_chars(m)),
            None => None,
        },
        semver_parts: None,
    }
}

/// Executable form of [`calendar`].
pub fn classify_calver(
    core: &Vec<char>,
    modifier: &Option<Vec<char>>,
    options: &VersionOptions,
) -> (r: Option<VersionInfo>)
    ensures
        match r {
            Some(info) => calendar(
                core@,
                match modifier {
                    Some(m) => Some(m@),
                    None => None,
                },
                *options,
            ) == Some(info@),
            None => calendar(
                core@,
                match modifier {
                    Some(m) => Some(m@),
                    None => None,
                },
                *options,
            ) is None,
        },
{
    if let Some(parts) = parse_year_month_yyyy(core, options) {
        return Some(calver_info(core, modifier, "YYYY.MM", parts));
    }
    if let Some(parts) = parse_year_month_micro_yyyy(core, options) {
        return Some(calver_info(core, modifier, "YYYY.MM.MICRO", parts));
    }
    if let Some(parts) = parse_year_month_day(core, options) {
        return Some(calver_info(core, modifier, "YYYY-MM-DD", parts));
    }
    if let Some(parts) = parse_yyyymmdd(core, options) {
        let scheme = if parts.micro.is_some() {
            "YYYYMMDD.MICRO"
        } else {
            "YYYYMMDD"
        };
        return Some(calver_info(core, modifier, scheme, parts));
    }
    if options.allow_yy_calver {
        if let Some(parts) = parse_year_month_yy(core) {
            return Some(calver_info(core, modifier, "YY.MM", parts));
        }
        if let Some(parts) = parse_year_month_micro_yy(core) {
            return Some(calver_info(core, modifier, "YY.MM.MICRO", parts));
        }
    }
    None
}

/// The calendar version that `raw` is classified as, if any.
pub fn classify_calendar(raw: &str, options: &VersionOptions) -> (r: Option<VersionInfo>)
    ensures
        match r {
            Some(info) => calendar_of(raw@, *options) == Some(info@),
            None => calendar_of(raw@, *options) is None,
        },
{
    let trimmed = chars_trim(&to_chars(raw));
    let (core, modifier) = split_off_modifier(&trimmed);
    let mut plus: Vec<char> = Vec::new();
    plus.push('+');
    assert(plus@ == seq!['+']);
    let mut dot: Vec<char> = Vec::new();
    dot.push('.');
    assert(dot@ == seq!['.']);
    let mut dash: Vec<char> = Vec::new();
    dash.push('-');
    assert(dash@ == seq!['-']);
    if chars_contain(&core, &plus) {
        return None;
    }
    if chars_contain(&core, &dot) && chars_contain(&core, &dash) {
        return None;
    }
    classify_calver(&core, &modifier, options)
}

/// Parses `text` with `semver::Version::parse` and hands back the fields of
/// the version, or nothing where the parser reports an error. The result is
/// the one that [`semver_parse`] names for the characters of `text`.
#[verifier::external_body]
fn parse_semver(text: &str) -> (r: Option<(u64, u64, u64, String, String)>)
    ensures
        match r {
            Some(v) => semver_parse(text@) == Some((v.0, v.1, v.2, v.3@, v.4@)),
            None => semver_parse(text@) is None,
        },
{
    match semver::Version::parse(text) {
        Ok(v) => Some(
            (v.major, v.minor, v.patch, v.pre.as_str().to_string(), v.build.as_str().to_string()),
        ),
        Err(_) => None,
    }
}

/// A text as itself, or as none when it is empty.
fn non_empty_string(s: String) -> (r: Option<String>)
    ensures
        opt_text(r) == non_empty(s@),
{
    if s.as_str().is_empty() {
        None
    } else {
        Some(s)
    }
}

/// The classification of `raw` once the semantic-version parser has
/// answered `parsed`: format `semver` with the fields of the version, or
/// format `unknown` without any.
pub fn semver_info(raw: &str, parsed: Option<(u64, u64, u64, String, String)>) -> (r: VersionInfo)
    ensures
        r@ == semver_model(
            raw@,
            match parsed {
                Some(v) => Some((v.0, v.1, v.2, v.3@, v.4@)),
                None => None,
            },
        ),
{
    match parsed {
        Some((major, minor, patch, pre, build)) => VersionInfo {
            raw: String::from_str(raw),
            version_format: String::from_str("semver"),
            calver_scheme: None,
            calver_parts: None,
            modifier: None,
            semver_parts: Some(
                SemverParts {
                    major,
                    minor,
                    patch,
                    pre: non_empty_string(pre),
                    build: non_empty_string(build),
                },
            ),
        },
        None => VersionInfo {
            raw: String::from_str(raw),
            version_format: String::from_str("unknown"),
            calver_scheme: None,
            calver_parts: None,
            modifier: None,
            semver_parts: None,
        },
    }
}

/// Classifies `raw` as a semantic version or as unknown.
pub fn semver_or_unknown(raw: &str) -> (r: VersionInfo)
    ensures
        r@ == semver_model(raw@, semver_parse(raw@)),
{
    let parsed = parse_semver(raw);
    semver_info(raw, parsed)
}

/// Classifies the version string `raw` under `options`.
///
/// Never fails: a string that is neither a calendar version nor a semantic
/// version is classified as `unknown`.
pub fn classify_version(raw: &str, options: &VersionOptions) -> (r: VersionInfo)
    ensures
        r@ == classified(raw@, *options, semver_parse(trim(raw@))),
{
    if let Some(info) = classify_calendar(raw, options) {
        return info;
    }
    let trimmed = from_chars(&chars_trim(&to_chars(raw)));
    semver_or_unknown(trimmed.as_str())
}

} // verus!
