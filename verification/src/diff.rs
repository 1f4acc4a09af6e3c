//! The change to a README as a unified diff.

use vstd::prelude::*;
use crate::document::{replace, replace_all};
use crate::text::{extend_chars, from_chars, to_chars};

verus! {

/// What `diffy::create_patch` gives for the two texts, formatted without
/// colours: a header of the two lines `--- original` and `+++ modified`, and
/// the hunks of the change.
pub uninterp spec fn patch_text(before: Seq<char>, after: Seq<char>) -> Seq<char>;

/// The unified diff of `before` and `after` for the file `name`: empty
/// where the two texts are the same, and else the patch with the two lines
/// of its header naming `a/name` and `b/name`.
pub open spec fn diff_of(
    name: Seq<char>,
    before: Seq<char>,
    after: Seq<char>,
    patch: Seq<char>,
) -> Seq<char> {
    if before == after {
        Seq::empty()
    } else {
        replace(
            replace(patch, "--- original\n"@, "--- a/"@ + name + "\n"@),
            "+++ modified\n"@,
            "+++ b/"@ + name + "\n"@,
        )
    }
}

/// Makes the patch from `before` to `after` with `diffy::create_patch`
/// and formats it as text. The result is the one that [`patch_text`] names
/// for the characters of the two texts.
#[verifier::external_body]
fn make_patch(before: &str, after: &str) -> (r: String)
    ensures
        r@ == patch_text(before@, after@),
{
    diffy::create_patch(before, after).to_string()
}

/// The unified diff for the file `name`, given the patch `patch` from
/// `before` to `after`.
pub fn diff_from_patch(name: &str, before: &str, after: &str, patch: &str) -> (r: String)
    ensures
        r@ == diff_of(name@, before@, after@, patch@),
{
    if crate::text::chars_eq(&to_chars(before), &to_chars(after)) {
        return String::new();
    }
    let mut old_name = to_chars("--- a/");
    extend_chars(&mut old_name, &to_chars(name));
    extend_chars(&mut old_name, &to_chars("\n"));
    let mut new_name = to_chars("+++ b/");
    extend_chars(&mut new_name, &to_chars(name));
    extend_chars(&mut new_name, &to_chars("\n"));
    let first = replace_all(&to_chars(patch), &to_chars("--- original\n"), &old_name);
    let second = replace_all(&first, &to_chars("+++ modified\n"), &new_name);
    from_chars(&second)
}

/// The unified diff of `before` and `after` for the file `name`.
pub fn unified_diff(name: &str, before: &str, after: &str) -> (r: String)
    ensures
        r@ == diff_of(name@, before@, after@, patch_text(before@, after@)),
{
    let patch = make_patch(before, after);
    diff_from_patch(name, before, after, patch.as_str())
}

} // verus!
