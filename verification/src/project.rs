//! What is known of the project that a command works on.

use vstd::prelude::*;
use crate::document::{lines_of, replace, replace_all, split, split_on, texts_of};
use crate::text::{
    chars_eq, chars_lt, chars_start_with, chars_strip_trailing, chars_trim, from_chars,
    lemma_text_lt_irreflexive, lemma_text_lt_total, lemma_text_lt_transitive, opt_text,
    starts_with, strip_trailing, text_lt, to_chars, trim,
};

verus! {

/// The ecosystem of a project.
#[derive(Debug, Clone, Copy, PartialEq, Eq, Structural)]
pub enum Ecosystem {
    Node,
    MoonBit,
    Rust,
}

/// The manifests found in a project: for each kind the one nearest to the
/// working directory, and all of them.
#[derive(Debug, Clone)]
pub struct ManifestPaths {
    pub package_json: Option<String>,
    pub moon_mod: Option<String>,
    pub cargo_toml: Option<String>,
    pub package_json_all: Vec<String>,
    pub moon_mod_all: Vec<String>,
    pub cargo_toml_all: Vec<String>,
}

/// What git tells about a repository.
#[derive(Debug, Clone)]
pub struct GitContext {
    pub root: String,
    pub remote: Option<String>,
    pub owner: Option<String>,
    pub repo: Option<String>,
    pub default_branch: Option<String>,
}

/// A project: its root, its ecosystem, its manifests and its repository.
#[derive(Debug, Clone)]
pub struct ProjectContext {
    pub root: String,
    pub ecosystem: Option<Ecosystem>,
    pub manifests: ManifestPaths,
    pub git: Option<GitContext>,
}

/// The ecosystem that the manifests of a project stand for: Node before
/// MoonBit before Rust.
pub open spec fn ecosystem_of(manifests: ManifestPaths) -> Option<Ecosystem> {
    if manifests.package_json is Some {
        Some(Ecosystem::Node)
    } else if manifests.moon_mod is Some {
        Some(Ecosystem::MoonBit)
    } else if manifests.cargo_toml is Some {
        Some(Ecosystem::Rust)
    } else {
        None
    }
}

impl ProjectContext {
    /// Whether the project has a MoonBit manifest.
    pub fn has_moonbit(&self) -> (r: bool)
        ensures
            r == (self.manifests.moon_mod is Some),
    {
        self.manifests.moon_mod.is_some()
    }
}

/// The ecosystem that the manifests of a project stand for.
pub fn detect_ecosystem(manifests: &ManifestPaths) -> (r: Option<Ecosystem>)
    ensures
        r == ecosystem_of(*manifests),
{
    if manifests.package_json.is_some() {
        return Some(Ecosystem::Node);
    }
    if manifests.moon_mod.is_some() {
        return Some(Ecosystem::MoonBit);
    }
    if manifests.cargo_toml.is_some() {
        return Some(Ecosystem::Rust);
    }
    None
}

/// Owner and repository of the address `url` of a repository: the last two
/// segments of its path.
///
/// The address is trimmed, a trailing `.git` is dropped, `git+` is taken
/// out, and `git://` becomes `https://`. Where `colon_as_slash` is set, as it
/// is for the addresses of git remotes, every `:` counts as a `/`. There is
/// no owner and no repository where the address has fewer than two segments
/// or one of the two is empty.
pub open spec fn owner_repo(url: Seq<char>, colon_as_slash: bool) -> Option<
    (Seq<char>, Seq<char>),
> {
    let plain = replace(
        replace(strip_trailing(trim(url), ".git"@), "git+"@, Seq::empty()),
        "git://"@,
        "https://"@,
    );
    let cleaned = if colon_as_slash {
        replace(plain, seq![':'], seq!['/'])
    } else {
        plain
    };
    let parts = split(cleaned, seq!['/']);
    if parts.len() < 2 || parts[parts.len() - 2].len() == 0 || parts.last().len() == 0 {
        None
    } else {
        Some((parts[parts.len() - 2], parts.last()))
    }
}

/// Executable form of [`owner_repo`].
pub fn owner_and_repo(url: &str, colon_as_slash: bool) -> (r: Option<(String, String)>)
    ensures
        match r {
            Some((owner, repo)) => owner_repo(url@, colon_as_slash) == Some((owner@, repo@)),
            None => owner_repo(url@, colon_as_slash) is None,
        },
{
    let trimmed = chars_trim(&to_chars(url));
    let stripped = chars_strip_trailing(&trimmed, &to_chars(".git"));
    let nothing: Vec<char> = Vec::new();
    let without_plus = replace_all(&stripped, &to_chars("git+"), &nothing);
    let plain = replace_all(&without_plus, &to_chars("git://"), &to_chars("https://"));
    let mut slash: Vec<char> = Vec::new();
    slash.push('/');
    assert(slash@ == seq!['/']);
    let cleaned = if colon_as_slash {
        let mut colon: Vec<char> = Vec::new();
        colon.push(':');
        assert(colon@ == seq![':']);
        replace_all(&plain, &colon, &slash)
    } else {
        plain
    };
    let parts = split_on(&cleaned, &slash);
    let n = parts.len();
    if n < 2 {
        return None;
    }
    let owner = &parts[n - 2];
    let repo = &parts[n - 1];
    assert(lines_of(parts@)[n - 2] == owner@);
    assert(lines_of(parts@).last() == repo@);
    if owner.len() == 0 || repo.len() == 0 {
        return None;
    }
    Some((from_chars(owner), from_chars(repo)))
}

/// Owner and repository of the remote `remote` of a repository, where it
/// has one: see [`owner_repo`], with every `:` counted as a `/`.
pub fn infer_owner_repo(remote: &Option<String>) -> (r: (Option<String>, Option<String>))
    ensures
        match *remote {
            Some(url) => match owner_repo(url@, true) {
                Some((owner, repo)) => opt_text(r.0) == Some(owner) && opt_text(r.1) == Some(repo),
                None => r.0 is None && r.1 is None,
            },
            None => r.0 is None && r.1 is None,
        },
{
    match remote {
        Some(url) => match owner_and_repo(url.as_str(), true) {
            Some((owner, repo)) => (Some(owner), Some(repo)),
            None => (None, None),
        },
        None => (None, None),
    }
}

/// The number of leading components, from index `i` on, that two paths
/// share.
pub open spec fn shared_from(a: Seq<Seq<char>>, b: Seq<Seq<char>>, i: int) -> int
    decreases a.len() - i,
{
    if 0 <= i < a.len() && i < b.len() && a[i] == b[i] {
        shared_from(a, b, i + 1)
    } else {
        i
    }
}

/// The distance between two directories: the number of steps up from the
/// one to their last common ancestor, plus the number of steps down from
/// there to the other.
pub open spec fn distance(from: Seq<Seq<char>>, to: Seq<Seq<char>>) -> int {
    (from.len() - shared_from(from, to, 0)) + (to.len() - shared_from(from, to, 0))
}

/// The distance between the directory `from` and the directory `to_dir`,
/// both given by their components.
pub fn path_distance(from: &[String], to_dir: &[String]) -> (r: usize)
    requires
        from.len() + to_dir.len() <= usize::MAX,
    ensures
        r == distance(texts_of(from@), texts_of(to_dir@)),
{
    let ghost a = texts_of(from@);
    let ghost b = texts_of(to_dir@);
    let mut common: usize = 0;
    while common < from.len() && common < to_dir.len() && chars_eq(
        &to_chars(from[common].as_str()),
        &to_chars(to_dir[common].as_str()),
    )
        invariant
            common <= from.len(),
            common <= to_dir.len(),
            a == texts_of(from@),
            b == texts_of(to_dir@),
            shared_from(a, b, 0) == shared_from(a, b, common as int),
        decreases from.len() - common,
    {
        common += 1;
    }
    (from.len() - common) + (to_dir.len() - common)
}

/// The distance and the path of each candidate.
pub open spec fn candidates_of(v: Seq<(usize, String)>) -> Seq<(int, Seq<char>)> {
    Seq::new(v.len(), |i: int| (v[i].0 as int, v[i].1@))
}

/// Whether the candidate `x` is to be preferred to `y`: it is nearer, or as
/// near and before `y` in the order of the dictionary.
pub open spec fn closer(x: (int, Seq<char>), y: (int, Seq<char>)) -> bool {
    x.0 < y.0 || (x.0 == y.0 && text_lt(x.1, y.1))
}

/// Whether candidate `i` is the one to choose: no candidate is to be
/// preferred to it, and it is to be preferred to every candidate before it.
pub open spec fn is_closest(c: Seq<(int, Seq<char>)>, i: int) -> bool {
    &&& 0 <= i < c.len()
    &&& forall|j: int| 0 <= j < c.len() ==> !closer(#[trigger] c[j], c[i])
    &&& forall|j: int| 0 <= j < i ==> closer(c[i], #[trigger] c[j])
}

/// Preference is transitive.
pub proof fn lemma_closer_transitive(x: (int, Seq<char>), y: (int, Seq<char>), z: (int, Seq<char>))
    requires
        closer(x, y),
        closer(y, z),
    ensures
        closer(x, z),
{
    if x.0 == y.0 && y.0 == z.0 {
        lemma_text_lt_transitive(x.1, y.1, z.1, 0);
    }
}

/// Of two different candidates one is to be preferred.
pub proof fn lemma_closer_total(x: (int, Seq<char>), y: (int, Seq<char>))
    requires
        !closer(x, y),
        !closer(y, x),
    ensures
        x == y,
{
    assert(x.1.take(0) == y.1.take(0));
    lemma_text_lt_total(x.1, y.1, 0);
}

/// The index of the candidate to choose among `candidates`, each given by
/// its distance and its path: the nearest, and among the nearest the first
/// in the order of the dictionary. None when there is no candidate.
pub fn choose_closest(candidates: &[(usize, String)]) -> (r: Option<usize>)
    ensures
        match r {
            Some(i) => is_closest(candidates_of(candidates@), i as int),
            None => candidates@.len() == 0,
        },
{
    if candidates.len() == 0 {
        return None;
    }
    let ghost c = candidates_of(candidates@);
    let mut best: usize = 0;
    let mut idx: usize = 1;
    proof {
        lemma_text_lt_irreflexive(c[0].1, 0);
    }
    while idx < candidates.len()
        invariant
            0 <= best < idx <= candidates.len(),
            c == candidates_of(candidates@),
            forall|j: int| 0 <= j < idx ==> !closer(#[trigger] c[j], c[best as int]),
            forall|j: int| 0 <= j < best ==> closer(c[best as int], #[trigger] c[j]),
        decreases candidates.len() - idx,
    {
        let distance = candidates[idx].0;
        let best_distance = candidates[best].0;
        let nearer = distance < best_distance || (distance == best_distance && chars_lt(
            &to_chars(candidates[idx].1.as_str()),
            &to_chars(candidates[best].1.as_str()),
        ));
        assert(nearer == closer(c[idx as int], c[best as int]));
        if nearer {
            proof {
                let new = c[idx as int];
                let old_best = c[best as int];
                lemma_text_lt_irreflexive(new.1, 0);
                assert forall|j: int| 0 <= j < idx + 1 implies !closer(#[trigger] c[j], new) by {
                    if j < idx && closer(c[j], new) {
                        lemma_closer_transitive(c[j], new, old_best);
                    }
                }
                assert forall|j: int| 0 <= j < idx implies closer(new, #[trigger] c[j]) by {
                    if j < best {
                        lemma_closer_transitive(new, old_best, c[j]);
                    } else if j > best {
                        if closer(old_best, c[j]) {
                            lemma_closer_transitive(new, old_best, c[j]);
                        } else {
                            lemma_closer_total(old_best, c[j]);
                        }
                    }
                }
            }
            best = idx;
        }
        idx += 1;
    }
    Some(best)
}

/// Whether a path below the root of a project is left out of the search
/// for manifests: its first component is a directory of build output or of
/// dependencies, or the path leads into the fixtures of the tests.
pub open spec fn ignored(first: Seq<char>, relative: Seq<char>) -> bool {
    ||| first == ".git"@
    ||| first == "target"@
    ||| first == "node_modules"@
    ||| first == "dist"@
    ||| first == "build"@
    ||| first == "out"@
    ||| first == "vendor"@
    ||| (first == "tests"@ && starts_with(relative, "tests/fixtures"@))
}

/// Whether the path `relative`, whose first component is `first`, is left
/// out of the search for manifests.
pub fn is_ignored(first: &str, relative: &str) -> (r: bool)
    ensures
        r == ignored(first@, relative@),
{
    let name = to_chars(first);
    if chars_eq(&name, &to_chars(".git")) || chars_eq(&name, &to_chars("target")) || chars_eq(
        &name,
        &to_chars("node_modules"),
    ) || chars_eq(&name, &to_chars("dist")) || chars_eq(&name, &to_chars("build")) || chars_eq(
        &name,
        &to_chars("out"),
    ) || chars_eq(&name, &to_chars("vendor")) {
        return true;
    }
    if chars_eq(&name, &to_chars("tests")) {
        return chars_start_with(&to_chars(relative), &to_chars("tests/fixtures"));
    }
    false
}

/// The kinds of manifest that are looked for.
#[derive(Debug, Clone, Copy, PartialEq, Eq, Structural)]
pub enum ManifestKind {
    PackageJson,
    MoonMod,
    CargoToml,
}

/// The kind of manifest that a file of the name `name` is.
pub open spec fn manifest_kind_of(name: Seq<char>) -> Option<ManifestKind> {
    if name == "package.json"@ {
        Some(ManifestKind::PackageJson)
    } else if name == "moon.mod.json"@ {
        Some(ManifestKind::MoonMod)
    } else if name == "Cargo.toml"@ {
        Some(ManifestKind::CargoToml)
    } else {
        None
    }
}

/// The kind of manifest that a file of the name `name` is, if it is one.
pub fn manifest_kind(name: &str) -> (r: Option<ManifestKind>)
    ensures
        r == manifest_kind_of(name@),
{
    let file = to_chars(name);
    if chars_eq(&file, &to_chars("package.json")) {
        Some(ManifestKind::PackageJson)
    } else if chars_eq(&file, &to_chars("moon.mod.json")) {
        Some(ManifestKind::MoonMod)
    } else if chars_eq(&file, &to_chars("Cargo.toml")) {
        Some(ManifestKind::CargoToml)
    } else {
        None
    }
}

/// The answer of git in `output`, trimmed; none where nothing is left.
pub fn git_answer(output: &str) -> (r: Option<String>)
    ensures
        match r {
            Some(text) => text@ == trim(output@) && text@.len() > 0,
            None => trim(output@).len() == 0,
        },
{
    let text = chars_trim(&to_chars(output));
    if text.len() == 0 {
        None
    } else {
        Some(from_chars(&text))
    }
}

/// The branch that the symbolic reference in `output` names: the last
/// segment of the trimmed reference; none where that segment is empty.
pub fn default_branch(output: &str) -> (r: Option<String>)
    ensures
        match r {
            Some(branch) => branch@ == split(trim(output@), seq!['/']).last() && branch@.len()
                > 0,
            None => split(trim(output@), seq!['/']).last().len() == 0,
        },
{
    let text = chars_trim(&to_chars(output));
    let mut slash: Vec<char> = Vec::new();
    slash.push('/');
    assert(slash@ == seq!['/']);
    let parts = split_on(&text, &slash);
    proof {
        crate::document::lemma_split_nonempty(text@, slash@);
    }
    let last = &parts[parts.len() - 1];
    assert(lines_of(parts@).last() == last@);
    if last.len() == 0 {
        None
    } else {
        Some(from_chars(last))
    }
}

/// The root of the project: the top level of the repository where git
/// names one, and the working directory else.
pub fn detect_project_root(current_dir: &str, git_top_level: Option<String>) -> (r: String)
    ensures
        r@ == match git_top_level {
            Some(root) => root@,
            None => current_dir@,
        },
{
    match git_top_level {
        Some(root) => root,
        None => String::from_str(current_dir),
    }
}

/// What git tells about the repository at `root`, given the address of its
/// remote and its default branch where git knows them. Owner and name of
/// the repository are read from the address of the remote.
pub fn git_context(
    root: &str,
    remote: Option<String>,
    default_branch: Option<String>,
) -> (r: GitContext)
    ensures
        r.root@ == root@,
        r.remote == remote,
        r.default_branch == default_branch,
        match remote {
            Some(url) => match owner_repo(url@, true) {
                Some((owner, repo)) => opt_text(r.owner) == Some(owner) && opt_text(r.repo)
                    == Some(repo),
                None => r.owner is None && r.repo is None,
            },
            None => r.owner is None && r.repo is None,
        },
{
    let (owner, repo) = infer_owner_repo(&remote);
    GitContext { root: String::from_str(root), remote, owner, repo, default_branch }
}

/// The project with the given root, manifests and repository; its
/// ecosystem is the one that the manifests stand for.
pub fn build_context(
    root: String,
    manifests: ManifestPaths,
    git: Option<GitContext>,
) -> (r: ProjectContext)
    ensures
        r.root == root,
        r.ecosystem == ecosystem_of(manifests),
        r.manifests == manifests,
        r.git == git,
{
    let ecosystem = detect_ecosystem(&manifests);
    ProjectContext { root, ecosystem, manifests, git }
}

} // verus!
