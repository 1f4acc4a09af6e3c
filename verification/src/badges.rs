//! The badges that can be put into the managed block, and their markup.

use vstd::prelude::*;
use crate::text::{chars_contain, contains, opt_text, to_chars};

verus! {

/// What a badge shows.
#[derive(Debug, Clone, Copy, PartialEq, Eq, Hash, Structural)]
pub enum BadgeKind {
    Version,
    Ci,
    License,
    Release,
    Docs,
    Downloads,
}

/// A badge: an image with a label, and the page that it links to.
#[derive(Debug, Clone)]
pub struct Badge {
    pub kind: BadgeKind,
    pub label: String,
    pub image_url: String,
    pub link_url: Option<String>,
}

/// The mathematical value of a [`Badge`].
pub struct BadgeSpec {
    pub kind: BadgeKind,
    pub label: Seq<char>,
    pub image_url: Seq<char>,
    pub link_url: Option<Seq<char>>,
}

impl View for Badge {
    type V = BadgeSpec;

    open spec fn view(&self) -> BadgeSpec {
        BadgeSpec {
            kind: self.kind,
            label: self.label@,
            image_url: self.image_url@,
            link_url: opt_text(self.link_url),
        }
    }
}

/// The markup of a badge: a linked image where the badge has a link, a bare
/// image where it has none.
pub open spec fn markdown_of(badge: BadgeSpec) -> Seq<char> {
    match badge.link_url {
        Some(link) => "[!["@ + badge.label + "]("@ + badge.image_url + ")]("@ + link + ")"@,
        None => "!["@ + badge.label + "]("@ + badge.image_url + ")"@,
    }
}

/// The version badge of the npm package `package`.
pub open spec fn npm_badge(package: Seq<char>) -> BadgeSpec {
    BadgeSpec {
        kind: BadgeKind::Version,
        label: "npm"@,
        image_url: "https://img.shields.io/npm/v/"@ + package + ".svg"@,
        link_url: Some("https://www.npmjs.com/package/"@ + package),
    }
}

/// The version badge of the crate `crate_name`.
pub open spec fn crates_badge(crate_name: Seq<char>) -> BadgeSpec {
    BadgeSpec {
        kind: BadgeKind::Version,
        label: "crates.io"@,
        image_url: "https://img.shields.io/crates/v/"@ + crate_name + ".svg"@,
        link_url: Some("https://crates.io/crates/"@ + crate_name),
    }
}

/// The badge of the MoonBit module `module`. It links to the documentation
/// of a published module, named `user/package`, and to the registry's home
/// page for any other.
pub open spec fn moonbit_badge(module: Seq<char>) -> BadgeSpec {
    BadgeSpec {
        kind: BadgeKind::Version,
        label: "moonbit"@,
        image_url: "https://img.shields.io/badge/moonbit-"@ + module + "-informational"@,
        link_url: if contains(module, seq!['/']) {
            Some("https://mooncakes.io/docs/"@ + module)
        } else {
            Some("https://mooncakes.io/"@)
        },
    }
}

/// The license badge of the repository `owner/repo`.
pub open spec fn license_badge(owner: Seq<char>, repo: Seq<char>) -> BadgeSpec {
    BadgeSpec {
        kind: BadgeKind::License,
        label: "license"@,
        image_url: "https://img.shields.io/github/license/"@ + owner + "/"@ + repo + ".svg"@,
        link_url: Some("https://github.com/"@ + owner + "/"@ + repo),
    }
}

/// The address of the workflow `workflow` of the repository `owner/repo`.
pub open spec fn workflow_url(owner: Seq<char>, repo: Seq<char>, workflow: Seq<char>) -> Seq<
    char,
> {
    "https://github.com/"@ + owner + "/"@ + repo + "/actions/workflows/"@ + workflow + ".yaml"@
}

/// The badge of the workflow `workflow` of the repository `owner/repo`.
pub open spec fn workflow_badge(
    owner: Seq<char>,
    repo: Seq<char>,
    workflow: Seq<char>,
) -> BadgeSpec {
    BadgeSpec {
        kind: BadgeKind::Ci,
        label: "CI"@,
        image_url: workflow_url(owner, repo, workflow) + "/badge.svg"@,
        link_url: Some(workflow_url(owner, repo, workflow)),
    }
}

impl Badge {
    /// The markup of the badge.
    pub fn render_markdown(&self) -> (r: String)
        ensures
            r@ == markdown_of(self@),
    {
        match &self.link_url {
            Some(link) => {
                let mut out = String::from_str("[![");
                out.append(self.label.as_str());
                out.append("](");
                out.append(self.image_url.as_str());
                out.append(")](");
                out.append(link.as_str());
                out.append(")");
                out
            },
            None => {
                let mut out = String::from_str("![");
                out.append(self.label.as_str());
                out.append("](");
                out.append(self.image_url.as_str());
                out.append(")");
                out
            },
        }
    }
}

/// The version badge of the npm package `package`.
pub fn badge_for_npm(package: &str) -> (r: Badge)
    ensures
        r@ == npm_badge(package@),
{
    let mut image_url = String::from_str("https://img.shields.io/npm/v/");
    image_url.append(package);
    image_url.append(".svg");
    let mut link_url = String::from_str("https://www.npmjs.com/package/");
    link_url.append(package);
    Badge {
        kind: BadgeKind::Version,
        label: String::from_str("npm"),
        image_url,
        link_url: Some(link_url),
    }
}

/// The version badge of the crate `crate_name`.
pub fn badge_for_crates(crate_name: &str) -> (r: Badge)
    ensures
        r@ == crates_badge(crate_name@),
{
    let mut image_url = String::from_str("https://img.shields.io/crates/v/");
    image_url.append(crate_name);
    image_url.append(".svg");
    let mut link_url = String::from_str("https://crates.io/crates/");
    link_url.append(crate_name);
    Badge {
        kind: BadgeKind::Version,
        label: String::from_str("crates.io"),
        image_url,
        link_url: Some(link_url),
    }
}

/// The badge of the MoonBit module `module`.
pub fn badge_for_moonbit(module: &str) -> (r: Badge)
    ensures
        r@ == moonbit_badge(module@),
{
    let mut slash: Vec<char> = Vec::new();
    slash.push('/');
    assert(slash@ == seq!['/']);
    let link_url = if chars_contain(&to_chars(module), &slash) {
        let mut link = String::from_str("https://mooncakes.io/docs/");
        link.append(module);
        Some(link)
    } else {
        Some(String::from_str("https://mooncakes.io/"))
    };
    let mut image_url = String::from_str("https://img.shields.io/badge/moonbit-");
    image_url.append(module);
    image_url.append("-informational");
    Badge { kind: BadgeKind::Version, label: String::from_str("moonbit"), image_url, link_url }
}

/// The license badge of the repository `owner/repo`.
pub fn badge_for_license(owner: &str, repo: &str) -> (r: Badge)
    ensures
        r@ == license_badge(owner@, repo@),
{
    let mut image_url = String::from_str("https://img.shields.io/github/license/");
    image_url.append(owner);
    image_url.append("/");
    image_url.append(repo);
    image_url.append(".svg");
    let mut link_url = String::from_str("https://github.com/");
    link_url.append(owner);
    link_url.append("/");
    link_url.append(repo);
    Badge {
        kind: BadgeKind::License,
        label: String::from_str("license"),
        image_url,
        link_url: Some(link_url),
    }
}

/// The badge of the workflow `workflow` of the repository `owner/repo`.
pub fn badge_for_workflow(owner: &str, repo: &str, workflow: &str) -> (r: Badge)
    ensures
        r@ == workflow_badge(owner@, repo@, workflow@),
{
    let mut link_url = String::from_str("https://github.com/");
    link_url.append(owner);
    link_url.append("/");
    link_url.append(repo);
    link_url.append("/actions/workflows/");
    link_url.append(workflow);
    link_url.append(".yaml");
    let mut image_url = link_url.clone();
    image_url.append("/badge.svg");
    Badge {
        kind: BadgeKind::Ci,
        label: String::from_str("CI"),
        image_url,
        link_url: Some(link_url),
    }
}

} // verus!
