use bdg::readme_badges::{
    hash_line, parse_badge_line, parse_badge_line_optional, BadgeMeta,
};
use std::collections::hash_map::DefaultHasher;
use std::hash::{Hash, Hasher};

fn std_hash(line: &str) -> String {
    let mut hasher = DefaultHasher::new();
    line.hash(&mut hasher);
    format!("{:x}", hasher.finish())
}

#[test]
fn workflow_badge_is_read() {
    let line = "[![CI](https://github.com/O/R/actions/workflows/ci.yaml/badge.svg)](https://github.com/O/R/actions/workflows/ci.yaml)";
    let badge = parse_badge_line(line);
    assert_eq!(badge.kind, "github_actions");
    assert_eq!(badge.id, "ci:ci.yaml");
    assert_eq!(badge.source, "readme");
    assert_eq!(badge.raw, line);
    match badge.meta {
        Some(BadgeMeta::Workflow { workflow_file }) => assert_eq!(workflow_file, "ci.yaml"),
        other => panic!("unexpected meta {:?}", other),
    }
}

#[test]
fn unknown_id_is_hash_of_the_line() {
    for line in ["![local](./badge.svg)", "plain text", "", "  fünf ✓ ", "[![label][imgref]](linkref)"] {
        let badge = parse_badge_line(line);
        assert_eq!(badge.kind, "unknown");
        assert_eq!(badge.id, format!("unknown:{}", std_hash(line)));
        assert_eq!(hash_line(line), std_hash(line));
        assert!(badge.meta.is_none());
    }
}

#[test]
fn same_line_same_id_other_package_other_id() {
    let a = parse_badge_line("![npm](https://img.shields.io/npm/v/left.svg)");
    let again = parse_badge_line("![npm](https://img.shields.io/npm/v/left.svg)");
    let b = parse_badge_line("![npm](https://img.shields.io/npm/v/right.svg)");
    let c = parse_badge_line("![npm](https://img.shields.io/npm/dm/left.svg)");
    assert_eq!(a.id, again.id);
    assert_eq!(a.id, "npm:left");
    assert_eq!(b.id, "npm:right");
    assert_eq!(c.id, "npm_downloads:left");
    assert_ne!(a.id, b.id);
    assert_ne!(a.id, c.id);
}

#[test]
fn optional_parser_tells_badge_lines_from_other_lines() {
    assert!(parse_badge_line_optional("just prose").is_none());
    assert!(parse_badge_line_optional("![no image]()").is_none());
    assert!(parse_badge_line_optional("[![a](b)]").is_none());
    assert!(parse_badge_line_optional("![a](b) trailing").is_none());
    let local = parse_badge_line_optional("  ![local](./badge.svg)  ").unwrap();
    assert_eq!(local.kind, "unknown");
    assert_eq!(local.label, "local");
    assert_eq!(local.image, "./badge.svg");
    assert_eq!(local.link, None);
    assert_eq!(local.raw, "  ![local](./badge.svg)  ");
}

#[test]
fn unmatched_line_has_empty_fields() {
    let badge = parse_badge_line("[![label][imgref]](linkref)");
    assert_eq!(badge.label, "");
    assert_eq!(badge.image, "");
    assert_eq!(badge.link, None);
}

#[test]
fn linked_image_parts_are_cut_at_first_delimiters() {
    let badge = parse_badge_line("[![a](b](https://x/y.svg )]  ( https://z ) tail)");
    assert_eq!(badge.label, "a");
    assert_eq!(badge.image, "b](https://x/y.svg");
    assert_eq!(badge.link.as_deref(), Some("https://z"));
    assert_eq!(badge.kind, "unknown");
}

#[test]
fn kinds_follow_priority_order() {
    let both = parse_badge_line(
        "![x](https://img.shields.io/npm/v/p.svg?u=/actions/workflows/w.yml/badge.svg)",
    );
    assert_eq!(both.kind, "github_actions");
    assert_eq!(both.id, "ci:w.yml");
    let npm_first = parse_badge_line(
        "![x](https://img.shields.io/npm/v/p.svg?o=img.shields.io/crates/v/c)",
    );
    assert_eq!(npm_first.id, "npm:p");
    let weekly = parse_badge_line("![x](https://img.shields.io/npm/dw/p.svg.svg?a=1)");
    assert_eq!(weekly.kind, "npm_downloads");
    assert_eq!(weekly.id, "npm_downloads:p");
}

#[test]
fn empty_name_falls_through() {
    let badge = parse_badge_line("![x](https://img.shields.io/npm/v/.svg)");
    assert_eq!(badge.kind, "unknown");
    let crates = parse_badge_line("![x](https://img.shields.io/crates/d/?style=flat)");
    assert_eq!(crates.kind, "unknown");
}

#[test]
fn coverage_and_docs_meta() {
    let cov = parse_badge_line("![c](https://img.shields.io/codecov/c/github/me/it.svg?x=1)");
    assert_eq!(cov.kind, "coverage");
    match cov.meta {
        Some(BadgeMeta::Repository { owner, repo }) => {
            assert_eq!(owner, "me");
            assert_eq!(repo, "it");
        }
        other => panic!("unexpected meta {:?}", other),
    }
    let no_repo = parse_badge_line("![c](https://img.shields.io/codecov/c/github/me)");
    assert_eq!(no_repo.kind, "unknown");
    let docs = parse_badge_line("![d](https://img.shields.io/badge/DoCs-api-blue)");
    assert_eq!(docs.id, "docs:custom");
    match docs.meta {
        Some(BadgeMeta::Custom { label, message }) => {
            assert_eq!(label, "DoCs");
            assert_eq!(message, "api");
        }
        other => panic!("unexpected meta {:?}", other),
    }
    let other = parse_badge_line("![d](https://img.shields.io/badge/build-passing-green)");
    assert_eq!(other.kind, "unknown");
}

#[test]
fn http_scheme_is_required() {
    for image in ["img.shields.io/npm/v/p.svg", "ftp://img.shields.io/npm/v/p.svg", "HTTPS://img.shields.io/npm/v/p.svg"] {
        let badge = parse_badge_line(&format!("![x]({})", image));
        assert_eq!(badge.kind, "unknown");
        assert!(badge.id.starts_with("unknown:"));
    }
    let plain = parse_badge_line("![x](http://img.shields.io/npm/v/p.svg)");
    assert_eq!(plain.kind, "npm_version");
}
