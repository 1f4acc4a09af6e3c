use bdg::badges::{badge_for_crates, badge_for_license, badge_for_npm, badge_for_workflow, Badge, BadgeKind};
use bdg::commands::{
    apply_remaining, badge_label, build_readme_block, ci_workflow_name, dry_run_code,
    extract_version_from_badge, filter_badges, format_badge_label, format_remove_items,
    is_code_fence_line, keep_unselected, markers_present, pick_badges, recommended_indices,
    shorten, summarize_items, workflow_links,
};
use bdg::config::{search_step, SearchStep};
use bdg::diff::{diff_from_patch, unified_diff};
use bdg::manifest::{CargoPackage, CargoToml, MoonMod, PackageJson, RepositoryField};
use bdg::metadata::{infer_owner_repo, resolve_metadata, ManifestData};
use bdg::project::{
    choose_closest, default_branch, git_answer, is_ignored, manifest_kind, path_distance,
    GitContext, ManifestKind,
};
use bdg::providers::RegistryMetadata;
use bdg::readme::{readme_candidates, resolve_readme};
use bdg::version::VersionOptions;
use bdg::workflows::{
    parse_status_line, run_info, workflow_of, GhOutcome, GhRun, GhRunInfo,
};

fn strings(items: &[&str]) -> Vec<String> {
    items.iter().map(|s| s.to_string()).collect()
}

fn badge(kind: BadgeKind, label: &str, image: &str) -> Badge {
    Badge { kind, label: label.to_string(), image_url: image.to_string(), link_url: None }
}

fn sample_badges() -> Vec<Badge> {
    vec![
        badge(BadgeKind::Docs, "docs", "https://x/docs.svg"),
        badge_for_workflow("me", "it", "ci"),
        badge_for_npm("pkg"),
        badge(BadgeKind::Version, "other", "https://x/v.svg"),
        badge_for_license("me", "it"),
        badge_for_workflow("me", "it", "release"),
        badge_for_crates("foo"),
        badge_for_license("me", "again"),
        badge(BadgeKind::Downloads, "dl", "https://x/d.svg"),
    ]
}

fn labels(badges: &[Badge]) -> Vec<String> {
    badges.iter().map(|b| b.render_markdown()).collect()
}

#[test]
fn filter_keeps_wanted_kinds_in_order() {
    let all = sample_badges();
    assert_eq!(labels(&filter_badges(sample_badges(), &[])), labels(&all));
    let some = filter_badges(sample_badges(), &strings(&[" CI ", "License", "unknown"]));
    let kinds: Vec<BadgeKind> = some.iter().map(|b| b.kind).collect();
    assert_eq!(
        kinds,
        vec![BadgeKind::Ci, BadgeKind::License, BadgeKind::Ci, BadgeKind::License]
    );
    assert_eq!(some[2].label, "CI");
    assert_eq!(some[1].image_url, "https://img.shields.io/github/license/me/it.svg");
    assert!(filter_badges(sample_badges(), &strings(&["none"])).is_empty());
    let rest = filter_badges(sample_badges(), &strings(&["version,docs", "downloads", "DOCS"]));
    assert_eq!(rest.len(), 2);
}

#[test]
fn recommended_are_first_ci_first_license_and_registry_versions() {
    assert_eq!(recommended_indices(&sample_badges()), vec![1, 2, 4, 6]);
    assert!(recommended_indices(&[]).is_empty());
}

#[test]
fn shorten_cuts_long_texts() {
    assert_eq!(shorten("short", 5), "short");
    assert_eq!(shorten("shorter", 5), "short\u{2026}");
    assert_eq!(shorten("äöü", 5), "äöü\u{2026}");
    assert_eq!(shorten("äöüxyz", 3), "äöü\u{2026}");
    assert_eq!(shorten("", 0), "");
    assert_eq!(shorten("x", 0), "\u{2026}");
}

#[test]
fn summary_counts_what_is_left_out() {
    let items = strings(&["a", "b", "c"]);
    assert_eq!(summarize_items(&items, 3), "a, b, c");
    assert_eq!(summarize_items(&items, 2), "a, b \u{2026}+1");
    assert_eq!(summarize_items(&items, 0), " \u{2026}+3");
    assert_eq!(summarize_items(&[], 20), "");
    let many: Vec<String> = (0..32).map(|i| i.to_string()).collect();
    assert!(summarize_items(&many, 20).ends_with("18, 19 \u{2026}+12"));
}

#[test]
fn labels_of_badges() {
    let options = VersionOptions { allow_yy_calver: false, year_min: 2000, year_max: 2199 };
    let ci = badge_for_workflow("me", "it", "build");
    assert_eq!(ci_workflow_name(&ci), "build.yaml");
    assert_eq!(format_badge_label(&ci, &options, None), "CI (build.yaml)");
    let done = GhRunInfo {
        ok: true,
        reason: None,
        conclusion: Some("success".to_string()),
        run_id: None,
        html_url: None,
        updated_at: None,
    };
    assert_eq!(format_badge_label(&ci, &options, Some(&done)), "CI (build.yaml) last: success");
    let failed = GhRunInfo::failed("no_runs");
    assert_eq!(format_badge_label(&ci, &options, Some(&failed)), "CI (build.yaml)");
    let odd = badge(BadgeKind::Ci, "CI", "https://x/y.svg");
    assert_eq!(format_badge_label(&odd, &options, None), "CI (workflow)");

    let dated = badge(BadgeKind::Version, "npm", "https://img.shields.io/npm/v/2026.01.svg?x=1");
    assert_eq!(extract_version_from_badge(&dated), Some("2026.01".to_string()));
    assert_eq!(format_badge_label(&dated, &options, None), "npm version (2026.01, calver)");
    let sem = badge(BadgeKind::Version, "crates.io", "https://img.shields.io/crates/v/1.2.3/x");
    assert_eq!(format_badge_label(&sem, &options, None), "crates.io version (1.2.3, semver)");
    let named = badge_for_npm("left-pad");
    assert_eq!(format_badge_label(&named, &options, None), "npm version (left-pad, unknown)");
    let plain = badge(BadgeKind::Version, "moonbit", "https://img.shields.io/badge/moonbit-x");
    assert_eq!(extract_version_from_badge(&plain), None);
    assert_eq!(format_badge_label(&plain, &options, None), "moonbit version");
    assert_eq!(badge_label(&dated, None, "anything"), "npm version (2026.01, anything)");

    for (kind, word) in [
        (BadgeKind::License, "license"),
        (BadgeKind::Release, "release"),
        (BadgeKind::Docs, "docs"),
        (BadgeKind::Downloads, "downloads"),
    ] {
        assert_eq!(format_badge_label(&badge(kind, "l", "i"), &options, Some(&done)), word);
    }
}

#[test]
fn items_offered_for_removal() {
    let long = format!("![x](https://example.com/{})", "a".repeat(60));
    let lines = strings(&[
        "![crate](https://img.shields.io/crates/v/foo.svg)",
        "some prose that is not a badge at all, and quite long, too long",
        &long,
    ]);
    let items = format_remove_items(&lines);
    assert_eq!(
        items[0],
        "crates_version [crates:foo] \"crate\" https://img.shields.io/crates/v/foo.svg"
    );
    assert_eq!(items[1], "unknown some prose that is not a badge at all, and quite\u{2026}");
    assert!(items[2].starts_with("unknown [unknown:"));
    assert!(items[2].ends_with(&format!("] \"x\" https://example.com/{}\u{2026}", "a".repeat(28))));
    assert_eq!(items.len(), 3);
}

#[test]
fn block_report_skips_fenced_lines() {
    let lines = strings(&[
        "![crate](https://img.shields.io/crates/v/foo.svg)",
        "```md",
        "![crate](https://img.shields.io/crates/v/bar.svg)",
        "```",
        "prose",
    ]);
    let (raw, badges) = build_readme_block(&lines);
    assert_eq!(
        raw,
        "![crate](https://img.shields.io/crates/v/foo.svg)\n```md\n![crate](https://img.shields.io/crates/v/bar.svg)\n```\nprose\n"
    );
    let ids: Vec<&str> = badges.iter().map(|b| b.id.as_str()).collect();
    assert_eq!(ids.len(), 2);
    assert_eq!(ids[0], "crates:foo");
    assert!(ids[1].starts_with("unknown:"));
    let (raw, badges) = build_readme_block(&[]);
    assert_eq!(raw, "");
    assert!(badges.is_empty());
    assert!(is_code_fence_line("   ```rust"));
    assert!(!is_code_fence_line("x ```"));
    assert!(!is_code_fence_line("``"));
}

#[test]
fn links_of_a_workflow() {
    let git = |owner: Option<&str>, repo: Option<&str>| {
        Some(GitContext {
            root: "/r".to_string(),
            remote: None,
            owner: owner.map(|s| s.to_string()),
            repo: repo.map(|s| s.to_string()),
            default_branch: None,
        })
    };
    assert_eq!(
        workflow_links(&git(Some("me"), Some("it")), "ci.yaml"),
        (
            "https://github.com/me/it/actions/workflows/ci.yaml/badge.svg".to_string(),
            "https://github.com/me/it/actions/workflows/ci.yaml".to_string()
        )
    );
    assert_eq!(workflow_links(&git(Some("me"), None), "ci.yaml"), (String::new(), String::new()));
    assert_eq!(workflow_links(&None, "ci.yaml"), (String::new(), String::new()));
}

#[test]
fn diff_names_the_file() {
    assert_eq!(unified_diff("README.md", "same\n", "same\n"), "");
    assert_eq!(
        unified_diff("README.md", "a\nb\n", "a\nc\n"),
        "--- a/README.md\n+++ b/README.md\n@@ -1,2 +1,2 @@\n a\n-b\n+c\n"
    );
    assert_eq!(
        diff_from_patch("R", "x", "y", "--- original\n+++ modified\n--- original\nrest"),
        "--- a/R\n+++ b/R\n--- a/R\nrest"
    );
    assert_eq!(diff_from_patch("R", "x", "x", "anything"), "");
}

#[test]
fn owner_and_repo_of_addresses() {
    let infer = |url: &str| infer_owner_repo(&Some(url.to_string()));
    let both = |o: &str, r: &str| (Some(o.to_string()), Some(r.to_string()));
    assert_eq!(infer(" git+https://github.com/me/it.git \n"), both("me", "it"));
    assert_eq!(infer("git://github.com/me/it.git.git"), both("me", "it"));
    assert_eq!(infer("me/it"), both("me", "it"));
    assert_eq!(infer("git@github.com:me/it.git"), both("git@github.com:me", "it"));
    assert_eq!(infer("it"), (None, None));
    assert_eq!(infer("https://github.com/me/"), (None, None));
    assert_eq!(infer("https://github.com//it"), (None, None));
    assert_eq!(infer_owner_repo(&None), (None, None));
    let remote = |url: &str| bdg::project::infer_owner_repo(&Some(url.to_string()));
    assert_eq!(remote("git@github.com:me/it.git"), both("me", "it"));
    assert_eq!(remote("https://github.com/me/it"), both("me", "it"));
    assert_eq!(remote("host:it"), both("host", "it"));
    assert_eq!(bdg::project::infer_owner_repo(&None), (None, None));
}

#[test]
fn nearest_manifest_is_chosen() {
    let from = strings(&["/", "repo", "packages", "a"]);
    assert_eq!(path_distance(&from, &strings(&["/", "repo", "packages", "a"])), 0);
    assert_eq!(path_distance(&from, &strings(&["/", "repo"])), 2);
    assert_eq!(path_distance(&from, &strings(&["/", "repo", "packages", "b", "c"])), 3);
    assert_eq!(path_distance(&from, &strings(&["x"])), 5);
    assert_eq!(path_distance(&[], &[]), 0);
    let candidates = vec![
        (2, "/repo/z".to_string()),
        (1, "/repo/b".to_string()),
        (1, "/repo/a".to_string()),
        (1, "/repo/a".to_string()),
        (3, "/a".to_string()),
    ];
    assert_eq!(choose_closest(&candidates), Some(2));
    assert_eq!(choose_closest(&[]), None);
    assert_eq!(choose_closest(&candidates[..1]), Some(0));
}

#[test]
fn ignored_directories() {
    for first in [".git", "target", "node_modules", "dist", "build", "out", "vendor"] {
        assert!(is_ignored(first, &format!("{}/x/package.json", first)));
    }
    assert!(is_ignored("tests", "tests/fixtures/package.json"));
    assert!(is_ignored("tests", "tests/fixtures"));
    assert!(!is_ignored("tests", "tests/other/package.json"));
    assert!(!is_ignored("src", "src/tests/fixtures"));
    assert!(!is_ignored("Target", "Target/x"));
}

#[test]
fn readme_is_first_existing_candidate() {
    assert_eq!(readme_candidates(false), strings(&["README.md", "README.mbt.md", "docs/README.md"]));
    assert_eq!(readme_candidates(true), strings(&["README.mbt.md", "README.md", "docs/README.md"]));
    assert_eq!(resolve_readme(&[false, true, true]), 1);
    assert_eq!(resolve_readme(&[false, false, true]), 2);
    assert_eq!(resolve_readme(&[false, false, false]), 0);
    assert_eq!(resolve_readme(&[true, true, true]), 0);
    assert_eq!(resolve_readme(&[]), 0);
}

#[test]
fn last_run_of_a_workflow() {
    let unavailable = run_info(GhOutcome::Unavailable);
    assert!(!unavailable.ok);
    assert_eq!(unavailable.reason.as_deref(), Some("gh_unavailable"));
    assert_eq!(run_info(GhOutcome::Failed).reason.as_deref(), Some("auth_required"));
    let none = run_info(GhOutcome::Runs(Vec::new()));
    assert!(!none.ok);
    assert_eq!(none.reason.as_deref(), Some("no_runs"));
    assert!(none.conclusion.is_none() && none.run_id.is_none());
    let run = |c: &str, id: u64| GhRun {
        conclusion: Some(c.to_string()),
        database_id: Some(id),
        updated_at: Some("today".to_string()),
        url: Some("u".to_string()),
    };
    let some = run_info(GhOutcome::Runs(vec![run("success", 7), run("failure", 6)]));
    assert!(some.ok);
    assert_eq!(some.reason, None);
    assert_eq!(some.conclusion.as_deref(), Some("success"));
    assert_eq!(some.run_id, Some(7));
    assert_eq!(some.html_url.as_deref(), Some("u"));
    assert_eq!(some.updated_at.as_deref(), Some("today"));
}

#[test]
fn registry_comes_before_manifest() {
    let registry = RegistryMetadata {
        version: Some("2.0.0".to_string()),
        license: None,
        repository: None,
        description: Some("from registry".to_string()),
        downloads: Some(5),
        homepage: None,
    };
    let package = PackageJson {
        name: Some("pkg".to_string()),
        version: Some("1.0.0".to_string()),
        description: None,
        license: Some("MIT".to_string()),
        repository: Some(RepositoryField::Object { url: Some("https://x/me/it".to_string()) }),
    };
    let node = resolve_metadata(ManifestData::Node { package, registry: registry.clone() });
    assert_eq!(node.name.as_deref(), Some("pkg"));
    assert_eq!(node.version.as_deref(), Some("2.0.0"));
    assert_eq!(node.license.as_deref(), Some("MIT"));
    assert_eq!(node.repository.as_deref(), Some("https://x/me/it"));
    assert_eq!(node.description.as_deref(), Some("from registry"));
    assert_eq!(node.registry.and_then(|r| r.downloads), Some(5));

    let moon = resolve_metadata(ManifestData::MoonBit {
        module: MoonMod { name: Some("m".to_string()), version: None, readme: None },
    });
    assert_eq!(moon.name.as_deref(), Some("m"));
    assert!(moon.version.is_none() && moon.registry.is_none() && moon.license.is_none());

    let rust = resolve_metadata(ManifestData::Rust {
        manifest: CargoToml {
            package: Some(CargoPackage {
                name: Some("c".to_string()),
                version: Some("0.1.0".to_string()),
                description: Some("d".to_string()),
                license: None,
                repository: Some("r".to_string()),
            }),
        },
        registry: RegistryMetadata::empty(),
    });
    assert_eq!(rust.name.as_deref(), Some("c"));
    assert_eq!(rust.version.as_deref(), Some("0.1.0"));
    assert_eq!(rust.repository.as_deref(), Some("r"));
    assert!(rust.registry.is_some());
    let bare = resolve_metadata(ManifestData::Rust {
        manifest: CargoToml { package: None },
        registry: registry.clone(),
    });
    assert_eq!(bare.name, None);
    assert_eq!(bare.version.as_deref(), Some("2.0.0"));
    let unknown = resolve_metadata(ManifestData::Unknown);
    assert!(unknown.name.is_none() && unknown.registry.is_none());
}

#[test]
fn selections_are_applied() {
    let all = sample_badges();
    let picked = pick_badges(&all, &[4, 0, 99, 4]);
    assert_eq!(labels(&picked), vec![all[4].render_markdown(), all[0].render_markdown(), all[4].render_markdown()]);
    assert!(pick_badges(&all, &[]).is_empty());
    let items = strings(&["a", "b", "c", "d"]);
    assert_eq!(keep_unselected(&items, &[2, 0, 7, 2]), strings(&["b", "d"]));
    assert_eq!(keep_unselected(&items, &[]), items);
    let doc = "x\n<!-- bdg:begin -->\na\nb\n<!-- bdg:end -->\ny";
    assert_eq!(apply_remaining(doc, &strings(&["b"])).unwrap(), "x\n<!-- bdg:begin -->\nb\n<!-- bdg:end -->\ny");
    assert_eq!(apply_remaining(doc, &[]).unwrap(), "x\ny");
    assert_eq!(apply_remaining("none", &[]), Err(bdg::readme::BlockError::MissingOrDuplicated));
    assert_eq!(dry_run_code(""), 0);
    assert_eq!(dry_run_code("--- a/README.md\n"), 2);
    assert!(markers_present("```\n <!-- bdg:begin --> x <!-- bdg:end -->"));
    assert!(!markers_present("<!-- bdg:begin -->"));
}

#[test]
fn answers_of_tools_are_read() {
    assert_eq!(search_step(true, true, false), SearchStep::Read);
    assert_eq!(search_step(false, true, true), SearchStep::Stop);
    assert_eq!(search_step(false, false, false), SearchStep::Stop);
    assert_eq!(search_step(false, false, true), SearchStep::Up);
    assert_eq!(manifest_kind("package.json"), Some(ManifestKind::PackageJson));
    assert_eq!(manifest_kind("moon.mod.json"), Some(ManifestKind::MoonMod));
    assert_eq!(manifest_kind("Cargo.toml"), Some(ManifestKind::CargoToml));
    assert_eq!(manifest_kind("cargo.toml"), None);
    assert_eq!(git_answer(" /repo \n"), Some("/repo".to_string()));
    assert_eq!(git_answer(" \n"), None);
    assert_eq!(default_branch("refs/remotes/origin/main\n"), Some("main".to_string()));
    assert_eq!(default_branch("main"), Some("main".to_string()));
    assert_eq!(default_branch("refs/remotes/origin/\n"), None);
    assert_eq!(default_branch(""), None);
    let workflow = workflow_of("ci", "yaml").unwrap();
    assert_eq!((workflow.name.as_str(), workflow.file.as_str()), ("ci", "ci.yaml"));
    assert!(workflow_of("ci", "yml").is_none());
    assert!(workflow_of("ci", "").is_none());
    for text in ["completed\tsuccess  x\nqueued y", "  one  \r\ntwo", "one", "", "\nlate", " \t \n"] {
        let mut parts = text.lines().next().unwrap_or("").split_whitespace();
        let status = parts.next().unwrap_or("").to_string();
        let time = parts.next().unwrap_or("").to_string();
        let expected = if status.is_empty() { None } else { Some((status, time)) };
        assert_eq!(parse_status_line(text), expected, "{:?}", text);
    }
    assert_eq!(
        parse_status_line("completed\tsuccess  x\n"),
        Some(("completed".to_string(), "success".to_string()))
    );
}

#[test]
fn project_is_put_together() {
    assert_eq!(bdg::project::detect_project_root("/here", Some("/top".to_string())), "/top");
    assert_eq!(bdg::project::detect_project_root("/here", None), "/here");
    let git = bdg::project::git_context(
        "/top",
        Some("git@github.com:me/it.git".to_string()),
        Some("main".to_string()),
    );
    assert_eq!(git.root, "/top");
    assert_eq!(git.owner.as_deref(), Some("me"));
    assert_eq!(git.repo.as_deref(), Some("it"));
    assert_eq!(git.remote.as_deref(), Some("git@github.com:me/it.git"));
    assert_eq!(git.default_branch.as_deref(), Some("main"));
    let bare = bdg::project::git_context("/top", None, None);
    assert!(bare.owner.is_none() && bare.repo.is_none() && bare.remote.is_none());
    let manifests = bdg::project::ManifestPaths {
        package_json: None,
        moon_mod: None,
        cargo_toml: Some("/top/Cargo.toml".to_string()),
        package_json_all: Vec::new(),
        moon_mod_all: Vec::new(),
        cargo_toml_all: vec!["/top/Cargo.toml".to_string()],
    };
    let context = bdg::project::build_context("/top".to_string(), manifests, Some(git));
    assert_eq!(context.root, "/top");
    assert_eq!(context.ecosystem, Some(bdg::project::Ecosystem::Rust));
    assert!(!context.has_moonbit());
    assert_eq!(context.manifests.cargo_toml_all.len(), 1);
    assert!(context.git.is_some());
}

#[test]
fn modes_of_the_commands() {
    assert_eq!(bdg::commands::add_mode(true, 3), bdg::commands::AddMode::Everything);
    assert_eq!(bdg::commands::add_mode(false, 3), bdg::commands::AddMode::Prompt);
    assert_eq!(bdg::commands::add_mode(false, 0), bdg::commands::AddMode::Checklist);
    assert_eq!(bdg::commands::remove_mode(true, 0, 0), Some(bdg::commands::RemoveMode::All));
    assert_eq!(bdg::commands::remove_mode(true, 1, 0), None);
    assert_eq!(bdg::commands::remove_mode(true, 0, 2), None);
    assert_eq!(
        bdg::commands::remove_mode(false, 0, 2),
        Some(bdg::commands::RemoveMode::ByIdOrKind)
    );
    assert_eq!(
        bdg::commands::remove_mode(false, 0, 0),
        Some(bdg::commands::RemoveMode::Checklist)
    );
}
