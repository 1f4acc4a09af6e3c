use bdg::badges::{
    badge_for_crates, badge_for_license, badge_for_moonbit, badge_for_npm, badge_for_workflow,
    Badge, BadgeKind,
};
use bdg::config::{version_options, Config, VersionConfig};
use bdg::manifest::{repository_to_string, RepositoryField};
use bdg::project::{detect_ecosystem, Ecosystem, ManifestPaths, ProjectContext};
use bdg::providers::RegistryMetadata;
use bdg::readme_badges::parse_badge_line;
use bdg::tui::{Key, SelectionState};

#[test]
fn badges_render_as_markdown() {
    let npm = badge_for_npm("@scope/pkg");
    assert_eq!(npm.kind, BadgeKind::Version);
    assert_eq!(
        npm.render_markdown(),
        "[![npm](https://img.shields.io/npm/v/@scope/pkg.svg)](https://www.npmjs.com/package/@scope/pkg)"
    );
    assert_eq!(
        badge_for_crates("foo").render_markdown(),
        "[![crates.io](https://img.shields.io/crates/v/foo.svg)](https://crates.io/crates/foo)"
    );
    assert_eq!(
        badge_for_moonbit("user/pkg").render_markdown(),
        "[![moonbit](https://img.shields.io/badge/moonbit-user/pkg-informational)](https://mooncakes.io/docs/user/pkg)"
    );
    assert_eq!(
        badge_for_moonbit("local").link_url.as_deref(),
        Some("https://mooncakes.io/")
    );
    let license = badge_for_license("me", "it");
    assert_eq!(license.kind, BadgeKind::License);
    assert_eq!(
        license.render_markdown(),
        "[![license](https://img.shields.io/github/license/me/it.svg)](https://github.com/me/it)"
    );
    let ci = badge_for_workflow("me", "it", "ci");
    assert_eq!(ci.kind, BadgeKind::Ci);
    assert_eq!(
        ci.render_markdown(),
        "[![CI](https://github.com/me/it/actions/workflows/ci.yaml/badge.svg)](https://github.com/me/it/actions/workflows/ci.yaml)"
    );
    let bare = Badge {
        kind: BadgeKind::Docs,
        label: "docs".to_string(),
        image_url: "https://x/y.svg".to_string(),
        link_url: None,
    };
    assert_eq!(bare.render_markdown(), "![docs](https://x/y.svg)");
}

#[test]
fn rendered_badges_are_read_back() {
    let ci = parse_badge_line(&badge_for_workflow("me", "it", "build").render_markdown());
    assert_eq!(ci.id, "ci:build.yaml");
    let npm = parse_badge_line(&badge_for_npm("left-pad").render_markdown());
    assert_eq!(npm.id, "npm:left-pad");
    let krate = parse_badge_line(&badge_for_crates("serde").render_markdown());
    assert_eq!(krate.id, "crates:serde");
    let license = parse_badge_line(&badge_for_license("me", "it").render_markdown());
    assert_eq!(license.id, "license:github");
}

fn manifests(node: bool, moon: bool, rust: bool) -> ManifestPaths {
    ManifestPaths {
        package_json: if node { Some("package.json".to_string()) } else { None },
        moon_mod: if moon { Some("moon.mod.json".to_string()) } else { None },
        cargo_toml: if rust { Some("Cargo.toml".to_string()) } else { None },
        package_json_all: Vec::new(),
        moon_mod_all: Vec::new(),
        cargo_toml_all: Vec::new(),
    }
}

#[test]
fn ecosystem_priority() {
    assert_eq!(detect_ecosystem(&manifests(true, true, true)), Some(Ecosystem::Node));
    assert_eq!(detect_ecosystem(&manifests(false, true, true)), Some(Ecosystem::MoonBit));
    assert_eq!(detect_ecosystem(&manifests(false, false, true)), Some(Ecosystem::Rust));
    assert_eq!(detect_ecosystem(&manifests(false, false, false)), None);
    let context = ProjectContext {
        root: ".".to_string(),
        ecosystem: None,
        manifests: manifests(true, true, false),
        git: None,
    };
    assert!(context.has_moonbit());
}

#[test]
fn defaults_and_options() {
    let config = Config::default();
    assert!(!config.version.allow_yy_calver);
    assert_eq!(config.version.year_min, 2000);
    assert_eq!(config.version.year_max, 2199);
    let custom = Config {
        version: VersionConfig { allow_yy_calver: true, year_min: 1990, year_max: 2050 },
    };
    let from_flag = version_options(Some(false), Some(&custom));
    assert!(!from_flag.allow_yy_calver);
    assert_eq!((from_flag.year_min, from_flag.year_max), (1990, 2050));
    let from_config = version_options(None, Some(&custom));
    assert!(from_config.allow_yy_calver);
    let bare = version_options(None, None);
    assert!(!bare.allow_yy_calver);
    assert_eq!((bare.year_min, bare.year_max), (2000, 2199));
    let empty = RegistryMetadata::empty();
    assert!(empty.version.is_none() && empty.license.is_none() && empty.repository.is_none());
    assert!(empty.description.is_none() && empty.downloads.is_none() && empty.homepage.is_none());
}

#[test]
fn repository_field_address() {
    assert_eq!(
        repository_to_string(Some(RepositoryField::String("u".to_string()))),
        Some("u".to_string())
    );
    assert_eq!(
        repository_to_string(Some(RepositoryField::Object { url: Some("v".to_string()) })),
        Some("v".to_string())
    );
    assert_eq!(repository_to_string(Some(RepositoryField::Object { url: None })), None);
    assert_eq!(repository_to_string(None), None);
}

#[test]
fn selection_follows_keys() {
    let mut state = SelectionState::new(3, &[2]);
    assert_eq!(state.cursor, Some(0));
    assert!(state.step(Key::Up).is_none());
    assert_eq!(state.cursor, Some(2));
    assert!(state.step(Key::Toggle).is_none());
    assert!(state.selected.is_empty());
    assert!(state.step(Key::Down).is_none());
    assert_eq!(state.cursor, Some(0));
    state.step(Key::Toggle);
    state.step(Key::Down);
    state.step(Key::Toggle);
    state.step(Key::Other);
    assert_eq!(state.selected, vec![0, 1]);
    let applied = state.step(Key::Apply).unwrap();
    assert!(!applied.cancelled);
    assert_eq!(applied.selected, vec![0, 1]);
    let quit = state.step(Key::Quit).unwrap();
    assert!(quit.cancelled);
    assert!(quit.selected.is_empty());
}
