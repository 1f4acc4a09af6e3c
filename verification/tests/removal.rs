use bdg::readme::BlockError;
use bdg::readme_badges::parse_badge_line;
use bdg::readme_remove::{remove_block_lines_by_id_kind, RemoveError};

fn block(lines: &[&str]) -> String {
    let mut content = String::from("# T\n<!-- bdg:begin -->\n");
    for line in lines {
        content.push_str(line);
        content.push('\n');
    }
    content.push_str("<!-- bdg:end -->\nrest\n");
    content
}

fn strings(items: &[&str]) -> Vec<String> {
    items.iter().map(|s| s.to_string()).collect()
}

#[test]
fn outcome_counts_what_left() {
    let lines = [
        "![npm](https://img.shields.io/npm/v/pkg.svg)",
        "![npm](https://img.shields.io/npm/dt/pkg.svg)",
        "",
        "![crate](https://img.shields.io/crates/v/foo.svg)",
        "![npm](https://img.shields.io/npm/dw/other.svg)",
        "some prose",
    ];
    let outcome = remove_block_lines_by_id_kind(
        &block(&lines),
        &strings(&[" crates:foo ", "npm:pkg", "crates:foo", "ci:none"]),
        &strings(&["npm_downloads", " npm_version"]),
        true,
    )
    .unwrap();
    assert_eq!(outcome.remaining, strings(&["", "some prose"]));
    assert_eq!(outcome.removed, 4);
    assert_eq!(outcome.id_hits, 2);
    assert_eq!(
        outcome.removed_ids,
        strings(&["npm:pkg", "npm_downloads:pkg", "crates:foo", "npm_downloads:other"])
    );
    assert_eq!(
        outcome.removed_kinds,
        vec![
            ("npm_version".to_string(), 1),
            ("npm_downloads".to_string(), 2),
            ("crates_version".to_string(), 1),
        ]
    );
    assert_eq!(outcome.missing_ids, strings(&["ci:none"]));
}

#[test]
fn fenced_lines_always_stay() {
    let lines = [
        "  ```md",
        "![crate](https://img.shields.io/crates/v/foo.svg)",
        "```",
        "![crate](https://img.shields.io/crates/v/foo.svg)",
    ];
    let outcome =
        remove_block_lines_by_id_kind(&block(&lines), &strings(&["crates:foo"]), &[], true)
            .unwrap();
    assert_eq!(outcome.remaining, strings(&lines[..3]));
    assert_eq!(outcome.removed, 1);
    assert_eq!(outcome.id_hits, 1);
    assert!(outcome.missing_ids.is_empty());
}

#[test]
fn unknown_lines_leave_by_kind_and_by_hash_id() {
    let lines = ["prose", "![local](./b.svg)"];
    let by_kind =
        remove_block_lines_by_id_kind(&block(&lines), &[], &strings(&["unknown"]), false).unwrap();
    assert!(by_kind.remaining.is_empty());
    assert_eq!(by_kind.removed, 2);
    assert_eq!(by_kind.id_hits, 0);
    assert_eq!(by_kind.removed_kinds, vec![("unknown".to_string(), 2)]);
    let id = parse_badge_line("prose").id;
    let by_id =
        remove_block_lines_by_id_kind(&block(&lines), &[id.clone()], &[], true).unwrap();
    assert_eq!(by_id.remaining, strings(&["![local](./b.svg)"]));
    assert_eq!(by_id.removed_ids, vec![id]);
}

#[test]
fn errors_of_a_removal() {
    let content = block(&["![crate](https://img.shields.io/crates/v/foo.svg)"]);
    assert_eq!(
        remove_block_lines_by_id_kind(&content, &strings(&["ci:ci.yml"]), &[], true).err(),
        Some(RemoveError::IdNotFound)
    );
    assert_eq!(
        remove_block_lines_by_id_kind(&content, &strings(&["ci:ci.yml"]), &strings(&["crates_version"]), true)
            .err(),
        Some(RemoveError::IdNotFound)
    );
    assert!(remove_block_lines_by_id_kind(&content, &[], &strings(&["none"]), true).is_ok());
    assert_eq!(
        remove_block_lines_by_id_kind("no block", &[], &[], false).err(),
        Some(RemoveError::Block(BlockError::MissingOrDuplicated))
    );
    assert_eq!(
        remove_block_lines_by_id_kind("<!-- bdg:end -->\n<!-- bdg:begin -->", &strings(&["x"]), &[], true)
            .err(),
        Some(RemoveError::Block(BlockError::Invalid))
    );
    assert_eq!(RemoveError::IdNotFound.message(), "id_not_found");
    assert_eq!(
        RemoveError::Block(BlockError::Invalid).message(),
        "invalid marker block"
    );
}

#[test]
fn nothing_asked_nothing_leaves() {
    let lines = ["![crate](https://img.shields.io/crates/v/foo.svg)", "x"];
    let outcome = remove_block_lines_by_id_kind(&block(&lines), &[], &[], true).unwrap();
    assert_eq!(outcome.remaining, strings(&lines));
    assert_eq!(outcome.removed, 0);
    assert!(outcome.removed_ids.is_empty());
    assert!(outcome.removed_kinds.is_empty());
    assert!(outcome.missing_ids.is_empty());
}
