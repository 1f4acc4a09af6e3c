use bdg::readme::{
    ensure_marker_block, extract_managed_block, extract_marker_block_lines, marker_count,
    readme_newline_info, remove_marker_block, rewrite_marker_block, rewrite_marker_block_lines,
    BlockError, BDG_BEGIN, BDG_END,
};

fn lines(items: &[&str]) -> Vec<String> {
    items.iter().map(|s| s.to_string()).collect()
}

#[test]
fn ensure_returns_document_with_block_unchanged() {
    let docs = [
        "<!-- bdg:begin -->\n<!-- bdg:end -->",
        "# T\n<!-- bdg:begin -->\n![a](a)\n<!-- bdg:end -->\n",
        "# T\r\n\r\n<!-- bdg:begin -->\r\n![a](a)\r\n<!-- bdg:end -->\r\nBody\r\n",
        "a\nb\r\n<!-- bdg:begin -->\r\n<!-- bdg:end -->\r\nx\n",
    ];
    for doc in docs {
        assert_eq!(ensure_marker_block(doc), doc);
    }
}

#[test]
fn ensure_inserts_after_first_heading_outside_fence() {
    let input = "```\n# not a heading\n```\nIntro\n# Real\nBody\n";
    let expected = "```\n# not a heading\n```\nIntro\n# Real\n<!-- bdg:begin -->\n<!-- bdg:end -->\nBody\n";
    assert_eq!(ensure_marker_block(input), expected);
}

#[test]
fn ensure_keeps_crlf_and_trailing_newline() {
    let input = "# Title\r\nIntro\r\n";
    let expected = "# Title\r\n<!-- bdg:begin -->\r\n<!-- bdg:end -->\r\nIntro\r\n";
    assert_eq!(ensure_marker_block(input), expected);
}

#[test]
fn ensure_inserts_again_when_a_sentinel_is_missing() {
    let input = "# T\n<!-- bdg:begin -->\n";
    let expected = "# T\n<!-- bdg:begin -->\n<!-- bdg:end -->\n<!-- bdg:begin -->\n";
    assert_eq!(ensure_marker_block(input), expected);
}

#[test]
fn rewrite_twice_equals_input() {
    let input = "<!-- bdg:begin -->\n![a](a)\n<!-- bdg:end -->";
    let first = rewrite_marker_block(input, &lines(&["![a](a)"])).unwrap();
    let second = rewrite_marker_block(&first, &lines(&["![a](a)"])).unwrap();
    assert_eq!(first, second);
    assert_eq!(first, input);
}

#[test]
fn rewrite_with_trailing_newline_is_idempotent() {
    let input = "# T\n<!-- bdg:begin -->\nold\n<!-- bdg:end -->\nBody\n";
    let new_lines = lines(&["![a](a)", "", "```", "<!-- bdg:end -->", "```"]);
    let first = rewrite_marker_block(input, &new_lines).unwrap();
    assert_eq!(
        first,
        "# T\n<!-- bdg:begin -->\n![a](a)\n\n```\n<!-- bdg:end -->\n```\n<!-- bdg:end -->\nBody\n"
    );
    let second = rewrite_marker_block(&first, &new_lines).unwrap();
    assert_eq!(first, second);
}

#[test]
fn rewrite_with_a_sentinel_among_the_lines_cannot_be_repeated() {
    let input = "<!-- bdg:begin -->\n<!-- bdg:end -->";
    let new_lines = lines(&["<!-- bdg:begin -->"]);
    let first = rewrite_marker_block(input, &new_lines).unwrap();
    assert_eq!(
        rewrite_marker_block(&first, &new_lines),
        Err(BlockError::MissingOrDuplicated)
    );
}

#[test]
fn rewrite_keeps_text_outside_block() {
    let before = "# Title\r\n\r\n  Intro  \r\n```\r\n<!-- bdg:begin -->\r\n```\r\n";
    let after = "<!-- bdg:end -->\r\n\r\nFooter \r\n\r\n";
    let input = format!("{}<!-- bdg:begin -->\r\nold one\r\nold two\r\n{}", before, after);
    let updated = rewrite_marker_block(&input, &lines(&["new"])).unwrap();
    assert_eq!(updated, format!("{}<!-- bdg:begin -->\r\nnew\r\n{}", before, after));
}

#[test]
fn rewrite_by_lines_equals_rewrite_by_markdown() {
    let input = "x\n<!-- bdg:begin -->\n<!-- bdg:end -->\ny";
    let new_lines = lines(&["a", "", "b"]);
    assert_eq!(
        rewrite_marker_block_lines(input, &new_lines),
        rewrite_marker_block(input, &new_lines)
    );
    assert_eq!(
        rewrite_marker_block_lines(input, &new_lines).unwrap(),
        "x\n<!-- bdg:begin -->\na\n\nb\n<!-- bdg:end -->\ny"
    );
}

#[test]
fn rewrite_keeps_crlf_without_trailing_newline() {
    let input = "# T\r\n<!-- bdg:begin -->\r\n<!-- bdg:end -->\r\nEnd";
    let updated = rewrite_marker_block(input, &lines(&["a", "b"])).unwrap();
    assert_eq!(updated, "# T\r\n<!-- bdg:begin -->\r\na\r\nb\r\n<!-- bdg:end -->\r\nEnd");
    assert!(!updated.ends_with('\n'));
    assert_eq!(updated.matches('\n').count(), updated.matches("\r\n").count());
    assert_eq!(readme_newline_info(&updated), ("CRLF".to_string(), false));
}

#[test]
fn remove_keeps_text_outside_block() {
    let input = "Top\nMore\n<!-- bdg:begin -->\n![a](a)\n<!-- bdg:end -->\nBottom\n";
    assert_eq!(remove_marker_block(input).unwrap(), "Top\nMore\nBottom\n");
    let only_before = "Top\n<!-- bdg:begin -->\n<!-- bdg:end -->";
    assert_eq!(remove_marker_block(only_before).unwrap(), "Top");
    let only_after = "<!-- bdg:begin -->\n<!-- bdg:end -->\nBottom";
    assert_eq!(remove_marker_block(only_after).unwrap(), "Bottom");
    let alone = "<!-- bdg:begin -->\n<!-- bdg:end -->\n";
    assert_eq!(remove_marker_block(alone).unwrap(), "\n");
}

#[test]
fn block_errors_are_told_apart() {
    let none = "# Title\nNothing here";
    let twice = "<!-- bdg:begin -->\n<!-- bdg:begin -->\n<!-- bdg:end -->";
    let no_end = "<!-- bdg:begin -->\n";
    let reversed = "<!-- bdg:end -->\n<!-- bdg:begin -->";
    for doc in [none, twice, no_end] {
        assert_eq!(rewrite_marker_block(doc, &[]), Err(BlockError::MissingOrDuplicated));
        assert_eq!(rewrite_marker_block_lines(doc, &[]), Err(BlockError::MissingOrDuplicated));
        assert_eq!(remove_marker_block(doc), Err(BlockError::MissingOrDuplicated));
        assert_eq!(extract_marker_block_lines(doc), Err(BlockError::MissingOrDuplicated));
        assert!(extract_managed_block(doc).is_empty());
    }
    assert_eq!(rewrite_marker_block(reversed, &[]), Err(BlockError::Invalid));
    assert_eq!(rewrite_marker_block_lines(reversed, &[]), Err(BlockError::Invalid));
    assert_eq!(remove_marker_block(reversed), Err(BlockError::Invalid));
    assert_eq!(extract_marker_block_lines(reversed), Err(BlockError::Invalid));
    assert!(extract_managed_block(reversed).is_empty());
    assert_eq!(
        BlockError::MissingOrDuplicated.message(),
        "marker block missing or duplicated"
    );
    assert_eq!(BlockError::Invalid.message(), "invalid marker block");
}

#[test]
fn sentinels_must_match_exactly() {
    let input = " <!-- bdg:begin -->\n<!-- bdg:end --> \n<!-- BDG:begin -->";
    assert_eq!(marker_count(input), 0);
    assert_eq!(rewrite_marker_block(input, &[]), Err(BlockError::MissingOrDuplicated));
}

#[test]
fn extract_drops_blank_lines_only_in_lenient_form() {
    let input = "<!-- bdg:begin -->\n![a](a)\n\n  \t\n```\n![b](b)\n```\n<!-- bdg:end -->";
    assert_eq!(extract_managed_block(input), lines(&["![a](a)", "```", "![b](b)", "```"]));
    assert_eq!(
        extract_marker_block_lines(input).unwrap(),
        lines(&["![a](a)", "", "  \t", "```", "![b](b)", "```"])
    );
}

#[test]
fn marker_count_skips_fenced_sentinels() {
    let input = "```md\n<!-- bdg:begin -->\n```\n<!-- bdg:begin -->\n  ```\n<!-- bdg:begin -->\n```js\n<!-- bdg:begin -->";
    assert_eq!(marker_count(input), 2);
    assert_eq!(marker_count(""), 0);
}

#[test]
fn fenced_sentinels_are_not_the_block() {
    let input = "```\n<!-- bdg:begin -->\n<!-- bdg:end -->\n```\n<!-- bdg:begin -->\nx\n<!-- bdg:end -->";
    assert_eq!(extract_managed_block(input), lines(&["x"]));
    assert_eq!(
        remove_marker_block(input).unwrap(),
        "```\n<!-- bdg:begin -->\n<!-- bdg:end -->\n```"
    );
}

#[test]
fn newline_info_follows_first_crlf() {
    assert_eq!(readme_newline_info(""), ("LF".to_string(), false));
    assert_eq!(readme_newline_info("a\n"), ("LF".to_string(), true));
    assert_eq!(readme_newline_info("a\nb"), ("LF".to_string(), false));
    assert_eq!(readme_newline_info("a\r\nb\n"), ("CRLF".to_string(), false));
    assert_eq!(readme_newline_info("a\nb\r\n"), ("CRLF".to_string(), true));
    assert_eq!(readme_newline_info("a\rb"), ("LF".to_string(), false));
}

#[test]
fn sentinel_constants() {
    assert_eq!(BDG_BEGIN, "<!-- bdg:begin -->");
    assert_eq!(BDG_END, "<!-- bdg:end -->");
}

#[test]
fn text_with_many_code_points_survives() {
    let input = "# Ünïcödé ✓\n<!-- bdg:begin -->\n<!-- bdg:end -->\n日本語\u{2028}x\n";
    let updated = rewrite_marker_block(input, &lines(&["![é](ü)"])).unwrap();
    assert_eq!(
        updated,
        "# Ünïcödé ✓\n<!-- bdg:begin -->\n![é](ü)\n<!-- bdg:end -->\n日本語\u{2028}x\n"
    );
}

#[test]
fn ensure_heals_a_document_without_sentinels() {
    for doc in ["", "\n", "Intro", "# T", "# T\n", "a\r\n# T\r\nb", "```\n# no\n```", "x\n# T\n\n"] {
        let healed = ensure_marker_block(doc);
        assert_eq!(marker_count(&healed), 1, "{:?}", doc);
        assert_eq!(extract_marker_block_lines(&healed), Ok(Vec::new()), "{:?}", doc);
        assert_eq!(ensure_marker_block(&healed), healed);
        assert_eq!(remove_marker_block(&healed).unwrap(), doc, "{:?}", doc);
    }
}

#[test]
fn heading_with_carriage_return_changes_the_style() {
    let healed = ensure_marker_block("# T\r");
    assert_eq!(healed, "# T\r\n<!-- bdg:begin -->\n<!-- bdg:end -->");
    assert_eq!(extract_marker_block_lines(&healed), Err(BlockError::MissingOrDuplicated));
}

#[test]
fn what_was_written_is_read() {
    let input = "# T\r\n<!-- bdg:begin -->\r\nold\r\n<!-- bdg:end -->\r\n";
    let new_lines = lines(&["a", "", " b\rc\n ", "```", "<!-- bdg:begin -->", "```"]);
    let updated = rewrite_marker_block(input, &new_lines).unwrap();
    assert_eq!(extract_marker_block_lines(&updated).unwrap(), new_lines);
    let broken = lines(&["a\r\nb"]);
    let updated = rewrite_marker_block(input, &broken).unwrap();
    assert_eq!(extract_marker_block_lines(&updated).unwrap(), lines(&["a", "b"]));
    assert_eq!(rewrite_marker_block(&updated, &broken).unwrap(), updated);
}
