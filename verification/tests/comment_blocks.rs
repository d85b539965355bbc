use solver_bridge::generate::{
    do_extract_comment_blocks, extract_comment_blocks, extract_comment_blocks_with_empty_lines,
    tagged_comment_blocks, update, Codegen, Generator, Location, Mode, Step, UpdateAction,
};

fn strings(lines: &[&str]) -> Vec<String> {
    lines.iter().map(|s| s.to_string()).collect()
}

#[test]
fn a_run_of_comment_lines_is_a_block() {
    let text = "// one\n// two\nfn f() {}\n// three\n";
    assert_eq!(
        do_extract_comment_blocks(text, false),
        vec![(0, strings(&["one", "two"])), (4, strings(&["three"]))]
    );
    assert_eq!(extract_comment_blocks(text), vec![strings(&["one", "two"]), strings(&["three"])]);
}

#[test]
fn a_block_is_numbered_by_the_line_it_starts_on() {
    let text = "fn f() {}\n\n// a\n// b\nfn g() {}\n    // c\n";
    assert_eq!(
        do_extract_comment_blocks(text, false),
        vec![(3, strings(&["a", "b"])), (6, strings(&["c"]))]
    );
}

#[test]
fn leading_white_space_is_ignored() {
    let text = "    // deep\n\t// deeper\n";
    assert_eq!(do_extract_comment_blocks(text, false), vec![(0, strings(&["deep", "deeper"]))]);
}

#[test]
fn a_bare_comment_ends_a_block_unless_empty_lines_are_allowed() {
    let text = "// a\n//\n// b\n";
    assert_eq!(
        do_extract_comment_blocks(text, false),
        vec![(0, strings(&["a"])), (3, strings(&["b"]))]
    );
    assert_eq!(do_extract_comment_blocks(text, true), vec![(0, strings(&["a", "", "b"]))]);
}

#[test]
fn a_comment_without_the_space_is_no_comment_line() {
    let text = "//a\n/// doc\n//! inner\n// yes\n";
    assert_eq!(do_extract_comment_blocks(text, true), vec![(4, strings(&["yes"]))]);
}

#[test]
fn text_without_comments_has_no_block() {
    assert_eq!(do_extract_comment_blocks("", false), vec![]);
    assert_eq!(do_extract_comment_blocks("fn main() {}\n", true), vec![]);
    assert_eq!(extract_comment_blocks("let x = 1; // trailing\n"), Vec::<Vec<String>>::new());
}

#[test]
fn windows_line_endings_are_cut() {
    let text = "// a\r\n// b\r\n";
    assert_eq!(do_extract_comment_blocks(text, false), vec![(0, strings(&["a", "b"]))]);
}

#[test]
fn tagged_blocks_are_picked_by_their_first_line() {
    let text = "\
// Assist: add_derive
//
// Adds a derive.
fn f() {}
// Feature: hover
// Shows docs.
// Assist:   merge_imports  
// Merges.
";
    let blocks = extract_comment_blocks_with_empty_lines("Assist", text);
    assert_eq!(blocks.len(), 1);
    assert_eq!(blocks[0].id, "add_derive");
    assert_eq!(blocks[0].line, 0);
    assert_eq!(blocks[0].contents, strings(&["", "Adds a derive."]));
    let blocks = extract_comment_blocks_with_empty_lines("Feature", text);
    assert_eq!(blocks.len(), 1);
    assert_eq!(blocks[0].id, "hover");
    assert_eq!(blocks[0].line, 5);
    assert_eq!(blocks[0].contents, strings(&["Shows docs.", "Assist:   merge_imports  ", "Merges."]));
}

#[test]
fn the_id_of_a_tagged_block_is_trimmed() {
    let text = "// Assist:   merge_imports  \n// Merges.\n";
    let blocks = extract_comment_blocks_with_empty_lines("Assist", text);
    assert_eq!(blocks.len(), 1);
    assert_eq!(blocks[0].id, "merge_imports");
    assert_eq!(blocks[0].contents, strings(&["Merges."]));
}

#[test]
fn the_tag_needs_its_colon() {
    let text = "// Assistant: no\n// Assist\n";
    assert_eq!(extract_comment_blocks_with_empty_lines("Assist", text).len(), 0);
}

#[test]
fn a_tag_has_to_start_with_an_uppercase_letter() {
    let text = "// assist: x\n";
    assert!(tagged_comment_blocks("assist", text).is_none());
    assert!(tagged_comment_blocks("", text).is_none());
    assert!(tagged_comment_blocks("1st", text).is_none());
    let blocks = tagged_comment_blocks("Assist", "// Assist: x\n").unwrap();
    assert_eq!(blocks.len(), 1);
    assert_eq!(blocks[0].id, "x");
    let blocks = tagged_comment_blocks("Élan", "// Élan: y\n").unwrap();
    assert_eq!(blocks.len(), 1);
    assert_eq!(blocks[0].id, "y");
}

#[test]
fn everything_is_regenerated_in_a_fixed_order() {
    let overwrite = |generator| Step { generator, mode: Mode::Overwrite };
    assert_eq!(
        Codegen { features: false }.run(),
        vec![
            overwrite(Generator::Syntax),
            overwrite(Generator::ParserTests),
            overwrite(Generator::AssistsTests),
            overwrite(Generator::AssistsDocs),
            overwrite(Generator::FeatureDocs),
            overwrite(Generator::DiagnosticDocs),
        ]
    );
    assert_eq!(
        Codegen { features: true }.run(),
        vec![
            overwrite(Generator::LintCompletions),
            overwrite(Generator::Syntax),
            overwrite(Generator::ParserTests),
            overwrite(Generator::AssistsTests),
            overwrite(Generator::AssistsDocs),
            overwrite(Generator::FeatureDocs),
            overwrite(Generator::DiagnosticDocs),
        ]
    );
}

#[test]
fn a_location_holds_its_file_and_line() {
    let l = Location::new(std::path::PathBuf::from("crates/x/src/lib.rs"), 12);
    assert_eq!(l.file, std::path::PathBuf::from("crates/x/src/lib.rs"));
    assert_eq!(l.line, 12);
}

#[test]
fn a_file_with_the_same_contents_is_up_to_date() {
    assert_eq!(update(Some("fn f() {}\n"), "fn f() {}\n", Mode::Overwrite), UpdateAction::UpToDate);
    assert_eq!(update(Some("fn f() {}\n"), "fn f() {}\n", Mode::Verify), UpdateAction::UpToDate);
    assert_eq!(update(Some(""), "", Mode::Verify), UpdateAction::UpToDate);
}

#[test]
fn line_endings_do_not_count() {
    assert_eq!(update(Some("a\r\nb\r\n"), "a\nb\n", Mode::Verify), UpdateAction::UpToDate);
    assert_eq!(update(Some("a\nb\n"), "a\r\nb\r\n", Mode::Verify), UpdateAction::UpToDate);
    // a carriage return alone is no line ending
    assert_eq!(update(Some("a\rb"), "ab", Mode::Verify), UpdateAction::Stale);
    assert_eq!(update(Some("a\r\r\nb"), "a\r\nb", Mode::Verify), UpdateAction::Stale);
}

#[test]
fn a_stale_file_is_written_or_reported() {
    assert_eq!(update(Some("old"), "new", Mode::Overwrite), UpdateAction::Write);
    assert_eq!(update(Some("old"), "new", Mode::Verify), UpdateAction::Stale);
}

#[test]
fn a_file_that_cannot_be_read_is_stale() {
    assert_eq!(update(None, "new", Mode::Overwrite), UpdateAction::Write);
    assert_eq!(update(None, "new", Mode::Verify), UpdateAction::Stale);
    assert_eq!(update(None, "", Mode::Verify), UpdateAction::Stale);
}
