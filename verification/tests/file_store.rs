use verifiers::file_manager::FileManager;

fn names(v: &[&str]) -> Vec<String> {
    v.iter().map(|s| s.to_string()).collect()
}

#[test]
fn initial_contents_layout() {
    let c = FileManager::initial_contents(&names(&["a", "b"]), "do the thing");
    assert_eq!(c, "[] a\n[] b\n\ndo the thing\n");
}

#[test]
fn initial_contents_no_verifiers() {
    let c = FileManager::initial_contents(&names(&[]), "p");
    assert_eq!(c, "\np\n");
}

#[test]
fn initial_parse_one_entry_per_verifier() {
    let c = FileManager::initial_contents(&names(&["syntax", "style"]), "task prompt");
    let cbs = FileManager::parse_checkboxes(&c);
    assert_eq!(
        cbs,
        vec![("syntax".to_string(), false), ("style".to_string(), false)]
    );
    assert!(!FileManager::all_passed(&c));
}

#[test]
fn checkbox_grammar_exactly_x() {
    let text = "[x] done\n[ ] two\n[] three\n[X] nope\n[*] nope\n[ x] nope\n[x]  spaced\n[x] \nplain line\n";
    let cbs = FileManager::parse_checkboxes(text);
    assert_eq!(
        cbs,
        vec![
            ("done".to_string(), true),
            ("two".to_string(), false),
            ("three".to_string(), false),
            (" spaced".to_string(), true),
        ]
    );
}

#[test]
fn parse_skips_non_matching_lines() {
    let cbs = FileManager::parse_checkboxes("no boxes here\n\njust text");
    assert!(cbs.is_empty());
}

#[test]
fn parse_strips_crlf_terminators() {
    let cbs = FileManager::parse_checkboxes("[x] a\r\n[] b\r\n");
    assert_eq!(
        cbs,
        vec![("a".to_string(), true), ("b".to_string(), false)]
    );
}

#[test]
fn uncheck_all_resets_boxes_and_keeps_payload() {
    let mut c = FileManager::initial_contents(&names(&["a", "b"]), "task");
    // a worker and both verifiers have edited the file
    c = c.replace("[] a", "[x] a").replace("[] b", "[x] b");
    c.push_str("=== worker ===\ndid X\n");
    assert!(FileManager::all_passed(&c));
    let reset = FileManager::uncheck_all(&c);
    let cbs = FileManager::parse_checkboxes(&reset);
    assert_eq!(
        cbs,
        vec![("a".to_string(), false), ("b".to_string(), false)]
    );
    assert!(reset.contains("=== worker ===\ndid X\n"));
    assert_eq!(reset, "[] a\n[] b\n\ntask\n=== worker ===\ndid X\n");
}

#[test]
fn uncheck_all_normalizes_line_endings() {
    assert_eq!(FileManager::uncheck_all("[x] a\r\nplain\r\n"), "[] a\nplain\n");
}

#[test]
fn uncheck_all_keeps_missing_trailing_newline() {
    assert_eq!(FileManager::uncheck_all("[x] a\nplain"), "[] a\nplain");
}

#[test]
fn uncheck_all_leaves_other_lines_alone() {
    assert_eq!(
        FileManager::uncheck_all("[X] caps\n[ ] spaced\n[] empty\n"),
        "[X] caps\n[ ] spaced\n[] empty\n"
    );
}

#[test]
fn all_passed_needs_at_least_one_box() {
    assert!(!FileManager::all_passed(""));
    assert!(!FileManager::all_passed("no boxes"));
    assert!(FileManager::all_passed("[x] a\n"));
    assert!(!FileManager::all_passed("[x] a\n[] b\n"));
    assert!(FileManager::all_passed("[x] a\n[x] b\nextra\n"));
}
