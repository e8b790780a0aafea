//! Search/replace edits must fail loudly (never silently no-op or mis-edit).

use localcode::edit::apply_edit;

#[test]
fn missing_old_string_fails() {
    let err = apply_edit("abc\n", "xyz", "q", false).unwrap_err().message();
    assert!(err.contains("not found"), "got: {err}");
}

#[test]
fn ambiguous_without_replace_all_fails_with_occurrences() {
    let file = "def add():\n    return 0\n\ndef sub():\n    return 0\n";
    let err = apply_edit(file, "return 0", "return 1", false).unwrap_err().message();
    assert!(err.contains("appears 2 times"), "got: {err}");
    // The error should help disambiguate by listing occurrences.
    assert!(err.contains("Occurrences"), "got: {err}");
}

#[test]
fn unique_edit_succeeds() {
    let file = "def f():\n    return 1\n";
    let (out, n) = apply_edit(file, "    return 1", "    return 2", false).unwrap();
    assert_eq!(n, 1);
    assert!(out.contains("return 2") && !out.contains("return 1"));
}

#[test]
fn replace_all_changes_every_occurrence() {
    let (out, n) = apply_edit("a a a", "a", "b", true).unwrap();
    assert_eq!(n, 3);
    assert_eq!(out, "b b b");
}

#[test]
fn empty_old_string_is_rejected() {
    assert!(apply_edit("abc", "", "y", false).is_err());
}

#[test]
fn disambiguating_with_context_targets_one() {
    let file = "def add(a, b):\n    return a + b\n\n\ndef subtract(a, b):\n    return a + b\n";
    // Including the def line makes the match unique.
    let (out, n) = apply_edit(file, "def subtract(a, b):\n    return a + b", "def subtract(a, b):\n    return a - b", false).unwrap();
    assert_eq!(n, 1);
    assert!(out.contains("def add(a, b):\n    return a + b"), "add must be untouched");
    assert!(out.contains("def subtract(a, b):\n    return a - b"));
}

#[test]
fn ambiguity_report_lists_lines_and_context() {
    let file = "def add():\n    return 0\n\ndef sub():\n    return 0\n";
    let err = apply_edit(file, "return 0", "return 1", false).unwrap_err();
    match &err {
        localcode::edit::EditError::Ambiguous { count, occurrences } => {
            assert_eq!(*count, 2);
            assert_eq!(
                occurrences,
                "\nOccurrences:\n  - line 2, directly below: `def add():`\n  - line 5, directly below: `def sub():`"
            );
        }
        other => panic!("unexpected {other:?}"),
    }
    assert!(err.message().starts_with("old_string appears 2 times, so it is ambiguous."));
    assert!(err.message().contains("change ALL 2 occurrences."));
}

#[test]
fn ambiguity_report_lists_at_most_eight() {
    let file = "x\n".repeat(12);
    let err = apply_edit(&file, "x", "y", false).unwrap_err();
    match err {
        localcode::edit::EditError::Ambiguous { count, occurrences } => {
            assert_eq!(count, 12);
            assert_eq!(occurrences.matches("  - line ").count(), 8);
            assert!(occurrences.contains("  - line 8, directly below: `x`"));
            assert!(!occurrences.contains("line 9,"));
        }
        other => panic!("unexpected {other:?}"),
    }
}

#[test]
fn replace_all_with_single_match_equals_single_edit() {
    let a = apply_edit("one two three", "two", "2", true).unwrap();
    let b = apply_edit("one two three", "two", "2", false).unwrap();
    assert_eq!(a, b);
    assert_eq!(a.0, "one 2 three");
}

#[test]
fn replacement_is_non_overlapping_left_to_right() {
    let (out, n) = apply_edit("aaaa", "aa", "b", true).unwrap();
    assert_eq!((out.as_str(), n), ("bb", 2));
    let (out, n) = apply_edit("aaa", "aa", "b", true).unwrap();
    assert_eq!((out.as_str(), n), ("ba", 1));
}

#[test]
fn error_messages_are_exact() {
    assert_eq!(localcode::edit::EditError::EmptyOld.message(), "old_string must not be empty");
    assert_eq!(
        localcode::edit::EditError::NotFound.message(),
        "old_string not found in file (no changes made). Re-read the file and copy the exact text."
    );
}

#[test]
fn reverse_edit_restores_the_file() {
    let file = "fn a() {}\nfn b() {}\n";
    let (g, n) = apply_edit(file, "fn b", "fn renamed", false).unwrap();
    assert_eq!(n, 1);
    let (back, m) = apply_edit(&g, "fn renamed", "fn b", false).unwrap();
    assert_eq!((back.as_str(), m), (file, 1));
}
