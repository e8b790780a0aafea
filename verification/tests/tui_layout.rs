use localcode::tui::{confirm_key, input_key, result_block, streamed_block, tail_chars, wrapped_rows, InputStep, Key};

#[test]
fn wrap_counts_rows() {
    assert_eq!(wrapped_rows("hello", 80), 1);
    assert_eq!(wrapped_rows("", 80), 1);
    // 10 chars at width 4 → ceil(10/4) = 3 rows.
    assert_eq!(wrapped_rows("0123456789", 4), 3);
    // Two lines, each wrapping.
    assert_eq!(wrapped_rows("aaaaa\nbbbbb", 4), 4); // 2 + 2
    // Blank line still occupies a row.
    assert_eq!(wrapped_rows("a\n\nb", 80), 3);
}

#[test]
fn wrap_width_zero_is_safe() {
    // width.max(1) guards the division.
    assert!(wrapped_rows("abc", 0) >= 1);
}

#[test]
fn tail_keeps_last_chars_on_boundary() {
    assert_eq!(tail_chars("hello world", 5), "world");
    assert_eq!(tail_chars("short", 50), "short");
    // Multibyte-safe (no panic, valid utf-8).
    let s = "héllo wörld";
    let t = tail_chars(s, 5);
    assert_eq!(t.chars().count(), 5);
}

#[test]
fn wrap_counts_exact_rows() {
    assert_eq!(wrapped_rows("abc", 0), 3);
    assert_eq!(wrapped_rows("abcd", 4), 1);
    assert_eq!(wrapped_rows("abcde", 4), 2);
    assert_eq!(wrapped_rows("a\n", 80), 2);
    assert_eq!(wrapped_rows("ééé", 2), 2);
}

#[test]
fn tool_results_show_twenty_lines() {
    assert_eq!(result_block("a\nb"), "a\nb");
    let long: String = (1..=25).map(|i| format!("l{i}\n")).collect();
    let shown = result_block(&long);
    let expected: Vec<String> = (1..=20).map(|i| format!("l{i}")).collect();
    assert_eq!(shown, format!("{}\n… (output truncated)", expected.join("\n")));
    let twenty: String = (1..=20).map(|i| format!("l{i}\n")).collect();
    assert_eq!(result_block(&twenty), expected.join("\n"));
}

#[test]
fn finished_stream_goes_to_scrollback_trimmed() {
    assert_eq!(streamed_block("  hi there \n"), Some("⏺ hi there".to_string()));
    assert_eq!(streamed_block(" \n\t"), None);
}

#[test]
fn keys_answer_approvals() {
    assert_eq!(confirm_key(Key::Char('y'), false), Some(true));
    assert_eq!(confirm_key(Key::Char('Y'), false), Some(true));
    assert_eq!(confirm_key(Key::Enter, false), Some(true));
    assert_eq!(confirm_key(Key::Char('n'), false), Some(false));
    assert_eq!(confirm_key(Key::Esc, false), Some(false));
    assert_eq!(confirm_key(Key::Char('c'), true), Some(false));
    assert_eq!(confirm_key(Key::Char('c'), false), None);
    assert_eq!(confirm_key(Key::Backspace, false), None);
}

#[test]
fn keys_edit_the_input_line() {
    assert_eq!(input_key("ab", Key::Char('c'), false), InputStep::Edit("abc".to_string()));
    assert_eq!(input_key("ab", Key::Backspace, false), InputStep::Edit("a".to_string()));
    assert_eq!(input_key("", Key::Backspace, false), InputStep::Edit(String::new()));
    assert_eq!(input_key("ab", Key::Esc, false), InputStep::Edit(String::new()));
    assert_eq!(input_key("ab", Key::Other, false), InputStep::Edit("ab".to_string()));
    assert_eq!(input_key("ab", Key::Char('c'), true), InputStep::Quit);
    assert_eq!(input_key("", Key::Char('d'), true), InputStep::Quit);
    assert_eq!(input_key("x", Key::Char('d'), true), InputStep::Edit("xd".to_string()));
    assert_eq!(
        input_key("  fix it ", Key::Enter, false),
        InputStep::Submit { line: "  fix it ".to_string(), echo: Some("you› fix it".to_string()) }
    );
    assert_eq!(input_key("  ", Key::Enter, false), InputStep::Submit { line: "  ".to_string(), echo: None });
}
