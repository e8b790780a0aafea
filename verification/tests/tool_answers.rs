use localcode::json::{Json, JsonNumber};
use localcode::toolcall::call_from_value;
use localcode::pattern::Pattern;
use localcode::tool_results::{
    bash_preview, bash_result, combine_output, dir_listing, edit_preview, edited, exit_code, numbered_lines,
    read_window, rel, too_large, todo_text, write_preview, wrote, GlobMatches, GrepReport, GrepScan,
};

fn json_of(v: serde_json::Value) -> Json {
    match v {
        serde_json::Value::Null => Json::Null,
        serde_json::Value::Bool(b) => Json::Bool(b),
        serde_json::Value::Number(n) => Json::Number(JsonNumber { text: n.to_string(), as_u64: n.as_u64() }),
        serde_json::Value::String(s) => Json::Str(s),
        serde_json::Value::Array(a) => Json::Array(a.into_iter().map(json_of).collect()),
        serde_json::Value::Object(m) => Json::Object(m.into_iter().map(|(k, v)| (k, json_of(v))).collect()),
    }
}

/// A JSON argument object as the library holds it, from its text.
fn parse_json(text: &str) -> Result<Json, serde_json::Error> {
    serde_json::from_str(text).map(json_of)
}

#[test]
fn read_numbers_lines_in_the_window() {
    assert_eq!(numbered_lines("a\nb\nc\n", 1, None), "     1\ta\n     2\tb\n     3\tc\n");
    assert_eq!(numbered_lines("a\nb\nc", 2, Some(1)), "     2\tb\n");
    // A window whose end does not fit in a usize, past the end of the text.
    assert_eq!(numbered_lines("a\nb", 5, Some(usize::MAX)), "(empty or no lines in range)");
    assert_eq!(numbered_lines("a\nb\nc", 2, Some(usize::MAX - 2)), "     2\tb\n     3\tc\n");
    assert_eq!(numbered_lines("a", 5, None), "(empty or no lines in range)");
    assert_eq!(numbered_lines("", 1, None), "(empty or no lines in range)");
    let args = parse_json("{\"offset\":0,\"limit\":3}").unwrap();
    assert_eq!(read_window(&args), (1, Some(3)));
    let args = parse_json("{}").unwrap();
    assert_eq!(read_window(&args), (1, None));
    assert_eq!(too_large(3000000), "file is 3000000 bytes (> 2097152 limit); use grep or read a range");
}

#[test]
fn paths_are_shown_relative_to_the_workspace() {
    assert_eq!(rel("/home/u/p", "/home/u/p/src/a.rs"), "src/a.rs");
    assert_eq!(rel("/home/u/p", "/home/u/px/a.rs"), "/home/u/px/a.rs");
    assert_eq!(rel("/home/u/p", "/home/u/p"), "");
    assert_eq!(wrote("a.rs", 12), "wrote a.rs (12 bytes)");
    assert_eq!(edited("a.rs", 1), "edited a.rs (1 replacement)");
    assert_eq!(edited("a.rs", 3), "edited a.rs (3 replacements)");
}

#[test]
fn listings_are_sorted() {
    let entries = vec![("b".to_string(), false), ("a".to_string(), true), ("C".to_string(), false)];
    assert_eq!(dir_listing(&entries), "C\na/\nb");
    assert_eq!(dir_listing(&Vec::new()), "(empty directory)");
    let mut g = GlobMatches::new();
    assert!(g.add(Some("z.rs".to_string())));
    assert!(g.add(None));
    assert!(g.add(Some("a.rs".to_string())));
    assert_eq!(g.finish(), "a.rs\nz.rs");
    assert_eq!(GlobMatches::new().finish(), "(no matches)");
    let mut g = GlobMatches::new();
    let mut went_on = true;
    for i in 0..500 {
        went_on = g.add(Some(format!("f{i:03}")));
    }
    assert!(!went_on);
    // the marker sorts with the paths
    assert!(g.finish().starts_with("[truncated at 500]\nf000\n"));
}

#[test]
fn grep_reports_matches() {
    let p = Pattern::new("fn [a-z]+").unwrap();
    let mut r = GrepReport::new();
    assert_eq!(r.scan(&p, "src/a.rs", "use x;\nfn main() {}   \n"), GrepScan::Continue);
    assert_eq!(r.scan(&p, "b.rs", "nothing"), GrepScan::Continue);
    assert_eq!(r.finish(), "src/a.rs:2:fn main() {}\n");
    assert_eq!(GrepReport::new().finish(), "(no matches)");
    let long = format!("fn ab{}", "é".repeat(150));
    let mut r = GrepReport::new();
    // byte 200 falls inside a two-byte character
    assert_eq!(r.scan(&p, "c.rs", &long), GrepScan::CutInsideChar);
    let mut r = GrepReport::new();
    let many = "fn a\n".repeat(250);
    assert_eq!(r.scan(&p, "d.rs", &many), GrepScan::Full);
    assert!(r.finish().ends_with("d.rs:200:fn a\n[truncated at 200 matches]\n"));
}

#[test]
fn bash_answers() {
    assert_eq!(combine_output("out", "err"), "out\nerr");
    assert_eq!(combine_output("out\n", "err"), "out\nerr");
    assert_eq!(combine_output("", "err"), "err");
    assert_eq!(combine_output("out", ""), "out");
    assert_eq!(exit_code(Some(3), true), 3);
    assert_eq!(exit_code(None, true), 124);
    assert_eq!(exit_code(None, false), -1);
    let o = bash_result(0, "hi\n", false, "120s").unwrap();
    assert_eq!(o.content, "[exit 0]\nhi\n");
    assert!(!o.is_error);
    let o = bash_result(-1, "x", false, "120s").unwrap();
    assert_eq!(o.content, "[exit -1]\nx");
    assert!(o.is_error);
    let o = bash_result(124, "", true, "2s").unwrap();
    assert_eq!(o.content, "command timed out after 2s and was killed.\n");
    assert!(o.is_error);
    let big = format!("{}{}", "a".repeat(10), "b".repeat(16000));
    let o = bash_result(0, &big, false, "1s").unwrap();
    assert_eq!(o.content, format!("[exit 0]\n[output truncated to last 16000 bytes]\n{}", "b".repeat(16000)));
    let odd = format!("{}{}", "é", "b".repeat(15999));
    assert!(bash_result(0, &odd, false, "1s").is_none());
}

#[test]
fn todo_checklist() {
    let args = parse_json(
        "{\"todos\":[{\"content\":\"a\",\"status\":\"completed\"},{\"content\":\"b\",\"status\":\"in_progress\"},{\"content\":\"c\"}]}",
    )
    .unwrap();
    assert_eq!(todo_text(&args).unwrap(), "[x] a\n[~] b\n[ ] c\n");
    let bad = parse_json("{\"todos\":3}").unwrap();
    assert_eq!(todo_text(&bad).unwrap_err(), "missing 'todos' array");
}

#[test]
fn approval_previews() {
    let args = parse_json("{\"path\":\"a.rs\",\"content\":\"a\\nc\\n\"}").unwrap();
    assert_eq!(
        write_preview("a.rs", "a\nb\n", &args).unwrap(),
        "\x1b[1ma.rs\x1b[0m\n\x1b[90m  a\x1b[0m\n\x1b[31m- b\x1b[0m\n\x1b[32m+ c\x1b[0m\n"
    );
    assert_eq!(write_preview("a.rs", "", &parse_json("{\"path\":\"a.rs\"}").unwrap()), None);

    let edit = parse_json("{\"path\":\"a.rs\",\"old_string\":\"b\",\"new_string\":\"c\"}").unwrap();
    assert_eq!(
        edit_preview("a.rs", "a\nb\n", &edit).unwrap(),
        "\x1b[1ma.rs\x1b[0m\n\x1b[90m  a\x1b[0m\n\x1b[31m- b\x1b[0m\n\x1b[32m+ c\x1b[0m\n"
    );
    // Refused edits (not found, ambiguous) have no preview.
    assert_eq!(edit_preview("a.rs", "a\na\n", &parse_json("{\"old_string\":\"z\"}").unwrap()), None);
    assert_eq!(edit_preview("a.rs", "a\na\n", &parse_json("{\"old_string\":\"a\"}").unwrap()), None);
    // A missing new_string deletes.
    let del = edit_preview("a.rs", "a\nb\n", &parse_json("{\"old_string\":\"b\\n\"}").unwrap()).unwrap();
    assert_eq!(del, "\x1b[1ma.rs\x1b[0m\n\x1b[90m  a\x1b[0m\n\x1b[31m- b\x1b[0m\n");
    assert_eq!(edit_preview("a.rs", "a", &parse_json("{}").unwrap()), None);

    assert_eq!(bash_preview(&parse_json("{\"command\":\"ls -la\"}").unwrap()).unwrap(), "$ ls -la");
    assert_eq!(bash_preview(&parse_json("{}").unwrap()), None);
}

#[test]
fn calls_from_parsed_values() {
    let v = parse_json("{\"name\":\"read_file\",\"arguments\":{\"path\":\"a.rs\"}}").unwrap();
    let c = call_from_value(&v).unwrap();
    assert_eq!((c.name.as_str(), c.arguments.as_str()), ("read_file", "{\"path\":\"a.rs\"}"));
    let v = parse_json("{\"function\":{\"name\":\"bash\",\"parameters\":\"{}\"}}").unwrap();
    let c = call_from_value(&v).unwrap();
    assert_eq!((c.name.as_str(), c.arguments.as_str()), ("bash", "{}"));
    let v = parse_json("{\"name\":\"glob\"}").unwrap();
    assert_eq!(call_from_value(&v).unwrap().arguments, "{}");
    assert!(call_from_value(&parse_json("{\"name\":\"\"}").unwrap()).is_none());
    assert!(call_from_value(&parse_json("[1]").unwrap()).is_none());
    assert!(call_from_value(&parse_json("{\"name\":3}").unwrap()).is_none());
}

#[test]
fn bad_patterns_are_reported() {
    let e = Pattern::parse("(").err().unwrap();
    assert!(e.starts_with("bad regex: "), "{e}");
    assert!(e.len() > "bad regex: ".len());
    assert_eq!(Pattern::parse("a+").ok().map(|p| p.is_match("caat")), Some(true));
}
