use localcode::engine::Role;
use localcode::stream::ChatStream;

#[test]
fn content_and_tool_calls_are_reassembled_across_chunks() {
    let body = [
        "data: {\"choices\":[{\"delta\":{\"content\":\"Hel\"}}]}\n\n",
        "data: {\"choices\":[{\"delta\":{\"content\":\"lo\"}}]}\n",
        "data: {\"choices\":[{\"delta\":{\"tool_calls\":[{\"index\":0,\"id\":\"abc\",\"function\":{\"name\":\"read_\",\"arguments\":\"{\\\"pa\"}}]}}]}\n",
        "data: {\"choices\":[{\"delta\":{\"tool_calls\":[{\"index\":0,\"function\":{\"name\":\"file\",\"arguments\":\"th\\\":1}\"}}]}}]}\n",
        "data: [DONE]\n",
    ]
    .concat();
    let bytes = body.as_bytes();
    // cut in the middle of lines
    let mut s = ChatStream::new();
    let mut pieces = Vec::new();
    for chunk in bytes.chunks(7) {
        pieces.extend(s.feed(chunk));
    }
    assert_eq!(pieces, vec!["Hel".to_string(), "lo".to_string()]);
    let m = s.finish();
    assert_eq!(m.role, Role::Assistant);
    assert_eq!(m.content.as_deref(), Some("Hello"));
    let calls = m.tool_calls.unwrap();
    assert_eq!(calls.len(), 1);
    assert_eq!(calls[0].id, "abc");
    assert_eq!(calls[0].call_type, "function");
    assert_eq!(calls[0].function.name, "read_file");
    assert_eq!(calls[0].function.arguments, "{\"path\":1}");
}

#[test]
fn nameless_fragments_are_dropped_and_ids_numbered() {
    let body = [
        "data: {\"choices\":[{\"delta\":{\"tool_calls\":[{\"index\":1,\"function\":{\"name\":\"bash\"}}]}}]}\n",
        "data: {\"choices\":[{\"delta\":{\"tool_calls\":[{\"index\":2,\"id\":\"\",\"function\":{\"name\":\"glob\"}}]}}]}\n",
        "garbage line\n",
        "data: {\"choices\":[]}\n",
    ]
    .concat();
    let mut s = ChatStream::new();
    assert!(s.feed(body.as_bytes()).is_empty());
    let m = s.finish();
    assert_eq!(m.content, None);
    let calls = m.tool_calls.unwrap();
    assert_eq!(calls.len(), 2);
    assert_eq!(calls[0].id, "call_0");
    assert_eq!(calls[0].function.name, "bash");
    assert_eq!(calls[1].id, "call_1");
    assert_eq!(calls[1].function.name, "glob");
}

#[test]
fn an_unfinished_line_waits_for_its_end() {
    let mut s = ChatStream::new();
    assert!(s.feed(b"data: {\"choices\":[{\"delta\":{\"content\":\"x\"}}]}").is_empty());
    assert_eq!(s.feed(b"\r\n"), vec!["x".to_string()]);
    let m = s.finish();
    assert_eq!(m.content.as_deref(), Some("x"));
    assert!(m.tool_calls.is_none());
}
