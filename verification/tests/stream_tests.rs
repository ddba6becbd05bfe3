use korlap::stream::StreamParser;

fn texts(chunks: &[korlap::claude::StreamChunk]) -> Vec<String> {
    chunks.iter().map(|c| c.text.clone()).collect()
}

fn text_reply() -> String {
    sse(&[
        "event: message_start",
        "data: {\"type\":\"message_start\",\"message\":{\"id\":\"m1\"}}",
        "",
        "event: content_block_start",
        "data: {\"type\":\"content_block_start\",\"index\":0,\"content_block\":{\"type\":\"text\",\"text\":\"\"}}",
        "data: {\"type\":\"content_block_delta\",\"index\":0,\"delta\":{\"type\":\"text_delta\",\"text\":\"Hello\"}}",
        "data: {\"type\":\"content_block_delta\",\"index\":0,\"delta\":{\"type\":\"text_delta\",\"text\":\", world\"}}",
        "data: {\"type\":\"content_block_stop\",\"index\":0}",
        "data: {\"type\":\"message_stop\"}",
    ])
}

fn sse(lines: &[&str]) -> String {
    lines.iter().map(|l| format!("{}\n", l)).collect()
}

#[test]
fn text_reply_is_passed_on_and_assembled() {
    let mut p = StreamParser::new("t1".to_string());
    let out = p.feed(text_reply().as_bytes());
    assert_eq!(texts(&out), vec!["Hello".to_string(), ", world".to_string()]);
    assert!(out.iter().all(|c| c.task_id == "t1"));
    let r = p.finish();
    assert_eq!(r.text, "Hello, world");
    assert!(r.tool_uses.is_empty());
    assert_eq!(r.full_content, "[{\"text\":\"Hello, world\",\"type\":\"text\"}]");
}

#[test]
fn tool_use_input_is_assembled_from_partial_json() {
    let body = sse(&[
        "data: {\"type\":\"content_block_start\",\"index\":0,\"content_block\":{\"type\":\"text\",\"text\":\"\"}}",
        "data: {\"type\":\"content_block_delta\",\"index\":0,\"delta\":{\"type\":\"text_delta\",\"text\":\"Let me look.\"}}",
        "data: {\"type\":\"content_block_stop\",\"index\":0}",
        "data: {\"type\":\"content_block_start\",\"index\":1,\"content_block\":{\"type\":\"tool_use\",\"id\":\"toolu_1\",\"name\":\"read_file\",\"input\":{}}}",
        "data: {\"type\":\"content_block_delta\",\"index\":1,\"delta\":{\"type\":\"input_json_delta\",\"partial_json\":\"{\\\"file_path\\\": \"}}",
        "data: {\"type\":\"content_block_delta\",\"index\":1,\"delta\":{\"type\":\"input_json_delta\",\"partial_json\":\"\\\"src/main.rs\\\"}\"}}",
        "data: {\"type\":\"content_block_stop\",\"index\":1}",
    ]);
    let mut p = StreamParser::new("t2".to_string());
    let out = p.feed(body.as_bytes());
    assert_eq!(texts(&out), vec!["Let me look.".to_string()]);
    let r = p.finish();
    assert_eq!(r.text, "Let me look.");
    assert_eq!(r.tool_uses.len(), 1);
    assert_eq!(r.tool_uses[0].id, "toolu_1");
    assert_eq!(r.tool_uses[0].name, "read_file");
    assert_eq!(r.tool_uses[0].input, "{\"file_path\":\"src/main.rs\"}");
    assert_eq!(
        r.full_content,
        "[{\"text\":\"Let me look.\",\"type\":\"text\"},{\"id\":\"toolu_1\",\"input\":{\"file_path\":\"src/main.rs\"},\"name\":\"read_file\",\"type\":\"tool_use\"}]"
    );
}

#[test]
fn tool_use_with_unparsable_input_gets_an_empty_object() {
    let body = sse(&[
        "data: {\"type\":\"content_block_start\",\"content_block\":{\"type\":\"tool_use\",\"id\":\"a\",\"name\":\"execute_command\"}}",
        "data: {\"type\":\"content_block_delta\",\"delta\":{\"type\":\"input_json_delta\",\"partial_json\":\"{\\\"command\\\":\"}}",
        "data: {\"type\":\"content_block_stop\"}",
    ]);
    let mut p = StreamParser::new("t".to_string());
    p.feed(body.as_bytes());
    let r = p.finish();
    assert_eq!(r.tool_uses.len(), 1);
    assert_eq!(r.tool_uses[0].input, "{}");
}

#[test]
fn lines_split_across_chunks_read_the_same() {
    let reply = text_reply();
    let bytes = reply.as_bytes();
    for cut in [1usize, 7, 40, 100, 150, bytes.len() - 1] {
        let mut p = StreamParser::new("t".to_string());
        let mut out = p.feed(&bytes[..cut]);
        out.extend(p.feed(&bytes[cut..]));
        assert_eq!(texts(&out), vec!["Hello".to_string(), ", world".to_string()]);
        let r = p.finish();
        assert_eq!(r.text, "Hello, world");
    }
}

#[test]
fn incomplete_last_line_is_not_read() {
    let mut p = StreamParser::new("t".to_string());
    let out = p.feed(
        b"data: {\"type\":\"content_block_delta\",\"delta\":{\"type\":\"text_delta\",\"text\":\"x\"}}",
    );
    assert!(out.is_empty());
    let r = p.finish();
    assert_eq!(r.text, "");
}

#[test]
fn done_marker_stops_reading_the_rest_of_the_chunk() {
    let body = sse(&[
        "data: {\"type\":\"content_block_delta\",\"delta\":{\"type\":\"text_delta\",\"text\":\"a\"}}",
        "data: [DONE]",
        "data: {\"type\":\"content_block_delta\",\"delta\":{\"type\":\"text_delta\",\"text\":\"b\"}}",
    ]);
    let mut p = StreamParser::new("t".to_string());
    let out = p.feed(body.as_bytes());
    assert_eq!(texts(&out), vec!["a".to_string()]);
    // What followed the marker is read with the next chunk.
    let out2 = p.feed(b"");
    assert_eq!(texts(&out2), vec!["b".to_string()]);
    assert_eq!(p.finish().text, "ab");
}

#[test]
fn lines_are_trimmed_and_other_lines_ignored() {
    let body = sse(&[
        "  data: {\"type\":\"content_block_delta\",\"delta\":{\"type\":\"text_delta\",\"text\":\"x\"}}\r",
        ": keep-alive",
        "data: not json",
        "data: {\"type\":\"ping\"}",
    ]);
    let mut p = StreamParser::new("t".to_string());
    let out = p.feed(body.as_bytes());
    assert_eq!(texts(&out), vec!["x".to_string()]);
    let r = p.finish();
    assert_eq!(r.text, "x");
    // No block was started, so none is recorded.
    assert_eq!(r.full_content, "[]");
}

#[test]
fn text_delta_outside_a_block_still_counts_as_text() {
    let body = sse(&[
        "data: {\"type\":\"content_block_delta\",\"delta\":{\"type\":\"text_delta\",\"text\":\"free\"}}",
        "data: {\"type\":\"content_block_stop\"}",
    ]);
    let mut p = StreamParser::new("t".to_string());
    p.feed(body.as_bytes());
    let r = p.finish();
    assert_eq!(r.text, "free");
    assert_eq!(r.full_content, "[]");
}

#[test]
fn invalid_utf8_is_replaced() {
    let mut p = StreamParser::new("t".to_string());
    let mut body = b"data: {\"type\":\"content_block_delta\",\"delta\":{\"type\":\"text_delta\",\"text\":\"".to_vec();
    body.push(0xff);
    body.extend_from_slice(b"\"}}\n");
    let out = p.feed(&body);
    assert_eq!(texts(&out), vec!["\u{fffd}".to_string()]);
}
