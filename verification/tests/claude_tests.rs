use korlap::claude::{
    api_error_message, decimal_text, estimate_tokens, request_messages,
    system_prompt, tool_definitions, trim_messages, ClaudeMessage, MessageContent, CONTEXT_BUDGET,
    MAX_TOKENS,
};

fn text(role: &str, s: &str) -> ClaudeMessage {
    ClaudeMessage { role: role.to_string(), content: MessageContent::Text(s.to_string()) }
}

fn json(role: &str, s: &str) -> ClaudeMessage {
    ClaudeMessage { role: role.to_string(), content: MessageContent::Json(s.to_string()) }
}

fn roles_and_texts(ms: &[ClaudeMessage]) -> Vec<(String, String)> {
    ms.iter()
        .map(|m| {
            let c = match &m.content {
                MessageContent::Text(s) => s.clone(),
                MessageContent::Json(t) => t.clone(),
            };
            (m.role.clone(), c)
        })
        .collect()
}

#[test]
fn estimate_counts_quarter_bytes_of_json_content() {
    // "hello" serialises as "\"hello\"": 7 bytes, 1 token.
    assert_eq!(estimate_tokens(&[text("user", "hello")]), 1);
    // 16 chars + 2 quotes = 18 bytes -> 4 tokens.
    assert_eq!(estimate_tokens(&[text("user", "abcdefghijklmnop")]), 4);
    // A quote is escaped: "a\"b" is 6 bytes -> 1 token.
    assert_eq!(estimate_tokens(&[text("user", "a\"b")]), 1);
    // JSON content counts its own text: 8 bytes -> 2 tokens.
    assert_eq!(estimate_tokens(&[json("user", "[1,2,33]")]), 2);
    // Each message is rounded down on its own: 7/4 + 7/4 = 2.
    assert_eq!(estimate_tokens(&[text("user", "hello"), text("assistant", "world")]), 2);
    assert_eq!(estimate_tokens(&[]), 0);
}

#[test]
fn estimate_counts_bytes_not_characters() {
    // "é" is two bytes: "\"éé\"" is 6 bytes -> 1 token; "éééé" -> 10 bytes -> 2 tokens.
    assert_eq!(estimate_tokens(&[text("user", "éééé")]), 2);
}

#[test]
fn trim_keeps_everything_within_budget() {
    let ms = vec![text("user", "hi"), text("assistant", "there"), text("user", "again")];
    let r = trim_messages(ms, 1000);
    assert_eq!(r.len(), 3);
}

#[test]
fn trim_drops_oldest_until_fitting() {
    let long = "x".repeat(398); // 400 bytes of JSON -> 100 tokens
    let ms = vec![
        text("user", &long),
        text("assistant", &long),
        text("user", "short one"),
        text("assistant", "ok"),
    ];
    let r = trim_messages(ms, 50);
    assert_eq!(
        roles_and_texts(&r),
        vec![
            ("user".to_string(), "short one".to_string()),
            ("assistant".to_string(), "ok".to_string())
        ]
    );
}

#[test]
fn trim_result_starts_with_plain_user_message() {
    let ms = vec![
        text("assistant", "a"),
        text("user", "[{\"type\":\"tool_result\"}]"),
        json("user", "[{\"type\":\"tool_result\"}]"),
        text("user", "question"),
        text("assistant", "answer"),
    ];
    let r = trim_messages(ms, 1000);
    assert_eq!(r.len(), 2);
    assert_eq!(r[0].role, "user");
    assert!(r[0].is_plain_user());
}

#[test]
fn trim_keeps_nothing_when_nothing_fits() {
    let long = "y".repeat(1000);
    let ms = vec![text("user", &long), text("user", &long)];
    let r = trim_messages(ms, 10);
    assert_eq!(r.len(), 0);
    let ms = vec![text("user", &long), text("assistant", &long)];
    let r = trim_messages(ms, 10);
    assert_eq!(r.len(), 0);
    // A message that fits on its own is kept.
    let ms = vec![text("user", &long), text("user", "short")];
    assert_eq!(roles_and_texts(&trim_messages(ms, 10)), vec![("user".to_string(), "short".to_string())]);
}

#[test]
fn trimming_twice_is_trimming_once() {
    let long = "z".repeat(100);
    let ms = vec![
        text("user", &long),
        text("assistant", "a"),
        text("user", "b"),
        text("assistant", &long),
        text("user", "c"),
    ];
    let once = trim_messages(ms, 30);
    let again = trim_messages(
        once.iter().map(|m| match &m.content {
            MessageContent::Text(s) => text(&m.role, s),
            MessageContent::Json(t) => json(&m.role, t),
        }).collect(),
        30,
    );
    assert_eq!(roles_and_texts(&once), roles_and_texts(&again));
}

#[test]
fn trim_empty_conversation() {
    assert_eq!(trim_messages(vec![], 10).len(), 0);
}

#[test]
fn request_messages_trims_to_the_context_budget() {
    let ms = vec![text("assistant", "a"), text("user", "b")];
    let r = request_messages(ms).unwrap();
    assert_eq!(roles_and_texts(&r), vec![("user".to_string(), "b".to_string())]);
    assert_eq!(CONTEXT_BUDGET, 150_000);
    assert_eq!(MAX_TOKENS, 8192);
}

#[test]
fn tools_offered_are_the_three_with_their_fields() {
    let ts = tool_definitions();
    let names: Vec<&str> = ts.iter().map(|t| t.name.as_str()).collect();
    assert_eq!(names, vec!["execute_command", "apply_diff", "read_file"]);
    let fields: Vec<Vec<(&str, &str, bool)>> = ts
        .iter()
        .map(|t| t.params.iter().map(|p| (p.name.as_str(), p.kind.as_str(), p.required)).collect())
        .collect();
    assert_eq!(fields[0], vec![("command", "string", true), ("rationale", "string", true)]);
    assert_eq!(
        fields[1],
        vec![
            ("file_path", "string", true),
            ("search_block", "string", true),
            ("replace_block", "string", true),
            ("rationale", "string", true)
        ]
    );
    assert_eq!(
        fields[2],
        vec![("file_path", "string", true), ("full", "boolean", false), ("rationale", "string", true)]
    );
    assert!(ts[2].params[1].description.contains("200 lines"));
}

#[test]
fn request_settings() {
    assert!(system_prompt().starts_with("You are an expert software engineering assistant"));
}

#[test]
fn api_error_message_names_status() {
    assert_eq!(
        api_error_message(401),
        "Anthropic API returned an error (HTTP 401). Check the server log for details."
    );
    assert_eq!(decimal_text(0), "0");
    assert_eq!(decimal_text(65535), "65535");
}

#[test]
fn tools_are_offered_as_json_schemas() {
    let ts = tool_definitions();
    assert_eq!(
        ts[2].to_json(),
        "{\"name\":\"read_file\",\"description\":\"Read a file from the task's worktree. Returns file contents.\",\"input_schema\":{\"type\":\"object\",\"properties\":{\"file_path\":{\"type\":\"string\",\"description\":\"Relative path to the file within the worktree\"},\"full\":{\"type\":\"boolean\",\"description\":\"If true, return full file. Default false truncates at 200 lines.\"},\"rationale\":{\"type\":\"string\",\"description\":\"Why this file is needed\"}},\"required\":[\"file_path\",\"rationale\"]}}"
    );
    assert!(ts[0].to_json().ends_with("\"required\":[\"command\",\"rationale\"]}}"));
}

#[test]
fn control_characters_count_as_their_escapes() {
    // "\u{1}" is written "\"\\u0001\"": 8 bytes, 2 tokens; a tab is "\"\\t\"": 4 bytes, 1 token.
    assert_eq!(estimate_tokens(&[text("user", "\u{1}")]), 2);
    assert_eq!(estimate_tokens(&[text("user", "\t")]), 1);
}
