use korlap::chat::{
    approved_result_block, chat_outcome, content_db_text, file_mentions, message_from_row, pending_to_event_list,
    plan_tool_action, rejection_block, require_api_key, require_api_key_for_batch,
    tool_result_block, with_file_context, with_user_turn, worktree_path_or_error, ChatOutcome,
    ToolAction, ToolBatches,
};
use korlap::claude::{ChatResult, MessageContent, PendingToolCall};
use korlap::json::{blocks_to_json, ContentBlock};

fn call(id: &str, name: &str, input: &str) -> PendingToolCall {
    PendingToolCall { id: id.to_string(), name: name.to_string(), input: input.to_string() }
}

fn result_id(b: &ContentBlock) -> String {
    match b {
        ContentBlock::ToolResult { tool_use_id, .. } => tool_use_id.clone(),
        _ => panic!("not a tool result"),
    }
}

#[test]
fn mentions_are_words_starting_with_at() {
    assert_eq!(file_mentions("look at @src/main.rs please"), vec!["src/main.rs".to_string()]);
    assert_eq!(
        file_mentions("@a.rs @b.rs @b.rs @ x@y.rs"),
        vec!["a.rs".to_string(), "b.rs".to_string()]
    );
    // Each path once, in the order of its first mention.
    assert_eq!(file_mentions("@a @b @a"), vec!["a".to_string(), "b".to_string()]);
    assert_eq!(file_mentions("tabs\t@t.rs\nnewline @n.rs"), vec!["t.rs".to_string(), "n.rs".to_string()]);
    assert!(file_mentions("no files here").is_empty());
    assert!(file_mentions("").is_empty());
}

#[test]
fn file_context_goes_before_the_message() {
    let files = vec![
        ("a.rs".to_string(), Some("fn a() {}".to_string())),
        ("missing.rs".to_string(), None),
        ("b.rs".to_string(), Some("fn b() {}".to_string())),
    ];
    assert_eq!(
        with_file_context("explain @a.rs @b.rs", &files),
        "<file path=\"a.rs\">\nfn a() {}\n</file>\n\n<file path=\"b.rs\">\nfn b() {}\n</file>\n\nexplain @a.rs @b.rs"
    );
}

#[test]
fn file_context_without_readable_files_is_the_message() {
    let files = vec![("missing.rs".to_string(), None)];
    assert_eq!(with_file_context("see @missing.rs", &files), "see @missing.rs");
    assert_eq!(with_file_context("plain", &[]), "plain");
}

#[test]
fn stored_rows_are_read_back_as_messages() {
    let m = message_from_row("user".to_string(), "hello".to_string());
    assert_eq!(m.role, "user");
    assert!(matches!(&m.content, MessageContent::Text(s) if s == "hello"));

    let m = message_from_row(
        "user".to_string(),
        "[ {\"type\": \"tool_result\", \"tool_use_id\": \"x\", \"content\": \"ok\"} ]".to_string(),
    );
    assert!(matches!(&m.content,
        MessageContent::Json(t) if t == "[{\"content\":\"ok\",\"tool_use_id\":\"x\",\"type\":\"tool_result\"}]"));
    assert_eq!(content_db_text(&m.content), "[{\"content\":\"ok\",\"tool_use_id\":\"x\",\"type\":\"tool_result\"}]");

    // Starts with '[' but is not JSON: kept as text.
    let m = message_from_row("assistant".to_string(), "[draft] notes".to_string());
    assert!(matches!(&m.content, MessageContent::Text(s) if s == "[draft] notes"));
    assert_eq!(content_db_text(&m.content), "[draft] notes");
}

#[test]
fn user_turn_is_appended() {
    let h = vec![message_from_row("user".to_string(), "a".to_string())];
    let r = with_user_turn(h, "b".to_string());
    assert_eq!(r.len(), 2);
    assert_eq!(r[1].role, "user");
    assert!(matches!(&r[1].content, MessageContent::Text(s) if s == "b"));
}

#[test]
fn worktree_is_required() {
    assert_eq!(worktree_path_or_error("t1", Some("/w".to_string())), Ok("/w".to_string()));
    assert_eq!(
        worktree_path_or_error("t1", None),
        Err("Task t1 has no worktree_path set".to_string())
    );
}

#[test]
fn api_key_is_required() {
    assert_eq!(require_api_key(Some("k".to_string())), Ok("k".to_string()));
    assert_eq!(
        require_api_key(None),
        Err("Anthropic API key not set. Please add it in Settings.".to_string())
    );
    assert_eq!(require_api_key_for_batch(None), Err("Anthropic API key not set.".to_string()));
    assert_eq!(require_api_key_for_batch(Some("k".to_string())), Ok("k".to_string()));
}

#[test]
fn pending_calls_are_listed_in_order() {
    let cs = vec![call("1", "read_file", "{}"), call("2", "apply_diff", "{\"a\":1}")];
    let l = pending_to_event_list(&cs);
    assert_eq!(l.len(), 2);
    assert_eq!((l[0].id.as_str(), l[0].name.as_str()), ("1", "read_file"));
    assert_eq!((l[1].id.as_str(), l[1].input.as_str()), ("2", "{\"a\":1}"));
}

#[test]
fn actions_are_read_from_the_call_input() {
    match plan_tool_action(&call("1", "execute_command", "{\"command\":\"ls -la\",\"rationale\":\"r\"}")) {
        Ok(ToolAction::ExecuteCommand { command }) => assert_eq!(command, "ls -la"),
        _ => panic!("expected a command"),
    }
    match plan_tool_action(&call(
        "2",
        "apply_diff",
        "{\"file_path\":\"a.rs\",\"search_block\":\"x\",\"replace_block\":\"y\",\"rationale\":\"r\"}",
    )) {
        Ok(ToolAction::ApplyDiff { file_path, search_block, replace_block }) => {
            assert_eq!((file_path.as_str(), search_block.as_str(), replace_block.as_str()), ("a.rs", "x", "y"))
        }
        _ => panic!("expected a diff"),
    }
    match plan_tool_action(&call("3", "read_file", "{\"file_path\":\"a.rs\",\"full\":true}")) {
        Ok(ToolAction::ReadFile { file_path, full }) => {
            assert_eq!(file_path, "a.rs");
            assert!(full);
        }
        _ => panic!("expected a read"),
    }
    match plan_tool_action(&call("4", "read_file", "{\"file_path\":\"a.rs\",\"full\":\"yes\"}")) {
        Ok(ToolAction::ReadFile { full, .. }) => assert!(!full),
        _ => panic!("expected a read"),
    }
}

#[test]
fn actions_with_missing_fields_are_refused() {
    let err = |n: &str, i: &str| match plan_tool_action(&call("x", n, i)) {
        Err(e) => e,
        Ok(_) => panic!("expected an error"),
    };
    assert_eq!(err("execute_command", "{}"), "execute_command: missing 'command' field");
    assert_eq!(err("execute_command", "{\"command\":3}"), "execute_command: missing 'command' field");
    assert_eq!(err("apply_diff", "{}"), "apply_diff: missing 'file_path' field");
    assert_eq!(err("apply_diff", "{\"file_path\":\"a\"}"), "apply_diff: missing 'search_block' field");
    assert_eq!(
        err("apply_diff", "{\"file_path\":\"a\",\"search_block\":\"b\"}"),
        "apply_diff: missing 'replace_block' field"
    );
    assert_eq!(err("read_file", "{\"full\":true}"), "read_file: missing 'file_path' field");
    assert_eq!(err("delete_everything", "{}"), "Unknown tool: delete_everything");
}

#[test]
fn result_blocks_serialise_as_the_api_expects() {
    let ok = tool_result_block("tu1".to_string(), "done".to_string());
    let no = rejection_block("tu2".to_string(), "too risky");
    assert_eq!(
        blocks_to_json(&[ok, no]),
        "[{\"content\":\"done\",\"tool_use_id\":\"tu1\",\"type\":\"tool_result\"},{\"content\":\"User rejected this tool call. Reason: too risky\",\"is_error\":true,\"tool_use_id\":\"tu2\",\"type\":\"tool_result\"}]"
    );
    assert_eq!(
        ContentBlock::Text { text: "say \"hi\"".to_string() }.to_json(),
        "{\"text\":\"say \\\"hi\\\"\",\"type\":\"text\"}"
    );
}

#[test]
fn reply_without_tools_completes_the_turn() {
    let mut b = ToolBatches::new();
    let r = ChatResult { text: "all done".to_string(), tool_uses: vec![], full_content: "[]".to_string() };
    match chat_outcome(r, "t1".to_string(), &mut b) {
        ChatOutcome::Complete(d) => {
            assert_eq!(d.task_id, "t1");
            assert_eq!(d.full_text, "all done");
        }
        _ => panic!("expected completion"),
    }
    assert!(b.take_call("t1", "x").is_err());
}

#[test]
fn batch_releases_all_results_on_the_last_decision() {
    let mut b = ToolBatches::new();
    let r = ChatResult {
        text: String::new(),
        tool_uses: vec![call("a", "read_file", "{}"), call("b", "execute_command", "{}")],
        full_content: "[]".to_string(),
    };
    match chat_outcome(r, "t1".to_string(), &mut b) {
        ChatOutcome::ToolCallsPending { task_id, tool_calls } => {
            assert_eq!(task_id, "t1");
            assert_eq!(tool_calls.len(), 2);
        }
        _ => panic!("expected pending calls"),
    }
    // Decide the second call first.
    let (c, last) = b.take_call("t1", "b").unwrap();
    assert_eq!(c.id, "b");
    assert!(!last);
    let released = b.record_result("t1", tool_result_block("b".to_string(), "out".to_string()), last);
    assert!(released.is_empty());

    let (c, last) = b.take_call("t1", "a").unwrap();
    assert_eq!(c.name, "read_file");
    assert!(last);
    let released = b.record_result("t1", rejection_block("a".to_string(), "no"), last);
    assert_eq!(released.iter().map(result_id).collect::<Vec<_>>(), vec!["b".to_string(), "a".to_string()]);

    // Nothing awaits a decision any more.
    assert_eq!(b.take_call("t1", "a").unwrap_err(), "No pending tool calls for task t1");
}

#[test]
fn unknown_call_or_task_is_refused_and_nothing_changes() {
    let mut b = ToolBatches::new();
    assert_eq!(b.take_call("t9", "a").unwrap_err(), "No pending tool calls for task t9");
    b.begin_batch("t1".to_string(), vec![call("a", "read_file", "{}")]);
    assert_eq!(b.take_call("t1", "zz").unwrap_err(), "Tool use id zz not found");
    let (c, last) = b.take_call("t1", "a").unwrap();
    assert_eq!(c.id, "a");
    assert!(last);
}

#[test]
fn batches_of_tasks_are_separate() {
    let mut b = ToolBatches::new();
    b.begin_batch("t1".to_string(), vec![call("a", "read_file", "{}")]);
    b.begin_batch("t2".to_string(), vec![call("a", "read_file", "{}"), call("b", "read_file", "{}")]);
    let (_, last1) = b.take_call("t1", "a").unwrap();
    assert!(last1);
    let (_, last2) = b.take_call("t2", "a").unwrap();
    assert!(!last2);
    assert!(b.take_call("t2", "b").unwrap().1);
}

#[test]
fn stored_messages_read_back_unchanged() {
    let contents = vec![
        MessageContent::Text("plain words".to_string()),
        MessageContent::Json("[{\"text\":\"hi\",\"type\":\"text\"}]".to_string()),
    ];
    for c in contents {
        let stored = content_db_text(&c);
        let back = message_from_row("assistant".to_string(), stored.clone());
        assert_eq!(back.role, "assistant");
        assert_eq!(content_db_text(&back.content), stored);
        match (&c, &back.content) {
            (MessageContent::Text(a), MessageContent::Text(b)) => assert_eq!(a, b),
            (MessageContent::Json(a), MessageContent::Json(b)) => assert_eq!(a, b),
            _ => panic!("kind of content changed"),
        }
    }
}

#[test]
fn failed_calls_go_back_to_the_assistant_as_errors() {
    let ok = approved_result_block("t1".to_string(), Ok("done".to_string()));
    let bad = approved_result_block("t2".to_string(), Err("old_content not found in 'a.rs'".to_string()));
    assert_eq!(
        blocks_to_json(&[ok, bad]),
        "[{\"content\":\"done\",\"tool_use_id\":\"t1\",\"type\":\"tool_result\"},{\"content\":\"old_content not found in 'a.rs'\",\"is_error\":true,\"tool_use_id\":\"t2\",\"type\":\"tool_result\"}]"
    );
}

#[test]
fn a_call_is_handed_out_once() {
    let mut b = ToolBatches::new();
    b.begin_batch("t1".to_string(), vec![call("a", "read_file", "{}"), call("b", "read_file", "{}")]);
    assert!(b.take_call("t1", "a").is_ok());
    assert_eq!(b.take_call("t1", "a").unwrap_err(), "Tool use id a not found");
}
