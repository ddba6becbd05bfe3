use korlap::tools::{
    apply_edit, command_output, decide_safe_join, edit_applied_message, read_failed_message,
    safe_join, shell_invocation, shown_file_text, truncate_output, write_failed_message,
    MAX_FILE_LINES, MAX_OUTPUT_CHARS,
};

#[test]
fn edit_replaces_only_the_first_occurrence() {
    assert_eq!(apply_edit("a b a b", "f.txt", "b", "X"), Ok("a X a b".to_string()));
    assert_eq!(apply_edit("fn main() {}\n", "m.rs", "main", "start"), Ok("fn start() {}\n".to_string()));
    // Replacing with nothing deletes.
    assert_eq!(apply_edit("keep drop keep", "f", " drop", ""), Ok("keep keep".to_string()));
}

#[test]
fn edit_with_empty_old_content_inserts_at_the_start() {
    assert_eq!(apply_edit("body", "f", "", "head "), Ok("head body".to_string()));
}

#[test]
fn edit_of_missing_text_is_refused() {
    assert_eq!(
        apply_edit("abc", "src/x.rs", "zzz", "y"),
        Err("old_content not found in 'src/x.rs'".to_string())
    );
}

#[test]
fn edit_reports() {
    assert_eq!(edit_applied_message("a.rs"), "Applied edit to 'a.rs'");
    assert_eq!(read_failed_message("a.rs", "No such file"), "Failed to read 'a.rs': No such file");
    assert_eq!(write_failed_message("a.rs", "denied"), "Failed to write 'a.rs': denied");
}

#[test]
fn short_files_are_shown_whole() {
    let text: String = (0..200).map(|i| format!("line {}\n", i)).collect();
    assert_eq!(shown_file_text(text.clone(), false), text);
    assert_eq!(MAX_FILE_LINES, 200);
}

#[test]
fn long_files_are_cut_at_200_lines() {
    let text: String = (0..250).map(|i| format!("line {}\r\n", i)).collect();
    let expected = format!(
        "{}\n[...truncated at 200 lines. Use full=true to see all]",
        (0..200).map(|i| format!("line {}", i)).collect::<Vec<_>>().join("\n")
    );
    assert_eq!(shown_file_text(text.clone(), false), expected);
    assert_eq!(shown_file_text(text.clone(), true), text);
}

#[test]
fn short_output_is_kept_whole() {
    assert_eq!(command_output(b"out\n", b"err\n"), "out\nerr\n");
    assert_eq!(command_output(b"", b""), "");
    let exact = "x".repeat(MAX_OUTPUT_CHARS);
    assert_eq!(command_output(exact.as_bytes(), b""), exact);
}

#[test]
fn long_output_is_cut_at_ten_thousand_characters() {
    let long = "y".repeat(12_000);
    let expected = format!("{}\n[...truncated]", "y".repeat(10_000));
    assert_eq!(command_output(long.as_bytes(), b""), expected);
    assert_eq!(truncate_output(long), expected);
    // stdout and stderr are counted together.
    let out = "a".repeat(6_000);
    let err = "b".repeat(6_000);
    let r = command_output(out.as_bytes(), err.as_bytes());
    assert_eq!(r, format!("{}{}\n[...truncated]", out, "b".repeat(4_000)));
}

#[test]
fn output_is_counted_in_characters() {
    // 10 000 two-byte characters are kept whole.
    let s = "é".repeat(10_000);
    assert_eq!(command_output(s.as_bytes(), b""), s);
    // One more is cut after the 10 000th character, never inside one.
    let s = format!("{}é{}", "a".repeat(9_999), "z".repeat(10));
    assert_eq!(command_output(s.as_bytes(), b""), format!("{}é\n[...truncated]", "a".repeat(9_999)));
}

#[test]
fn invalid_output_bytes_are_replaced() {
    assert_eq!(command_output(&[b'o', 0xff, b'k'], b""), "o\u{fffd}k");
}

#[test]
fn shell_for_each_platform() {
    assert_eq!(
        shell_invocation("ls -la", false),
        ("sh".to_string(), vec!["-c".to_string(), "ls -la".to_string()])
    );
    assert_eq!(
        shell_invocation("dir", true),
        ("cmd".to_string(), vec!["/C".to_string(), "dir".to_string()])
    );
}

#[test]
fn paths_must_stay_in_the_worktree() {
    assert_eq!(
        safe_join("src/a.rs", Ok("/w/src/a.rs".to_string()), Ok("/w".to_string())),
        Ok("/w/src/a.rs".to_string())
    );
    assert_eq!(safe_join(".", Ok("/w".to_string()), Ok("/w".to_string())), Ok("/w".to_string()));
    assert_eq!(
        safe_join("../x", Ok("/x".to_string()), Ok("/w".to_string())),
        Err("file_path '../x' escapes the worktree boundary".to_string())
    );
    // A sibling whose name merely starts with the root's name is outside.
    assert_eq!(
        safe_join("../w2/a", Ok("/w2/a".to_string()), Ok("/w".to_string())),
        Err("file_path '../w2/a' escapes the worktree boundary".to_string())
    );
    assert_eq!(
        safe_join("gone.rs", Err("No such file or directory (os error 2)".to_string()), Ok("/w".to_string())),
        Err("Cannot resolve path 'gone.rs': No such file or directory (os error 2)".to_string())
    );
    assert_eq!(
        safe_join("a.rs", Ok("/w/a.rs".to_string()), Err("denied".to_string())),
        Err("Cannot resolve worktree root: denied".to_string())
    );
}

#[test]
fn safe_join_decision() {
    assert_eq!(
        decide_safe_join("a", Ok("/w/a".to_string()), Ok("/w".to_string()), true),
        Ok("/w/a".to_string())
    );
    assert_eq!(
        decide_safe_join("a", Ok("/w/a".to_string()), Ok("/w".to_string()), false),
        Err("file_path 'a' escapes the worktree boundary".to_string())
    );
}
