use korlap::files::{active_worktree, matching_files, MAX_LISTED_FILES};
use korlap::messages::{check_role, message_from_parts, new_message, InsertMessagePayload};
use korlap::paths::db_path;
use korlap::repos::{check_repo_dir, insert_repo_error, new_repo, repo_name};
use korlap::terminal::{
    exit_code, no_terminal_error, stdout_payload, terminal_cwd, terminal_shell,
};

fn insert(role: &str) -> InsertMessagePayload {
    InsertMessagePayload {
        task_id: "t1".to_string(),
        role: role.to_string(),
        content: "hi".to_string(),
        tool_calls: None,
    }
}

#[test]
fn database_file_is_in_the_data_directory() {
    if std::path::MAIN_SEPARATOR == '/' {
        assert_eq!(db_path("/data"), "/data/korlap.db");
        assert_eq!(db_path("/data/"), "/data/korlap.db");
    }
}

#[test]
fn only_known_roles_are_stored() {
    assert_eq!(check_role("user"), Ok(()));
    assert_eq!(check_role("assistant"), Ok(()));
    assert_eq!(check_role("system"), Ok(()));
    assert_eq!(
        check_role("tool"),
        Err("Invalid role 'tool'. Must be one of: user, assistant, system".to_string())
    );
    assert!(check_role("User").is_err());
    assert!(check_role("").is_err());
}

#[test]
fn new_messages_get_an_id() {
    let m = new_message(insert("assistant")).unwrap();
    assert_eq!(m.task_id, "t1");
    assert_eq!(m.role, "assistant");
    assert_eq!(m.content, "hi");
    assert_eq!(m.id.len(), 36);
    assert_eq!(
        new_message(insert("bot")).unwrap_err(),
        "Invalid role 'bot'. Must be one of: user, assistant, system"
    );
    let m = message_from_parts("id1".to_string(), insert("user"), "now".to_string());
    assert_eq!((m.id.as_str(), m.created_at.as_str()), ("id1", "now"));
}

#[test]
fn repositories_must_be_git_directories() {
    assert_eq!(check_repo_dir("/r", true, true), Ok(()));
    assert_eq!(
        check_repo_dir("/nope", false, false),
        Err("Path does not exist or is not a directory: /nope".to_string())
    );
    assert_eq!(
        check_repo_dir("/r", true, false),
        Err("Selected directory is not a git repository".to_string())
    );
}

#[test]
fn repository_names_and_errors() {
    assert_eq!(repo_name("/home/me/projects/korlap"), "korlap");
    assert_eq!(repo_name("/"), "unknown");
    let r = new_repo("/home/me/app".to_string()).unwrap();
    assert_eq!((r.name.as_str(), r.root_path.as_str()), ("app", "/home/me/app"));
    assert_eq!(r.id.len(), 36);
    assert_eq!(
        insert_repo_error("UNIQUE constraint failed: repos.root_path".to_string()),
        "This repository is already added"
    );
    assert_eq!(insert_repo_error("disk I/O error".to_string()), "disk I/O error");
}

#[test]
fn file_search_matches_case_insensitively() {
    let listing = b"src/Main.rs\nsrc/lib.rs\nREADME.md\n\ndocs/main.md\n";
    assert_eq!(
        matching_files(listing, "MAIN"),
        vec!["src/Main.rs".to_string(), "docs/main.md".to_string()]
    );
    assert_eq!(
        matching_files(listing, ""),
        vec![
            "src/Main.rs".to_string(),
            "src/lib.rs".to_string(),
            "README.md".to_string(),
            "docs/main.md".to_string()
        ]
    );
    assert!(matching_files(listing, "zzz").is_empty());
}

#[test]
fn file_search_offers_at_most_twenty() {
    let listing: String = (0..30).map(|i| format!("f{}.rs\n", i)).collect();
    let r = matching_files(listing.as_bytes(), ".rs");
    assert_eq!(r.len(), MAX_LISTED_FILES);
    assert_eq!(r[0], "f0.rs");
    assert_eq!(r[19], "f19.rs");
}

#[test]
fn browsing_needs_a_worktree() {
    assert_eq!(active_worktree("t1", Some("/w".to_string()), true), Ok("/w".to_string()));
    let e = Err("Task t1 has no active worktree".to_string());
    assert_eq!(active_worktree("t1", Some("/w".to_string()), false), e);
    assert_eq!(active_worktree("t1", None, true), e);
}

#[test]
fn terminal_output_is_base64() {
    let p = stdout_payload("term1".to_string(), b"hello\n");
    assert_eq!(p.terminal_id, "term1");
    assert_eq!(p.data, "aGVsbG8K");
    assert_eq!(stdout_payload("x".to_string(), &[0xff, 0x00]).data, "/wA=");
    assert_eq!(stdout_payload("x".to_string(), b"").data, "");
}

#[test]
fn terminal_settings() {
    assert_eq!(exit_code(true), 0);
    assert_eq!(exit_code(false), 1);
    assert_eq!(terminal_shell(Some("/bin/zsh".to_string()), false), "/bin/zsh");
    assert_eq!(terminal_shell(None, false), "/bin/bash");
    assert_eq!(terminal_shell(None, true), "cmd.exe");
    assert_eq!(terminal_cwd(Some("/w".to_string()), true), Ok("/w".to_string()));
    let e = Err("Worktree path not set or does not exist".to_string());
    assert_eq!(terminal_cwd(Some("/w".to_string()), false), e);
    assert_eq!(terminal_cwd(None, true), e);
    assert_eq!(no_terminal_error("abc"), "No terminal: abc");
}
