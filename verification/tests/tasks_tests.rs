use korlap::tasks::{
    check_transition, cleanup_commands, delete_outcome, new_task, required_branch,
    task_from_parts, worktree_location, CreateTaskPayload, Task, TaskUpdate, UpdateAction,
    UpdateEvent, UpdateTaskStatusPayload,
};

fn payload(task_id: &str, status: &str, branch: Option<&str>) -> UpdateTaskStatusPayload {
    UpdateTaskStatusPayload {
        task_id: task_id.to_string(),
        status: status.to_string(),
        branch_name: branch.map(|b| b.to_string()),
    }
}

fn current(status: &str, root: &str) -> UpdateEvent {
    UpdateEvent::Current { status: status.to_string(), branch: None, repo_root: root.to_string() }
}

fn stored_task(status: &str) -> Task {
    let mut t = task_from_parts(
        "t1".to_string(),
        CreateTaskPayload { repo_id: "r1".to_string(), title: "Add login".to_string() },
        "2024-01-01T00:00:00+00:00".to_string(),
    );
    t.status = status.to_string();
    t
}

fn step(u: &mut TaskUpdate, e: UpdateEvent) -> UpdateAction {
    assert!(u.accepts(&e), "event not expected: {:?}", e);
    u.step(e)
}

fn git_args(a: &UpdateAction) -> (String, Vec<String>) {
    match a {
        UpdateAction::Git { repo_root, args } => (repo_root.clone(), args.clone()),
        other => panic!("expected git, got {:?}", other),
    }
}

fn finished_err(a: UpdateAction) -> String {
    match a {
        UpdateAction::Finish(Err(e)) => e,
        other => panic!("expected an error, got {:?}", other),
    }
}

fn strings(xs: &[&str]) -> Vec<String> {
    xs.iter().map(|s| s.to_string()).collect()
}

#[test]
fn transitions_go_forward_one_column() {
    assert_eq!(check_transition("todo", "in_progress"), Ok(()));
    assert_eq!(check_transition("in_progress", "review"), Ok(()));
    assert_eq!(check_transition("review", "done"), Ok(()));
    assert_eq!(
        check_transition("todo", "done"),
        Err("Invalid status transition: todo → done".to_string())
    );
    assert_eq!(
        check_transition("review", "in_progress"),
        Err("Invalid status transition: review → in_progress".to_string())
    );
    assert_eq!(
        check_transition("done", "todo"),
        Err("Invalid status transition: done → todo".to_string())
    );
    assert!(check_transition("todo", "todo").is_err());
}

#[test]
fn a_branch_is_needed_to_start() {
    assert_eq!(required_branch(&Some("feat/x".to_string())), Ok("feat/x".to_string()));
    let e = Err("branch_name is required when moving to in_progress".to_string());
    assert_eq!(required_branch(&Some(String::new())), e);
    assert_eq!(required_branch(&None), e);
}

fn unix_only() -> bool {
    std::path::MAIN_SEPARATOR == '/'
}

#[test]
fn worktrees_live_beside_the_repository() {
    if !unix_only() {
        return;
    }
    assert_eq!(worktree_location("/repos/app", "t1"), "/repos/.korlap-worktrees/t1");
    assert_eq!(worktree_location("/", "t1"), "/.korlap-worktrees/t1");
}

#[test]
fn new_tasks_start_in_todo() {
    let t = new_task(CreateTaskPayload { repo_id: "r1".to_string(), title: "Fix bug".to_string() })
        .unwrap();
    assert_eq!(t.status, "todo");
    assert_eq!(t.repo_id, "r1");
    assert_eq!(t.title, "Fix bug");
    assert_eq!(t.id.len(), 36);
    // A version-4 UUID in lower-case hyphenated form.
    let cs: Vec<char> = t.id.chars().collect();
    assert_eq!((cs[8], cs[13], cs[18], cs[23]), ('-', '-', '-', '-'));
    assert_eq!(cs[14], '4');
    assert!(matches!(cs[19], '8' | '9' | 'a' | 'b'));
    assert!(t.id.chars().all(|c| c == '-' || c.is_ascii_digit() || ('a'..='f').contains(&c)));
    assert!(t.branch_name.is_none() && t.worktree_path.is_none());
    assert_eq!(t.created_at, t.updated_at);
    let t2 = new_task(CreateTaskPayload { repo_id: "r1".to_string(), title: "Fix bug".to_string() })
        .unwrap();
    assert_ne!(t.id, t2.id);
}

#[test]
fn removal_needs_a_row() {
    assert_eq!(delete_outcome(1), Ok(()));
    assert_eq!(delete_outcome(0), Err("Task not found".to_string()));
}

#[test]
fn cleanup_removes_worktree_then_branch() {
    assert_eq!(
        cleanup_commands(&Some("feat".to_string()), &Some("/w/t1".to_string())),
        vec![strings(&["worktree", "remove", "--force", "/w/t1"]), strings(&["branch", "-D", "feat"])]
    );
    assert_eq!(cleanup_commands(&Some("feat".to_string()), &None), vec![strings(&["branch", "-D", "feat"])]);
    assert!(cleanup_commands(&None, &None).is_empty());
}

#[test]
fn starting_work_creates_the_worktree_then_records_it() {
    if !unix_only() {
        return;
    }
    let (mut u, a) = TaskUpdate::begin(payload("t1", "in_progress", Some("feat")));
    assert!(matches!(a, UpdateAction::LoadCurrent));
    assert_eq!(u.task_id(), "t1");
    match step(&mut u, current("todo", "/repos/app")) {
        UpdateAction::CreateDirAll { path } => assert_eq!(path, "/repos/.korlap-worktrees"),
        other => panic!("expected a directory, got {:?}", other),
    }
    let a = step(&mut u, UpdateEvent::Written);
    assert_eq!(
        git_args(&a),
        (
            "/repos/app".to_string(),
            strings(&["worktree", "add", "/repos/.korlap-worktrees/t1", "-b", "feat"])
        )
    );
    match step(&mut u, UpdateEvent::GitOk(String::new())) {
        UpdateAction::StartWork { branch, worktree_path } => {
            assert_eq!(branch, "feat");
            assert_eq!(worktree_path, "/repos/.korlap-worktrees/t1");
        }
        other => panic!("expected the task to be recorded, got {:?}", other),
    }
    let a = step(&mut u, UpdateEvent::Written);
    assert!(matches!(a, UpdateAction::LoadTask));
    let a = step(&mut u, UpdateEvent::Loaded(stored_task("in_progress")));
    match a {
        UpdateAction::Finish(Ok(t)) => {
            assert_eq!(t.task.status, "in_progress");
            assert!(t.diff.is_none());
        }
        other => panic!("expected the task, got {:?}", other),
    }
    assert!(u.is_finished());
}

#[test]
fn failed_worktree_records_nothing() {
    let (mut u, _) = TaskUpdate::begin(payload("t1", "in_progress", Some("feat")));
    step(&mut u, current("todo", "/repos/app"));
    let a = step(&mut u, UpdateEvent::Written);
    let _ = git_args(&a);
    let a = step(&mut u, UpdateEvent::Failed("fatal: branch exists".to_string()));
    assert_eq!(finished_err(a), "Failed to create git worktree: fatal: branch exists");
    assert!(u.is_finished());
}

#[test]
fn failed_worktree_directory_records_nothing() {
    let (mut u, _) = TaskUpdate::begin(payload("t1", "in_progress", Some("feat")));
    step(&mut u, current("todo", "/repos/app"));
    let a = step(&mut u, UpdateEvent::Failed("permission denied".to_string()));
    assert_eq!(finished_err(a), "permission denied");
}

#[test]
fn refused_moves_end_at_once() {
    let (mut u, _) = TaskUpdate::begin(payload("t1", "done", None));
    assert_eq!(finished_err(step(&mut u, current("todo", "/r"))), "Invalid status transition: todo → done");
    assert!(u.is_finished());
    assert!(!u.accepts(&UpdateEvent::Written));

    let (mut u, _) = TaskUpdate::begin(payload("t1", "review", None));
    assert_eq!(finished_err(step(&mut u, UpdateEvent::Missing)), "Task not found");

    let (mut u, _) = TaskUpdate::begin(payload("t1", "in_progress", Some("")));
    assert_eq!(
        finished_err(step(&mut u, current("todo", "/r"))),
        "branch_name is required when moving to in_progress"
    );
    let (mut u, _) = TaskUpdate::begin(payload("t1", "in_progress", None));
    assert_eq!(
        finished_err(step(&mut u, current("todo", "/r"))),
        "branch_name is required when moving to in_progress"
    );
}

#[test]
fn review_captures_the_branch_diff() {
    let (mut u, _) = TaskUpdate::begin(payload("t1", "review", None));
    match step(&mut u, current("in_progress", "/repos/app")) {
        UpdateAction::SetStatus { status } => assert_eq!(status, "review"),
        other => panic!("expected a status write, got {:?}", other),
    }
    assert!(matches!(step(&mut u, UpdateEvent::Written), UpdateAction::LoadBranch));
    let a = step(&mut u, UpdateEvent::Branch(Some("feat".to_string())));
    assert_eq!(git_args(&a), ("/repos/app".to_string(), strings(&["diff", "main...feat"])));
    assert!(matches!(step(&mut u, UpdateEvent::GitOk("+added\n".to_string())), UpdateAction::LoadTask));
    match step(&mut u, UpdateEvent::Loaded(stored_task("review"))) {
        UpdateAction::Finish(Ok(t)) => assert_eq!(t.diff, Some("+added\n".to_string())),
        other => panic!("expected the task, got {:?}", other),
    }
}

#[test]
fn review_without_diff_still_succeeds() {
    let (mut u, _) = TaskUpdate::begin(payload("t1", "review", None));
    step(&mut u, current("in_progress", "/r"));
    step(&mut u, UpdateEvent::Written);
    step(&mut u, UpdateEvent::Branch(Some("feat".to_string())));
    assert!(matches!(step(&mut u, UpdateEvent::Failed("bad revision".to_string())), UpdateAction::LoadTask));
    match step(&mut u, UpdateEvent::Loaded(stored_task("review"))) {
        UpdateAction::Finish(Ok(t)) => assert!(t.diff.is_none()),
        other => panic!("expected the task, got {:?}", other),
    }

    let (mut u, _) = TaskUpdate::begin(payload("t1", "review", None));
    step(&mut u, current("in_progress", "/r"));
    step(&mut u, UpdateEvent::Written);
    assert!(matches!(step(&mut u, UpdateEvent::Branch(None)), UpdateAction::LoadTask));
}

#[test]
fn done_merges_and_cleans_up() {
    let (mut u, _) = TaskUpdate::begin(payload("t1", "done", None));
    step(&mut u, current("review", "/repos/app"));
    assert!(matches!(step(&mut u, UpdateEvent::Written), UpdateAction::LoadBranchAndWorktree));
    let a = step(
        &mut u,
        UpdateEvent::BranchAndWorktree(Some("feat".to_string()), Some("/w/t1".to_string())),
    );
    assert_eq!(git_args(&a).1, strings(&["rev-parse", "--abbrev-ref", "HEAD"]));
    let a = step(&mut u, UpdateEvent::GitOk("main".to_string()));
    assert_eq!(git_args(&a).1, strings(&["merge", "feat"]));
    let a = step(&mut u, UpdateEvent::GitOk(String::new()));
    assert_eq!(git_args(&a).1, strings(&["worktree", "remove", "--force", "/w/t1"]));
    // A failed removal does not stop the cleanup.
    let a = step(&mut u, UpdateEvent::Failed("not a worktree".to_string()));
    assert_eq!(git_args(&a).1, strings(&["branch", "-D", "feat"]));
    assert!(matches!(step(&mut u, UpdateEvent::GitOk(String::new())), UpdateAction::LoadTask));
    match step(&mut u, UpdateEvent::Loaded(stored_task("done"))) {
        UpdateAction::Finish(Ok(t)) => assert_eq!(t.task.status, "done"),
        other => panic!("expected the task, got {:?}", other),
    }
}

#[test]
fn done_refuses_a_detached_head_and_keeps_review() {
    let (mut u, _) = TaskUpdate::begin(payload("t1", "done", None));
    step(&mut u, current("review", "/r"));
    step(&mut u, UpdateEvent::Written);
    step(&mut u, UpdateEvent::BranchAndWorktree(Some("feat".to_string()), Some("/w".to_string())));
    assert!(matches!(step(&mut u, UpdateEvent::GitOk("HEAD".to_string())), UpdateAction::RollbackToReview));
    assert_eq!(
        finished_err(step(&mut u, UpdateEvent::Written)),
        "Cannot merge: repository is in detached HEAD state. Check out a branch first."
    );

    let (mut u, _) = TaskUpdate::begin(payload("t1", "done", None));
    step(&mut u, current("review", "/r"));
    step(&mut u, UpdateEvent::Written);
    step(&mut u, UpdateEvent::BranchAndWorktree(Some("feat".to_string()), Some("/w".to_string())));
    let a = step(&mut u, UpdateEvent::Failed("not a git repository".to_string()));
    assert!(matches!(a, UpdateAction::RollbackToReview));
    assert_eq!(
        finished_err(step(&mut u, UpdateEvent::Failed("locked".to_string()))),
        "Cannot determine current branch: not a git repository"
    );
}

#[test]
fn failed_merge_leaves_the_task_in_review() {
    let (mut u, _) = TaskUpdate::begin(payload("t1", "done", None));
    step(&mut u, current("review", "/r"));
    step(&mut u, UpdateEvent::Written);
    step(&mut u, UpdateEvent::BranchAndWorktree(Some("feat".to_string()), Some("/w".to_string())));
    step(&mut u, UpdateEvent::GitOk("main".to_string()));
    let a = step(&mut u, UpdateEvent::Failed("CONFLICT in a.rs".to_string()));
    assert!(matches!(a, UpdateAction::RollbackToReview));
    assert_eq!(
        finished_err(step(&mut u, UpdateEvent::Written)),
        "Merge failed: CONFLICT in a.rs. Task remains in REVIEW."
    );
}

#[test]
fn done_without_worktree_skips_the_merge() {
    let (mut u, _) = TaskUpdate::begin(payload("t1", "done", None));
    step(&mut u, current("review", "/r"));
    step(&mut u, UpdateEvent::Written);
    let a = step(&mut u, UpdateEvent::BranchAndWorktree(Some("feat".to_string()), None));
    assert!(matches!(a, UpdateAction::LoadTask));
}

#[test]
fn failed_record_of_the_start_removes_the_worktree_and_branch() {
    let (mut u, _) = TaskUpdate::begin(payload("t1", "in_progress", Some("feat")));
    step(&mut u, current("todo", "/repos/app"));
    step(&mut u, UpdateEvent::Written);
    step(&mut u, UpdateEvent::GitOk(String::new()));
    let a = step(&mut u, UpdateEvent::Failed("disk full".to_string()));
    let (root, args) = git_args(&a);
    assert_eq!(root, "/repos/app");
    assert_eq!(&args[..3], &strings(&["worktree", "remove", "--force"])[..]);
    let a = step(&mut u, UpdateEvent::Failed("not a worktree".to_string()));
    assert_eq!(git_args(&a).1, strings(&["branch", "-D", "feat"]));
    assert_eq!(finished_err(step(&mut u, UpdateEvent::GitOk(String::new()))), "disk full");
}
