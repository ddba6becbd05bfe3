//! Tasks on the board and their lifecycle: `todo`, `in_progress`, `review`,
//! `done`, forward only, each move with its work on the git worktree.
use vstd::prelude::*;
use vstd::string::*;

use crate::ids::{new_id, now_rfc3339};
use crate::paths::{is_verbatim, path_join, path_joined, path_parent, path_parent_of};
use crate::text::{concat, str_eq};

verus! {

broadcast use vstd::string::group_string_axioms;

// ---------------------------------------------------------------------------
// Records
// ---------------------------------------------------------------------------

/// A card of the board.
#[derive(Debug)]
pub struct Task {
    pub id: String,
    pub repo_id: String,
    pub title: String,
    pub status: String,
    pub branch_name: Option<String>,
    pub worktree_path: Option<String>,
    pub created_at: String,
    pub updated_at: String,
}

/// A task with its texts as character sequences.
pub struct TaskView {
    pub id: Seq<char>,
    pub repo_id: Seq<char>,
    pub title: Seq<char>,
    pub status: Seq<char>,
    pub branch_name: Option<Seq<char>>,
    pub worktree_path: Option<Seq<char>>,
    pub created_at: Seq<char>,
    pub updated_at: Seq<char>,
}

pub open spec fn opt_view(o: Option<String>) -> Option<Seq<char>> {
    match o {
        Some(s) => Some(s@),
        None => None,
    }
}

impl View for Task {
    type V = TaskView;

    open spec fn view(&self) -> TaskView {
        TaskView {
            id: self.id@,
            repo_id: self.repo_id@,
            title: self.title@,
            status: self.status@,
            branch_name: opt_view(self.branch_name),
            worktree_path: opt_view(self.worktree_path),
            created_at: self.created_at@,
            updated_at: self.updated_at@,
        }
    }
}

/// A task after a move, with the diff of its branch when it moved to review.
#[derive(Debug)]
pub struct TaskWithDiff {
    pub task: Task,
    pub diff: Option<String>,
}

/// A new card for a repository.
#[derive(Debug)]
pub struct CreateTaskPayload {
    pub repo_id: String,
    pub title: String,
}

/// A move of a card; a branch name is needed to start work.
#[derive(Debug)]
pub struct UpdateTaskStatusPayload {
    pub task_id: String,
    pub status: String,
    pub branch_name: Option<String>,
}

/// The removal of a card.
#[derive(Debug)]
pub struct DeleteTaskPayload {
    pub task_id: String,
}

/// The new task with the given id and creation time: in `todo`, with no
/// branch and no worktree.
pub fn task_from_parts(id: String, payload: CreateTaskPayload, now: String) -> (r: Task)
    ensures
        r@ == (TaskView {
            id: id@,
            repo_id: payload.repo_id@,
            title: payload.title@,
            status: "todo"@,
            branch_name: None,
            worktree_path: None,
            created_at: now@,
            updated_at: now@,
        }),
{
    Task {
        id,
        repo_id: payload.repo_id,
        title: payload.title,
        status: String::from_str("todo"),
        branch_name: None,
        worktree_path: None,
        created_at: now.clone(),
        updated_at: now,
    }
}

/// A new task with a fresh id, created now; `None` when no id or no time
/// could be had.
pub fn new_task(payload: CreateTaskPayload) -> (r: Option<Task>)
    ensures
        r matches Some(t) ==> {
            &&& t.repo_id@ == payload.repo_id@
            &&& t.title@ == payload.title@
            &&& t.status@ == "todo"@
            &&& t.branch_name is None
            &&& t.worktree_path is None
            &&& t.created_at@ == t.updated_at@
            &&& t.id@.len() == 36
        },
{
    let id = match new_id() {
        Some(id) => id,
        None => {
            return None;
        },
    };
    let now = match now_rfc3339() {
        Some(now) => now,
        None => {
            return None;
        },
    };
    Some(task_from_parts(id, payload, now))
}

// ---------------------------------------------------------------------------
// Moves
// ---------------------------------------------------------------------------

/// The one status a task may move to from `s`.
pub open spec fn next_status(s: Seq<char>) -> Option<Seq<char>> {
    if s == "todo"@ {
        Some("in_progress"@)
    } else if s == "in_progress"@ {
        Some("review"@)
    } else if s == "review"@ {
        Some("done"@)
    } else {
        None
    }
}

/// The place of a status on the board, left to right.
pub open spec fn rank(s: Seq<char>) -> int {
    if s == "todo"@ {
        0
    } else if s == "in_progress"@ {
        1
    } else if s == "review"@ {
        2
    } else if s == "done"@ {
        3
    } else {
        -1
    }
}

/// Moves go forward only, one column at a time: a move that is allowed
/// leads to the next column to the right.
pub proof fn lemma_moves_forward(from: Seq<char>, to: Seq<char>)
    requires
        next_status(from) == Some(to),
    ensures
        rank(to) == rank(from) + 1,
        rank(from) >= 0,
{
    reveal_strlit("todo");
    reveal_strlit("in_progress");
    reveal_strlit("review");
    reveal_strlit("done");
    assert("todo"@.len() == 4 && "done"@.len() == 4);
    assert("in_progress"@.len() == 11 && "review"@.len() == 6);
    assert("todo"@[0] == 't' && "done"@[0] == 'd');
}

/// Whether a task in status `current` may move to `requested`.
pub fn check_transition(current: &str, requested: &str) -> (r: Result<(), String>)
    ensures
        r is Ok <==> next_status(current@) == Some(requested@),
        r matches Err(e) ==> e@ == "Invalid status transition: "@ + current@ + " → "@
            + requested@,
{
    let ok = if str_eq(current, "todo") {
        str_eq(requested, "in_progress")
    } else if str_eq(current, "in_progress") {
        str_eq(requested, "review")
    } else if str_eq(current, "review") {
        str_eq(requested, "done")
    } else {
        false
    };
    if ok {
        Ok(())
    } else {
        Err(
            concat(
                concat(concat("Invalid status transition: ", current).as_str(), " → ").as_str(),
                requested,
            ),
        )
    }
}

/// The branch to start work on: the name given, when it is not empty.
pub fn required_branch(branch_name: &Option<String>) -> (r: Result<String, String>)
    ensures
        (branch_name matches Some(b) && b@.len() > 0) ==> (r matches Ok(v) && v@
            == branch_name->Some_0@),
        !(branch_name matches Some(b) && b@.len() > 0) ==> (r matches Err(e) && e@
            == "branch_name is required when moving to in_progress"@),
{
    match branch_name {
        Some(b) => {
            if b.as_str().is_empty() {
                Err(String::from_str("branch_name is required when moving to in_progress"))
            } else {
                Ok(b.clone())
            }
        },
        None => Err(String::from_str("branch_name is required when moving to in_progress")),
    }
}

/// The worktree place of a task, as the platform joins paths:
/// `<parent of the repository>/.korlap-worktrees/<task id>` (the repository
/// itself stands in for a parent it lacks).
pub open spec fn worktree_of(repo_root: Seq<char>, task_id: Seq<char>) -> Seq<char> {
    let base = match path_parent_of(repo_root) {
        Some(p) => p,
        None => repo_root,
    };
    path_joined(path_joined(base, ".korlap-worktrees"@), task_id)
}

/// The worktree of a task: `<parent of the repository>/.korlap-worktrees/<task id>`
/// (the repository itself stands in for a parent it lacks).
pub fn worktree_location(repo_root: &str, task_id: &str) -> (r: String)
    ensures
        r@ == worktree_of(repo_root@, task_id@),
        !is_verbatim(r@) ==> crate::paths::ends_with(r@, task_id@),
{
    let base = match path_parent(repo_root) {
        Some(p) => p,
        None => String::from_str(repo_root),
    };
    let name = ".korlap-worktrees";
    let dir = path_join(base.as_str(), name);
    path_join(dir.as_str(), task_id)
}

/// The answer to a removal: an error when no task was removed.
pub fn delete_outcome(rows_removed: usize) -> (r: Result<(), String>)
    ensures
        r is Ok <==> rows_removed > 0,
        r matches Err(e) ==> e@ == "Task not found"@,
{
    if rows_removed == 0 {
        Err(lit("Task not found"))
    } else {
        Ok(())
    }
}

/// The git commands that clean up after a removed task, in order: remove
/// its worktree, then delete its branch (each when it has one).
pub fn cleanup_commands(branch_name: &Option<String>, worktree_path: &Option<String>) -> (r: Vec<
    Vec<String>,
>)
    ensures
        r@.map_values(|c: Vec<String>| c@.map_values(|a: String| a@)) == (match worktree_path {
            Some(w) => seq![seq!["worktree"@, "remove"@, "--force"@, w@]],
            None => Seq::<Seq<Seq<char>>>::empty(),
        }) + (match branch_name {
            Some(b) => seq![seq!["branch"@, "-D"@, b@]],
            None => Seq::<Seq<Seq<char>>>::empty(),
        }),
{
    let mut r: Vec<Vec<String>> = Vec::new();
    let ghost first: Seq<Seq<Seq<char>>> = match worktree_path {
        Some(w) => seq![seq!["worktree"@, "remove"@, "--force"@, w@]],
        None => Seq::<Seq<Seq<char>>>::empty(),
    };
    match worktree_path {
        Some(w) => {
            let mut c = Vec::new();
            c.push(lit("worktree"));
            c.push(lit("remove"));
            c.push(lit("--force"));
            c.push(w.clone());
            proof {
                assert(c@.map_values(|a: String| a@) =~= seq!["worktree"@, "remove"@, "--force"@, w@]);
            }
            r.push(c);
        },
        None => {},
    }
    proof {
        assert(r@.map_values(|c: Vec<String>| c@.map_values(|a: String| a@)) =~= first);
    }
    match branch_name {
        Some(b) => {
            let mut c = Vec::new();
            c.push(lit("branch"));
            c.push(lit("-D"));
            c.push(b.clone());
            proof {
                assert(c@.map_values(|a: String| a@) =~= seq!["branch"@, "-D"@, b@]);
            }
            r.push(c);
            proof {
                assert(r@.map_values(|c: Vec<String>| c@.map_values(|a: String| a@)) =~= first
                    + seq![seq!["branch"@, "-D"@, b@]]);
            }
        },
        None => {
            proof {
                assert(first + Seq::<Seq<Seq<char>>>::empty() =~= first);
            }
        },
    }
    r
}

// ---------------------------------------------------------------------------
// The move of a task, step by step
// ---------------------------------------------------------------------------

/// Where the move of a task stands: what it waits for.
#[derive(PartialEq, Eq, Structural, Clone, Copy)]
pub enum Phase {
    AwaitCurrent,
    AwaitStartWork,
    AwaitUndoWorktree,
    AwaitUndoBranch,
    AwaitCreateDir,
    AwaitWorktreeAdd,
    AwaitSetStatus,
    AwaitBranch,
    AwaitDiff,
    AwaitBranchAndWorktree,
    AwaitHeadRef,
    AwaitMerge,
    AwaitRollbackReview,
    AwaitWorktreeRemove,
    AwaitBranchDelete,
    AwaitTask,
    Finished,
}

/// What the outside work of a step came back with.
#[derive(Debug)]
pub enum UpdateEvent {
    /// The task's status and branch, and the root of its repository.
    Current { status: String, branch: Option<String>, repo_root: String },
    /// There is no such task.
    Missing,
    /// The database write succeeded.
    Written,
    /// The step failed with this message.
    Failed(String),
    /// git succeeded and printed this.
    GitOk(String),
    /// The branch recorded for the task (`None` also when it could not be read).
    Branch(Option<String>),
    /// The branch and worktree recorded for the task.
    BranchAndWorktree(Option<String>, Option<String>),
    /// The task as stored.
    Loaded(Task),
}

/// The outside work of the next step.
#[derive(Debug)]
pub enum UpdateAction {
    /// Read the task's status and branch and its repository's root.
    LoadCurrent,
    /// Record the task as in progress, on `branch`, with its worktree at `worktree_path`.
    StartWork { branch: String, worktree_path: String },
    /// Create a directory and its missing parents.
    CreateDirAll { path: String },
    /// Run git in the repository `repo_root` with these arguments.
    Git { repo_root: String, args: Vec<String> },
    /// Record the task's new status.
    SetStatus { status: String },
    /// Read the branch recorded for the task.
    LoadBranch,
    /// Read the branch and the worktree recorded for the task.
    LoadBranchAndWorktree,
    /// Put the task back in `review`: its merge could not be made.
    RollbackToReview,
    /// Read the task.
    LoadTask,
    /// The move is over, with this answer.
    Finish(Result<TaskWithDiff, String>),
}

pub enum EventView {
    Current(Seq<char>, Option<Seq<char>>, Seq<char>),
    Missing,
    Written,
    Failed(Seq<char>),
    GitOk(Seq<char>),
    Branch(Option<Seq<char>>),
    BranchAndWorktree(Option<Seq<char>>, Option<Seq<char>>),
    Loaded(TaskView),
}

impl View for UpdateEvent {
    type V = EventView;

    open spec fn view(&self) -> EventView {
        match self {
            UpdateEvent::Current { status, branch, repo_root } => EventView::Current(
                status@,
                opt_view(*branch),
                repo_root@,
            ),
            UpdateEvent::Missing => EventView::Missing,
            UpdateEvent::Written => EventView::Written,
            UpdateEvent::Failed(e) => EventView::Failed(e@),
            UpdateEvent::GitOk(o) => EventView::GitOk(o@),
            UpdateEvent::Branch(b) => EventView::Branch(opt_view(*b)),
            UpdateEvent::BranchAndWorktree(b, w) => EventView::BranchAndWorktree(
                opt_view(*b),
                opt_view(*w),
            ),
            UpdateEvent::Loaded(t) => EventView::Loaded(t@),
        }
    }
}

pub enum ActionView {
    LoadCurrent,
    StartWork(Seq<char>, Seq<char>),
    CreateDirAll(Seq<char>),
    Git(Seq<char>, Seq<Seq<char>>),
    SetStatus(Seq<char>),
    LoadBranch,
    LoadBranchAndWorktree,
    RollbackToReview,
    LoadTask,
    Finish(Result<(TaskView, Option<Seq<char>>), Seq<char>>),
}

impl View for UpdateAction {
    type V = ActionView;

    open spec fn view(&self) -> ActionView {
        match self {
            UpdateAction::LoadCurrent => ActionView::LoadCurrent,
            UpdateAction::StartWork { branch, worktree_path } => ActionView::StartWork(
                branch@,
                worktree_path@,
            ),
            UpdateAction::CreateDirAll { path } => ActionView::CreateDirAll(path@),
            UpdateAction::Git { repo_root, args } => ActionView::Git(
                repo_root@,
                args@.map_values(|a: String| a@),
            ),
            UpdateAction::SetStatus { status } => ActionView::SetStatus(status@),
            UpdateAction::LoadBranch => ActionView::LoadBranch,
            UpdateAction::LoadBranchAndWorktree => ActionView::LoadBranchAndWorktree,
            UpdateAction::RollbackToReview => ActionView::RollbackToReview,
            UpdateAction::LoadTask => ActionView::LoadTask,
            UpdateAction::Finish(r) => ActionView::Finish(
                match r {
                    Ok(t) => Ok((t.task@, opt_view(t.diff))),
                    Err(e) => Err(e@),
                },
            ),
        }
    }
}

/// The state of a move with its texts as character sequences.
pub struct UpdateView {
    pub requested: Seq<char>,
    pub branch_name: Option<Seq<char>>,
    pub task_id: Seq<char>,
    pub phase: Phase,
    pub repo_root: Seq<char>,
    pub branch: Seq<char>,
    pub worktree: Seq<char>,
    pub git_error: Seq<char>,
    pub diff: Option<Seq<char>>,
}

/// The move of one task, as a sequence of steps: each step takes what the
/// outside work of the previous one came back with and says what to do next.
pub struct TaskUpdate {
    requested: String,
    branch_name: Option<String>,
    task_id: String,
    phase: Phase,
    repo_root: String,
    branch: String,
    worktree: String,
    git_error: String,
    diff: Option<String>,
}

/// Which events a phase waits for.
pub open spec fn accepts_spec(phase: Phase, e: EventView) -> bool {
    match phase {
        Phase::AwaitCurrent => e is Current || e is Missing || e is Failed,
        Phase::AwaitCreateDir | Phase::AwaitStartWork | Phase::AwaitSetStatus
        | Phase::AwaitRollbackReview => e is Written || e is Failed,
        Phase::AwaitWorktreeAdd | Phase::AwaitDiff | Phase::AwaitHeadRef | Phase::AwaitMerge
        | Phase::AwaitWorktreeRemove | Phase::AwaitBranchDelete | Phase::AwaitUndoWorktree
        | Phase::AwaitUndoBranch => e is GitOk || e is Failed,
        Phase::AwaitBranch => e is Branch,
        Phase::AwaitBranchAndWorktree => e is BranchAndWorktree || e is Failed,
        Phase::AwaitTask => e is Loaded || e is Failed,
        Phase::Finished => false,
    }
}

/// The step once the new status is recorded: read what the target column
/// needs (the branch for a diff in review, the branch and worktree to merge
/// in done), else read the task.
pub open spec fn after_write(s: UpdateView) -> (UpdateView, ActionView) {
    if s.requested == "review"@ {
        (UpdateView { phase: Phase::AwaitBranch, ..s }, ActionView::LoadBranch)
    } else if s.requested == "done"@ {
        (UpdateView { phase: Phase::AwaitBranchAndWorktree, ..s }, ActionView::LoadBranchAndWorktree)
    } else {
        (UpdateView { phase: Phase::AwaitTask, ..s }, ActionView::LoadTask)
    }
}

pub open spec fn finish(s: UpdateView, r: Result<(TaskView, Option<Seq<char>>), Seq<char>>) -> (
    UpdateView,
    ActionView,
) {
    (UpdateView { phase: Phase::Finished, ..s }, ActionView::Finish(r))
}

pub open spec fn git(s: UpdateView, phase: Phase, args: Seq<Seq<char>>) -> (UpdateView, ActionView) {
    (UpdateView { phase, ..s }, ActionView::Git(s.repo_root, args))
}

/// The step that adds the worktree of the task on its new branch.
pub open spec fn add_worktree(s: UpdateView) -> (UpdateView, ActionView) {
    git(s, Phase::AwaitWorktreeAdd, seq!["worktree"@, "add"@, s.worktree, "-b"@, s.branch])
}

/// The step that puts the task back in review because its merge cannot be
/// made, the error `m` to be reported once that is done.
pub open spec fn keep_in_review(s: UpdateView, m: Seq<char>) -> (UpdateView, ActionView) {
    (
        UpdateView { phase: Phase::AwaitRollbackReview, git_error: m, ..s },
        ActionView::RollbackToReview,
    )
}

/// One step of a move: from the state and what the outside work came back
/// with, the next state and the next outside work.
///
/// Work starts by making the worktree (its parent directory, then
/// `git worktree add`) and records the task only once the worktree exists;
/// when that record fails, the worktree and its branch are removed again.
/// A merge that cannot be made (the current branch unknown, a detached
/// HEAD, a failed merge) puts the task back in review.
pub open spec fn step_spec(s: UpdateView, e: EventView) -> (UpdateView, ActionView) {
    match s.phase {
        Phase::AwaitCurrent => match e {
            EventView::Missing => finish(s, Err("Task not found"@)),
            EventView::Failed(m) => finish(s, Err(m)),
            EventView::Current(status, _, root) => {
                if next_status(status) != Some(s.requested) {
                    finish(s, Err("Invalid status transition: "@ + status + " → "@ + s.requested))
                } else if s.requested == "in_progress"@ {
                    match s.branch_name {
                        Some(b) if b.len() > 0 => {
                            let w = worktree_of(root, s.task_id);
                            let s2 = UpdateView { repo_root: root, branch: b, worktree: w, ..s };
                            match path_parent_of(w) {
                                Some(p) => (
                                    UpdateView { phase: Phase::AwaitCreateDir, ..s2 },
                                    ActionView::CreateDirAll(p),
                                ),
                                None => add_worktree(s2),
                            }
                        },
                        _ => finish(
                            UpdateView { repo_root: root, ..s },
                            Err("branch_name is required when moving to in_progress"@),
                        ),
                    }
                } else {
                    (
                        UpdateView { phase: Phase::AwaitSetStatus, repo_root: root, ..s },
                        ActionView::SetStatus(s.requested),
                    )
                }
            },
            _ => (s, ActionView::LoadCurrent),
        },
        Phase::AwaitCreateDir => match e {
            EventView::Failed(m) => finish(s, Err(m)),
            _ => add_worktree(s),
        },
        Phase::AwaitWorktreeAdd => match e {
            EventView::Failed(g) => finish(s, Err("Failed to create git worktree: "@ + g)),
            _ => (
                UpdateView { phase: Phase::AwaitStartWork, ..s },
                ActionView::StartWork(s.branch, s.worktree),
            ),
        },
        Phase::AwaitStartWork => match e {
            EventView::Failed(m) => git(
                UpdateView { git_error: m, ..s },
                Phase::AwaitUndoWorktree,
                seq!["worktree"@, "remove"@, "--force"@, s.worktree],
            ),
            _ => after_write(s),
        },
        Phase::AwaitUndoWorktree => git(s, Phase::AwaitUndoBranch, seq!["branch"@, "-D"@, s.branch]),
        Phase::AwaitUndoBranch => finish(s, Err(s.git_error)),
        Phase::AwaitSetStatus => match e {
            EventView::Failed(m) => finish(s, Err(m)),
            _ => after_write(s),
        },
        Phase::AwaitBranch => match e {
            EventView::Branch(Some(b)) => git(
                UpdateView { branch: b, ..s },
                Phase::AwaitDiff,
                seq!["diff"@, "main..."@ + b],
            ),
            _ => (UpdateView { phase: Phase::AwaitTask, ..s }, ActionView::LoadTask),
        },
        Phase::AwaitDiff => match e {
            EventView::GitOk(out) => (
                UpdateView { phase: Phase::AwaitTask, diff: Some(out), ..s },
                ActionView::LoadTask,
            ),
            _ => (UpdateView { phase: Phase::AwaitTask, ..s }, ActionView::LoadTask),
        },
        Phase::AwaitBranchAndWorktree => match e {
            EventView::Failed(m) => keep_in_review(s, m),
            EventView::BranchAndWorktree(Some(b), Some(w)) => git(
                UpdateView { branch: b, worktree: w, ..s },
                Phase::AwaitHeadRef,
                seq!["rev-parse"@, "--abbrev-ref"@, "HEAD"@],
            ),
            _ => (UpdateView { phase: Phase::AwaitTask, ..s }, ActionView::LoadTask),
        },
        Phase::AwaitHeadRef => match e {
            EventView::Failed(m) => keep_in_review(s, "Cannot determine current branch: "@ + m),
            EventView::GitOk(h) => if h == "HEAD"@ {
                keep_in_review(
                    s,
                    "Cannot merge: repository is in detached HEAD state. Check out a branch first."@,
                )
            } else {
                git(s, Phase::AwaitMerge, seq!["merge"@, s.branch])
            },
            _ => (s, ActionView::LoadCurrent),
        },
        Phase::AwaitMerge => match e {
            EventView::Failed(m) => keep_in_review(s, "Merge failed: "@ + m + ". Task remains in REVIEW."@),
            _ => git(
                s,
                Phase::AwaitWorktreeRemove,
                seq!["worktree"@, "remove"@, "--force"@, s.worktree],
            ),
        },
        Phase::AwaitRollbackReview => finish(s, Err(s.git_error)),
        Phase::AwaitWorktreeRemove => git(s, Phase::AwaitBranchDelete, seq!["branch"@, "-D"@, s.branch]),
        Phase::AwaitBranchDelete => (UpdateView { phase: Phase::AwaitTask, ..s }, ActionView::LoadTask),
        Phase::AwaitTask => match e {
            EventView::Loaded(t) => finish(s, Ok((t, s.diff))),
            EventView::Failed(m) => finish(s, Err(m)),
            _ => (s, ActionView::LoadCurrent),
        },
        Phase::Finished => (s, ActionView::LoadCurrent),
    }
}

/// The place of a phase in the course of a move; `Finished` is last.
pub open spec fn phase_order(p: Phase) -> int {
    match p {
        Phase::AwaitCurrent => 0,
        Phase::AwaitCreateDir => 1,
        Phase::AwaitWorktreeAdd => 2,
        Phase::AwaitStartWork => 3,
        Phase::AwaitUndoWorktree => 4,
        Phase::AwaitUndoBranch => 5,
        Phase::AwaitSetStatus => 3,
        Phase::AwaitBranch => 6,
        Phase::AwaitDiff => 7,
        Phase::AwaitBranchAndWorktree => 8,
        Phase::AwaitHeadRef => 9,
        Phase::AwaitMerge => 10,
        Phase::AwaitRollbackReview => 11,
        Phase::AwaitWorktreeRemove => 12,
        Phase::AwaitBranchDelete => 13,
        Phase::AwaitTask => 14,
        Phase::Finished => 15,
    }
}

/// A move always ends: every step taken on an event the move waits for
/// leads to a later phase, so a move is over after at most fifteen steps.
pub proof fn lemma_step_progresses(s: UpdateView, e: EventView)
    requires
        accepts_spec(s.phase, e),
    ensures
        phase_order(step_spec(s, e).0.phase) > phase_order(s.phase),
{
}

/// Moves go forward only: a move writes a status only when it is the one
/// next to the task's current status, and that status is the one asked
/// for; a start of work first makes the worktree and writes nothing yet.
pub proof fn lemma_move_writes_next_status(s: UpdateView, e: EventView)
    requires
        s.phase == Phase::AwaitCurrent,
        e is Current,
    ensures
        ({
            let (s2, a) = step_spec(s, e);
            let current = e->Current_0;
            &&& (a is CreateDirAll || a is Git || a is SetStatus) ==> next_status(current) == Some(
                s.requested,
            )
            &&& a matches ActionView::SetStatus(x) ==> x == s.requested && s.requested != "in_progress"@
            &&& (a is CreateDirAll || a is Git) ==> s.requested == "in_progress"@
            &&& !(a is StartWork)
            &&& next_status(current) != Some(s.requested) ==> a is Finish && s2.phase == Phase::Finished
        }),
{
}

/// A merge that cannot be made leaves the task in review: whenever a move
/// to `done` meets a failure before its merge is made, the next step puts
/// the task back in review, and the step after that ends the move with
/// the error.
pub proof fn lemma_failed_merge_keeps_review(s: UpdateView, e: EventView, e2: EventView)
    requires
        s.phase == Phase::AwaitBranchAndWorktree || s.phase == Phase::AwaitHeadRef || s.phase
            == Phase::AwaitMerge,
        e is Failed,
        accepts_spec(step_spec(s, e).0.phase, e2),
    ensures
        step_spec(s, e).1 == ActionView::RollbackToReview,
        step_spec(step_spec(s, e).0, e2).1 is Finish,
        step_spec(step_spec(s, e).0, e2).1->Finish_0 is Err,
{
}

/// A start of work whose record fails leaves nothing behind: the worktree
/// is removed, then its branch deleted, whatever git answers, and the move
/// ends with the error of the record.
pub proof fn lemma_failed_start_cleans_up(s: UpdateView, m: Seq<char>, e2: EventView, e3: EventView)
    requires
        s.phase == Phase::AwaitStartWork,
        e2 is GitOk || e2 is Failed,
        e3 is GitOk || e3 is Failed,
    ensures
        ({
            let (s1, a1) = step_spec(s, EventView::Failed(m));
            let (s2, a2) = step_spec(s1, e2);
            let (s3, a3) = step_spec(s2, e3);
            &&& a1 == ActionView::Git(s.repo_root, seq!["worktree"@, "remove"@, "--force"@, s.worktree])
            &&& a2 == ActionView::Git(s.repo_root, seq!["branch"@, "-D"@, s.branch])
            &&& a3 == ActionView::Finish(Err(m))
            &&& s3.phase == Phase::Finished
        }),
{
}

/// Once a move has read its task, its repository stays the one read: no
/// later step changes it, a move never goes back to reading the task, and
/// every git command of a later step runs in that repository.
pub proof fn lemma_step_keeps_repository(s: UpdateView, e: EventView)
    requires
        s.phase != Phase::AwaitCurrent,
    ensures
        step_spec(s, e).0.repo_root == s.repo_root,
        step_spec(s, e).0.phase != Phase::AwaitCurrent,
        step_spec(s, e).1 matches ActionView::Git(root, _) ==> root == s.repo_root,
{
}

/// The actions of a move fed the events `es` in turn from the state `s`.
pub open spec fn run_actions(s: UpdateView, es: Seq<EventView>) -> Seq<ActionView>
    decreases es.len(),
{
    if es.len() == 0 {
        seq![]
    } else {
        seq![step_spec(s, es[0]).1] + run_actions(step_spec(s, es[0]).0, es.skip(1))
    }
}

proof fn lemma_run_in_repository(s: UpdateView, es: Seq<EventView>)
    requires
        s.phase != Phase::AwaitCurrent,
    ensures
        forall|i: int|
            0 <= i < run_actions(s, es).len() ==> (#[trigger] run_actions(s, es)[i] matches ActionView::Git(
                root,
                _,
            ) ==> root == s.repo_root),
        run_actions(s, es).len() == es.len(),
    decreases es.len(),
{
    if es.len() > 0 {
        lemma_step_keeps_repository(s, es[0]);
        let s2 = step_spec(s, es[0]).0;
        lemma_run_in_repository(s2, es.skip(1));
        let rest = run_actions(s2, es.skip(1));
        let all = run_actions(s, es);
        assert forall|i: int| 0 <= i < all.len() implies (#[trigger] all[i] matches ActionView::Git(
            root,
            _,
        ) ==> root == s.repo_root) by {
            if i > 0 {
                assert(all[i] == rest[i - 1]);
            }
        }
    }
}

/// Every git command of a move runs in the root of the task's repository
/// as read at its start: whatever events follow (a branch, a worktree
/// path, git's answers), worktree creation, the diff, the merge and the
/// clean-up all run in that repository, never in a worktree.
pub proof fn lemma_move_runs_git_in_repository(
    s: UpdateView,
    status: Seq<char>,
    branch: Option<Seq<char>>,
    root: Seq<char>,
    rest: Seq<EventView>,
)
    requires
        s.phase == Phase::AwaitCurrent,
    ensures
        ({
            let es = seq![EventView::Current(status, branch, root)] + rest;
            forall|i: int|
                0 <= i < run_actions(s, es).len() ==> (#[trigger] run_actions(s, es)[i] matches ActionView::Git(
                    r,
                    _,
                ) ==> r == root)
        }),
{
    let es = seq![EventView::Current(status, branch, root)] + rest;
    let e0 = EventView::Current(status, branch, root);
    assert(es[0] == e0);
    assert(es.skip(1) =~= rest);
    let (s1, a1) = step_spec(s, e0);
    if s1.phase != Phase::AwaitCurrent {
        assert(s1.repo_root == root || s1.phase == Phase::Finished);
    }
    let all = run_actions(s, es);
    let tail = run_actions(s1, rest);
    if s1.phase == Phase::Finished && s1.repo_root != root {
        // The move ended at once; no later step runs git.
        lemma_finished_runs_nothing(s1, rest);
    } else {
        lemma_run_in_repository(s1, rest);
    }
    assert forall|i: int| 0 <= i < all.len() implies (#[trigger] all[i] matches ActionView::Git(
        r,
        _,
    ) ==> r == root) by {
        if i > 0 {
            assert(all[i] == tail[i - 1]);
        }
    }
}

/// A finished move does nothing more.
proof fn lemma_finished_runs_nothing(s: UpdateView, es: Seq<EventView>)
    requires
        s.phase == Phase::Finished,
    ensures
        forall|i: int|
            0 <= i < run_actions(s, es).len() ==> run_actions(s, es)[i] == ActionView::LoadCurrent,
    decreases es.len(),
{
    if es.len() > 0 {
        lemma_finished_runs_nothing(step_spec(s, es[0]).0, es.skip(1));
        let rest = run_actions(step_spec(s, es[0]).0, es.skip(1));
        let all = run_actions(s, es);
        assert forall|i: int| 0 <= i < all.len() implies all[i] == ActionView::LoadCurrent by {
            if i > 0 {
                assert(all[i] == rest[i - 1]);
            }
        }
    }
}

/// Work starts only on a worktree that exists: the task is recorded as in
/// progress (`StartWork`) only right after `git worktree add` succeeded,
/// with the worktree place computed from the repository's root.
pub proof fn lemma_start_after_worktree(s: UpdateView, e: EventView)
    requires
        step_spec(s, e).1 is StartWork,
    ensures
        s.phase == Phase::AwaitWorktreeAdd,
        e !is Failed,
        step_spec(s, e).1 == ActionView::StartWork(s.branch, s.worktree),
{
}

fn lit(s: &str) -> (r: String)
    ensures
        r@ == s@,
{
    String::from_str(s)
}

impl TaskUpdate {
    pub closed spec fn view(&self) -> UpdateView {
        UpdateView {
            requested: self.requested@,
            branch_name: opt_view(self.branch_name),
            task_id: self.task_id@,
            phase: self.phase,
            repo_root: self.repo_root@,
            branch: self.branch@,
            worktree: self.worktree@,
            git_error: self.git_error@,
            diff: opt_view(self.diff),
        }
    }

    /// Start the move asked for: first read the task's current state.
    pub fn begin(payload: UpdateTaskStatusPayload) -> (r: (TaskUpdate, UpdateAction))
        ensures
            r.0.view() == (UpdateView {
                requested: payload.status@,
                branch_name: opt_view(payload.branch_name),
                task_id: payload.task_id@,
                phase: Phase::AwaitCurrent,
                repo_root: Seq::<char>::empty(),
                branch: Seq::<char>::empty(),
                worktree: Seq::<char>::empty(),
                git_error: Seq::<char>::empty(),
                diff: None,
            }),
            r.1@ == ActionView::LoadCurrent,
    {
        (
            TaskUpdate {
                requested: payload.status,
                branch_name: payload.branch_name,
                task_id: payload.task_id,
                phase: Phase::AwaitCurrent,
                repo_root: String::new(),
                branch: String::new(),
                worktree: String::new(),
                git_error: String::new(),
                diff: None,
            },
            UpdateAction::LoadCurrent,
        )
    }

    /// The task being moved.
    pub fn task_id(&self) -> (r: &String)
        ensures
            r@ == self.view().task_id,
    {
        &self.task_id
    }

    /// Whether the move is over.
    pub fn is_finished(&self) -> (r: bool)
        ensures
            r == (self.view().phase == Phase::Finished),
    {
        self.phase == Phase::Finished
    }

    /// Whether the move waits for this kind of event.
    pub fn accepts(&self, e: &UpdateEvent) -> (r: bool)
        ensures
            r == accepts_spec(self.view().phase, e@),
    {
        match self.phase {
            Phase::AwaitCurrent => matches!(e, UpdateEvent::Current { .. } | UpdateEvent::Missing | UpdateEvent::Failed(_)),
            Phase::AwaitCreateDir | Phase::AwaitStartWork | Phase::AwaitSetStatus
            | Phase::AwaitRollbackReview => matches!(e, UpdateEvent::Written | UpdateEvent::Failed(_)),
            Phase::AwaitWorktreeAdd | Phase::AwaitDiff | Phase::AwaitHeadRef | Phase::AwaitMerge
            | Phase::AwaitWorktreeRemove | Phase::AwaitBranchDelete | Phase::AwaitUndoWorktree
            | Phase::AwaitUndoBranch => matches!(e, UpdateEvent::GitOk(_) | UpdateEvent::Failed(_)),
            Phase::AwaitBranch => matches!(e, UpdateEvent::Branch(_)),
            Phase::AwaitBranchAndWorktree => matches!(e, UpdateEvent::BranchAndWorktree(_, _) | UpdateEvent::Failed(_)),
            Phase::AwaitTask => matches!(e, UpdateEvent::Loaded(_) | UpdateEvent::Failed(_)),
            Phase::Finished => false,
        }
    }

    fn finish_with(&mut self, r: Result<TaskWithDiff, String>) -> (a: UpdateAction)
        ensures
            final(self).view() == (UpdateView { phase: Phase::Finished, ..old(self).view() }),
            a@ == ActionView::Finish(
                match r {
                    Ok(t) => Ok((t.task@, opt_view(t.diff))),
                    Err(e) => Err(e@),
                },
            ),
    {
        self.phase = Phase::Finished;
        UpdateAction::Finish(r)
    }

    fn git(&mut self, phase: Phase, args: Vec<String>) -> (a: UpdateAction)
        ensures
            (final(self).view(), a@) == git(old(self).view(), phase, args@.map_values(|x: String| x@)),
    {
        self.phase = phase;
        UpdateAction::Git { repo_root: self.repo_root.clone(), args }
    }

    fn after_write(&mut self) -> (a: UpdateAction)
        ensures
            (final(self).view(), a@) == after_write(old(self).view()),
    {
        if str_eq(self.requested.as_str(), "review") {
            self.phase = Phase::AwaitBranch;
            UpdateAction::LoadBranch
        } else if str_eq(self.requested.as_str(), "done") {
            self.phase = Phase::AwaitBranchAndWorktree;
            UpdateAction::LoadBranchAndWorktree
        } else {
            self.phase = Phase::AwaitTask;
            UpdateAction::LoadTask
        }
    }

    fn add_worktree(&mut self) -> (a: UpdateAction)
        ensures
            (final(self).view(), a@) == add_worktree(old(self).view()),
    {
        let mut v = Vec::new();
        v.push(lit("worktree"));
        v.push(lit("add"));
        v.push(self.worktree.clone());
        v.push(lit("-b"));
        v.push(self.branch.clone());
        proof {
            assert(v@.map_values(|x: String| x@) =~= seq!["worktree"@, "add"@, self.view().worktree, "-b"@, self.view().branch]);
        }
        self.git(Phase::AwaitWorktreeAdd, v)
    }

    fn keep_in_review(&mut self, m: String) -> (a: UpdateAction)
        ensures
            (final(self).view(), a@) == keep_in_review(old(self).view(), m@),
    {
        self.git_error = m;
        self.phase = Phase::AwaitRollbackReview;
        UpdateAction::RollbackToReview
    }

    fn step_current(&mut self, e: UpdateEvent) -> (r: UpdateAction)
        requires
            old(self).view().phase == Phase::AwaitCurrent,
            accepts_spec(old(self).view().phase, e@),
        ensures
            (final(self).view(), r@) == step_spec(old(self).view(), e@),
    {
        let ghost s0 = self.view();
        let ghost ev = e@;
        match e {
            UpdateEvent::Missing => self.finish_with(Err(lit("Task not found"))),
            UpdateEvent::Failed(m) => self.finish_with(Err(m)),
            UpdateEvent::Current { status, branch: _, repo_root } => {
                match check_transition(status.as_str(), self.requested.as_str()) {
                    Err(msg) => self.finish_with(Err(msg)),
                    Ok(()) => {
                        if str_eq(self.requested.as_str(), "in_progress") {
                            match required_branch(&self.branch_name) {
                                Err(msg) => {
                                    self.repo_root = repo_root;
                                    self.finish_with(Err(msg))
                                },
                                Ok(b) => {
                                    let w = worktree_location(repo_root.as_str(), self.task_id.as_str());
                                    self.repo_root = repo_root;
                                    self.branch = b;
                                    self.worktree = w;
                                    match path_parent(self.worktree.as_str()) {
                                        Some(p) => {
                                            self.phase = Phase::AwaitCreateDir;
                                            UpdateAction::CreateDirAll { path: p }
                                        },
                                        None => self.add_worktree(),
                                    }
                                },
                            }
                        } else {
                            self.repo_root = repo_root;
                            self.phase = Phase::AwaitSetStatus;
                            UpdateAction::SetStatus { status: self.requested.clone() }
                        }
                    },
                }
            },
            _ => {
                assert(false);
                UpdateAction::LoadCurrent
            },
        }
    }

    fn step_work(&mut self, e: UpdateEvent) -> (r: UpdateAction)
        requires
            old(self).view().phase != Phase::AwaitCurrent,
            accepts_spec(old(self).view().phase, e@),
        ensures
            (final(self).view(), r@) == step_spec(old(self).view(), e@),
    {
        match self.phase {
            Phase::AwaitCreateDir => match e {
                UpdateEvent::Failed(m) => self.finish_with(Err(m)),
                _ => self.add_worktree(),
            },
            Phase::AwaitWorktreeAdd => match e {
                UpdateEvent::Failed(g) => {
                    let msg = concat("Failed to create git worktree: ", g.as_str());
                    self.finish_with(Err(msg))
                },
                _ => {
                    self.phase = Phase::AwaitStartWork;
                    UpdateAction::StartWork {
                        branch: self.branch.clone(),
                        worktree_path: self.worktree.clone(),
                    }
                },
            },
            Phase::AwaitStartWork => match e {
                UpdateEvent::Failed(m) => {
                    self.git_error = m;
                    let mut v = Vec::new();
                    v.push(lit("worktree"));
                    v.push(lit("remove"));
                    v.push(lit("--force"));
                    v.push(self.worktree.clone());
                    proof {
                        assert(v@.map_values(|x: String| x@) =~= seq!["worktree"@, "remove"@, "--force"@, self.worktree@]);
                    }
                    self.git(Phase::AwaitUndoWorktree, v)
                },
                _ => self.after_write(),
            },
            Phase::AwaitUndoWorktree => {
                let mut v = Vec::new();
                v.push(lit("branch"));
                v.push(lit("-D"));
                v.push(self.branch.clone());
                proof {
                    assert(v@.map_values(|x: String| x@) =~= seq!["branch"@, "-D"@, self.branch@]);
                }
                self.git(Phase::AwaitUndoBranch, v)
            },
            Phase::AwaitUndoBranch => {
                let msg = self.git_error.clone();
                self.finish_with(Err(msg))
            },
            Phase::AwaitSetStatus => match e {
                UpdateEvent::Failed(m) => self.finish_with(Err(m)),
                _ => self.after_write(),
            },
            Phase::AwaitBranch => match e {
                UpdateEvent::Branch(Some(b)) => {
                    let d = concat("main...", b.as_str());
                    self.branch = b;
                    let mut v = Vec::new();
                    v.push(lit("diff"));
                    v.push(d);
                    proof {
                        assert(v@.map_values(|x: String| x@) =~= seq!["diff"@, "main..."@ + self.branch@]);
                    }
                    self.git(Phase::AwaitDiff, v)
                },
                _ => {
                    self.phase = Phase::AwaitTask;
                    UpdateAction::LoadTask
                },
            },
            Phase::AwaitDiff => {
                match e {
                    UpdateEvent::GitOk(out) => {
                        self.diff = Some(out);
                    },
                    _ => {},
                }
                self.phase = Phase::AwaitTask;
                UpdateAction::LoadTask
            },
            Phase::AwaitBranchAndWorktree => match e {
                UpdateEvent::Failed(m) => self.keep_in_review(m),
                UpdateEvent::BranchAndWorktree(Some(b), Some(w)) => {
                    self.branch = b;
                    self.worktree = w;
                    let mut v = Vec::new();
                    v.push(lit("rev-parse"));
                    v.push(lit("--abbrev-ref"));
                    v.push(lit("HEAD"));
                    proof {
                        assert(v@.map_values(|x: String| x@) =~= seq!["rev-parse"@, "--abbrev-ref"@, "HEAD"@]);
                    }
                    self.git(Phase::AwaitHeadRef, v)
                },
                _ => {
                    self.phase = Phase::AwaitTask;
                    UpdateAction::LoadTask
                },
            },
            Phase::AwaitHeadRef => match e {
                UpdateEvent::Failed(m) => {
                    let msg = concat("Cannot determine current branch: ", m.as_str());
                    self.keep_in_review(msg)
                },
                UpdateEvent::GitOk(h) => {
                    if str_eq(h.as_str(), "HEAD") {
                        self.keep_in_review(
                            lit(
                                "Cannot merge: repository is in detached HEAD state. Check out a branch first.",
                            ),
                        )
                    } else {
                        let mut v = Vec::new();
                        v.push(lit("merge"));
                        v.push(self.branch.clone());
                        proof {
                            assert(v@.map_values(|x: String| x@) =~= seq!["merge"@, self.branch@]);
                        }
                        self.git(Phase::AwaitMerge, v)
                    }
                },
                _ => {
                    assert(false);
                    UpdateAction::LoadCurrent
                },
            },
            Phase::AwaitMerge => match e {
                UpdateEvent::Failed(m) => {
                    let msg = concat(
                        concat("Merge failed: ", m.as_str()).as_str(),
                        ". Task remains in REVIEW.",
                    );
                    self.keep_in_review(msg)
                },
                _ => {
                    let mut v = Vec::new();
                    v.push(lit("worktree"));
                    v.push(lit("remove"));
                    v.push(lit("--force"));
                    v.push(self.worktree.clone());
                    proof {
                        assert(v@.map_values(|x: String| x@) =~= seq!["worktree"@, "remove"@, "--force"@, self.worktree@]);
                    }
                    self.git(Phase::AwaitWorktreeRemove, v)
                },
            },
            Phase::AwaitRollbackReview => {
                let msg = self.git_error.clone();
                self.finish_with(Err(msg))
            },
            Phase::AwaitWorktreeRemove => {
                let mut v = Vec::new();
                v.push(lit("branch"));
                v.push(lit("-D"));
                v.push(self.branch.clone());
                proof {
                    assert(v@.map_values(|x: String| x@) =~= seq!["branch"@, "-D"@, self.branch@]);
                }
                self.git(Phase::AwaitBranchDelete, v)
            },
            Phase::AwaitBranchDelete => {
                self.phase = Phase::AwaitTask;
                UpdateAction::LoadTask
            },
            Phase::AwaitTask => match e {
                UpdateEvent::Loaded(t) => {
                    let d = match &self.diff {
                        Some(x) => Some(x.clone()),
                        None => None,
                    };
                    self.finish_with(Ok(TaskWithDiff { task: t, diff: d }))
                },
                UpdateEvent::Failed(m) => self.finish_with(Err(m)),
                _ => {
                    assert(false);
                    UpdateAction::LoadCurrent
                },
            },
            _ => {
                assert(false);
                UpdateAction::LoadCurrent
            },
        }
    }

    /// Take what the outside work of the last step came back with, and say
    /// what to do next.
    pub fn step(&mut self, e: UpdateEvent) -> (r: UpdateAction)
        requires
            accepts_spec(old(self).view().phase, e@),
        ensures
            (final(self).view(), r@) == step_spec(old(self).view(), e@),
    {
        if self.phase == Phase::AwaitCurrent {
            self.step_current(e)
        } else {
            self.step_work(e)
        }
    }
}

} // verus!
