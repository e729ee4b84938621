//! Workers as the web interface shows them: their status, what is noted about
//! them, and the tasks that they work on.

use crate::config::Names;
use crate::init::{below, path_below};
use crate::task::{derive_task_lifecycle_state, lifecycle, Task, TaskAttemptView, TaskStage};
use crate::text::{
    blank, cat2, chars_of, contains, ends_with, has_part, has_prefix, has_suffix, lines, lines_of,
    opt_text, same, starts_with, string_between, texts, trim, trimmed,
};
use crate::time::Moment;
use vstd::prelude::*;

verus! {

/// A pull request as the state file describes it.
pub struct SwarmWorkerPrState {
    pub number: Option<u64>,
    pub title: Option<String>,
    pub state: Option<String>,
    pub url: Option<String>,
}

/// A worker as the state file describes it.
pub struct SwarmWorktreeState {
    pub id: String,
    pub branch: String,
    pub prompt: String,
    pub agent_kind: String,
    pub created_at: Option<Moment>,
    pub summary: Option<String>,
    pub pr: Option<SwarmWorkerPrState>,
    pub phase: Option<String>,
    pub agent_session_status: Option<String>,
    pub repo_path: Option<String>,
    pub worktree_path: Option<String>,
    pub agent_pid: Option<u32>,
    pub session_id: Option<String>,
    pub ready_branch: Option<String>,
    pub failure_note: Option<String>,
}

/// What is known of a worker besides its state.
#[derive(Clone, Copy, PartialEq, Eq, Structural)]
pub struct WorkerSigns {
    /// Whether its session has come to an end.
    pub session_completed: bool,
    /// Whether its worktree has changes that are not committed.
    pub dirty: bool,
}

/// A worker as the web interface shows it.
pub struct WorkerView {
    pub id: String,
    pub workspace: String,
    pub branch: String,
    pub agent: String,
    pub status: String,
    pub execution_note: Option<String>,
    pub ready_branch: Option<String>,
    pub has_uncommitted_changes: bool,
    pub task_id: Option<String>,
    pub task_title: Option<String>,
    pub task_stage: Option<String>,
    pub task_lifecycle_state: Option<String>,
    pub task_repo: Option<String>,
    pub latest_attempt: Option<TaskAttemptView>,
    pub pr_url: Option<String>,
    pub pr_title: Option<String>,
    pub description: Option<String>,
    pub elapsed_secs: Option<i64>,
    pub dispatched_by: Option<String>,
    pub review_state: Option<String>,
    pub ci_status: Option<String>,
    pub total_comments: Option<u64>,
    pub open_comments: Option<u64>,
    pub resolved_comments: Option<u64>,
}

// ---------------------------------------------------------------------------
// Status
// ---------------------------------------------------------------------------

/// Whether one of the last twenty lines of a worker's log tells the end of a
/// session.
pub open spec fn tells_end(log: Seq<char>) -> bool {
    exists|i: int|
        {
            &&& 0 <= i < lines(log).len()
            &&& i >= lines(log).len() - 20
            &&& contains(#[trigger] lines(log)[i], "\"type\":\"session_result\""@)
        }
}

/// Whether a worker's session has come to an end, by the log of its events.
pub fn worker_session_completed(log: &Option<String>) -> (r: bool)
    ensures
        r == match *log {
            Some(s) => tells_end(s@),
            None => false,
        },
{
    match log {
        Some(s) => {
            let list = lines_of(s.as_str());
            let ghost all = texts(list@);
            let n: usize = list.len();
            let mut i: usize = if n > 20 {
                n - 20
            } else {
                0
            };
            proof {
                assert(all.len() == n);
            }
            while i < n
                invariant
                    n == list@.len(),
                    all == texts(list@),
                    *log == Some(*s),
                    all == lines(s@),
                    n - 20 <= i <= n,
                    forall|j: int|
                        0 <= j < i && j >= n - 20 ==> !contains(
                            #[trigger] all[j],
                            "\"type\":\"session_result\""@,
                        ),
                decreases n - i,
            {
                proof {
                    assert(all[i as int] == list@[i as int]@);
                }
                if has_part(list[i].as_str(), "\"type\":\"session_result\"") {
                    return true;
                }
                i = i + 1;
            }
            false
        },
        None => false,
    }
}

/// Whether a worker should run but has neither a session nor anything to show
/// for it except changes that are not committed.
pub open spec fn is_stalled(w: SwarmWorktreeState, dirty: bool) -> bool {
    &&& opt_text(w.phase) == Some("running"@)
    &&& opt_text(w.agent_session_status) != Some("running"@)
    &&& w.ready_branch is None
    &&& w.session_id is None
    &&& w.agent_pid is None
    &&& dirty
}

/// The status of a worker.
pub open spec fn status_of(w: SwarmWorktreeState, signs: WorkerSigns) -> Seq<char> {
    if signs.session_completed {
        if w.ready_branch is Some || w.pr is Some {
            "completed"@
        } else {
            "failed"@
        }
    } else if is_stalled(w, signs.dirty) {
        "stalled"@
    } else {
        match w.phase {
            Some(phase) => if phase@ == "running"@ && opt_text(w.agent_session_status) == Some(
                "waiting"@,
            ) {
                "waiting"@
            } else {
                phase@
            },
            None => match w.agent_session_status {
                Some(s) => s@,
                None => "unknown"@,
            },
        }
    }
}

/// What is noted about how a worker fares.
pub open spec fn note_on(w: SwarmWorktreeState, signs: WorkerSigns) -> Option<Seq<char>> {
    if w.failure_note is Some && trim(w.failure_note->0@).len() > 0 {
        opt_text(w.failure_note)
    } else if signs.session_completed && w.ready_branch is None && w.pr is None && !signs.dirty {
        Some(
            "Worker finished without a ready branch or PR handoff. It stopped without a promotable code change."@,
        )
    } else if is_stalled(w, signs.dirty) {
        Some("Uncommitted diff, no ready branch, and no active session."@)
    } else if w.ready_branch is None && signs.dirty {
        Some("Uncommitted diff present; worker has not marked a ready branch yet."@)
    } else {
        None
    }
}

fn option_is(text: &Option<String>, word: &str) -> (r: bool)
    ensures
        r == (opt_text(*text) == Some(word@)),
{
    match text {
        Some(s) => same(s.as_str(), word),
        None => false,
    }
}

fn has_stalled(w: &SwarmWorktreeState, dirty: bool) -> (r: bool)
    ensures
        r == is_stalled(*w, dirty),
{
    option_is(&w.phase, "running") && !option_is(&w.agent_session_status, "running")
        && w.ready_branch.is_none() && w.session_id.is_none() && w.agent_pid.is_none() && dirty
}

/// The status of a worker.
pub fn worker_status_for_state(w: &SwarmWorktreeState, signs: WorkerSigns) -> (r: String)
    ensures
        r@ == status_of(*w, signs),
{
    if signs.session_completed {
        return if w.ready_branch.is_some() || w.pr.is_some() {
            "completed".to_owned()
        } else {
            "failed".to_owned()
        };
    }
    if has_stalled(w, signs.dirty) {
        return "stalled".to_owned();
    }
    match &w.phase {
        Some(phase) => if same(phase.as_str(), "running") && option_is(
            &w.agent_session_status,
            "waiting",
        ) {
            "waiting".to_owned()
        } else {
            phase.clone()
        },
        None => match &w.agent_session_status {
            Some(s) => s.clone(),
            None => "unknown".to_owned(),
        },
    }
}

/// What is noted about how a worker fares.
pub fn worker_execution_note(w: &SwarmWorktreeState, signs: WorkerSigns) -> (r: Option<String>)
    ensures
        opt_text(r) == note_on(*w, signs),
{
    if let Some(note) = &w.failure_note {
        if !blank(note.as_str()) {
            return Some(note.clone());
        }
    }
    if signs.session_completed && w.ready_branch.is_none() && w.pr.is_none() && !signs.dirty {
        return Some(
            "Worker finished without a ready branch or PR handoff. It stopped without a promotable code change.".to_owned(),
        );
    }
    if has_stalled(w, signs.dirty) {
        return Some("Uncommitted diff, no ready branch, and no active session.".to_owned());
    }
    if w.ready_branch.is_none() && signs.dirty {
        return Some(
            "Uncommitted diff present; worker has not marked a ready branch yet.".to_owned(),
        );
    }
    None
}

/// A worker whose agent runs is never shown as stalled, whatever its worktree
/// looks like.
pub proof fn law_running_agent_is_not_stalled(w: SwarmWorktreeState, signs: WorkerSigns)
    requires
        opt_text(w.agent_session_status) == Some("running"@),
        opt_text(w.phase) == Some("running"@),
        !signs.session_completed,
    ensures
        status_of(w, signs) == "running"@,
{
    reveal_strlit("running");
    reveal_strlit("waiting");
    assert("running"@[0] == 'r');
    assert("waiting"@[0] == 'w');
}

/// A worker that is shown as stalled is noted as such, unless it has noted a
/// failure itself.
pub proof fn law_stalled_is_noted(w: SwarmWorktreeState, signs: WorkerSigns)
    requires
        is_stalled(w, signs.dirty),
        !signs.session_completed,
        w.failure_note is None,
    ensures
        status_of(w, signs) == "stalled"@,
        note_on(w, signs) == Some("Uncommitted diff, no ready branch, and no active session."@),
{
}

// ---------------------------------------------------------------------------
// Tasks
// ---------------------------------------------------------------------------

/// Whether a stage ends a task.
pub open spec fn is_terminal(stage: TaskStage) -> bool {
    stage == TaskStage::Merged || stage == TaskStage::Dismissed
}

/// Whether a stage ends a task.
pub fn stage_is_terminal(stage: TaskStage) -> (r: bool)
    ensures
        r == is_terminal(stage),
{
    match stage {
        TaskStage::Merged => true,
        TaskStage::Dismissed => true,
        _ => false,
    }
}

/// The status that a task's stage gives its worker, where it gives one.
pub open spec fn stage_status(stage: TaskStage) -> Option<Seq<char>> {
    match stage {
        TaskStage::HumanReview => Some("waiting"@),
        TaskStage::Merged => Some("completed"@),
        TaskStage::Dismissed => Some("completed"@),
        _ => None,
    }
}

/// The status of a worker that only its task tells of.
pub open spec fn task_status(stage: TaskStage) -> Seq<char> {
    match stage {
        TaskStage::Triage => "queued"@,
        TaskStage::InProgress => "running"@,
        TaskStage::InAiReview => "running"@,
        TaskStage::HumanReview => "waiting"@,
        TaskStage::Merged => "completed"@,
        TaskStage::Dismissed => "completed"@,
    }
}

/// The status of a worker that only its task tells of.
pub fn worker_status_for_task(stage: TaskStage) -> (r: String)
    ensures
        r@ == task_status(stage),
{
    let word = match stage {
        TaskStage::Triage => "queued",
        TaskStage::InProgress => "running",
        TaskStage::InAiReview => "running",
        TaskStage::HumanReview => "waiting",
        TaskStage::Merged => "completed",
        TaskStage::Dismissed => "completed",
    };
    word.to_owned()
}

fn status_from_stage(stage: TaskStage) -> (r: Option<String>)
    ensures
        opt_text(r) == stage_status(stage),
{
    match stage {
        TaskStage::HumanReview => Some("waiting".to_owned()),
        TaskStage::Merged => Some("completed".to_owned()),
        TaskStage::Dismissed => Some("completed".to_owned()),
        _ => None,
    }
}

/// For how many whole seconds a worker has been there.
pub open spec fn seconds_since(created: Moment, now: Moment) -> int {
    if now.total() <= created.total() {
        0
    } else {
        (now.total() - created.total()) / 1_000_000_000
    }
}

/// For how many whole seconds a worker has been there.
pub fn elapsed_secs(created_at: &Option<Moment>, now: &Moment) -> (r: Option<i64>)
    ensures
        match *created_at {
            Some(c) => r is Some && r->0 == seconds_since(c, *now),
            None => r is None,
        },
{
    match created_at {
        Some(c) => Some(now.seconds_after(c)),
        None => None,
    }
}

/// Whether `view` shows a worker that only its task tells of.
pub open spec fn shows_from_task(
    view: WorkerView,
    workspace: Seq<char>,
    task: Task,
    attempt: Option<TaskAttemptView>,
    names: Names,
    now: Moment,
) -> bool {
    &&& opt_text(task.worker_id) == Some(view.id@)
    &&& view.workspace@ == workspace
    &&& view.branch@ == match task.repo {
        Some(repo) => "task/"@ + repo@,
        None => "task/lifecycle"@,
    }
    &&& view.agent@ == "system"@
    &&& view.status@ == task_status(task.stage)
    &&& view.execution_note is None
    &&& view.ready_branch is None
    &&& !view.has_uncommitted_changes
    &&& opt_text(view.task_id) == Some(task.id@)
    &&& opt_text(view.task_title) == Some(task.title@)
    &&& opt_text(view.task_stage) == Some(task.stage.name())
    &&& opt_text(view.task_lifecycle_state) == Some(lifecycle(
        task,
        attempt,
        names.review_role@,
    ))
    &&& view.task_repo == task.repo
    &&& view.latest_attempt == attempt
    &&& view.pr_url == task.pr_url
    &&& opt_text(view.pr_title) == Some(task.title@)
    &&& opt_text(view.description) == Some(task.title@)
    &&& view.elapsed_secs is Some
    &&& view.elapsed_secs->0 == seconds_since(task.created_at, now)
    &&& view.dispatched_by is None
    &&& view.review_state is None
    &&& view.ci_status is None
    &&& view.total_comments is None
    &&& view.open_comments is None
    &&& view.resolved_comments is None
}

/// A worker that only its task tells of.
pub fn worker_view_from_task(
    workspace: &str,
    task: &Task,
    latest_attempt: Option<TaskAttemptView>,
    names: &Names,
    now: &Moment,
) -> (r: Option<WorkerView>)
    ensures
        r is Some <==> task.worker_id is Some,
        r matches Some(v) ==> shows_from_task(v, workspace@, *task, latest_attempt, *names, *now),
{
    match &task.worker_id {
        Some(id) => {
            let branch = match &task.repo {
                Some(repo) => cat2("task/", repo.as_str()),
                None => "task/lifecycle".to_owned(),
            };
            let state = derive_task_lifecycle_state(task, &latest_attempt, names.review_role.as_str());
            Some(
                WorkerView {
                    id: id.clone(),
                    workspace: workspace.to_owned(),
                    branch,
                    agent: "system".to_owned(),
                    status: worker_status_for_task(task.stage),
                    execution_note: None,
                    ready_branch: None,
                    has_uncommitted_changes: false,
                    task_id: Some(task.id.clone()),
                    task_title: Some(task.title.clone()),
                    task_stage: Some(task.stage.as_str().to_owned()),
                    task_lifecycle_state: Some(state),
                    task_repo: task.repo.clone(),
                    latest_attempt,
                    pr_url: task.pr_url.clone(),
                    pr_title: Some(task.title.clone()),
                    description: Some(task.title.clone()),
                    elapsed_secs: Some(now.seconds_after(&task.created_at)),
                    dispatched_by: None,
                    review_state: None,
                    ci_status: None,
                    total_comments: None,
                    open_comments: None,
                    resolved_comments: None,
                },
            )
        },
        None => None,
    }
}

/// The address of a worker's pull request, where the state file has one.
pub open spec fn own_pr_url(w: SwarmWorktreeState) -> Option<Seq<char>> {
    match w.pr {
        Some(pr) => match pr.url {
            Some(url) => if url@.len() > 0 {
                Some(url@)
            } else {
                None
            },
            None => None,
        },
        None => None,
    }
}

/// The title of a worker's pull request, where the state file has one.
pub open spec fn own_pr_title(w: SwarmWorktreeState) -> Option<Seq<char>> {
    match w.pr {
        Some(pr) => opt_text(pr.title),
        None => None,
    }
}

/// What a worker does, in words.
pub open spec fn description_of(w: SwarmWorktreeState) -> Option<Seq<char>> {
    match w.summary {
        Some(s) => Some(s@),
        None => if trim(w.prompt@).len() > 0 {
            Some(w.prompt@)
        } else {
            None
        },
    }
}

/// The first text, or the second where there is no first.
pub open spec fn either(first: Option<Seq<char>>, second: Option<Seq<char>>) -> Option<Seq<char>> {
    match first {
        Some(s) => Some(s),
        None => second,
    }
}

/// Whether `view` shows a worker of the state file, with the task that it
/// works on.
pub open spec fn shows_from_state(
    view: WorkerView,
    workspace: Seq<char>,
    w: SwarmWorktreeState,
    signs: WorkerSigns,
    task: Option<Task>,
    attempt: Option<TaskAttemptView>,
    names: Names,
    now: Moment,
) -> bool {
    &&& view.id == w.id
    &&& view.workspace@ == workspace
    &&& view.branch == w.branch
    &&& view.agent@ == if w.agent_kind@.len() == 0 {
        names.agent@
    } else {
        w.agent_kind@
    }
    &&& Some(view.status@) == either(
        match task {
            Some(t) => stage_status(t.stage),
            None => None,
        },
        Some(status_of(w, signs)),
    )
    &&& opt_text(view.execution_note) == note_on(w, signs)
    &&& view.ready_branch == w.ready_branch
    &&& view.has_uncommitted_changes == signs.dirty
    &&& match task {
        Some(t) => {
            &&& opt_text(view.task_id) == Some(t.id@)
            &&& opt_text(view.task_title) == Some(t.title@)
            &&& opt_text(view.task_stage) == Some(t.stage.name())
            &&& opt_text(view.task_lifecycle_state) == Some(lifecycle(
                t,
                attempt,
                names.review_role@,
            ))
            &&& view.task_repo == t.repo
            &&& opt_text(view.pr_url) == either(own_pr_url(w), opt_text(t.pr_url))
            &&& opt_text(view.pr_title) == either(own_pr_title(w), Some(t.title@))
        },
        None => {
            &&& view.task_id is None
            &&& view.task_title is None
            &&& view.task_stage is None
            &&& view.task_lifecycle_state is None
            &&& view.task_repo is None
            &&& opt_text(view.pr_url) == own_pr_url(w)
            &&& opt_text(view.pr_title) == own_pr_title(w)
        },
    }
    &&& view.latest_attempt == attempt
    &&& opt_text(view.description) == description_of(w)
    &&& match w.created_at {
        Some(c) => view.elapsed_secs is Some && view.elapsed_secs->0 == seconds_since(c, now),
        None => view.elapsed_secs is None,
    }
    &&& view.dispatched_by is None
    &&& opt_text(view.review_state) == match w.pr {
        Some(pr) => opt_text(pr.state),
        None => None,
    }
    &&& view.ci_status is None
    &&& view.total_comments is None
    &&& view.open_comments is None
    &&& view.resolved_comments is None
}

/// A worker of the state file, with the task that it works on.
pub fn worker_view_from_state(
    workspace: &str,
    w: &SwarmWorktreeState,
    signs: WorkerSigns,
    task: &Option<Task>,
    latest_attempt: Option<TaskAttemptView>,
    names: &Names,
    now: &Moment,
) -> (r: WorkerView)
    ensures
        shows_from_state(r, workspace@, *w, signs, *task, latest_attempt, *names, *now),
{
    let (own_url, own_title, review_state) = match &w.pr {
        Some(pr) => (
            match &pr.url {
                Some(url) => if url.as_str().is_empty() {
                    None
                } else {
                    Some(url.clone())
                },
                None => None,
            },
            pr.title.clone(),
            pr.state.clone(),
        ),
        None => (None, None, None),
    };
    let description = match &w.summary {
        Some(s) => Some(s.clone()),
        None => if blank(w.prompt.as_str()) {
            None
        } else {
            Some(w.prompt.clone())
        },
    };
    let agent = if w.agent_kind.as_str().is_empty() {
        names.agent.clone()
    } else {
        w.agent_kind.clone()
    };
    let own_status = worker_status_for_state(w, signs);
    let execution_note = worker_execution_note(w, signs);
    let elapsed = elapsed_secs(&w.created_at, now);
    match task {
        Some(t) => {
            let state = derive_task_lifecycle_state(t, &latest_attempt, names.review_role.as_str());
            let status = match status_from_stage(t.stage) {
                Some(s) => s,
                None => own_status,
            };
            let pr_url = match own_url {
                Some(u) => Some(u),
                None => t.pr_url.clone(),
            };
            let pr_title = match own_title {
                Some(s) => Some(s),
                None => Some(t.title.clone()),
            };
            WorkerView {
                id: w.id.clone(),
                workspace: workspace.to_owned(),
                branch: w.branch.clone(),
                agent,
                status,
                execution_note,
                ready_branch: w.ready_branch.clone(),
                has_uncommitted_changes: signs.dirty,
                task_id: Some(t.id.clone()),
                task_title: Some(t.title.clone()),
                task_stage: Some(t.stage.as_str().to_owned()),
                task_lifecycle_state: Some(state),
                task_repo: t.repo.clone(),
                latest_attempt,
                pr_url,
                pr_title,
                description,
                elapsed_secs: elapsed,
                dispatched_by: None,
                review_state,
                ci_status: None,
                total_comments: None,
                open_comments: None,
                resolved_comments: None,
            }
        },
        None => WorkerView {
            id: w.id.clone(),
            workspace: workspace.to_owned(),
            branch: w.branch.clone(),
            agent,
            status: own_status,
            execution_note,
            ready_branch: w.ready_branch.clone(),
            has_uncommitted_changes: signs.dirty,
            task_id: None,
            task_title: None,
            task_stage: None,
            task_lifecycle_state: None,
            task_repo: None,
            latest_attempt,
            pr_url: own_url,
            pr_title: own_title,
            description,
            elapsed_secs: elapsed,
            dispatched_by: None,
            review_state,
            ci_status: None,
            total_comments: None,
            open_comments: None,
            resolved_comments: None,
        },
    }
}

// ---------------------------------------------------------------------------
// All workers of a workspace
// ---------------------------------------------------------------------------

/// A task with its latest attempt.
pub struct TaskWithAttempt {
    pub task: Task,
    pub attempt: Option<TaskAttemptView>,
}

/// Whether a task tells of a worker that the state file does not: it has a
/// worker, the state file does not list it, and the task is not over without a
/// pull request.
pub open spec fn tells_of_worker(t: Task, ids: Seq<Seq<char>>) -> bool {
    &&& t.worker_id is Some
    &&& !ids.contains(t.worker_id->0@)
    &&& !(is_terminal(t.stage) && t.pr_url is None)
}

/// The positions of the tasks that tell of workers which the state file does
/// not list.
pub open spec fn telling_tasks(tasks: Seq<TaskWithAttempt>, ids: Seq<Seq<char>>) -> Seq<int>
    decreases tasks.len(),
{
    if tasks.len() == 0 {
        seq![]
    } else {
        let rest = telling_tasks(tasks.drop_last(), ids);
        if tells_of_worker(tasks.last().task, ids) {
            rest.push(tasks.len() - 1)
        } else {
            rest
        }
    }
}

/// The identifiers of workers.
pub open spec fn ids_of(workers: Seq<WorkerView>) -> Seq<Seq<char>> {
    workers.map_values(|w: WorkerView| w.id@)
}

fn is_listed(workers: &Vec<WorkerView>, upto: usize, id: &str) -> (r: bool)
    requires
        upto <= workers@.len(),
    ensures
        r == ids_of(workers@.take(upto as int)).contains(id@),
{
    let ghost ids = ids_of(workers@.take(upto as int));
    let mut i: usize = 0;
    while i < upto
        invariant
            upto <= workers@.len(),
            ids == ids_of(workers@.take(upto as int)),
            0 <= i <= upto,
            forall|j: int| 0 <= j < i ==> ids[j] != id@,
        decreases upto - i,
    {
        proof {
            assert(ids[i as int] == workers@[i as int].id@);
        }
        if same(workers[i].id.as_str(), id) {
            return true;
        }
        i = i + 1;
    }
    false
}

fn copy_attempt(a: &Option<TaskAttemptView>) -> (r: Option<TaskAttemptView>)
    ensures
        r == *a,
{
    match a {
        Some(v) => Some(
            TaskAttemptView {
                worker_id: v.worker_id.clone(),
                role: v.role.clone(),
                state: v.state.clone(),
                branch: v.branch.clone(),
                pr_url: v.pr_url.clone(),
                pr_number: v.pr_number,
                detail: v.detail.clone(),
                created_at: v.created_at.clone(),
                updated_at: v.updated_at.clone(),
                completed_at: v.completed_at.clone(),
            },
        ),
        None => None,
    }
}

/// All workers of a workspace: those of the state file, and behind them those
/// that only tasks tell of.
pub fn load_worker_views(
    workspace: &str,
    listed: Vec<WorkerView>,
    tasks: &Vec<TaskWithAttempt>,
    names: &Names,
    now: &Moment,
) -> (r: Vec<WorkerView>)
    ensures
        ({
            let more = telling_tasks(tasks@, ids_of(listed@));
            &&& r@.len() == listed@.len() + more.len()
            &&& r@.take(listed@.len() as int) == listed@
            &&& forall|i: int|
                0 <= i < more.len() ==> shows_from_task(
                    #[trigger] r@[listed@.len() + i],
                    workspace@,
                    tasks@[more[i]].task,
                    tasks@[more[i]].attempt,
                    *names,
                    *now,
                )
        }),
{
    let ghost first = listed@;
    let known: usize = listed.len();
    let ghost ids = ids_of(first);
    let mut out = listed;
    let n: usize = tasks.len();
    let mut i: usize = 0;
    let ghost mut more: Seq<int> = seq![];
    proof {
        assert(out@.take(known as int) =~= first);
    }
    while i < n
        invariant
            n == tasks@.len(),
            0 <= i <= n,
            known == first.len(),
            ids == ids_of(first),
            more == telling_tasks(tasks@.take(i as int), ids),
            out@.len() == known + more.len(),
            out@.take(known as int) == first,
            forall|j: int|
                0 <= j < more.len() ==> 0 <= #[trigger] more[j] < i && shows_from_task(
                    out@[known + j],
                    workspace@,
                    tasks@[more[j]].task,
                    tasks@[more[j]].attempt,
                    *names,
                    *now,
                ),
        decreases n - i,
    {
        let t = &tasks[i].task;
        let ghost before = more;
        let ghost old_out = out@;
        proof {
            assert(tasks@.take(i + 1).drop_last() =~= tasks@.take(i as int));
            assert(tasks@.take(i + 1).last() == tasks@[i as int]);
        }
        let mut telling: bool = false;
        if let Some(id) = &t.worker_id {
            telling = !is_listed(&out, known, id.as_str()) && !(stage_is_terminal(t.stage)
                && t.pr_url.is_none());
        }
        proof {
            assert(telling == tells_of_worker(*t, ids));
            more = telling_tasks(tasks@.take(i + 1), ids);
            assert(more == if telling {
                before.push(i as int)
            } else {
                before
            });
        }
        if telling {
            let attempt = copy_attempt(&tasks[i].attempt);
            if let Some(view) = worker_view_from_task(workspace, t, attempt, names, now) {
                out.push(view);
                proof {
                    assert(out@.take(known as int) =~= first);
                    assert forall|j: int| 0 <= j < more.len() implies 0 <= #[trigger] more[j] < i
                        + 1 && shows_from_task(
                        out@[known + j],
                        workspace@,
                        tasks@[more[j]].task,
                        tasks@[more[j]].attempt,
                        *names,
                    *now,
                    ) by {
                        if j < before.len() {
                            assert(more[j] == before[j]);
                            assert(out@[known + j] == old_out[known + j]);
                        } else {
                            assert(out@[known + j] == view);
                        }
                    }
                }
            }
        }
        i = i + 1;
    }
    proof {
        assert(tasks@.take(n as int) =~= tasks@);
        assert forall|k: int| 0 <= k < more.len() implies shows_from_task(
            #[trigger] out@[first.len() + k],
            workspace@,
            tasks@[more[k]].task,
            tasks@[more[k]].attempt,
            *names,
            *now,
        ) by {
            assert(0 <= more[k] < n);
        }
    }
    out
}

/// The workers of a workspace, each of which the state file lists, keep their
/// places, and no worker of the state file is shown a second time for its task.
pub proof fn law_listed_workers_come_first(tasks: Seq<TaskWithAttempt>, ids: Seq<Seq<char>>)
    ensures
        forall|i: int|
            0 <= i < telling_tasks(tasks, ids).len() ==> {
                let k = #[trigger] telling_tasks(tasks, ids)[i];
                &&& 0 <= k < tasks.len()
                &&& tells_of_worker(tasks[k].task, ids)
                &&& !ids.contains(tasks[k].task.worker_id->0@)
            },
    decreases tasks.len(),
{
    if tasks.len() > 0 {
        let front = tasks.drop_last();
        law_listed_workers_come_first(front, ids);
        let rest = telling_tasks(front, ids);
        let all = telling_tasks(tasks, ids);
        assert forall|i: int| 0 <= i < all.len() implies {
            let k = #[trigger] all[i];
            &&& 0 <= k < tasks.len()
            &&& tells_of_worker(tasks[k].task, ids)
            &&& !ids.contains(tasks[k].task.worker_id->0@)
        } by {
            if i < rest.len() {
                assert(all[i] == rest[i]);
                assert(front[rest[i]] == tasks[rest[i]]);
            }
        }
    }
}

// ---------------------------------------------------------------------------
// A worker's conversation and its task packet
// ---------------------------------------------------------------------------

/// An entry of a worker's conversation.
pub enum ConversationEntry {
    User { text: String, timestamp: String },
    AssistantText { text: String, timestamp: String },
    Question { text: String, timestamp: String },
    ToolCall { tool: String },
    Status { text: String },
}

/// A message of a worker's conversation as the web interface shows it.
pub struct WorkerConversationMessageView {
    pub role: String,
    pub content: String,
    pub timestamp: Option<String>,
}

/// A message of a worker's conversation as the web interface shows it.
pub fn conversation_message(entry: &ConversationEntry) -> (r: WorkerConversationMessageView)
    ensures
        match *entry {
            ConversationEntry::User { text, timestamp } => r.role@ == "user"@ && r.content@
                == text@ && opt_text(r.timestamp) == Some(timestamp@),
            ConversationEntry::AssistantText { text, timestamp } => r.role@ == "assistant"@
                && r.content@ == text@ && opt_text(r.timestamp) == Some(timestamp@),
            ConversationEntry::Question { text, timestamp } => r.role@ == "assistant"@
                && r.content@ == text@ && opt_text(r.timestamp) == Some(timestamp@),
            ConversationEntry::ToolCall { tool } => r.role@ == "tool"@ && r.content@ == tool@
                && r.timestamp is None,
            ConversationEntry::Status { text } => r.role@ == "assistant"@ && r.content@ == text@
                && r.timestamp is None,
        },
{
    match entry {
        ConversationEntry::User { text, timestamp } => WorkerConversationMessageView {
            role: "user".to_owned(),
            content: text.clone(),
            timestamp: Some(timestamp.clone()),
        },
        ConversationEntry::AssistantText { text, timestamp } => WorkerConversationMessageView {
            role: "assistant".to_owned(),
            content: text.clone(),
            timestamp: Some(timestamp.clone()),
        },
        ConversationEntry::Question { text, timestamp } => WorkerConversationMessageView {
            role: "assistant".to_owned(),
            content: text.clone(),
            timestamp: Some(timestamp.clone()),
        },
        ConversationEntry::ToolCall { tool } => WorkerConversationMessageView {
            role: "tool".to_owned(),
            content: tool.clone(),
            timestamp: None,
        },
        ConversationEntry::Status { text } => WorkerConversationMessageView {
            role: "assistant".to_owned(),
            content: text.clone(),
            timestamp: None,
        },
    }
}

/// The last thing that the assistant said.
pub open spec fn last_said(messages: Seq<WorkerConversationMessageView>) -> Option<Seq<char>>
    decreases messages.len(),
{
    if messages.len() == 0 {
        None
    } else if messages.last().role@ == "assistant"@ {
        Some(messages.last().content@)
    } else {
        last_said(messages.drop_last())
    }
}

/// The last thing that the assistant said.
pub fn worker_output_from_conversation(messages: &Vec<WorkerConversationMessageView>) -> (r: Option<
    String,
>)
    ensures
        opt_text(r) == last_said(messages@),
{
    let mut i: usize = messages.len();
    proof {
        assert(messages@.take(messages@.len() as int) =~= messages@);
    }
    while i > 0
        invariant
            0 <= i <= messages@.len(),
            last_said(messages@) == last_said(messages@.take(i as int)),
        decreases i,
    {
        proof {
            assert(messages@.take(i as int).last() == messages@[i - 1]);
            assert(messages@.take(i as int).drop_last() =~= messages@.take(i - 1));
        }
        i = i - 1;
        if same(messages[i].role.as_str(), "assistant") {
            return Some(messages[i].content.clone());
        }
    }
    None
}

/// The files of a worker's task packet.
pub struct TaskPacketFiles {
    pub task_md: Option<String>,
    pub context_md: Option<String>,
    pub plan_md: Option<String>,
    pub shaping_md: Option<String>,
    pub progress_md: Option<String>,
}

/// A worker's task packet as the web interface shows it.
pub struct WorkerTaskPacketView {
    pub worker_mode: Option<String>,
    pub task_md: Option<String>,
    pub context_md: Option<String>,
    pub plan_md: Option<String>,
    pub shaping_md: Option<String>,
    pub progress_md: Option<String>,
}

/// The mode that a line of a task names: what stands in backquotes in an item
/// of a list.
pub open spec fn mode_in_line(line: Seq<char>) -> Option<Seq<char>> {
    let t = trim(line);
    if starts_with(t, "- `"@) && ends_with(t.skip(3), "`"@) {
        Some(t.skip(3).take(t.len() - 4))
    } else {
        None
    }
}

/// The mode that the first such line names.
pub open spec fn mode_in_lines(list: Seq<Seq<char>>) -> Option<Seq<char>>
    decreases list.len(),
{
    if list.len() == 0 {
        None
    } else {
        match mode_in_line(list[0]) {
            Some(m) => Some(m),
            None => mode_in_lines(list.drop_first()),
        }
    }
}

fn find_mode(line: &str) -> (r: Option<String>)
    ensures
        opt_text(r) == mode_in_line(line@),
{
    let t = trimmed(line);
    if has_prefix(t.as_str(), "- `") {
        let v = chars_of(t.as_str());
        proof {
            reveal_strlit("- `");
            reveal_strlit("`");
        }
        let rest = string_between(&v, 3, v.len());
        proof {
            assert(t@.skip(3) =~= rest@);
        }
        if has_suffix(rest.as_str(), "`") {
            let w = chars_of(rest.as_str());
            proof {
                assert(rest@.take(t@.len() - 4) =~= w@.subrange(0, w@.len() - 1));
            }
            Some(string_between(&w, 0, w.len() - 1))
        } else {
            None
        }
    } else {
        None
    }
}

/// The mode of a worker, as its task names it.
pub fn worker_mode(task_md: &str) -> (r: Option<String>)
    ensures
        opt_text(r) == mode_in_lines(lines(task_md@)),
{
    let list = lines_of(task_md);
    let ghost all = texts(list@);
    let n: usize = list.len();
    let mut i: usize = 0;
    proof {
        assert(all.skip(0) =~= all);
    }
    while i < n
        invariant
            n == list@.len(),
            all == texts(list@),
            all == lines(task_md@),
            0 <= i <= n,
            mode_in_lines(all) == mode_in_lines(all.skip(i as int)),
        decreases n - i,
    {
        let mode = find_mode(list[i].as_str());
        proof {
            assert(all.skip(i as int)[0] == list@[i as int]@);
            assert(all.skip(i as int).drop_first() =~= all.skip(i + 1));
        }
        if mode.is_some() {
            return mode;
        }
        i = i + 1;
    }
    None
}

/// Whether `packet` is what the files of a task packet come to: nothing where
/// there is none of them.
pub open spec fn is_packet(packet: Option<WorkerTaskPacketView>, files: TaskPacketFiles) -> bool {
    match packet {
        Some(p) => {
            &&& files.task_md is Some || files.context_md is Some || files.plan_md is Some
                || files.shaping_md is Some || files.progress_md is Some
            &&& p.task_md == files.task_md
            &&& p.context_md == files.context_md
            &&& p.plan_md == files.plan_md
            &&& p.shaping_md == files.shaping_md
            &&& p.progress_md == files.progress_md
            &&& opt_text(p.worker_mode) == match files.task_md {
                Some(t) => mode_in_lines(lines(t@)),
                None => None,
            }
        },
        None => files.task_md is None && files.context_md is None && files.plan_md is None
            && files.shaping_md is None && files.progress_md is None,
    }
}

/// A worker's task packet, where there is any file of one.
pub fn task_packet(files: &TaskPacketFiles) -> (r: Option<WorkerTaskPacketView>)
    ensures
        is_packet(r, *files),
{
    if files.task_md.is_none() && files.context_md.is_none() && files.plan_md.is_none()
        && files.shaping_md.is_none() && files.progress_md.is_none() {
        return None;
    }
    let mode = match &files.task_md {
        Some(t) => worker_mode(t.as_str()),
        None => None,
    };
    Some(
        WorkerTaskPacketView {
            worker_mode: mode,
            task_md: files.task_md.clone(),
            context_md: files.context_md.clone(),
            plan_md: files.plan_md.clone(),
            shaping_md: files.shaping_md.clone(),
            progress_md: files.progress_md.clone(),
        },
    )
}

// ---------------------------------------------------------------------------
// A worker in detail
// ---------------------------------------------------------------------------

/// Where the state file of a workspace lies: where its watcher is told to look
/// for it, else below the workspace's root.
pub fn swarm_state_path(root: &str, watched: &Option<String>) -> (r: String)
    ensures
        r@ == match *watched {
            Some(path) => path@,
            None => below(root@, ".swarm/state.json"@),
        },
{
    match watched {
        Some(path) => path.clone(),
        None => {
            proof {
                reveal_strlit(".swarm/state.json");
            }
            path_below(root, ".swarm/state.json")
        },
    }
}

/// Finds a worker in the state file: the first of the identifier.
pub fn find_worker_state(workers: &Vec<SwarmWorktreeState>, worker_id: &str) -> (r: Option<usize>)
    ensures
        match r {
            Some(i) => i < workers@.len() && workers@[i as int].id@ == worker_id@ && forall|j: int|
                0 <= j < i ==> (#[trigger] workers@[j]).id@ != worker_id@,
            None => forall|j: int|
                0 <= j < workers@.len() ==> (#[trigger] workers@[j]).id@ != worker_id@,
        },
{
    let n: usize = workers.len();
    let mut i: usize = 0;
    while i < n
        invariant
            n == workers@.len(),
            0 <= i <= n,
            forall|j: int| 0 <= j < i ==> (#[trigger] workers@[j]).id@ != worker_id@,
        decreases n - i,
    {
        if same(workers[i].id.as_str(), worker_id) {
            return Some(i);
        }
        i = i + 1;
    }
    None
}

/// A worker with all that is known of it.
pub struct WorkerDetailView {
    pub worker: WorkerView,
    pub prompt: Option<String>,
    pub output: Option<String>,
    pub conversation: Vec<WorkerConversationMessageView>,
    pub task_packet: Option<WorkerTaskPacketView>,
}

/// What a worker has come to: the last thing that the assistant said, else the
/// worker's summary.
pub open spec fn output_of(
    w: SwarmWorktreeState,
    conversation: Seq<WorkerConversationMessageView>,
) -> Option<Seq<char>> {
    either(last_said(conversation), opt_text(w.summary))
}

/// A worker with all that is known of it: from the state file, or where that
/// does not list it, from its task alone. Without either there is nothing to
/// show. `files` are those of the task packet in its worktree.
pub fn worker_detail(
    workspace: &str,
    worker: &Option<SwarmWorktreeState>,
    signs: WorkerSigns,
    task: &Option<Task>,
    latest_attempt: Option<TaskAttemptView>,
    conversation: Vec<WorkerConversationMessageView>,
    files: &TaskPacketFiles,
    names: &Names,
    now: &Moment,
) -> (r: Option<WorkerDetailView>)
    ensures
        r is None <==> worker is None && (task is None || task->0.worker_id is None),
        r matches Some(d) ==> d.conversation == conversation && match *worker {
            Some(w) => {
                &&& shows_from_state(d.worker, workspace@, w, signs, *task, latest_attempt, *names, *now)
                &&& opt_text(d.prompt) == if trim(w.prompt@).len() == 0 {
                    None
                } else {
                    Some(w.prompt@)
                }
                &&& opt_text(d.output) == output_of(w, conversation@)
                &&& if w.worktree_path is Some {
                    is_packet(d.task_packet, *files)
                } else {
                    d.task_packet is None
                }
            },
            None => {
                &&& shows_from_task(d.worker, workspace@, task->0, latest_attempt, *names, *now)
                &&& d.prompt is None
                &&& d.output is None
                &&& d.task_packet is None
            },
        },
{
    match worker {
        Some(w) => {
            let view = worker_view_from_state(workspace, w, signs, task, latest_attempt, names, now);
            let output = match worker_output_from_conversation(&conversation) {
                Some(s) => Some(s),
                None => w.summary.clone(),
            };
            let prompt = if blank(w.prompt.as_str()) {
                None
            } else {
                Some(w.prompt.clone())
            };
            let packet = match &w.worktree_path {
                Some(_) => task_packet(files),
                None => None,
            };
            Some(WorkerDetailView { worker: view, prompt, output, conversation, task_packet: packet })
        },
        None => match task {
            Some(t) => match worker_view_from_task(workspace, t, latest_attempt, names, now) {
                Some(view) => Some(
                    WorkerDetailView {
                        worker: view,
                        prompt: None,
                        output: None,
                        conversation,
                        task_packet: None,
                    },
                ),
                None => None,
            },
            None => None,
        },
    }
}

// ---------------------------------------------------------------------------
// Laws
// ---------------------------------------------------------------------------

/// A worker whose session has come to an end is completed where it left a
/// branch that is ready or a pull request, one of them is enough; where it left
/// neither, it has failed.
pub proof fn law_ended_worker_is_completed_or_failed(w: SwarmWorktreeState, signs: WorkerSigns)
    requires
        signs.session_completed,
    ensures
        w.ready_branch is Some ==> status_of(w, signs) == "completed"@,
        w.pr is Some ==> status_of(w, signs) == "completed"@,
        w.ready_branch is None && w.pr is None ==> status_of(w, signs) == "failed"@,
{
}

/// A worker whose session goes on is shown in the phase that its state names,
/// but for two cases in which it only seems to run: it waits where its session
/// waits, and it is stalled where it has neither a session nor a process nor a
/// branch that is ready, while its worktree has changes.
pub proof fn law_worker_is_shown_in_its_phase(w: SwarmWorktreeState, signs: WorkerSigns)
    requires
        !signs.session_completed,
    ensures
        w.phase is Some && w.phase->0@ != "running"@ ==> status_of(w, signs) == w.phase->0@,
        ({
            let runs = w.phase is Some && w.phase->0@ == "running"@;
            let adrift = w.ready_branch is None && w.session_id is None && w.agent_pid is None
                && signs.dirty;
            let session_runs = w.agent_session_status is Some && w.agent_session_status->0@
                == "running"@;
            let session_waits = w.agent_session_status is Some && w.agent_session_status->0@
                == "waiting"@;
            &&& runs && adrift && !session_runs ==> status_of(w, signs) == "stalled"@
            &&& runs && (!adrift || session_runs) && session_waits ==> status_of(w, signs)
                == "waiting"@
            &&& runs && (!adrift || session_runs) && !session_waits ==> status_of(w, signs)
                == "running"@
        }),
        w.phase is None && w.agent_session_status is Some ==> status_of(w, signs)
            == w.agent_session_status->0@,
        w.phase is None && w.agent_session_status is None ==> status_of(w, signs) == "unknown"@,
{
    reveal_strlit("running");
    reveal_strlit("waiting");
    assert("running"@[0] == 'r');
    assert("waiting"@[0] == 'w');
}

/// What a worker notes about its own failure is shown before all else. A worker
/// that ended with nothing to show for it is noted as such. Changes that are
/// not committed are noted as long as no branch is ready, and nothing is noted
/// about a worker whose branch is ready and that noted no failure.
pub proof fn law_note_tells_what_is_missing(w: SwarmWorktreeState, signs: WorkerSigns)
    ensures
        w.failure_note is Some && trim(w.failure_note->0@).len() > 0 ==> note_on(w, signs) == Some(
            w.failure_note->0@,
        ),
        ({
            let silent = w.failure_note is None || trim(w.failure_note->0@).len() == 0;
            &&& silent && w.ready_branch is Some ==> note_on(w, signs) is None
            &&& silent && w.ready_branch is None && signs.dirty ==> note_on(w, signs) is Some
            &&& silent && w.ready_branch is None && !signs.dirty ==> (note_on(w, signs) is Some
                <==> signs.session_completed && w.pr is None)
        }),
{
}

/// A worker that only its task tells of is queued while the task is new, runs
/// while the task is in progress or under review by an agent, waits while a
/// human reviews it, and is completed once the task is over. The stage of a
/// task overrules what the state file says of its worker from the human review
/// on, and never before.
pub proof fn law_stage_gives_the_status(stage: TaskStage)
    ensures
        task_status(TaskStage::Triage) == "queued"@,
        stage == TaskStage::InProgress || stage == TaskStage::InAiReview ==> task_status(stage)
            == "running"@ && stage_status(stage) is None,
        stage == TaskStage::HumanReview ==> task_status(stage) == "waiting"@ && stage_status(stage)
            == Some("waiting"@),
        stage == TaskStage::Merged || stage == TaskStage::Dismissed ==> task_status(stage)
            == "completed"@ && stage_status(stage) == Some("completed"@),
        stage_status(TaskStage::Triage) is None,
        is_terminal(stage) <==> stage == TaskStage::Merged || stage == TaskStage::Dismissed,
{
}

/// Every task whose worker the state file does not list is shown as a worker,
/// unless it is over and has no pull request, and each such task once: in the
/// order of the tasks.
pub proof fn law_unlisted_workers_are_shown(tasks: Seq<TaskWithAttempt>, ids: Seq<Seq<char>>)
    ensures
        forall|k: int|
            0 <= k < tasks.len() ==> {
                let t = (#[trigger] tasks[k]).task;
                telling_tasks(tasks, ids).contains(k) <==> t.worker_id is Some && !ids.contains(
                    t.worker_id->0@,
                ) && (t.pr_url is Some || (t.stage != TaskStage::Merged && t.stage
                    != TaskStage::Dismissed))
            },
        forall|i: int, j: int|
            0 <= i < j < telling_tasks(tasks, ids).len() ==> #[trigger] telling_tasks(
                tasks,
                ids,
            )[i] < #[trigger] telling_tasks(tasks, ids)[j],
    decreases tasks.len(),
{
    law_listed_workers_come_first(tasks, ids);
    if tasks.len() > 0 {
        let front = tasks.drop_last();
        let rest = telling_tasks(front, ids);
        let all = telling_tasks(tasks, ids);
        law_listed_workers_come_first(front, ids);
        law_unlisted_workers_are_shown(front, ids);
        let last = tasks.len() - 1;
        assert forall|k: int| 0 <= k < tasks.len() implies {
            let t = (#[trigger] tasks[k]).task;
            all.contains(k) <==> t.worker_id is Some && !ids.contains(t.worker_id->0@) && (
            t.pr_url is Some || (t.stage != TaskStage::Merged && t.stage != TaskStage::Dismissed))
        } by {
            if k < last {
                assert(front[k] == tasks[k]);
                if rest.contains(k) {
                    let i = choose|i: int| 0 <= i < rest.len() && rest[i] == k;
                    assert(all[i] == k);
                }
                if all.contains(k) {
                    let i = choose|i: int| 0 <= i < all.len() && all[i] == k;
                    assert(i < rest.len());
                    assert(rest[i] == k);
                }
            } else {
                if tells_of_worker(tasks[k].task, ids) {
                    assert(all[rest.len() as int] == k);
                } else if all.contains(k) {
                    let i = choose|i: int| 0 <= i < all.len() && all[i] == k;
                    assert(0 <= rest[i] < front.len());
                }
            }
        }
        assert forall|i: int, j: int| 0 <= i < j < all.len() implies #[trigger] all[i]
            < #[trigger] all[j] by {
            if j < rest.len() {
                assert(rest[i] < rest[j]);
            } else {
                assert(0 <= rest[i] < front.len());
            }
        }
    }
}

/// The end of a session is seen in any of the last twenty lines of the log, and
/// in no line before them.
pub proof fn law_end_is_seen_in_the_last_lines(log: Seq<char>)
    ensures
        tells_end(log) <==> exists|k: int|
            0 <= k < 20 && k < lines(log).len() && contains(
                #[trigger] lines(log)[lines(log).len() - 1 - k],
                "\"type\":\"session_result\""@,
            ),
{
    let all = lines(log);
    if tells_end(log) {
        let i = choose|i: int|
            {
                &&& 0 <= i < all.len()
                &&& i >= all.len() - 20
                &&& contains(#[trigger] all[i], "\"type\":\"session_result\""@)
            };
        let k = all.len() - 1 - i;
        assert(all[all.len() - 1 - k] == all[i]);
    }
    if exists|k: int|
        0 <= k < 20 && k < all.len() && contains(
            #[trigger] all[all.len() - 1 - k],
            "\"type\":\"session_result\""@,
        ) {
        let k = choose|k: int|
            0 <= k < 20 && k < all.len() && contains(
                #[trigger] all[all.len() - 1 - k],
                "\"type\":\"session_result\""@,
            );
        assert(contains(all[all.len() - 1 - k], "\"type\":\"session_result\""@));
    }
}

/// What a worker has said last is the last of its messages that the assistant
/// wrote, and there is none exactly where the assistant wrote nothing. Where
/// there is none, the summary of the worker stands for it.
pub proof fn law_output_is_the_last_answer(
    w: SwarmWorktreeState,
    messages: Seq<WorkerConversationMessageView>,
    i: int,
)
    ensures
        0 <= i < messages.len() && messages[i].role@ == "assistant"@ && (forall|j: int|
            i < j < messages.len() ==> (#[trigger] messages[j]).role@ != "assistant"@)
            ==> last_said(messages) == Some(messages[i].content@) && output_of(w, messages) == Some(
            messages[i].content@,
        ),
        (forall|j: int|
            0 <= j < messages.len() ==> (#[trigger] messages[j]).role@ != "assistant"@)
            ==> last_said(messages) is None && output_of(w, messages) == opt_text(w.summary),
    decreases messages.len(),
{
    if messages.len() > 0 {
        let front = messages.drop_last();
        law_output_is_the_last_answer(w, front, i);
        let last = messages.len() - 1;
        if (forall|j: int| i < j < messages.len() ==> (#[trigger] messages[j]).role@
            != "assistant"@) && 0 <= i < last {
            assert(messages[last].role@ != "assistant"@);
            assert forall|j: int| i < j < front.len() implies (#[trigger] front[j]).role@
                != "assistant"@ by {
                assert(front[j] == messages[j]);
            }
        }
        if forall|j: int|
            0 <= j < messages.len() ==> (#[trigger] messages[j]).role@ != "assistant"@ {
            assert(messages[last].role@ != "assistant"@);
            assert forall|j: int| 0 <= j < front.len() implies (#[trigger] front[j]).role@
                != "assistant"@ by {
                assert(front[j] == messages[j]);
            }
        }
    }
}

/// The mode of a worker is what its task has in backquotes in the first item of
/// a list that is nothing else.
pub proof fn law_mode_stands_in_backquotes(
    before: Seq<Seq<char>>,
    mode: Seq<char>,
    after: Seq<Seq<char>>,
)
    requires
        forall|i: int| 0 <= i < before.len() ==> !starts_with(trim(#[trigger] before[i]), "- `"@),
    ensures
        mode_in_lines(before + seq!["- `"@ + mode + "`"@] + after) == Some(mode),
    decreases before.len(),
{
    reveal_strlit("- `");
    reveal_strlit("`");
    let line = "- `"@ + mode + "`"@;
    let all = before + seq![line] + after;
    if before.len() == 0 {
        assert(all[0] == line);
        crate::text::lemma_trim_start(line, 0);
        crate::text::lemma_trim_end(line, line.len() as int);
        assert(line.skip(0) =~= line);
        assert(line.take(line.len() as int) =~= line);
        assert(line.subrange(0, 3) =~= "- `"@);
        let rest = line.skip(3);
        assert(rest =~= mode + "`"@);
        assert(rest.subrange(rest.len() - 1, rest.len() as int) =~= "`"@);
        assert(rest.take(line.len() - 4) =~= mode);
    } else {
        let t = before.drop_first();
        assert(all[0] == before[0]);
        assert(all.drop_first() =~= t + seq![line] + after);
        assert forall|i: int| 0 <= i < t.len() implies !starts_with(trim(#[trigger] t[i]), "- `"@) by {
            assert(t[i] == before[i + 1]);
        }
        law_mode_stands_in_backquotes(t, mode, after);
    }
}

/// A worker is shown under the identifier and the branch of its state, for the
/// time since it was created. What the state file says of its pull request
/// comes before what its task says; the task's stage decides the status once a
/// human is to look at it.
pub proof fn law_state_and_task_are_shown_together(
    view: WorkerView,
    workspace: Seq<char>,
    w: SwarmWorktreeState,
    signs: WorkerSigns,
    task: Option<Task>,
    attempt: Option<TaskAttemptView>,
    names: Names,
    now: Moment,
)
    requires
        shows_from_state(view, workspace, w, signs, task, attempt, names, now),
    ensures
        view.id@ == w.id@ && view.branch@ == w.branch@ && view.workspace@ == workspace,
        view.has_uncommitted_changes == signs.dirty,
        view.ready_branch == w.ready_branch,
        w.agent_kind@.len() > 0 ==> view.agent@ == w.agent_kind@,
        w.agent_kind@.len() == 0 ==> view.agent@ == names.agent@,
        w.pr is Some && w.pr->0.url is Some && w.pr->0.url->0@.len() > 0 ==> opt_text(view.pr_url)
            == Some(w.pr->0.url->0@),
        w.pr is None && task is Some ==> opt_text(view.pr_url) == opt_text(task->0.pr_url),
        w.pr is None && task is None ==> view.pr_url is None,
        w.pr is Some && w.pr->0.title is Some ==> opt_text(view.pr_title) == Some(
            w.pr->0.title->0@,
        ),
        w.pr is None && task is Some ==> opt_text(view.pr_title) == Some(task->0.title@),
        w.summary is Some ==> opt_text(view.description) == Some(w.summary->0@),
        w.summary is None && trim(w.prompt@).len() > 0 ==> opt_text(view.description) == Some(
            w.prompt@,
        ),
        w.summary is None && trim(w.prompt@).len() == 0 ==> view.description is None,
        task is Some ==> view.task_id is Some && view.task_id->0@ == task->0.id@
            && view.task_lifecycle_state is Some && view.task_lifecycle_state->0@ == lifecycle(
            task->0,
            attempt,
            names.review_role@,
        ),
        task is None ==> view.task_id is None && view.status@ == status_of(w, signs),
        task is Some && task->0.stage == TaskStage::HumanReview ==> view.status@ == "waiting"@,
        task is Some && (task->0.stage == TaskStage::Merged || task->0.stage
            == TaskStage::Dismissed) ==> view.status@ == "completed"@,
        task is Some && (task->0.stage == TaskStage::Triage || task->0.stage
            == TaskStage::InProgress || task->0.stage == TaskStage::InAiReview) ==> view.status@
            == status_of(w, signs),
        w.created_at is Some && w.created_at->0.total() <= now.total() ==> view.elapsed_secs is Some
            && view.elapsed_secs->0 * 1_000_000_000 <= now.total() - w.created_at->0.total() < (
        view.elapsed_secs->0 + 1) * 1_000_000_000,
        w.created_at is Some && w.created_at->0.total() > now.total() ==> view.elapsed_secs
            == Some(0i64),
{
}

/// A worker that only its task tells of is shown by the task: under its worker's
/// identifier, with its title, stage, state and pull request, and with the time
/// since it was made.
pub proof fn law_task_stands_for_its_worker(
    view: WorkerView,
    workspace: Seq<char>,
    task: Task,
    attempt: Option<TaskAttemptView>,
    names: Names,
    now: Moment,
)
    requires
        shows_from_task(view, workspace, task, attempt, names, now),
    ensures
        task.worker_id is Some && view.id@ == task.worker_id->0@ && view.workspace@ == workspace,
        task.repo is Some ==> view.branch@ == "task/"@ + task.repo->0@,
        task.repo is None ==> view.branch@ == "task/lifecycle"@,
        view.agent@ == "system"@,
        task.stage == TaskStage::HumanReview ==> view.status@ == "waiting"@,
        task.stage == TaskStage::Merged || task.stage == TaskStage::Dismissed ==> view.status@
            == "completed"@,
        task.stage == TaskStage::InProgress || task.stage == TaskStage::InAiReview ==> view.status@
            == "running"@,
        task.stage == TaskStage::Triage ==> view.status@ == "queued"@,
        view.task_id is Some && view.task_id->0@ == task.id@,
        view.task_title is Some && view.task_title->0@ == task.title@,
        view.task_lifecycle_state is Some && view.task_lifecycle_state->0@ == lifecycle(
            task,
            attempt,
            names.review_role@,
        ),
        view.pr_url == task.pr_url,
        view.latest_attempt == attempt,
        !view.has_uncommitted_changes && view.ready_branch is None,
        task.created_at.total() <= now.total() ==> view.elapsed_secs->0 * 1_000_000_000
            <= now.total() - task.created_at.total() < (view.elapsed_secs->0 + 1) * 1_000_000_000,
        task.created_at.total() > now.total() ==> view.elapsed_secs == Some(0i64),
{
}

/// A packet is shown exactly where there is any of its files, each as it is, and
/// with the mode that the task file tells.
pub proof fn law_packet_holds_its_files(
    packet: Option<WorkerTaskPacketView>,
    files: TaskPacketFiles,
)
    requires
        is_packet(packet, files),
    ensures
        packet is None <==> files.task_md is None && files.context_md is None && files.plan_md
            is None && files.shaping_md is None && files.progress_md is None,
        packet is Some ==> packet->0.task_md == files.task_md && packet->0.context_md
            == files.context_md && packet->0.plan_md == files.plan_md && packet->0.shaping_md
            == files.shaping_md && packet->0.progress_md == files.progress_md,
        packet is Some && files.task_md is Some ==> opt_text(packet->0.worker_mode)
            == mode_in_lines(lines(files.task_md->0@)),
        packet is Some && files.task_md is None ==> packet->0.worker_mode is None,
{
}

/// A worker is stalled exactly where it should run with changes that nobody
/// works on: no agent runs, none is known by a process or a session, and no
/// branch is ready.
pub proof fn law_stalled_workers_are_left_alone(w: SwarmWorktreeState, dirty: bool)
    ensures
        is_stalled(w, dirty) ==> dirty && w.agent_pid is None && w.session_id is None
            && w.ready_branch is None,
        w.phase is Some && w.phase->0@ == "running"@ && (w.agent_session_status is None
            || w.agent_session_status->0@ != "running"@) && w.ready_branch is None && w.session_id
            is None && w.agent_pid is None && dirty ==> is_stalled(w, dirty),
        is_stalled(w, dirty) ==> w.phase is Some && w.phase->0@ == "running"@,
        w.agent_session_status is Some && w.agent_session_status->0@ == "running"@ ==> !is_stalled(
            w,
            dirty,
        ),
{
}

} // verus!
