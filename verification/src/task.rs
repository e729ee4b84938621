//! Tasks and how the web interface shows them.

use crate::text::{contains, has_part, opt_text, same};
use crate::time::{rfc3339_of, Moment};
use vstd::prelude::*;

verus! {

/// Where a task stands.
#[derive(Debug, Clone, Copy, PartialEq, Eq, Structural)]
pub enum TaskStage {
    Triage,
    InProgress,
    InAiReview,
    HumanReview,
    Merged,
    Dismissed,
}

impl TaskStage {
    /// The name of a stage.
    pub open spec fn name(self) -> Seq<char> {
        match self {
            TaskStage::Triage => "Triage"@,
            TaskStage::InProgress => "In Progress"@,
            TaskStage::InAiReview => "In AI Review"@,
            TaskStage::HumanReview => "Human Review"@,
            TaskStage::Merged => "Merged"@,
            TaskStage::Dismissed => "Dismissed"@,
        }
    }

    /// The name of a stage.
    pub fn as_str(self) -> (r: &'static str)
        ensures
            r@ == self.name(),
    {
        match self {
            TaskStage::Triage => "Triage",
            TaskStage::InProgress => "In Progress",
            TaskStage::InAiReview => "In AI Review",
            TaskStage::HumanReview => "Human Review",
            TaskStage::Merged => "Merged",
            TaskStage::Dismissed => "Dismissed",
        }
    }
}

/// A move of a task's cursor in its workflow.
pub struct CursorStep {
    pub from_node: String,
    pub to_node: String,
    pub timestamp: Moment,
    pub trigger: String,
}

/// Where a task stands in its workflow.
pub struct GraphCursor {
    pub current_node: String,
    pub counters: Vec<(String, u32)>,
    pub history: Vec<CursorStep>,
}

/// A task.
pub struct Task {
    pub id: String,
    pub workspace: String,
    pub title: String,
    pub stage: TaskStage,
    pub source: Option<String>,
    pub source_url: Option<String>,
    pub worker_id: Option<String>,
    pub pr_url: Option<String>,
    pub pr_number: Option<i64>,
    pub repo: Option<String>,
    pub created_at: Moment,
    pub updated_at: Moment,
    pub resolved_at: Option<Moment>,
    /// Where the task stands in its workflow, where its metadata tells.
    pub cursor: Option<GraphCursor>,
}

/// An attempt of a worker at a task.
pub struct TaskAttempt {
    pub worker_id: String,
    pub role: String,
    pub state: String,
    pub branch: Option<String>,
    pub pr_url: Option<String>,
    pub pr_number: Option<i64>,
    pub detail: Option<String>,
    pub created_at: Moment,
    pub updated_at: Moment,
    pub completed_at: Option<Moment>,
}

/// An attempt as the web interface shows it.
pub struct TaskAttemptView {
    pub worker_id: String,
    pub role: String,
    pub state: String,
    pub branch: Option<String>,
    pub pr_url: Option<String>,
    pub pr_number: Option<i64>,
    pub detail: Option<String>,
    pub created_at: String,
    pub updated_at: String,
    pub completed_at: Option<String>,
}

/// A move of a cursor as the web interface shows it.
pub struct StepView {
    pub from_node: String,
    pub to_node: String,
    pub trigger: String,
    pub timestamp: String,
}

/// A cursor as the web interface shows it.
pub struct CursorView {
    pub current_node: String,
    pub counters: Vec<(String, u32)>,
    pub history: Vec<StepView>,
}

/// A task as the web interface shows it.
pub struct TaskView {
    pub id: String,
    pub title: String,
    pub stage: String,
    pub lifecycle_state: String,
    pub source: Option<String>,
    pub worker_id: Option<String>,
    pub pr_url: Option<String>,
    pub pr_number: Option<i64>,
    pub repo: Option<String>,
    pub created_at: String,
    pub updated_at: String,
    pub resolved_at: Option<String>,
    pub latest_attempt: Option<TaskAttemptView>,
    pub cursor: Option<CursorView>,
}

/// The notation of an instant.
pub open spec fn stamp(t: Moment) -> Seq<char> {
    rfc3339_of(t.secs(), t.nanos())
}

/// The notation of an optional instant.
pub open spec fn opt_stamp(t: Option<Moment>) -> Option<Seq<char>> {
    match t {
        Some(m) => Some(stamp(m)),
        None => None,
    }
}

/// The notation of an optional instant.
pub fn stamp_of(t: &Option<Moment>) -> (r: Option<String>)
    ensures
        opt_text(r) == opt_stamp(*t),
{
    match t {
        Some(m) => Some(m.rfc3339()),
        None => None,
    }
}

/// Whether `view` shows `attempt`.
pub open spec fn shows_attempt(view: TaskAttemptView, attempt: TaskAttempt) -> bool {
    &&& view.worker_id == attempt.worker_id
    &&& view.role == attempt.role
    &&& view.state == attempt.state
    &&& view.branch == attempt.branch
    &&& view.pr_url == attempt.pr_url
    &&& view.pr_number == attempt.pr_number
    &&& view.detail == attempt.detail
    &&& view.created_at@ == stamp(attempt.created_at)
    &&& view.updated_at@ == stamp(attempt.updated_at)
    &&& opt_text(view.completed_at) == opt_stamp(attempt.completed_at)
}

/// An attempt as the web interface shows it.
pub fn task_attempt_to_view(attempt: &TaskAttempt) -> (r: TaskAttemptView)
    ensures
        shows_attempt(r, *attempt),
{
    TaskAttemptView {
        worker_id: attempt.worker_id.clone(),
        role: attempt.role.clone(),
        state: attempt.state.clone(),
        branch: attempt.branch.clone(),
        pr_url: attempt.pr_url.clone(),
        pr_number: attempt.pr_number,
        detail: attempt.detail.clone(),
        created_at: attempt.created_at.rfc3339(),
        updated_at: attempt.updated_at.rfc3339(),
        completed_at: stamp_of(&attempt.completed_at),
    }
}

/// Whether an attempt is a review that asks for changes. `review_role` is the
/// role of those attempts that are reviews.
pub open spec fn asks_changes(attempt: TaskAttemptView, review_role: Seq<char>) -> bool {
    attempt.role@ == review_role && match attempt.detail {
        Some(d) => contains(d@, "CHANGES_REQUESTED"@),
        None => false,
    }
}

/// Whether an attempt is a review that asks for changes. `review_role` is the
/// role of those attempts that are reviews.
pub fn reviewer_changes_requested(attempt: &TaskAttemptView, review_role: &str) -> (r: bool)
    ensures
        r == asks_changes(*attempt, review_role@),
{
    if !same(attempt.role.as_str(), review_role) {
        return false;
    }
    match &attempt.detail {
        Some(d) => has_part(d.as_str(), "CHANGES_REQUESTED"),
        None => false,
    }
}

/// The state that a task's lifecycle is in while it is in progress, by the
/// state of its latest attempt.
pub open spec fn progress_state(
    attempt_state: Option<Seq<char>>,
    has_pr: bool,
    has_worker: bool,
) -> Seq<char> {
    if attempt_state == Some("blocked"@) || attempt_state == Some("waiting"@) {
        "Blocked"@
    } else if attempt_state == Some("failed"@) || attempt_state == Some("cancelled"@) {
        "Ready"@
    } else if attempt_state == Some("running"@) || attempt_state == Some("created"@)
        || attempt_state == Some("preparing"@) {
        "Running"@
    } else if attempt_state == Some("succeeded"@) && has_pr {
        "PR Open"@
    } else if has_worker {
        "Running"@
    } else {
        "Ready"@
    }
}

/// The state that a task's lifecycle is in.
pub open spec fn lifecycle(
    task: Task,
    attempt: Option<TaskAttemptView>,
    review_role: Seq<char>,
) -> Seq<char> {
    match task.stage {
        TaskStage::Triage => "Triage"@,
        TaskStage::InProgress => progress_state(
            match attempt {
                Some(a) => Some(a.state@),
                None => None,
            },
            task.pr_url is Some,
            task.worker_id is Some,
        ),
        TaskStage::InAiReview => if attempt is Some && asks_changes(attempt->0, review_role) {
            "Changes Requested"@
        } else if task.pr_url is Some {
            "AI Review"@
        } else {
            "PR Open"@
        },
        TaskStage::HumanReview => "Human Review"@,
        TaskStage::Merged => "Merged"@,
        TaskStage::Dismissed => "Dismissed"@,
    }
}

fn state_is(attempt: &Option<TaskAttemptView>, word: &str) -> (r: bool)
    ensures
        r == ((match *attempt {
            Some(a) => Some(a.state@),
            None => None,
        }) == Some(word@)),
{
    match attempt {
        Some(a) => same(a.state.as_str(), word),
        None => false,
    }
}

/// The state that a task's lifecycle is in.
pub fn derive_task_lifecycle_state(
    task: &Task,
    latest_attempt: &Option<TaskAttemptView>,
    review_role: &str,
) -> (r: String)
    ensures
        r@ == lifecycle(*task, *latest_attempt, review_role@),
{
    let word = match task.stage {
        TaskStage::Triage => "Triage",
        TaskStage::InProgress => {
            if state_is(latest_attempt, "blocked") || state_is(latest_attempt, "waiting") {
                "Blocked"
            } else if state_is(latest_attempt, "failed") || state_is(latest_attempt, "cancelled") {
                "Ready"
            } else if state_is(latest_attempt, "running") || state_is(latest_attempt, "created")
                || state_is(latest_attempt, "preparing") {
                "Running"
            } else if state_is(latest_attempt, "succeeded") && task.pr_url.is_some() {
                "PR Open"
            } else if task.worker_id.is_some() {
                "Running"
            } else {
                "Ready"
            }
        },
        TaskStage::InAiReview => {
            let changes = match latest_attempt {
                Some(a) => reviewer_changes_requested(a, review_role),
                None => false,
            };
            if changes {
                "Changes Requested"
            } else if task.pr_url.is_some() {
                "AI Review"
            } else {
                "PR Open"
            }
        },
        TaskStage::HumanReview => "Human Review",
        TaskStage::Merged => "Merged",
        TaskStage::Dismissed => "Dismissed",
    };
    word.to_owned()
}

/// Whether `view` shows `step`.
pub open spec fn shows_step(view: StepView, step: CursorStep) -> bool {
    &&& view.from_node == step.from_node
    &&& view.to_node == step.to_node
    &&& view.trigger == step.trigger
    &&& view.timestamp@ == stamp(step.timestamp)
}

/// Whether `view` shows `cursor`.
pub open spec fn shows_cursor(view: CursorView, cursor: GraphCursor) -> bool {
    &&& view.current_node == cursor.current_node
    &&& view.counters@ == cursor.counters@
    &&& view.history@.len() == cursor.history@.len()
    &&& forall|i: int|
        0 <= i < view.history@.len() ==> shows_step(#[trigger] view.history@[i], cursor.history@[i])
}

fn cursor_to_view(cursor: &GraphCursor) -> (r: CursorView)
    ensures
        shows_cursor(r, *cursor),
{
    let mut counters: Vec<(String, u32)> = Vec::new();
    let mut i: usize = 0;
    while i < cursor.counters.len()
        invariant
            0 <= i <= cursor.counters@.len(),
            counters@ =~= cursor.counters@.take(i as int),
        decreases cursor.counters@.len() - i,
    {
        let name = cursor.counters[i].0.clone();
        let count: u32 = cursor.counters[i].1;
        counters.push((name, count));
        i = i + 1;
    }
    proof {
        assert(cursor.counters@.take(cursor.counters@.len() as int) =~= cursor.counters@);
    }
    let mut history: Vec<StepView> = Vec::new();
    let mut k: usize = 0;
    while k < cursor.history.len()
        invariant
            0 <= k <= cursor.history@.len(),
            history@.len() == k,
            forall|j: int|
                0 <= j < k ==> shows_step(#[trigger] history@[j], cursor.history@[j]),
        decreases cursor.history@.len() - k,
    {
        let s = &cursor.history[k];
        history.push(
            StepView {
                from_node: s.from_node.clone(),
                to_node: s.to_node.clone(),
                trigger: s.trigger.clone(),
                timestamp: s.timestamp.rfc3339(),
            },
        );
        k = k + 1;
    }
    CursorView { current_node: cursor.current_node.clone(), counters, history }
}

/// Whether `view` shows `task` with its latest attempt.
pub open spec fn shows_task(
    view: TaskView,
    task: Task,
    latest_attempt: Option<TaskAttemptView>,
    review_role: Seq<char>,
) -> bool {
    &&& view.id == task.id
    &&& view.title == task.title
    &&& view.stage@ == task.stage.name()
    &&& view.lifecycle_state@ == lifecycle(task, latest_attempt, review_role)
    &&& view.source == task.source
    &&& view.worker_id == task.worker_id
    &&& view.pr_url == task.pr_url
    &&& view.pr_number == task.pr_number
    &&& view.repo == task.repo
    &&& view.created_at@ == stamp(task.created_at)
    &&& view.updated_at@ == stamp(task.updated_at)
    &&& opt_text(view.resolved_at) == opt_stamp(task.resolved_at)
    &&& view.latest_attempt == latest_attempt
    &&& match task.cursor {
        Some(c) => view.cursor is Some && shows_cursor(view.cursor->0, c),
        None => view.cursor is None,
    }
}

/// A task as the web interface shows it, without its attempts.
pub fn task_to_view(task: &Task) -> (r: TaskView)
    ensures
        forall|review_role: Seq<char>| #[trigger] shows_task(r, *task, None, review_role),
{
    task_to_view_with_attempt(task, None, "")
}

/// A task as the web interface shows it, with its latest attempt.
pub fn task_to_view_with_attempt(
    task: &Task,
    latest_attempt: Option<TaskAttemptView>,
    review_role: &str,
) -> (r: TaskView)
    ensures
        shows_task(r, *task, latest_attempt, review_role@),
{
    let cursor = match &task.cursor {
        Some(c) => Some(cursor_to_view(c)),
        None => None,
    };
    TaskView {
        id: task.id.clone(),
        title: task.title.clone(),
        stage: task.stage.as_str().to_owned(),
        lifecycle_state: derive_task_lifecycle_state(task, &latest_attempt, review_role),
        source: task.source.clone(),
        worker_id: task.worker_id.clone(),
        pr_url: task.pr_url.clone(),
        pr_number: task.pr_number,
        repo: task.repo.clone(),
        created_at: task.created_at.rfc3339(),
        updated_at: task.updated_at.rfc3339(),
        resolved_at: stamp_of(&task.resolved_at),
        latest_attempt,
        cursor,
    }
}

/// A task whose attempt failed or was cancelled can be taken up again.
pub proof fn law_failed_attempt_leaves_task_ready(
    task: Task,
    attempt: TaskAttemptView,
    review_role: Seq<char>,
)
    requires
        task.stage == TaskStage::InProgress,
        attempt.state@ == "failed"@ || attempt.state@ == "cancelled"@,
    ensures
        lifecycle(task, Some(attempt), review_role) == "Ready"@,
{
    reveal_strlit("failed");
    reveal_strlit("cancelled");
    reveal_strlit("blocked");
    reveal_strlit("waiting");
    assert("failed"@.len() == 6 && "cancelled"@.len() == 9 && "blocked"@.len() == 7
        && "waiting"@.len() == 7);
}

proof fn lemma_states_differ()
    ensures
        "Merged"@ != "AI Review"@,
        "Merged"@ != "PR Open"@,
        "Merged"@ != "Changes Requested"@,
        "Merged"@ != "Human Review"@,
        "Merged"@ != "Triage"@,
        "Merged"@ != "Dismissed"@,
        "Merged"@ != "Blocked"@,
        "Merged"@ != "Ready"@,
        "Merged"@ != "Running"@,
        "Dismissed"@ != "AI Review"@,
        "Dismissed"@ != "PR Open"@,
        "Dismissed"@ != "Changes Requested"@,
        "Dismissed"@ != "Human Review"@,
        "Dismissed"@ != "Triage"@,
        "Dismissed"@ != "Blocked"@,
        "Dismissed"@ != "Ready"@,
        "Dismissed"@ != "Running"@,
        "Human Review"@ != "AI Review"@,
        "Human Review"@ != "PR Open"@,
        "Human Review"@ != "Changes Requested"@,
        "Human Review"@ != "Triage"@,
        "Human Review"@ != "Blocked"@,
        "Human Review"@ != "Ready"@,
        "Human Review"@ != "Running"@,
        "Triage"@ != "AI Review"@,
        "Triage"@ != "PR Open"@,
        "Triage"@ != "Changes Requested"@,
        "Triage"@ != "Blocked"@,
        "Triage"@ != "Ready"@,
        "Triage"@ != "Running"@,
{
    reveal_strlit("Merged");
    reveal_strlit("AI Review");
    reveal_strlit("PR Open");
    reveal_strlit("Changes Requested");
    reveal_strlit("Human Review");
    reveal_strlit("Triage");
    reveal_strlit("Dismissed");
    reveal_strlit("Blocked");
    reveal_strlit("Ready");
    reveal_strlit("Running");
    assert("Merged"@[0] == 'M' && "AI Review"@[0] == 'A' && "PR Open"@[0] == 'P');
    assert("Changes Requested"@[0] == 'C' && "Human Review"@[0] == 'H' && "Triage"@[0] == 'T');
    assert("Dismissed"@[0] == 'D' && "Blocked"@[0] == 'B' && "Ready"@[0] == 'R');
    assert("Running"@[0] == 'R');
}

/// A task is shown as new, before a human, merged or dismissed exactly while
/// its stage is the one of that name, whatever its attempts say.
pub proof fn law_state_names_the_stage(
    task: Task,
    attempt: Option<TaskAttemptView>,
    review_role: Seq<char>,
)
    ensures
        lifecycle(task, attempt, review_role) == "Triage"@ <==> task.stage == TaskStage::Triage,
        lifecycle(task, attempt, review_role) == "Human Review"@ <==> task.stage
            == TaskStage::HumanReview,
        lifecycle(task, attempt, review_role) == "Merged"@ <==> task.stage == TaskStage::Merged,
        lifecycle(task, attempt, review_role) == "Dismissed"@ <==> task.stage
            == TaskStage::Dismissed,
        task.stage == TaskStage::Triage ==> task.stage.name() == "Triage"@,
        task.stage == TaskStage::InProgress ==> task.stage.name() == "In Progress"@,
        task.stage == TaskStage::InAiReview ==> task.stage.name() == "In AI Review"@,
        task.stage == TaskStage::HumanReview ==> task.stage.name() == "Human Review"@,
        task.stage == TaskStage::Merged ==> task.stage.name() == "Merged"@,
        task.stage == TaskStage::Dismissed ==> task.stage.name() == "Dismissed"@,
{
    lemma_states_differ();
}

/// A task that an agent reviews waits for changes exactly where its latest
/// attempt is a review that asks for them; else it is under review where it has
/// a pull request, and its pull request is yet to be opened where it has none.
pub proof fn law_review_states(
    task: Task,
    attempt: Option<TaskAttemptView>,
    review_role: Seq<char>,
)
    requires
        task.stage == TaskStage::InAiReview,
    ensures
        ({
            let wanted = attempt is Some && attempt->0.role@ == review_role
                && attempt->0.detail is Some && contains(
                attempt->0.detail->0@,
                "CHANGES_REQUESTED"@,
            );
            let state = lifecycle(task, attempt, review_role);
            &&& wanted ==> state == "Changes Requested"@
            &&& !wanted && task.pr_url is Some ==> state == "AI Review"@
            &&& !wanted && task.pr_url is None ==> state == "PR Open"@
        }),
{
}

/// A task in progress is blocked exactly while its latest attempt is blocked or
/// waits, and it runs while that attempt does. Where the attempt says nothing,
/// it runs exactly where a worker is on it; an attempt that succeeded leaves
/// its pull request open, where it has one.
pub proof fn law_progress_follows_the_attempt(
    task: Task,
    attempt: Option<TaskAttemptView>,
    review_role: Seq<char>,
)
    requires
        task.stage == TaskStage::InProgress,
    ensures
        ({
            let state = lifecycle(task, attempt, review_role);
            let by_worker = if task.worker_id is Some {
                "Running"@
            } else {
                "Ready"@
            };
            &&& attempt is None ==> state == by_worker
            &&& attempt is Some && (attempt->0.state@ == "blocked"@ || attempt->0.state@
                == "waiting"@) ==> state == "Blocked"@
            &&& attempt is Some && (attempt->0.state@ == "running"@ || attempt->0.state@
                == "created"@ || attempt->0.state@ == "preparing"@) ==> state == "Running"@
            &&& attempt is Some && attempt->0.state@ == "succeeded"@ ==> state
                == if task.pr_url is Some {
                "PR Open"@
            } else {
                by_worker
            }
        }),
        ({
            let state = lifecycle(task, attempt, review_role);
            state == "Blocked"@ ==> attempt is Some && (attempt->0.state@ == "blocked"@
                || attempt->0.state@ == "waiting"@)
        }),
{
    reveal_strlit("blocked");
    reveal_strlit("waiting");
    reveal_strlit("failed");
    reveal_strlit("cancelled");
    reveal_strlit("running");
    reveal_strlit("created");
    reveal_strlit("preparing");
    reveal_strlit("succeeded");
    assert("blocked"@[0] == 'b' && "waiting"@[0] == 'w' && "failed"@[0] == 'f');
    assert("cancelled"@[0] == 'c' && "cancelled"@[1] == 'a' && "created"@[1] == 'r');
    assert("running"@[0] == 'r' && "created"@[0] == 'c' && "preparing"@[0] == 'p');
    assert("succeeded"@[0] == 's');
    reveal_strlit("Blocked");
    reveal_strlit("Ready");
    reveal_strlit("Running");
    reveal_strlit("PR Open");
    assert("Blocked"@[0] == 'B' && "Ready"@[0] == 'R' && "Running"@[0] == 'R');
    assert("PR Open"@[0] == 'P');
}

/// A task is shown with its own title, stage, state and pull request, its times
/// and its last attempt, and with a cursor exactly where it has one.
pub proof fn law_shown_task(
    view: TaskView,
    task: Task,
    latest_attempt: Option<TaskAttemptView>,
    review_role: Seq<char>,
)
    requires
        shows_task(view, task, latest_attempt, review_role),
    ensures
        view.id == task.id && view.title == task.title,
        view.stage@ == task.stage.name(),
        view.lifecycle_state@ == lifecycle(task, latest_attempt, review_role),
        view.source == task.source && view.worker_id == task.worker_id && view.repo == task.repo,
        view.pr_url == task.pr_url && view.pr_number == task.pr_number,
        view.created_at@ == stamp(task.created_at) && view.updated_at@ == stamp(task.updated_at),
        view.resolved_at is Some <==> task.resolved_at is Some,
        task.resolved_at is Some ==> view.resolved_at->0@ == stamp(task.resolved_at->0),
        view.latest_attempt == latest_attempt,
        view.cursor is Some <==> task.cursor is Some,
        task.cursor is Some ==> view.cursor->0.current_node == task.cursor->0.current_node
            && view.cursor->0.history@.len() == task.cursor->0.history@.len(),
{
}

/// A move of a cursor is shown between its own nodes, with what caused it and
/// when.
pub proof fn law_shown_move(view: CursorView, cursor: GraphCursor, k: int)
    requires
        shows_cursor(view, cursor),
        0 <= k < cursor.history@.len(),
    ensures
        view.history@[k].from_node == cursor.history@[k].from_node,
        view.history@[k].to_node == cursor.history@[k].to_node,
        view.history@[k].trigger == cursor.history@[k].trigger,
        view.history@[k].timestamp@ == stamp(cursor.history@[k].timestamp),
        view.counters@ == cursor.counters@,
{
    assert(shows_step(view.history@[k], cursor.history@[k]));
}

/// An attempt is shown as it is kept, and as completed exactly where it is.
pub proof fn law_shown_attempt(view: TaskAttemptView, attempt: TaskAttempt)
    requires
        shows_attempt(view, attempt),
    ensures
        view.worker_id == attempt.worker_id && view.role == attempt.role && view.state
            == attempt.state && view.branch == attempt.branch && view.detail == attempt.detail,
        view.pr_url == attempt.pr_url && view.pr_number == attempt.pr_number,
        view.created_at@ == stamp(attempt.created_at) && view.updated_at@ == stamp(
            attempt.updated_at,
        ),
        view.completed_at is Some <==> attempt.completed_at is Some,
        attempt.completed_at is Some ==> view.completed_at->0@ == stamp(attempt.completed_at->0),
{
}

} // verus!
