use apiari::task::{
    derive_task_lifecycle_state, reviewer_changes_requested, task_attempt_to_view, task_to_view,
    task_to_view_with_attempt, CursorStep, GraphCursor, Task, TaskAttempt, TaskAttemptView,
    TaskStage,
};
use apiari::time::Moment;

fn now() -> Moment {
    Moment::new(1_777_680_000, 0).unwrap()
}

fn task(id: &str, title: &str, stage: TaskStage) -> Task {
    Task {
        id: id.to_string(),
        workspace: "apiari".to_string(),
        title: title.to_string(),
        stage,
        source: Some("manual".to_string()),
        source_url: None,
        worker_id: Some("worker-1".to_string()),
        pr_url: None,
        pr_number: None,
        repo: Some("apiari".to_string()),
        created_at: now(),
        updated_at: now(),
        resolved_at: None,
        cursor: None,
    }
}

fn attempt(role: &str, state: &str, detail: &str) -> TaskAttemptView {
    TaskAttemptView {
        worker_id: "worker-1".to_string(),
        role: role.to_string(),
        state: state.to_string(),
        branch: None,
        pr_url: None,
        pr_number: None,
        detail: Some(detail.to_string()),
        created_at: now().rfc3339(),
        updated_at: now().rfc3339(),
        completed_at: Some(now().rfc3339()),
    }
}

#[test]
fn task_view_derives_ready_from_failed_in_progress_attempt() {
    let t = task("task-ready", "Retry mobile cards", TaskStage::InProgress);
    let a = attempt("implementation", "failed", "Worker closed without PR");

    let view = task_to_view_with_attempt(&t, Some(a), "inspection");
    assert_eq!(view.stage, "In Progress");
    assert_eq!(view.lifecycle_state, "Ready");
}

#[test]
fn task_view_derives_changes_requested_from_reviewer_verdict() {
    let mut t = task("task-review", "Review cards", TaskStage::InAiReview);
    t.pr_url = Some("https://example.com/pr/12".to_string());
    t.pr_number = Some(12);
    let a = attempt("inspection", "succeeded", "Outcome: CHANGES_REQUESTED");

    let view = task_to_view_with_attempt(&t, Some(a), "inspection");
    assert_eq!(view.stage, "In AI Review");
    assert_eq!(view.lifecycle_state, "Changes Requested");
}

#[test]
fn other_roles_request_no_changes() {
    let a = attempt("implementation", "succeeded", "Outcome: CHANGES_REQUESTED");
    assert!(!reviewer_changes_requested(&a, "inspection"));
    let mut a = attempt("inspection", "succeeded", "APPROVED");
    assert!(!reviewer_changes_requested(&a, "inspection"));
    a.detail = None;
    assert!(!reviewer_changes_requested(&a, "inspection"));
}

#[test]
fn lifecycle_follows_the_attempt() {
    let t = task("t", "T", TaskStage::InProgress);
    let word = |state: &str| {
        derive_task_lifecycle_state(&t, &Some(attempt("implementation", state, "")), "inspection")
    };
    assert_eq!(word("blocked"), "Blocked");
    assert_eq!(word("waiting"), "Blocked");
    assert_eq!(word("failed"), "Ready");
    assert_eq!(word("cancelled"), "Ready");
    assert_eq!(word("running"), "Running");
    assert_eq!(word("created"), "Running");
    assert_eq!(word("preparing"), "Running");
    assert_eq!(word("succeeded"), "Running");
    let mut with_pr = task("t", "T", TaskStage::InProgress);
    with_pr.pr_url = Some("https://example.com/pr/1".to_string());
    assert_eq!(
        derive_task_lifecycle_state(
            &with_pr,
            &Some(attempt("implementation", "succeeded", "")),
            "inspection"
        ),
        "PR Open"
    );
    let mut idle = task("t", "T", TaskStage::InProgress);
    idle.worker_id = None;
    assert_eq!(derive_task_lifecycle_state(&idle, &None, "inspection"), "Ready");
}

#[test]
fn lifecycle_follows_the_stage() {
    let word = |stage| derive_task_lifecycle_state(&task("t", "T", stage), &None, "inspection");
    assert_eq!(word(TaskStage::Triage), "Triage");
    assert_eq!(word(TaskStage::InAiReview), "PR Open");
    assert_eq!(word(TaskStage::HumanReview), "Human Review");
    assert_eq!(word(TaskStage::Merged), "Merged");
    assert_eq!(word(TaskStage::Dismissed), "Dismissed");
}

#[test]
fn cursors_are_shown_step_by_step() {
    let mut t = task("t", "T", TaskStage::InProgress);
    t.cursor = Some(GraphCursor {
        current_node: "review".to_string(),
        counters: vec![("loops".to_string(), 2)],
        history: vec![CursorStep {
            from_node: "start".to_string(),
            to_node: "review".to_string(),
            timestamp: now(),
            trigger: "pr_opened".to_string(),
        }],
    });
    let view = task_to_view(&t);
    assert_eq!(view.created_at, "2026-05-02T00:00:00+00:00");
    let cursor = view.cursor.unwrap();
    assert_eq!(cursor.current_node, "review");
    assert_eq!(cursor.counters, vec![("loops".to_string(), 2)]);
    assert_eq!(cursor.history.len(), 1);
    assert_eq!(cursor.history[0].trigger, "pr_opened");
    assert_eq!(cursor.history[0].timestamp, "2026-05-02T00:00:00+00:00");
}

#[test]
fn attempts_are_shown_with_their_times() {
    let view = task_attempt_to_view(&TaskAttempt {
        worker_id: "w".to_string(),
        role: "implementation".to_string(),
        state: "running".to_string(),
        branch: Some("b".to_string()),
        pr_url: None,
        pr_number: Some(3),
        detail: None,
        created_at: now(),
        updated_at: Moment::new(1_777_680_000, 5_000_000).unwrap(),
        completed_at: None,
    });
    assert_eq!(view.created_at, "2026-05-02T00:00:00+00:00");
    assert_eq!(view.updated_at, "2026-05-02T00:00:00.005+00:00");
    assert_eq!(view.completed_at, None);
    assert_eq!(view.pr_number, Some(3));
}
