use apiari::json::{object, parse, text, Json};
use apiari::worker::{
    build_requeue_prompt, build_revision_prompt, cancelled_news, cancelled_state, check_create,
    check_review, delivered, delivered_news, first_filled_line, format_brief_as_prompt,
    new_record, plan_auto_requeue, plan_requeue, plan_send, queued_news, requeue_answer,
    restarted, review_feedback, review_news, review_timeline_event, review_timeline_text,
    should_title, started, title_from_output, title_prompt, worker_answer, CreateWorkerRequest,
    Refusal, SendPlan, Started, Verdict, Worker, WorkerReview, WorkerState,
};
use apiari::worker_manager::{Delivery, WorkerManager};

const ROLE: &str = "inspector";

fn json(s: &str) -> Json {
    match parse(s) {
        Some(v) => v,
        None => panic!("{s}"),
    }
}

fn worker(id: &str, workspace: &str, state: WorkerState) -> Worker {
    Worker {
        id: id.to_string(),
        workspace: workspace.to_string(),
        state,
        brief: Some(json(r#"{"goal": "fix the bug"}"#)),
        repo: Some("myrepo".to_string()),
        branch: Some("feat/test".to_string()),
        goal: Some("fix the bug".to_string()),
        tests_passing: false,
        branch_ready: false,
        pr_url: None,
        pr_approved: false,
        ci_passing: None,
        is_stalled: false,
        revision_count: 0,
        review_mode: "local_first".to_string(),
        blocked_reason: None,
        display_title: Some("Fix the bug".to_string()),
        last_output_at: None,
        state_entered_at: "2026-05-02T00:00:00Z".to_string(),
        created_at: "2026-01-01T00:00:00Z".to_string(),
        updated_at: "2026-05-02T00:00:00Z".to_string(),
        worktree_path: None,
        isolation_mode: None,
        agent_kind: None,
        model: None,
        repo_path: None,
        label: String::new(),
    }
}

/// A worker with what a test tells of it and little else.
fn seeded(
    id: &str,
    workspace: &str,
    state: WorkerState,
    repo: Option<&str>,
    brief: Option<&str>,
    branch: Option<&str>,
) -> Worker {
    let mut w = worker(id, workspace, state);
    w.repo = repo.map(str::to_string);
    w.brief = brief.map(json);
    w.branch = branch.map(str::to_string);
    w
}

fn send(w: Option<Worker>, message: &str, ws: &str, exists: bool) -> Result<SendPlan, Refusal> {
    plan_send(&w, message, ws, exists, &vec![], "codex", ROLE)
}

fn error_of<T>(r: Result<T, Refusal>) -> (u16, String) {
    match r {
        Ok(_) => panic!("not refused"),
        Err(e) => (e.status, e.error),
    }
}

#[test]
fn send_message_to_orphaned_worker_takes_requeue_path_not_500() {
    let mut w = worker("ghost-1234", "apiari", WorkerState::Waiting);
    w.repo = None;
    w.display_title = None;
    match send(Some(w), "please fix the tests", "apiari", true) {
        Ok(SendPlan::Deliver) => {}
        _ => panic!("not delivered"),
    }
    let mut manager = WorkerManager::new();
    match manager.send_message("ghost-1234", "please fix the tests") {
        Delivery::NotFound { error } => {
            assert!(!error.contains("not found or not running"), "{error}")
        }
        _ => panic!("found"),
    }
}

#[test]
fn send_message_branch_ready_also_takes_requeue_path() {
    let mut w = worker("ready-1234", "apiari", WorkerState::Waiting);
    w.repo = None;
    w.display_title = None;
    w.branch_ready = true;
    let (status, error) =
        error_of(send(Some(w), "please address the review comments", "apiari", true));
    assert_eq!(status, 400);
    assert!(!error.contains("not found or not running"), "{error}");
    assert_eq!(error, "worker has no repo");
}

#[test]
fn send_message_error_when_worker_not_found_anywhere() {
    match send(None, "hello", "ws", true) {
        Ok(SendPlan::PassOn) => {}
        _ => panic!("not passed on"),
    }
    let mut manager = WorkerManager::new();
    match manager.send_message("ghost-0000", "hello") {
        Delivery::NotFound { error } => {
            assert!(!error.contains("not found or not running"), "{error}")
        }
        _ => panic!("found"),
    }
}

#[test]
fn send_message_404_when_workspace_not_found() {
    let goal = r#"{"goal":"x"}"#;
    let w =
        seeded("w-1", "missing-ws", WorkerState::Running, Some("repo"), Some(goal), None);
    let (status, error) = error_of(send(Some(w), "hello", "missing-ws", false));
    assert_eq!(status, 404);
    assert!(error.contains("missing-ws"));
}

#[test]
fn send_message_requeue_preserves_branch_and_pr_url() {
    let mut w = worker("w-1", "ws", WorkerState::Waiting);
    w.repo = Some("norepo".to_string());
    w.brief = Some(json(r#"{"goal": "fix auth", "review_mode": "local_first"}"#));
    w.branch_ready = true;
    w.pr_url = Some("https://github.com/org/repo/pull/42".to_string());
    w.pr_approved = true;
    w.tests_passing = true;
    w.branch = Some("feat/fix-auth-1a2b".to_string());
    w.last_output_at = Some("2026-05-01T12:00:00Z".to_string());
    w.revision_count = 3;
    let again = match restarted(&w, "norepo-9f", "ws", "2026-05-02T00:00:00Z") {
        Ok(r) => r,
        Err(e) => panic!("{}", e.error),
    };
    assert_eq!(again.branch.as_deref(), Some("feat/fix-auth-1a2b"));
    assert_eq!(again.pr_url.as_deref(), Some("https://github.com/org/repo/pull/42"));
    assert!(again.pr_approved);
    assert!(again.tests_passing);
    assert_eq!(again.revision_count, 4);
    assert_eq!(again.display_title.as_deref(), Some("Fix the bug"));
    assert_eq!(again.last_output_at.as_deref(), Some("2026-05-01T12:00:00Z"));
    match send(Some(w), "please fix the linting errors", "ws", true) {
        Ok(SendPlan::Revise(r)) => {
            assert_eq!(r.repo, "norepo");
            assert!(r.prompt.starts_with(
                "# Revision Instructions\n\nplease fix the linting errors\n\n# Goal\n\nfix auth"
            ));
            assert_eq!(r.agent, "codex");
        }
        _ => panic!("not started anew"),
    }
}

#[test]
fn send_message_error_when_orphaned_worker_has_no_paths() {
    let w =
        seeded("w-1", "ws", WorkerState::Waiting, None, Some(r#"{"goal": "x"}"#), None);
    match send(Some(w), "fix it", "ws", true) {
        Ok(SendPlan::Deliver) => {}
        _ => panic!("not delivered"),
    }
    let mut manager = WorkerManager::new();
    match manager.send_message("w-1", "fix it") {
        Delivery::NotFound { error } => assert_eq!(error, "worker w-1 not found"),
        _ => panic!("found"),
    }
}

#[test]
fn requeue_404_when_worker_not_in_db() {
    let (status, error) =
        error_of(plan_requeue(&None, "ws", true, &vec![], "codex", ROLE));
    assert_eq!((status, error.as_str()), (404, "worker not found"));
}

#[test]
fn requeue_400_when_worker_has_no_brief() {
    let w = seeded("w-1", "ws", WorkerState::Done, Some("repo"), None, None);
    let (status, error) =
        error_of(plan_requeue(&Some(w), "ws", true, &vec![], "codex", ROLE));
    assert_eq!(status, 400);
    assert!(error.contains("brief"));
}

#[test]
fn requeue_400_when_worker_has_no_repo() {
    let w = seeded("w-1", "ws", WorkerState::Done, None, Some(r#"{"goal": "x"}"#), None);
    let (status, error) =
        error_of(plan_requeue(&Some(w), "ws", true, &vec![], "codex", ROLE));
    assert_eq!(status, 400);
    assert!(error.contains("repo"));
}

#[test]
fn requeue_404_when_workspace_config_missing() {
    let goal = r#"{"goal": "x"}"#;
    let w = seeded("w-1", "nowsconfig", WorkerState::Done, Some("repo"), Some(goal), None);
    let (status, error) =
        error_of(plan_requeue(&Some(w), "nowsconfig", false, &vec![], "codex", ROLE));
    assert_eq!((status, error.as_str()), (404, "workspace 'nowsconfig' not found"));
}

#[test]
fn requeue_preserves_branch_pr_url_pr_approved_tests_passing_last_output_at() {
    let mut w = worker("w-src", "ws", WorkerState::Waiting);
    w.brief = Some(json(r#"{"goal": "add feature", "review_mode": "pr_first"}"#));
    w.pr_url = Some("https://github.com/org/repo/pull/99".to_string());
    w.pr_approved = true;
    w.tests_passing = true;
    w.branch = Some("feat/add-feature-ab12".to_string());
    w.last_output_at = Some("2026-04-30T09:00:00Z".to_string());
    w.revision_count = 2;
    let r = match restarted(&w, "w-new", "ws", "now") {
        Ok(r) => r,
        Err(e) => panic!("{}", e.error),
    };
    assert_eq!(r.branch.as_deref(), Some("feat/add-feature-ab12"), "branch");
    assert_eq!(r.pr_url.as_deref(), Some("https://github.com/org/repo/pull/99"), "pr_url");
    assert!(r.pr_approved, "pr_approved");
    assert!(r.tests_passing, "tests_passing");
    assert_eq!(r.last_output_at.as_deref(), Some("2026-04-30T09:00:00Z"), "last_output_at");
    assert_eq!(r.revision_count, 3, "revision_count");
    assert_eq!(r.display_title.as_deref(), Some("Fix the bug"), "display_title");
    assert_eq!(r.review_mode, "pr_first");
    assert_eq!(r.created_at, "2026-01-01T00:00:00Z");
    assert!(plan_requeue(&Some(w), "ws", true, &vec![], "codex", ROLE).is_ok());
}

#[test]
fn requeue_increments_revision_count() {
    let goal = r#"{"goal": "x"}"#;
    let mut w = seeded("w-1", "ws", WorkerState::Done, Some("repo"), Some(goal), None);
    w.revision_count = 5;
    let r = match restarted(&w, "w-2", "ws", "now") {
        Ok(r) => r,
        Err(e) => panic!("{}", e.error),
    };
    assert_eq!(r.revision_count, 6);
    assert!(matches!(r.state, WorkerState::Queued));
}

#[test]
fn restarts_need_an_identifier() {
    let w = worker("w-1", "ws", WorkerState::Done);
    let (status, error) = error_of(restarted(&w, "", "ws", "now"));
    assert_eq!((status, error.as_str()), (500, "swarm create did not return a worker ID"));
}

#[test]
fn cancel_worker_transitions_to_abandoned() {
    let mut w = seeded("w-1", "ws", WorkerState::Running, Some("repo"), Some("{}"), None);
    w.state = cancelled_state();
    assert_eq!(w.state, WorkerState::Abandoned);
    let news = cancelled_news(&w);
    assert_eq!(news.state, "abandoned");
    assert_eq!(news.worker_id, "w-1");
    assert_eq!(news.workspace, "ws");
}

#[test]
fn create_worker_404_when_workspace_missing() {
    let (status, error) = error_of(check_create("noworkspace", false));
    assert_eq!((status, error.as_str()), (404, "workspace 'noworkspace' not found"));
    assert!(check_create("ws", true).is_ok());
}

fn request(brief: &str) -> CreateWorkerRequest {
    CreateWorkerRequest {
        brief: json(brief),
        repo: "myrepo".to_string(),
        agent: None,
        model: None,
    }
}

#[test]
fn create_worker_stores_record_in_briefed_state() {
    let w = new_record(
        "id-1",
        "ws",
        "now",
        &request(r#"{"goal": "add feature", "review_mode": "pr_first"}"#),
        false,
        "codex",
    );
    assert!(matches!(w.state, WorkerState::Briefed));
    assert_eq!(w.repo.as_deref(), Some("myrepo"));
    assert_eq!(w.review_mode, "pr_first");
    assert_eq!(
        w.brief.as_ref().and_then(|b| b.text_field("goal")).as_deref(),
        Some("add feature")
    );
    assert!(!w.branch_ready);
    assert!(!w.tests_passing);
    assert!(!w.pr_approved);
    assert_eq!(w.agent_kind.as_deref(), Some("codex"));
    assert!(should_title(&w));
}

#[test]
fn asked_agents_are_taken_where_they_are_known() {
    let mut r = request("{}");
    r.agent = Some(" gemini ".to_string());
    r.model = Some("  ".to_string());
    let w = new_record("id", "ws", "now", &r, true, "codex");
    assert_eq!(w.agent_kind.as_deref(), Some("gemini"));
    assert_eq!(w.model, None);
    assert_eq!(w.review_mode, "local_first");
    assert!(!should_title(&w));
    let w = new_record("id", "ws", "now", &r, false, "codex");
    assert_eq!(w.agent_kind.as_deref(), Some("codex"));
}

#[test]
fn started_workers_go_by_their_new_identifier() {
    let w = worker("uuid", "ws", WorkerState::Briefed);
    match started(w, "myrepo-1a") {
        Started::Rekey { record } => {
            assert_eq!(record.id, "myrepo-1a");
            assert_eq!(record.state, WorkerState::Queued);
        }
        Started::Queue => panic!("not renamed"),
    }
    assert!(matches!(started(worker("a", "ws", WorkerState::Briefed), "a"), Started::Queue));
    assert!(matches!(started(worker("a", "ws", WorkerState::Briefed), ""), Started::Queue));
}

#[test]
fn send_message_to_live_worker_queues_in_pending() {
    let mut w = worker("live-abc1", "ws", WorkerState::Waiting);
    w.display_title = None;
    match send(Some(w), "please add tests", "ws", true) {
        Ok(SendPlan::Deliver) => {}
        _ => panic!("not delivered"),
    }
    let mut manager = WorkerManager::new();
    manager.note_started("live-abc1");
    assert!(matches!(
        manager.send_message("live-abc1", "please add tests"),
        Delivery::Queued
    ));
    assert_eq!(manager.pending_messages("live-abc1"), vec!["please add tests"]);
}

#[test]
fn send_message_200_when_worker_not_in_db_but_live() {
    match send(None, "hello ghost", "ws", true) {
        Ok(SendPlan::PassOn) => {}
        _ => panic!("not passed on"),
    }
    let mut manager = WorkerManager::new();
    manager.note_started("ghost-xyz");
    assert!(matches!(manager.send_message("ghost-xyz", "hello ghost"), Delivery::Queued));
    assert_eq!(manager.pending_messages("ghost-xyz"), vec!["hello ghost"]);
}

#[test]
fn send_message_to_running_worker_not_in_live_map_takes_requeue_not_500() {
    let mut w = worker("orphan-run1", "ws", WorkerState::Running);
    w.branch = Some("feat/fix".to_string());
    match send(Some(w), "are you there?", "ws", true) {
        Ok(SendPlan::Deliver) => {}
        _ => panic!("not delivered"),
    }
    let mut manager = WorkerManager::new();
    match manager.send_message("orphan-run1", "are you there?") {
        Delivery::NotFound { error } => {
            assert!(!error.contains("not found or not running"), "{error}")
        }
        _ => panic!("found"),
    }
}

#[test]
fn send_message_never_returns_not_found_or_not_running_error() {
    for (wid, state) in [
        ("w-running", WorkerState::Running),
        ("w-waiting", WorkerState::Waiting),
        ("w-stalled", WorkerState::Stalled),
    ] {
        let w = seeded(wid, "ws", state, None, Some(r#"{"goal":"x"}"#), None);
        assert!(matches!(send(Some(w), "do more", "ws", true), Ok(SendPlan::Deliver)));
        let mut manager = WorkerManager::new();
        match manager.send_message(wid, "do more") {
            Delivery::NotFound { error } => {
                assert!(!error.contains("not found or not running"), "{error}")
            }
            _ => panic!("found"),
        }
    }
}

#[test]
fn send_message_idle_non_branch_ready_does_not_create_new_worker() {
    let mut w = worker("idle-abc1", "ws", WorkerState::Waiting);
    w.branch = Some("feat/fix-bug".to_string());
    assert!(matches!(
        send(Some(w), "please also add tests", "ws", true),
        Ok(SendPlan::Deliver)
    ));
}

#[test]
fn send_message_branch_ready_still_creates_new_worker() {
    let mut w = worker("ready-abc1", "ws", WorkerState::Waiting);
    w.brief = Some(json(r#"{"goal": "fix the bug", "review_mode": "local_first"}"#));
    w.branch = Some("feat/fix-bug".to_string());
    w.branch_ready = true;
    w.pr_url = Some("https://github.com/org/repo/pull/1".to_string());
    assert!(matches!(
        send(Some(w), "address the review comments", "ws", true),
        Ok(SendPlan::Revise(_))
    ));
}

#[test]
fn delivered_messages_wake_waiting_workers() {
    let w = delivered(worker("a", "ws", WorkerState::Waiting));
    assert_eq!((w.state, w.revision_count), (WorkerState::Running, 1));
    let news = delivered_news(&w);
    assert_eq!(news.state, "running");
    assert_eq!(news.properties.bool_field("is_stalled"), Some(false));
    let w = delivered(worker("a", "ws", WorkerState::Running));
    assert_eq!((w.state, w.revision_count), (WorkerState::Running, 0));
}

#[test]
fn briefs_make_prompts() {
    let brief = json(
        r#"{"goal": "Add limits", "context": {"b": 1, "a": "x"},
            "constraints": ["no new deps", 7], "acceptance_criteria": [], "review_mode": "pr_first"}"#,
    );
    let prompt = format_brief_as_prompt(&brief, ROLE);
    assert!(
        prompt.starts_with(
            "# Goal\n\nAdd limits\n\n# Context\n\n{\"a\":\"x\",\"b\":1}\n\n# Constraints\n\n- no new deps\n\n# When Done\n\nCommit your changes, push the branch, and open a PR with `gh pr create`.\n\n# Reporting\n\n"
        ),
        "{prompt}"
    );
    let plain = format_brief_as_prompt(&object(), ROLE);
    assert!(plain.starts_with("# Goal\n\n(no goal specified)\n\n# When Done\n\n"), "{plain}");
    assert!(plain.contains("the inspector will inspect the branch locally first."), "{plain}");
}

fn review(verdict: Verdict, message: Option<&str>) -> WorkerReview {
    WorkerReview { verdict, worker_message: message.map(str::to_string) }
}

#[test]
fn feedback_is_that_of_the_first_review_that_asks_for_changes() {
    let reviews = vec![
        review(Verdict::Approve, Some("fine")),
        review(Verdict::RequestChanges, None),
        review(Verdict::RequestChanges, Some("rename it")),
    ];
    assert_eq!(review_feedback(&reviews).as_deref(), Some("rename it"));
    let w = worker("w", "ws", WorkerState::Done);
    let plan = match plan_requeue(&Some(w), "ws", true, &reviews, "codex", ROLE) {
        Ok(p) => p,
        Err(e) => panic!("{}", e.error),
    };
    assert!(plan.prompt.ends_with(
        "\n\n# Review Feedback (Previous Attempt)\n\nA inspector inspected your last attempt and requested changes. Address all of the following before marking the work done:\n\nrename it"
    ));
    let brief = object().with("goal", text("g"));
    assert_eq!(
        build_requeue_prompt(&brief, &None, ROLE),
        format_brief_as_prompt(&brief, ROLE)
    );
    assert!(build_revision_prompt("m", &brief, &Some("f".to_string()), ROLE)
        .ends_with("\n\n# Prior Review Feedback\n\nf"));
}

#[test]
fn workers_are_queued_again_by_themselves() {
    let w = worker("w", "ws", WorkerState::Waiting);
    let plan = plan_auto_requeue(&w, "rename it", ROLE).unwrap();
    assert_eq!(plan.agent, "codex");
    assert!(plan.prompt.ends_with("rename it"));
    let mut bare = worker("w", "ws", WorkerState::Waiting);
    bare.brief = None;
    assert!(plan_auto_requeue(&bare, "x", ROLE).is_none());
}

#[test]
fn reviews_need_a_waiting_worker_with_a_branch() {
    assert_eq!(error_of(check_review(&None)).0, 404);
    let mut w = worker("w", "ws", WorkerState::Waiting);
    let (status, error) = error_of(check_review(&Some(worker("w", "ws", WorkerState::Waiting))));
    assert_eq!(
        (status, error.as_str()),
        (400, "review only available when worker is waiting and branch_ready=true")
    );
    w.branch_ready = true;
    assert!(check_review(&Some(w)).is_ok());
}

#[test]
fn timelines_tell_of_reviews() {
    assert_eq!(review_timeline_text(Verdict::Approve, "s", true), "✓ Review approved — s");
    assert_eq!(
        review_timeline_text(Verdict::RequestChanges, "s", true),
        "✗ Review requested changes — s\n\nFeedback sent to worker."
    );
    assert_eq!(
        review_timeline_text(Verdict::RequestChanges, "s", false),
        "✗ Review requested changes — s\n\nWorker auto-requeued with feedback."
    );
    assert_eq!(review_timeline_text(Verdict::Comment, "s", true), "💬 Review comment — s");
    let event = review_timeline_event(Verdict::Approve, "s", true, "now");
    assert_eq!(event.text_field("type").as_deref(), Some("system"));
    assert_eq!(event.text_field("timestamp").as_deref(), Some("now"));
}

#[test]
fn news_of_reviews_name_who_gave_them() {
    let news = review_news(&json(r#"{"verdict": "approve", "by": "Ann"}"#), "by").unwrap();
    assert_eq!((news.verdict.as_str(), news.given_by.as_str()), ("approve", "Ann"));
    let news = review_news(&json(r#"{"verdict": "approve"}"#), "by").unwrap();
    assert_eq!(news.given_by, "General");
    assert!(review_news(&json(r#"{"state": 1}"#), "by").is_none());
}

#[test]
fn titles_come_from_the_first_filled_line() {
    assert_eq!(
        title_prompt("Fix login", "job"),
        "Generate a short display title (4-8 words) for this job. Output only the title, no punctuation, no markdown, no explanation.\n\nTask: Fix login"
    );
    assert_eq!(first_filled_line("\n  \n x \ny").as_deref(), Some(" x "));
    assert_eq!(title_from_output("\n Fix the Login Flow \n").as_deref(), Some("Fix the Login Flow"));
    assert_eq!(title_from_output(" \n"), None);
}

#[test]
fn queued_workers_are_news() {
    let news = queued_news("ws", "w-2", Some(3));
    assert_eq!((news.state.as_str(), news.label.as_str()), ("queued", "Queued"));
    assert!(matches!(news.properties.get("revision_count"), Some(Json::Number(3))));
    assert!(queued_news("ws", "w-2", None).properties.get("revision_count").is_none());
    let answer = requeue_answer("w-2", true);
    assert_eq!(answer.bool_field("ok"), Some(true));
    assert_eq!(answer.text_field("new_worker_id").as_deref(), Some("w-2"));
    assert_eq!(answer.bool_field("with_review_feedback"), Some(true));
    assert_eq!(worker_answer("new_id", "w").text_field("new_id").as_deref(), Some("w"));
}
