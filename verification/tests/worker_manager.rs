use apiari::json::{parse, Json};
use apiari::worker::WorkerState;
use apiari::worker_manager::{
    plan_cleanup, plan_resume, resolve_repo, task_files, update_state_phase,
    update_state_session_id, upsert_state_entry, worker_db_record, worker_id_for, Delivery,
    RepoCandidate, StateEntry, TaskDirPayload, WorkerManager,
};

fn candidate(path: &str, name: &str, ends_with: bool) -> RepoCandidate {
    RepoCandidate { path: path.to_string(), name: name.to_string(), ends_with }
}

fn entry(id: &str, branch: &str, prompt: &str, agent: &str) -> StateEntry {
    StateEntry {
        id: id.to_string(),
        branch: branch.to_string(),
        prompt: prompt.to_string(),
        agent_kind: agent.to_string(),
        repo_path: "/r".to_string(),
        worktree_path: "/w".to_string(),
        created_at: "2026-05-02T00:00:00+00:00".to_string(),
    }
}

fn upsert(raw: Option<String>, e: &StateEntry) -> String {
    match upsert_state_entry(&raw, e) {
        Some(s) => s,
        None => panic!("no list of workers"),
    }
}

fn state(raw: &str) -> serde_json::Value {
    serde_json::from_str(raw).unwrap()
}

fn json(raw: &str) -> Json {
    match parse(raw) {
        Some(v) => v,
        None => panic!("{raw}"),
    }
}

#[test]
fn resolve_repo_finds_git_repo_by_name() {
    let result = resolve_repo(&vec![candidate("/tmp/x/myrepo", "myrepo", true)], "myrepo", &None);
    assert_eq!(result, Ok("/tmp/x/myrepo".to_string()));
}

#[test]
fn resolve_repo_falls_back_to_direct_path_when_dir_exists() {
    let result = resolve_repo(&vec![], "somedir", &Some("/tmp/x/somedir".to_string()));
    assert_eq!(result, Ok("/tmp/x/somedir".to_string()));
}

#[test]
fn resolve_repo_errors_when_not_found() {
    let err = resolve_repo(&vec![], "nonexistent", &None).unwrap_err();
    assert!(err.contains("nonexistent"));
}

#[test]
fn resolve_repo_errors_include_work_dir_context() {
    let msg = resolve_repo(&vec![], "ghost", &None).unwrap_err();
    assert!(msg.contains("ghost"), "error should name the missing repo");
    assert_eq!(msg, "repo 'ghost' not found in workspace");
}

#[test]
fn resolve_repo_prefers_git_repo_over_plain_dir_with_same_name() {
    let result = resolve_repo(
        &vec![candidate("/tmp/x/other", "other", false), candidate("/tmp/x/proj", "proj", true)],
        "proj",
        &Some("/tmp/x/plain".to_string()),
    );
    assert_eq!(result, Ok("/tmp/x/proj".to_string()));
}

#[test]
fn upsert_creates_state_json_from_scratch() {
    let mut e = entry("repo-a1b2", "feat/my-task", "do the thing", "codex");
    e.repo_path = "/workspace/repo".to_string();
    e.worktree_path = "/workspace/.swarm/wt/repo-a1b2".to_string();
    let state = state(&upsert(None, &e));
    let worktrees = state["worktrees"].as_array().unwrap();
    assert_eq!(worktrees.len(), 1);
    let wt = &worktrees[0];
    assert_eq!(wt["id"].as_str(), Some("repo-a1b2"));
    assert_eq!(wt["branch"].as_str(), Some("feat/my-task"));
    assert_eq!(wt["prompt"].as_str(), Some("do the thing"));
    assert_eq!(wt["phase"].as_str(), Some("starting"));
    assert_eq!(wt["status"].as_str(), Some("running"));
    assert!(wt["created_at"].as_str().is_some(), "created_at should be set");
}

#[test]
fn upsert_preserves_session_name_and_inbox_pos() {
    let state = state(&upsert(None, &entry("w-1", "b", "p", "codex")));
    assert_eq!(state["session_name"].as_str(), Some("apiari"));
    assert_eq!(state["last_inbox_pos"].as_i64(), Some(0));
}

#[test]
fn upsert_updates_existing_entry_in_place() {
    let one = upsert(None, &entry("w-1", "feat/old", "old prompt", "codex"));
    let two = upsert(Some(one), &entry("w-1", "feat/new", "new prompt", "codex"));
    let state = state(&two);
    let worktrees = state["worktrees"].as_array().unwrap();
    assert_eq!(worktrees.len(), 1, "same id must not create a duplicate");
    assert_eq!(worktrees[0]["branch"].as_str(), Some("feat/new"));
    assert_eq!(worktrees[0]["prompt"].as_str(), Some("new prompt"));
}

#[test]
fn upsert_appends_when_ids_differ() {
    let one = upsert(None, &entry("w-1", "b1", "p1", "codex"));
    let two = upsert(Some(one), &entry("w-2", "b2", "p2", "codex"));
    let three = upsert(Some(two), &entry("w-3", "b3", "p3", "codex"));
    assert_eq!(state(&three)["worktrees"].as_array().unwrap().len(), 3);
}

#[test]
fn upsert_sets_correct_agent_kind_label() {
    let state = state(&upsert(None, &entry("w-1", "b", "p", "gemini")));
    assert_eq!(state["worktrees"][0]["agent_kind"].as_str().unwrap(), "gemini");
}

#[test]
fn unreadable_state_is_replaced_and_lists_are_needed() {
    let fresh = upsert(Some("{".to_string()), &entry("w-1", "b", "p", "codex"));
    assert_eq!(state(&fresh)["worktrees"].as_array().unwrap().len(), 1);
    let e = entry("w-1", "b", "p", "codex");
    assert_eq!(upsert_state_entry(&Some("{\"worktrees\": 3}".to_string()), &e), None);
}

fn phase_after(phase: &str) -> serde_json::Value {
    let raw = upsert(None, &entry("w-1", "b", "p", "codex"));
    match update_state_phase(&raw, "w-1", phase) {
        Some(s) => state(&s),
        None => panic!("not updated"),
    }
}

#[test]
fn update_phase_waiting_sets_status_running() {
    let state = phase_after("waiting");
    assert_eq!(state["worktrees"][0]["phase"].as_str(), Some("waiting"));
    assert_eq!(state["worktrees"][0]["status"].as_str(), Some("running"));
}

#[test]
fn update_phase_running_keeps_status_running() {
    let state = phase_after("running");
    assert_eq!(state["worktrees"][0]["phase"].as_str(), Some("running"));
    assert_eq!(state["worktrees"][0]["status"].as_str(), Some("running"));
}

#[test]
fn update_phase_failed_sets_status_done() {
    let state = phase_after("failed");
    assert_eq!(state["worktrees"][0]["phase"].as_str(), Some("failed"));
    assert_eq!(state["worktrees"][0]["status"].as_str(), Some("done"));
}

#[test]
fn update_phase_starting_sets_status_done() {
    let state = phase_after("starting");
    assert_eq!(state["worktrees"][0]["status"].as_str(), Some("done"));
}

#[test]
fn update_phase_is_noop_when_no_state_json() {
    assert_eq!(update_state_phase("", "w-1", "waiting"), None);
}

#[test]
fn update_phase_does_not_touch_other_workers() {
    let one = upsert(None, &entry("w-1", "b1", "p1", "codex"));
    let two = upsert(Some(one), &entry("w-2", "b2", "p2", "codex"));
    let state = state(&update_state_phase(&two, "w-1", "failed").unwrap());
    let w2 = state["worktrees"]
        .as_array()
        .unwrap()
        .iter()
        .find(|w| w["id"].as_str() == Some("w-2"))
        .unwrap();
    assert_eq!(w2["phase"].as_str(), Some("starting"), "w-2 must be unchanged");
    assert_eq!(w2["status"].as_str(), Some("running"), "w-2 status must be unchanged");
}

#[test]
fn update_phase_is_noop_for_unknown_worker_id() {
    let raw = upsert(None, &entry("w-1", "b", "p", "codex"));
    let state = state(&update_state_phase(&raw, "ghost", "failed").unwrap());
    assert_eq!(state["worktrees"][0]["phase"].as_str(), Some("starting"));
}

#[test]
fn update_session_id_persists_to_state_json() {
    let raw = upsert(None, &entry("w-1", "b", "p", "gemini"));
    let state = state(&update_state_session_id(&raw, "w-1", "ses-abc123").unwrap());
    assert_eq!(state["worktrees"][0]["session_id"].as_str(), Some("ses-abc123"));
}

#[test]
fn update_session_id_is_noop_when_no_state_json() {
    assert_eq!(update_state_session_id("", "w-1", "ses-xyz"), None);
}

#[test]
fn send_message_to_unknown_worker_returns_error() {
    let mut mgr = WorkerManager::new();
    match mgr.send_message("ghost-1234", "hello") {
        Delivery::NotFound { error } => {
            assert!(error.contains("ghost-1234"), "error should name the missing worker")
        }
        _ => panic!("found"),
    }
}

#[test]
fn close_unknown_worker_returns_error() {
    let mut mgr = WorkerManager::new();
    let err = mgr.close_worker("ghost-1234").unwrap_err();
    assert!(err.contains("ghost-1234"));
}

#[test]
fn is_live_returns_false_for_unknown_worker() {
    let mgr = WorkerManager::new();
    assert!(!mgr.is_live("ghost-1234"));
}

#[test]
fn new_manager_starts_with_no_live_workers() {
    let mgr = WorkerManager::new();
    assert!(!mgr.is_live("a"));
    assert!(!mgr.is_live(""));
}

#[test]
fn send_message_while_live_queues_not_errors() {
    let mut mgr = WorkerManager::new();
    mgr.note_started("live-abc1");
    assert!(matches!(mgr.send_message("live-abc1", "follow-up"), Delivery::Queued));
    assert_eq!(mgr.pending_messages("live-abc1"), vec!["follow-up"]);
}

#[test]
fn send_message_queues_multiple_messages_in_order() {
    let mut mgr = WorkerManager::new();
    mgr.note_started("w-1");
    mgr.send_message("w-1", "first");
    mgr.send_message("w-1", "second");
    mgr.send_message("w-1", "third");
    assert_eq!(mgr.pending_messages("w-1"), vec!["first", "second", "third"]);
}

#[test]
fn send_message_when_not_live_calls_resume_and_returns_err_without_state() {
    let mut mgr = WorkerManager::new();
    mgr.note_created("idle-w1", "/nonexistent");
    assert_eq!(mgr.end_run("idle-w1"), None);
    match mgr.send_message("idle-w1", "please resume") {
        Delivery::Resume { work_dir } => assert_eq!(work_dir, "/nonexistent"),
        _ => panic!("not resumed"),
    }
    let result = plan_resume(&Err("No such file or directory".to_string()), "idle-w1");
    assert!(result.is_err(), "should fail gracefully without real state.json");
}

#[test]
fn pending_message_cleared_after_pickup() {
    let mut mgr = WorkerManager::new();
    mgr.note_started("w-1");
    mgr.send_message("w-1", "queued message");
    let msg = mgr.end_run("w-1");
    assert_eq!(msg.as_deref(), Some("queued message"));
    assert!(mgr.pending_messages("w-1").is_empty(), "queue should be empty after pickup");
}

#[test]
fn closed_workers_are_forgotten() {
    let mut mgr = WorkerManager::new();
    mgr.note_created("w-1", "/ws");
    assert!(mgr.is_live("w-1"));
    assert_eq!(mgr.close_worker("w-1"), Ok("/ws".to_string()));
    assert!(!mgr.is_live("w-1"));
    assert!(mgr.close_worker("w-1").is_err());
}

#[test]
fn resuming_reads_the_state() {
    let raw = upsert(None, &entry("w-1", "b", "p", "codex"));
    let raw = update_state_session_id(&raw, "w-1", "ses-1").unwrap();
    let plan = match plan_resume(&Ok(raw), "w-1") {
        Ok(p) => p,
        Err(e) => panic!("{e}"),
    };
    assert_eq!(plan.session_id.as_deref(), Some("ses-1"));
    assert_eq!(plan.worktree_path, "/w");
    assert_eq!(plan.repo_path, "/r");
    let refused = |file: Result<&str, &str>, id: &str| {
        let file = file.map(str::to_string).map_err(str::to_string);
        match plan_resume(&file, id) {
            Ok(_) => panic!("resumed"),
            Err(e) => e,
        }
    };
    let bare = r#"{"worktrees": [{"id": "w-1"}, {"id": "w-3", "worktree_path": "/w"}]}"#;
    assert_eq!(refused(Ok(bare), "w-1"), "worker w-1 has no worktree_path in state.json");
    assert_eq!(refused(Ok(bare), "w-2"), "worker w-2 not found in state.json");
    assert_eq!(refused(Ok(bare), "w-3"), "worker w-3 has no repo_path in state.json");
    assert_eq!(refused(Err("gone"), "w-1"), "failed to read state.json: gone");
    assert_eq!(
        refused(Ok("{"), "w-1"),
        "failed to parse state.json: EOF while parsing an object at line 1 column 1"
    );
}

#[test]
fn closing_removes_what_the_state_tells() {
    let raw = upsert(None, &entry("w-1", "b", "p", "codex"));
    let file = Some(raw);
    let plan = plan_cleanup(&file, "w-1").unwrap();
    assert_eq!((plan.repo_path.as_str(), plan.branch.as_str()), ("/r", "b"));
    assert!(plan_cleanup(&file, "w-2").is_none());
    assert!(plan_cleanup(&None, "w-1").is_none());
    assert!(plan_cleanup(&Some("{".to_string()), "w-1").is_none());
}

#[test]
fn new_workers_have_files_and_records() {
    let files = task_files(&TaskDirPayload {
        task_md: Some("t".to_string()),
        context_md: None,
        plan_md: None,
        shaping_md: Some("s".to_string()),
    });
    assert_eq!(
        files,
        vec![
            ("TASK.md".to_string(), "t".to_string()),
            ("SHAPING.md".to_string(), "s".to_string()),
        ]
    );
    assert_eq!(worker_id_for("repo", "1a2b"), "repo-1a2b");
    let w = worker_db_record("ws", "repo-1a2b", "repo", "\nDo it\nwell", "now");
    assert_eq!(w.goal.as_deref(), Some("Do it"));
    assert_eq!(w.state, WorkerState::Running);
}
