use apiari::config::Names;
use apiari::task::{Task, TaskStage};
use apiari::time::Moment;
use apiari::worker_actions::shown_diff;
use apiari::worker_view::{
    conversation_message, elapsed_secs, find_worker_state, load_worker_views, swarm_state_path,
    task_packet, worker_detail,
    worker_execution_note, worker_mode, worker_output_from_conversation,
    worker_session_completed, worker_status_for_state, worker_status_for_task,
    worker_view_from_state, worker_view_from_task, ConversationEntry, SwarmWorkerPrState,
    SwarmWorktreeState, TaskPacketFiles, TaskWithAttempt, WorkerSigns,
};

fn now() -> Moment {
    Moment::new(1_777_680_000, 0).unwrap()
}

fn names() -> Names {
    Names {
        agent: "helper".to_string(),
        model: "model-1".to_string(),
        review_role: "inspection".to_string(),
        changes_word: "change".to_string(),
    }
}

fn state(id: &str, branch: &str) -> SwarmWorktreeState {
    SwarmWorktreeState {
        id: id.to_string(),
        branch: branch.to_string(),
        prompt: "tighten cards".to_string(),
        agent_kind: "codex".to_string(),
        created_at: None,
        summary: None,
        pr: None,
        phase: Some("running".to_string()),
        agent_session_status: None,
        repo_path: Some("/ws".to_string()),
        worktree_path: Some("/ws/.swarm/wt/x".to_string()),
        agent_pid: None,
        session_id: None,
        ready_branch: None,
        failure_note: None,
    }
}

fn task(id: &str, title: &str, pr: &str) -> Task {
    Task {
        id: id.to_string(),
        workspace: "apiari".to_string(),
        title: title.to_string(),
        stage: TaskStage::HumanReview,
        source: Some("manual".to_string()),
        source_url: None,
        worker_id: Some("apiari-7a04".to_string()),
        pr_url: Some(pr.to_string()),
        pr_number: Some(7),
        repo: Some("apiari".to_string()),
        created_at: now(),
        updated_at: now(),
        resolved_at: None,
        cursor: None,
    }
}

fn no_files() -> TaskPacketFiles {
    TaskPacketFiles {
        task_md: None,
        context_md: None,
        plan_md: None,
        shaping_md: None,
        progress_md: None,
    }
}

const CALM: WorkerSigns = WorkerSigns { session_completed: false, dirty: false };
const DIRTY: WorkerSigns = WorkerSigns { session_completed: false, dirty: true };
const OVER: WorkerSigns = WorkerSigns { session_completed: true, dirty: false };

#[test]
fn get_workspace_workers_uses_resolved_state_path_and_filters_workspace() {
    let mut w = state("common-sdk-fix", "common/fix-sdk");
    w.agent_session_status = Some("waiting".to_string());
    w.prompt = "Fix shared repo mapping".to_string();
    w.summary = Some("Repair local slug resolution".to_string());
    w.pr = Some(SwarmWorkerPrState {
        number: None,
        title: Some("Fix SDK mapping".to_string()),
        state: Some("OPEN".to_string()),
        url: Some("https://example.com/pr/1".to_string()),
    });
    let view = worker_view_from_state("apiari", &w, CALM, &None, None, &names(), &now());
    assert_eq!(view.id, "common-sdk-fix");
    assert_eq!(view.workspace, "apiari");
    assert_eq!(view.agent, "codex");
    assert_eq!(view.status, "waiting");
    assert_eq!(view.pr_title.as_deref(), Some("Fix SDK mapping"));
    assert_eq!(view.description.as_deref(), Some("Repair local slug resolution"));
}

#[test]
fn get_workspace_workers_surfaces_task_owned_lifecycle_fields() {
    let tasks = vec![TaskWithAttempt {
        task: task("task-1", "Tighten mobile overview cards", "https://example.com/pr/7"),
        attempt: None,
    }];
    let workers = load_worker_views("apiari", vec![], &tasks, &names(), &now());
    assert_eq!(workers.len(), 1);
    assert_eq!(workers[0].id, "apiari-7a04");
    assert_eq!(workers[0].status, "waiting");
    assert_eq!(workers[0].task_id.as_deref(), Some("task-1"));
    assert_eq!(workers[0].task_title.as_deref(), Some("Tighten mobile overview cards"));
    assert_eq!(workers[0].task_stage.as_deref(), Some("Human Review"));
    assert_eq!(workers[0].task_repo.as_deref(), Some("apiari"));
    assert_eq!(workers[0].pr_url.as_deref(), Some("https://example.com/pr/7"));
}

#[test]
fn get_workspace_workers_marks_stalled_uncommitted_workers() {
    let mut w = state("apiari-7a04", "swarm/example");
    w.agent_session_status = Some("stopped".to_string());
    let view = worker_view_from_state("apiari", &w, DIRTY, &None, None, &names(), &now());
    assert_eq!(view.status, "stalled");
    assert_eq!(view.ready_branch, None);
    assert!(view.has_uncommitted_changes);
    assert_eq!(
        view.execution_note.as_deref(),
        Some("Uncommitted diff, no ready branch, and no active session.")
    );
}

#[test]
fn get_workspace_workers_keeps_actively_running_workers_out_of_stalled() {
    let mut w = state("apiari-87e2", "swarm/example");
    w.agent_session_status = Some("running".to_string());
    let view = worker_view_from_state("apiari", &w, DIRTY, &None, None, &names(), &now());
    assert_eq!(view.status, "running");
    assert_eq!(
        view.execution_note.as_deref(),
        Some("Uncommitted diff present; worker has not marked a ready branch yet.")
    );
}

#[test]
fn get_workspace_workers_marks_session_completed_without_handoff_as_failed() {
    let log = r#"{"type":"assistant_text","timestamp":"2026-05-04T22:40:59.649150Z","text":"I stopped."}
{"type":"session_result","timestamp":"2026-05-04T22:40:59.714859Z","turns":0,"cost_usd":null,"session_id":null}
"#;
    assert!(worker_session_completed(&Some(log.to_string())));
    let mut w = state("apiari-ebbc", "swarm/example");
    w.agent_session_status = Some("running".to_string());
    let view = worker_view_from_state("apiari", &w, OVER, &None, None, &names(), &now());
    assert_eq!(view.status, "failed");
    assert_eq!(
        view.execution_note.as_deref(),
        Some(
            "Worker finished without a ready branch or PR handoff. It stopped without a promotable code change."
        )
    );
}

#[test]
fn logs_without_a_result_are_not_over() {
    assert!(!worker_session_completed(&None));
    assert!(!worker_session_completed(&Some("{\"type\":\"assistant_text\"}\n".to_string())));
}

#[test]
fn get_workspace_worker_detail_returns_prompt_output_and_conversation() {
    let mut w = state("common-sdk-fix", "common/fix-sdk");
    w.prompt = "Investigate repo slug resolution".to_string();
    w.summary = Some("Working through daemon/http.rs".to_string());
    let conversation = vec![
        conversation_message(&ConversationEntry::User {
            text: "Investigate repo slug resolution".to_string(),
            timestamp: "12:00".to_string(),
        }),
        conversation_message(&ConversationEntry::AssistantText {
            text: "Found fallback to workspace root.".to_string(),
            timestamp: "12:01".to_string(),
        }),
    ];
    let mut files = no_files();
    files.task_md =
        Some("# Task\n\nExample\n\n## Worker Mode\n- `implementation`\n".to_string());
    files.context_md = Some("# Context\n\n- Repository: `apiari`\n".to_string());
    files.shaping_md = Some(
        "# Coordinator Shaping\n\n## Goal\n- Investigate repo slug resolution\n".to_string(),
    );
    let detail = worker_detail(
        "apiari", &Some(w), CALM, &None, None, conversation, &files, &names(), &now(),
    )
    .expect("worker detail should resolve");

    assert_eq!(detail.worker.id, "common-sdk-fix");
    assert_eq!(detail.worker.status, "running");
    assert_eq!(detail.prompt.as_deref(), Some("Investigate repo slug resolution"));
    assert_eq!(detail.output.as_deref(), Some("Found fallback to workspace root."));
    assert_eq!(detail.conversation.len(), 2);
    assert_eq!(detail.conversation[0].role, "user");
    assert_eq!(detail.conversation[1].role, "assistant");
    let packet = detail.task_packet.unwrap();
    assert_eq!(packet.worker_mode.as_deref(), Some("implementation"));
    assert_eq!(
        packet.shaping_md.as_deref(),
        Some("# Coordinator Shaping\n\n## Goal\n- Investigate repo slug resolution\n")
    );
}

#[test]
fn get_workspace_worker_detail_falls_back_to_task_when_swarm_state_is_gone() {
    let t = task("task-2", "Review mobile worker lifecycle", "https://example.com/pr/8");
    let detail = worker_detail(
        "apiari", &None, CALM, &Some(t), None, vec![], &no_files(), &names(), &now(),
    )
    .expect("task-backed worker detail should resolve");

    assert_eq!(detail.worker.id, "apiari-7a04");
    assert_eq!(detail.worker.status, "waiting");
    assert_eq!(detail.worker.task_stage.as_deref(), Some("Human Review"));
    assert_eq!(detail.worker.task_title.as_deref(), Some("Review mobile worker lifecycle"));
    assert_eq!(detail.worker.task_repo.as_deref(), Some("apiari"));
    assert_eq!(detail.prompt, None);
    assert_eq!(detail.output, None);
    assert!(detail.conversation.is_empty());
}

#[test]
fn unknown_workers_have_no_detail() {
    let none = worker_detail(
        "apiari", &None, CALM, &None, None, vec![], &no_files(), &names(), &now(),
    );
    assert!(none.is_none());
}

#[test]
fn get_workspace_worker_diff_returns_current_worktree_diff() {
    let output = "diff --git a/file.txt b/file.txt\n-before\n+after\n";
    let text = shown_diff(&Some(output.to_string())).expect("diff should be present");
    assert!(text.contains("diff --git"));
    assert!(text.contains("-before"));
    assert!(text.contains("+after"));
    assert_eq!(shown_diff(&Some(" \n".to_string())), None);
    assert_eq!(shown_diff(&None), None);
}

#[test]
fn v2_get_worker_includes_task_packet_from_worktree() {
    let mut files = no_files();
    files.task_md = Some("# Task\n\nShip the full coordinator packet.\n".to_string());
    files.plan_md = Some("# Plan\n\n1. Return task_packet in v2 detail\n".to_string());
    let packet = task_packet(&files).unwrap();
    assert_eq!(packet.task_md.as_deref(), Some("# Task\n\nShip the full coordinator packet.\n"));
    assert_eq!(
        packet.plan_md.as_deref(),
        Some("# Plan\n\n1. Return task_packet in v2 detail\n")
    );
    assert_eq!(packet.worker_mode, None);
    assert!(task_packet(&no_files()).is_none());
}

#[test]
fn swarm_state_path_defaults_to_workspace_root_when_watcher_config_is_missing() {
    assert_eq!(swarm_state_path("/tmp/apiari", &None), "/tmp/apiari/.swarm/state.json");
}

#[test]
fn swarm_state_path_prefers_explicit_watcher_path() {
    let explicit = "/tmp/custom/state.json".to_string();
    assert_eq!(swarm_state_path("/tmp/apiari", &Some(explicit.clone())), explicit);
}

#[test]
fn workers_are_found_in_the_state() {
    let list = vec![state("a", "x"), state("b", "y"), state("b", "z")];
    assert_eq!(find_worker_state(&list, "b"), Some(1));
    assert_eq!(find_worker_state(&list, "c"), None);
}

#[test]
fn unnamed_agents_are_the_default_one() {
    let mut w = state("x", "b");
    w.agent_kind = String::new();
    let view = worker_view_from_state("apiari", &w, CALM, &None, None, &names(), &now());
    assert_eq!(view.agent, "helper");
}

#[test]
fn stages_decide_the_status_of_a_task() {
    assert_eq!(worker_status_for_task(TaskStage::Merged), "completed");
    assert_eq!(worker_status_for_task(TaskStage::HumanReview), "waiting");
}

#[test]
fn listed_workers_come_first_and_once() {
    let listed = vec![worker_view_from_state(
        "apiari", &state("apiari-7a04", "b"), CALM, &None, None, &names(), &now(),
    )];
    let tasks = vec![TaskWithAttempt { task: task("t", "T", "u"), attempt: None }];
    let all = load_worker_views("apiari", listed, &tasks, &names(), &now());
    assert_eq!(all.len(), 1);
    assert_eq!(all[0].agent, "codex");
}

#[test]
fn workers_of_a_task_need_a_worker() {
    let mut t = task("t", "T", "u");
    t.worker_id = None;
    assert!(worker_view_from_task("apiari", &t, None, &names(), &now()).is_none());
}

#[test]
fn status_and_note_of_a_calm_worker() {
    let mut w = state("x", "b");
    w.agent_session_status = Some("running".to_string());
    assert_eq!(worker_status_for_state(&w, CALM), "running");
    assert_eq!(worker_execution_note(&w, CALM), None);
}

#[test]
fn elapsed_time_is_never_negative() {
    let earlier = Moment::new(1_777_679_940, 0).unwrap();
    assert_eq!(elapsed_secs(&Some(earlier), &now()), Some(60));
    assert_eq!(elapsed_secs(&Some(now()), &earlier), Some(0));
    assert_eq!(elapsed_secs(&None, &now()), None);
}

#[test]
fn modes_and_outputs_are_found() {
    assert_eq!(worker_mode("x\n - `research` \n- `other`"), Some("research".to_string()));
    assert_eq!(worker_mode("- research"), None);
    let said = vec![
        conversation_message(&ConversationEntry::Question {
            text: "which?".to_string(),
            timestamp: "1".to_string(),
        }),
        conversation_message(&ConversationEntry::ToolCall { tool: "Bash".to_string() }),
    ];
    assert_eq!(worker_output_from_conversation(&said), Some("which?".to_string()));
    let status = conversation_message(&ConversationEntry::Status { text: "s".to_string() });
    assert_eq!((status.role.as_str(), status.timestamp), ("assistant", None));
}
