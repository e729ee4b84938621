use apiari::auto_bots::{
    delete_refusal, manual_run, new_auto_bot, page_of, runs_page, update_auto_bot, AutoBot,
    CreateAutoBot, UpdateAutoBot,
};
use apiari::bots::{
    bee_activity, debug_limit, effective_config, provider_capability, recent_conversations,
    ConversationMessage, DismissedSignal, HelpProbe,
};
use apiari::config::{BeeConfig, BeeExecutionPolicy, WorkspaceAuthority, WorkspaceConfig};
use apiari::json::{parse, render};
use apiari::task::TaskStage;
use apiari::time::Moment;
use apiari::widgets::{list_widgets, session_messages, widget_text, WidgetRow};
use apiari::worker_actions::{
    closed, dismisses_task, name_of_path, plan_promote, plan_redispatch, promoted, promoted_task,
    promotion_metadata, redispatch_metadata, redispatched, step_failed, task_after_promotion,
    task_after_redispatch, worker_repo_name, worker_task_title, ActionStep,
};
use apiari::worker_events::{
    get_worker_activity, log_event, read_worker_events, strip_ansi, AgentEvent, AgentEventWire,
};
use apiari::worker_view::SwarmWorktreeState;

#[test]
fn logs_are_shown_event_by_event() {
    let log = r#"{"type":"start","timestamp":"t0","prompt":"p"}
not json
{"type":"assistant_text","timestamp":"t1","text":"hello"}
{"type":"tool_use","timestamp":"t2","tool":"Bash","input":"{\"command\":\"ls\"}"}
{"type":"tool_result","timestamp":"t3"}
{"type":"session_result","timestamp":"t4","session_id":"s"}
"#;
    let shown: Vec<_> = read_worker_events(log).iter().map(render).collect();
    assert_eq!(
        shown,
        vec![
            r#"{"content":"","created_at":"t0","event_type":"session_start"}"#,
            r#"{"content":"hello","created_at":"t1","event_type":"assistant_text"}"#,
            r#"{"content":"Bash: {\"command\":\"ls\"}","created_at":"t2","event_type":"tool_use","input":{"command":"ls"},"input_raw":"{\"command\":\"ls\"}","tool":"Bash"}"#,
            r#"{"content":"s","created_at":"t4","event_type":"session_result","session_id":"s"}"#,
        ]
    );
}

#[test]
fn activity_is_the_last_of_the_log() {
    let log = r#"{"type":"start","prompt":"fix"}
{"type":"assistant_text","text":"  "}
{"type":"assistant_text","text":"done"}
{"type":"tool_use","tool":"Read","input":{"file":"a"}}
"#;
    let shown = get_worker_activity(log).unwrap();
    assert_eq!(shown.len(), 3);
    assert_eq!((shown[0].role.as_str(), shown[0].text.as_str()), ("user", "fix…"));
    assert_eq!((shown[1].role.as_str(), shown[1].text.as_str()), ("assistant", "done"));
    assert_eq!(shown[2].text, "**Read** `{\"file\":\"a\"}`");
    let many = "{\"type\":\"assistant_text\",\"text\":\"x\"}\n".repeat(60);
    assert_eq!(get_worker_activity(&many).unwrap().len(), 50);
    let uneven = format!("{{\"type\":\"tool_use\",\"input\":\"{}\"}}", "é".repeat(150));
    assert!(get_worker_activity(&uneven).is_none());
}

#[test]
fn escapes_are_taken_out() {
    assert_eq!(strip_ansi("\u{1b}[31mred\u{1b}[0m text"), "red text");
    assert_eq!(strip_ansi(&strip_ansi("a\u{1b}[1;2Hb")), "ab");
    assert_eq!(strip_ansi("plain"), "plain");
}

#[test]
fn reported_events_are_logged() {
    let now = Moment::new(5, 0).unwrap();
    match log_event(&AgentEventWire::TextDelta { text: "x".to_string() }, &now) {
        Some(AgentEvent::AssistantText { timestamp, text }) => {
            assert_eq!((timestamp.unix_seconds(), text.as_str()), (5, "x"))
        }
        _ => panic!("not logged"),
    }
    match log_event(
        &AgentEventWire::ToolResult { output: "o".to_string(), is_error: true },
        &now,
    ) {
        Some(AgentEvent::ToolResult { tool, output, is_error, .. }) => {
            assert_eq!((tool.as_str(), output.as_str(), is_error), ("", "o", true))
        }
        _ => panic!("not logged"),
    }
    match log_event(
        &AgentEventWire::SessionResult {
            turns: 3,
            cost_usd: Some("0.25".to_string()),
            session_id: None,
        },
        &now,
    ) {
        Some(AgentEvent::SessionResult { turns, cost_usd, session_id, .. }) => {
            assert_eq!((turns, cost_usd.as_deref(), session_id), (3, Some("0.25"), None))
        }
        _ => panic!("not logged"),
    }
    assert!(matches!(
        log_event(&AgentEventWire::Error { message: "m".to_string() }, &now),
        Some(AgentEvent::Error { .. })
    ));
    assert!(matches!(
        log_event(
            &AgentEventWire::ToolUse { tool: "t".to_string(), input: "i".to_string() },
            &now
        ),
        Some(AgentEvent::ToolUse { .. })
    ));
    assert!(log_event(&AgentEventWire::Other, &now).is_none());
}

fn create() -> CreateAutoBot {
    CreateAutoBot {
        name: "Nightly".to_string(),
        color: None,
        trigger_type: "cron".to_string(),
        cron_schedule: Some("0 0 * * *".to_string()),
        signal_source: None,
        signal_filter: None,
        prompt: "Look".to_string(),
        provider: None,
        model: None,
    }
}

fn no_changes() -> UpdateAutoBot {
    UpdateAutoBot {
        name: None,
        color: None,
        trigger_type: None,
        cron_schedule: None,
        signal_source: None,
        signal_filter: None,
        prompt: None,
        provider: None,
        model: None,
        enabled: None,
    }
}

fn auto_bot() -> AutoBot {
    new_auto_bot("id", "ws", create(), "helper", "now")
}

#[test]
fn new_auto_bots_have_defaults() {
    let bot = auto_bot();
    assert_eq!((bot.color.as_str(), bot.provider.as_str()), ("#f5c542", "helper"));
    assert!(bot.enabled);
    assert_eq!(bot.created_at, "now");
}

#[test]
fn updates_change_what_they_name() {
    let mut changes = no_changes();
    changes.enabled = Some(false);
    changes.name = Some("Weekly".to_string());
    let bot = match update_auto_bot(Some(auto_bot()), changes, "later") {
        Ok(b) => b,
        Err(e) => panic!("{}", e.error),
    };
    assert_eq!(bot.name, "Weekly");
    assert!(!bot.enabled);
    assert_eq!(bot.prompt, "Look");
    assert_eq!((bot.created_at.as_str(), bot.updated_at.as_str()), ("now", "later"));
    match update_auto_bot(None, no_changes(), "later") {
        Ok(_) => panic!("updated"),
        Err(e) => assert_eq!((e.status, e.error.as_str()), (404, "not found")),
    }
    let same = match update_auto_bot(Some(auto_bot()), no_changes(), "later") {
        Ok(b) => b,
        Err(e) => panic!("{}", e.error),
    };
    assert_eq!(same.name, "Nightly");
    assert!(same.enabled);
}

#[test]
fn runs_are_paged() {
    assert_eq!(runs_page(&None, &None), (0, 20));
    assert_eq!(runs_page(&Some("5".to_string()), &Some("10".to_string())), (10, 15));
    assert_eq!(page_of(vec![1, 2, 3], 1), vec![2, 3]);
    assert_eq!(page_of(vec![1], 4), Vec::<i32>::new());
    assert_eq!(delete_refusal("auto bot not found").status, 404);
    let other = delete_refusal("disk full");
    assert_eq!((other.status, other.error.as_str()), (500, "disk full"));
    match manual_run(true, "r", "b", "ws", "now") {
        Ok(run) => assert_eq!(run.triggered_by, "manual"),
        Err(e) => panic!("{}", e.error),
    }
    match manual_run(false, "r", "b", "ws", "now") {
        Ok(_) => panic!("ran"),
        Err(e) => assert_eq!(e.status, 404),
    }
}

fn bee(name: &str) -> BeeConfig {
    BeeConfig {
        name: name.to_string(),
        role: None,
        color: None,
        execution_policy: BeeExecutionPolicy::Autonomous,
        provider: "codex".to_string(),
        model: "m".to_string(),
        max_turns: 20,
        prompt: None,
        max_session_turns: 50,
        heartbeat: Some("15m".to_string()),
        signal_hooks: vec![],
        topic_id: None,
    }
}

#[test]
fn details_of_bots_are_shown() {
    let config = WorkspaceConfig {
        root: "/ws".to_string(),
        repos: vec![],
        authority: WorkspaceAuthority::Observe,
        bees: vec![bee("Bee")],
    };
    let view = effective_config(&config, "Main", BeeExecutionPolicy::Observe).unwrap();
    assert_eq!(view.api_name, "Main");
    assert_eq!(view.resolved_bee_name, "Bee");
    assert_eq!(view.workspace_authority, "observe");
    assert_eq!(view.heartbeat, Some("15m".to_string()));
    assert_eq!(view.configured_execution_policy, "autonomous");
    assert_eq!(view.effective_execution_policy, "observe");
    assert!(effective_config(&config, "x", BeeExecutionPolicy::Observe).is_none());
    assert_eq!(debug_limit(&None), 20);
    assert_eq!(debug_limit(&Some("500".to_string())), 100);
    assert_eq!(debug_limit(&Some("7".to_string())), 7);
}

#[test]
fn recent_conversations_are_in_order() {
    let message = |content: &str, at: &str| ConversationMessage {
        role: "user".to_string(),
        content: content.to_string(),
        source: None,
        bee: "Bee".to_string(),
        workspace: "ws".to_string(),
        created_at: at.to_string(),
    };
    let list = recent_conversations(vec![message("b", "2"), message("a", "1")]);
    assert_eq!(list[0].content, "a");
    let many = (0..60).map(|i| message("x", &format!("{i:02}"))).collect();
    let kept = recent_conversations(many);
    assert_eq!((kept.len(), kept[0].created_at.as_str()), (50, "10"));
}

#[test]
fn dismissals_are_shown_newest_first() {
    let dismissed = |id: i64, at: &str| DismissedSignal {
        id,
        workspace: "ws".to_string(),
        source: "sentry".to_string(),
        title: "t".repeat(70),
        resolved_at: at.to_string(),
    };
    let items = bee_activity(&vec![dismissed(1, "2026-01"), dismissed(2, "2026-02")]);
    assert_eq!(items[0].id, "dismissed-2");
    assert_eq!(items[0].title, format!("Auto-dismissed: {}", "t".repeat(60)));
    assert_eq!(items[0].body.as_deref(), Some("Source: sentry"));
}

#[test]
fn providers_are_probed() {
    let path = Some("/bin/codex\n".to_string());
    let v = provider_capability("codex", &path, &HelpProbe::Text("--sandbox".to_string()));
    assert!(v.installed);
    assert_eq!(v.binary_path.as_deref(), Some("/bin/codex"));
    assert_eq!((v.sandbox_flag_supported, v.approval_flag_supported), (Some(true), Some(false)));
    assert_eq!(v.notes, vec!["Current codex exec CLI does not support --approval-policy."]);
    let v = provider_capability("gemini", &None, &HelpProbe::Text(String::new()));
    assert_eq!(v.notes, vec!["Provider CLI not found on PATH."]);
    let v = provider_capability("codex", &path, &HelpProbe::Failed("e".to_string()));
    assert_eq!(v.notes, vec!["Failed to inspect CLI help: e"]);
}

#[test]
fn widgets_know_their_slot() {
    let row = |value: &str| WidgetRow {
        slot: "top".to_string(),
        value: value.to_string(),
        updated_at: "now".to_string(),
    };
    let list = list_widgets(&vec![row("{\"a\":1}"), row("broken")]).unwrap();
    assert_eq!(list.len(), 1);
    assert_eq!(list[0].text_field("slot").as_deref(), Some("top"));
    assert!(list_widgets(&vec![row("[1]")]).is_none());
    assert_eq!(
        widget_text(parse("{\"slot\":\"x\",\"z\":1}").unwrap_or(apiari::json::object()), "top"),
        "{\"slot\":\"top\",\"z\":1}"
    );
    assert_eq!(render(&session_messages("[{\"a\":2}]")), "[{\"a\":2}]");
    assert_eq!(render(&session_messages("oops")), "[]");
}

fn worker() -> SwarmWorktreeState {
    SwarmWorktreeState {
        id: "w-1".to_string(),
        branch: "swarm/x".to_string(),
        prompt: " Fix it \nplease".to_string(),
        agent_kind: "codex".to_string(),
        created_at: None,
        summary: None,
        pr: None,
        phase: None,
        agent_session_status: None,
        repo_path: None,
        worktree_path: Some("/wt".to_string()),
        agent_pid: None,
        session_id: None,
        ready_branch: None,
        failure_note: None,
    }
}

#[test]
fn workers_are_promoted() {
    let root = Some("/ws".to_string());
    let plan = match plan_promote("ws", "w-1", &root, &Some(worker()), true, &None) {
        Ok(p) => p,
        Err(e) => panic!("{}", e.error),
    };
    assert_eq!((plan.repo_path.as_str(), plan.branch.as_str()), ("/ws", "swarm/x"));
    assert_eq!(plan.title, "Fix it");
    assert_eq!(plan.commit.as_deref(), Some("promote worker w-1"));
    let refused = |root: &Option<String>, w: Option<SwarmWorktreeState>| {
        match plan_promote("ws", "w-1", root, &w, false, &None) {
            Ok(_) => panic!("promoted"),
            Err(e) => (e.status, e.error),
        }
    };
    assert_eq!(refused(&None, None), (404, "workspace 'ws' not found".to_string()));
    assert_eq!(refused(&root, None).0, 404);
    let mut bare = worker();
    bare.worktree_path = None;
    assert_eq!(
        refused(&root, Some(bare)),
        (409, "worker 'w-1' has no worktree path".to_string())
    );
    assert_eq!(promoted("w", "u", "b").detail, "Created PR for branch `b`.");
    let now = Moment::new(0, 0).unwrap();
    let task = promoted_task("t", "ws", "w", "T", "u", Some(4), &None, now);
    assert_eq!(task.stage, TaskStage::HumanReview);
    assert_eq!(task.pr_number, Some(4));
}

#[test]
fn workers_are_sent_out_again() {
    let root = Some("/home/repo".to_string());
    let plan = match plan_redispatch("ws", "w-1", &root, &Some(worker())) {
        Ok(p) => p,
        Err(e) => panic!("{}", e.error),
    };
    assert_eq!(plan.prompt, " Fix it \nplease");
    assert_eq!(plan.repo, "repo");
    let refused = |root: &Option<String>, w: Option<SwarmWorktreeState>| {
        match plan_redispatch("ws", "w-1", root, &w) {
            Ok(_) => panic!("sent out"),
            Err(e) => (e.status, e.error),
        }
    };
    assert_eq!(refused(&None, Some(worker())), (404, "workspace 'ws' not found".to_string()));
    assert_eq!(refused(&root, None), (404, "worker 'w-1' not found".to_string()));
    assert_eq!(
        refused(&Some("/".to_string()), Some(worker())),
        (409, "worker 'w-1' has no repo context".to_string())
    );
    assert_eq!(
        redispatched("w-2", "implementation", "repo").detail,
        "Spawned replacement implementation worker `w-2` in repo `repo`. Original worktree was left intact."
    );
    let mut blank = worker();
    blank.prompt = String::new();
    assert_eq!(worker_task_title(&blank), "Worker w-1");
}

#[test]
fn tasks_follow_their_workers() {
    let now = Moment::new(0, 0).unwrap();
    let task = || promoted_task("t", "ws", "w", "T", "u", None, &Some("r".to_string()), now);
    let after = task_after_promotion(task(), "new", Some(9), &None);
    assert_eq!((after.pr_url.as_deref(), after.pr_number), (Some("new"), Some(9)));
    assert_eq!(after.repo.as_deref(), Some("r"));
    let after = task_after_promotion(task(), "new", None, &Some("q".to_string()));
    assert_eq!((after.pr_url.as_deref(), after.pr_number), (Some("u"), None));
    assert_eq!(after.repo.as_deref(), Some("q"));
    let after = task_after_redispatch(task(), "w-2");
    assert_eq!(after.worker_id.as_deref(), Some("w-2"));
    assert_eq!(after.stage, TaskStage::InProgress);
    let meta = redispatch_metadata(apiari::json::Json::Null, "w", "w-2");
    assert_eq!(
        render(&meta),
        r#"{"redispatched_from_worker_id":"w","replacement_worker_id":"w-2"}"#
    );
    assert_eq!(render(&promotion_metadata()), r#"{"promoted_manually":true}"#);
    let failed = |step| step_failed(step, "e").error;
    assert_eq!(failed(ActionStep::Commit), "failed to commit worker changes: e");
    assert_eq!(failed(ActionStep::OpenPr), "failed to create PR: e");
    assert_eq!(failed(ActionStep::CreateReplacement), "failed to create replacement worker: e");
}

#[test]
fn closing_may_dismiss_the_task() {
    assert!(dismisses_task(true, &Some(TaskStage::InProgress)));
    assert!(!dismisses_task(true, &Some(TaskStage::Merged)));
    assert!(!dismisses_task(true, &None));
    assert!(!dismisses_task(false, &Some(TaskStage::InProgress)));
    assert_eq!(closed("w", true).detail, "Closed worker and dismissed its task.");
    assert_eq!(closed("w", false).detail, "Closed worker.");
}

#[test]
fn paths_have_names() {
    assert_eq!(name_of_path("/a/b").as_deref(), Some("b"));
    assert_eq!(name_of_path("/a/b//./").as_deref(), Some("b"));
    assert_eq!(name_of_path("a").as_deref(), Some("a"));
    assert_eq!(name_of_path("a/.."), None);
    assert_eq!(name_of_path("/"), None);
    assert_eq!(name_of_path("."), None);
    let mut w = worker();
    assert_eq!(worker_repo_name(&w, "/ws/root").as_deref(), Some("root"));
    w.repo_path = Some("/src/repo".to_string());
    assert_eq!(worker_repo_name(&w, "/ws/root").as_deref(), Some("repo"));
}
