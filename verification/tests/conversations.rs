use apiari::bees::{bot_items_for_workspace, conversation_scopes_for_bot};
use apiari::bots::{bot_status, BotStatusView};
use apiari::config::{BeeConfig, BeeExecutionPolicy, WorkspaceAuthority, WorkspaceConfig};
use apiari::conversations::{
    history_limit, latest_message_id, merge_history, unread_assistant_count, unread_by_bot,
    MessageMark, MessageRow,
};
use apiari::followups::{cancelled_followup, followup_views, Followup};
use apiari::web::{
    cancel_request, chat_message, research_started, WebChatAttachment, WebChatEvent,
};

fn bee(name: &str) -> BeeConfig {
    BeeConfig {
        name: name.to_string(),
        role: None,
        color: None,
        execution_policy: BeeExecutionPolicy::Autonomous,
        provider: "codex".to_string(),
        model: "sonnet".to_string(),
        max_turns: 20,
        prompt: None,
        max_session_turns: 50,
        heartbeat: None,
        signal_hooks: vec![],
        topic_id: None,
    }
}

fn workspace(bees: Vec<BeeConfig>) -> WorkspaceConfig {
    WorkspaceConfig {
        root: "/tmp/apiari".to_string(),
        repos: vec![],
        authority: WorkspaceAuthority::Autonomous,
        bees,
    }
}

fn row(id: i64, content: &str, created_at: &str) -> MessageRow {
    MessageRow {
        id,
        role: "assistant".to_string(),
        content: content.to_string(),
        attachments: None,
        created_at: created_at.to_string(),
    }
}

fn mark(id: i64) -> MessageMark {
    MessageMark { id, from_assistant: true }
}

#[test]
fn list_workspace_bots_exposes_main_for_default_bee() {
    let config = workspace(vec![bee("Bee"), bee("Codex")]);
    let bots = bot_items_for_workspace(&config);
    assert_eq!(bots.len(), 2);
    assert_eq!(bots[0].name, "Main");
    assert_eq!(bots[0].provider.as_deref(), Some("codex"));
    assert_eq!(bots[1].name, "Codex");
    assert_eq!(bots[1].provider.as_deref(), Some("codex"));
}

#[test]
fn get_workspace_conversations_merges_main_legacy_scopes() {
    let config = workspace(vec![bee("Bee")]);
    let scopes = conversation_scopes_for_bot("apiari", &config, "Main");
    let mut rows: Vec<Vec<MessageRow>> = Vec::new();
    for scope in &scopes {
        rows.push(match scope.as_str() {
            "apiari/Bee" => vec![row(1, "from bee scope", "2026-05-02T00:00:00Z")],
            "apiari" => vec![row(2, "from workspace scope", "2026-05-02T00:00:01Z")],
            _ => vec![],
        });
    }
    let messages = merge_history(rows, history_limit(&None), "apiari", "Main");
    let contents: Vec<_> = messages.into_iter().map(|msg| msg.content).collect();
    assert_eq!(contents, vec!["from bee scope", "from workspace scope"]);
}

#[test]
fn history_is_ordered_and_cut_at_the_front() {
    let rows = vec![
        vec![row(3, "c", "2"), row(1, "a", "1")],
        vec![row(2, "b", "1"), row(3, "again", "2")],
    ];
    let shown = merge_history(rows, 2, "ws", "Codex");
    let contents: Vec<_> = shown.iter().map(|m| m.content.as_str()).collect();
    assert_eq!(contents, vec!["b", "c"]);
    assert_eq!(shown[0].bot, "Codex");
}

#[test]
fn get_workspace_bot_status_uses_resolved_main_bee_name() {
    let config = workspace(vec![bee("Bee")]);
    assert_eq!(
        apiari::bees::resolve_bee_name_for_api(&config, "Main").as_deref(),
        Some("Bee")
    );
    let status = bot_status(Some(BotStatusView {
        status: "streaming".to_string(),
        streaming_content: "working".to_string(),
        tool_name: Some("Bash".to_string()),
    }));
    assert_eq!(status.status, "streaming");
    assert_eq!(status.streaming_content, "working");
    assert_eq!(status.tool_name.as_deref(), Some("Bash"));
    assert_eq!(bot_status(None).status, "idle");
}

#[test]
fn send_workspace_chat_enqueues_request_for_resolved_main_bee() {
    let config = workspace(vec![bee("Bee")]);
    let attachment = WebChatAttachment {
        name: "spec.txt".to_string(),
        content_type: "text/plain".to_string(),
        data_url: "data:text/plain;base64,c3BlYw==".to_string(),
    };
    let request = chat_message(
        &config, "apiari", "Main", "hello", vec![attachment], Some("[{}]".to_string()),
    );
    assert_eq!(request.workspace, "apiari");
    assert_eq!(request.bee.as_deref(), Some("Bee"));
    assert_eq!(request.text, "hello");
    assert_eq!(request.attachments.len(), 1);
    assert!(request.attachments_json.is_some());
    let plain = chat_message(&config, "apiari", "Nobody", "hi", vec![], Some("[]".to_string()));
    assert_eq!(plain.bee.as_deref(), Some("Nobody"));
    assert!(plain.attachments_json.is_none());
}

#[test]
fn cancel_bot_endpoint_enqueues_cancel_request() {
    let config = workspace(vec![bee("Bee")]);
    let request = cancel_request(&config, "apiari", "Main");
    assert_eq!(request.workspace, "apiari");
    assert_eq!(request.bee.as_deref(), Some("Bee"));
}

#[test]
fn research_endpoint_returns_empty_list_and_running_shape() {
    let started = research_started("apiari", "monorepo cleanup", 1_777_680_000_123);
    assert_eq!(started.text_field("workspace").as_deref(), Some("apiari"));
    assert_eq!(started.text_field("topic").as_deref(), Some("monorepo cleanup"));
    assert_eq!(started.text_field("status").as_deref(), Some("running"));
    assert_eq!(started.text_field("id").as_deref(), Some("research-1777680000123"));
}

#[test]
fn unread_and_seen_endpoints_track_assistant_messages_per_bot() {
    let main = vec![mark(1)];
    let codex = vec![mark(2)];
    let before = unread_by_bot(&vec![
        ("Main".to_string(), unread_assistant_count(&main, 0)),
        ("Codex".to_string(), unread_assistant_count(&codex, 0)),
    ]);
    assert_eq!(before, vec![("Main".to_string(), 1), ("Codex".to_string(), 1)]);

    let seen = latest_message_id(&main).unwrap();
    let after = unread_by_bot(&vec![
        ("Main".to_string(), unread_assistant_count(&main, seen)),
        ("Codex".to_string(), unread_assistant_count(&codex, 0)),
    ]);
    assert_eq!(after, vec![("Codex".to_string(), 1)]);
}

#[test]
fn unread_and_seen_endpoints_resume_correctly_after_store_reopen() {
    let first = vec![mark(4)];
    let seen = latest_message_id(&first).unwrap();
    assert_eq!(seen, 4);
    let later = vec![mark(4), mark(5)];
    assert_eq!(unread_assistant_count(&later, seen), 1);
}

#[test]
fn messages_of_users_and_repetitions_do_not_count() {
    let marks = vec![
        MessageMark { id: 7, from_assistant: false },
        mark(8),
        mark(8),
    ];
    assert_eq!(unread_assistant_count(&marks, 0), 1);
    assert_eq!(latest_message_id(&marks), Some(8));
    assert_eq!(latest_message_id(&vec![]), None);
}

fn followup() -> Followup {
    Followup {
        id: "f1".to_string(),
        bot: "Main".to_string(),
        action: "Check CI status".to_string(),
        created_at: "2026-05-02T00:00:00Z".to_string(),
        fires_at: "2026-05-02T01:00:00Z".to_string(),
        status: "pending".to_string(),
    }
}

#[test]
fn followups_endpoint_lists_and_cancels_persisted_followups() {
    let listed = followup_views(&vec![followup()], "apiari");
    assert_eq!(listed.len(), 1);
    assert_eq!(listed[0].id, "f1");
    assert_eq!(listed[0].status, "pending");
    assert_eq!(listed[0].workspace, "apiari");

    let news = cancelled_followup(true, &Some(followup()), "apiari").unwrap();
    assert_eq!(news.id, "f1");
    assert_eq!(news.bot, "Main");
    assert_eq!(news.status, "cancelled");
    assert!(cancelled_followup(false, &Some(followup()), "apiari").is_none());
    assert!(cancelled_followup(true, &None, "apiari").is_none());
}

#[test]
fn answers_end_with_done_or_an_error() {
    assert!(WebChatEvent::Done.is_terminal());
    assert!(WebChatEvent::Error { text: "x".to_string() }.is_terminal());
    assert!(!WebChatEvent::Token { text: "x".to_string() }.is_terminal());
}

#[test]
fn limits_of_history() {
    assert_eq!(history_limit(&Some("5".to_string())), 5);
    assert_eq!(history_limit(&Some("x".to_string())), history_limit(&None));
}
