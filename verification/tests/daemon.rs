use apiari::action::{Action, ChatTarget, CoordinatorJob, DaemonResponse};
use apiari::commands::{
    handle_telegram_command, handle_telegram_message, handle_tui_chat, handle_tui_command,
    help_text, read_command, report_script, slash_command, tail_of, telegram_script_done,
    tui_script_done, undelivered, unknown_workspace, Command, ScriptOutcome, Slot,
};
use apiari::config::{CommandConfig, SignalHookConfig};
use apiari::coordinator::{
    event_action, event_alert, format_files_alert, prompt_for, unprepared, worth_telling,
    CoordinatorEvent, CoordinatorTask, Outcome,
};
use apiari::notify::{follow_through, format_hook_notification, format_system_notification};
use apiari::poll::{
    announce, ci_text, describe, finish_round, find_hook, pr_ref, Announcement, PollBatch,
};
use apiari::routing::{
    bot_tokens, find_slot, find_workspace, poll_interval, route, tcp_listener, TcpConfig,
};
use apiari::signal::{Severity, SignalRecord, SignalStatus};
use apiari::time::Moment;

fn target(chat_id: i64, topic_id: Option<i64>) -> ChatTarget {
    ChatTarget { chat_id, topic_id }
}

fn strings(list: &[&str]) -> Vec<String> {
    list.iter().map(|s| s.to_string()).collect()
}

fn show(a: &Action) -> String {
    match a {
        Action::React { chat_id, message_id, emoji } => {
            format!("react {chat_id} {message_id} {emoji}")
        }
        Action::StartTyping { target } => format!("start {}", target.chat_id),
        Action::StopTyping => "stop".to_string(),
        Action::Typing { target } => format!("typing {}", target.chat_id),
        Action::Prepare => "prepare".to_string(),
        Action::Ask { text } => format!("ask {text}"),
        Action::Save { role, text, channel } => format!("save {role} {text} {channel}"),
        Action::Send { target, text } => format!("send {} {text}", target.chat_id),
        Action::Reply(r) => match r {
            DaemonResponse::Token { workspace, text } => format!("token {workspace} {text}"),
            DaemonResponse::Done { workspace } => format!("done {workspace}"),
            DaemonResponse::Error { workspace, text } => format!("error {workspace} {text}"),
            DaemonResponse::Activity { source, workspace, kind, text } => {
                format!("activity {source} {workspace} {kind} {text}")
            }
        },
        Action::ResetSession => "reset".to_string(),
        Action::SetMaxTurns(n) => format!("turns {n}"),
        Action::Enqueue(job) => match job {
            CoordinatorJob::TelegramMessage { text, .. } => format!("job telegram {text}"),
            CoordinatorJob::TuiChat { text, ws_name } => format!("job tui {ws_name} {text}"),
            CoordinatorJob::ResetSession => "job reset".to_string(),
            CoordinatorJob::Compact { tui, .. } => format!("job compact {tui}"),
            CoordinatorJob::SignalFollowThrough { source, signals, .. } => {
                format!("job follow {source} {}", signals.join("|"))
            }
        },
        Action::Run { script } => format!("run {script}"),
        Action::Brief { target } => format!("brief {}", target.chat_id),
        Action::Restart => "restart".to_string(),
    }
}

fn shown(list: &Vec<Action>) -> Vec<String> {
    list.iter().map(show).collect()
}

fn slot(telegram: Option<ChatTarget>) -> Slot {
    Slot {
        name: "ws".to_string(),
        commands: vec![CommandConfig {
            name: "deploy".to_string(),
            script: "make deploy".to_string(),
            description: None,
            restart: true,
        }],
        telegram,
    }
}

#[test]
fn notifications_list_their_events() {
    assert_eq!(
        format_system_notification("github", &strings(&["a", "b"])),
        "[System notification — github activity]\nThe following events just occurred:\n- a\n- b\n\nIf any of these are relevant to your recent conversations, provide a brief contextual update. Otherwise respond with just \"ack\"."
    );
    assert_eq!(
        format_hook_notification("sentry", &strings(&["x", "y"]), "From {source}:\n{events}"),
        "From sentry:\n- x\n- y"
    );
    assert_eq!(
        format_hook_notification("sentry", &strings(&["x"]), ""),
        format_system_notification("sentry", &strings(&["x"]))
    );
    assert_eq!(
        follow_through("s", &strings(&["x"]), &None),
        format_system_notification("s", &strings(&["x"]))
    );
}

#[test]
fn help_lists_custom_commands() {
    let text = help_text(&slot(None).commands);
    assert!(text.starts_with("Built-in commands:\n/status — show open signals\n"), "{text}");
    assert!(text.ends_with("\n\nCustom commands:\n/deploy — (no description)"), "{text}");
    assert!(help_text(&vec![]).ends_with("/help — this message"));
}

#[test]
fn commands_are_read() {
    assert_eq!(slash_command("hello"), None);
    let commands = slot(None).commands;
    assert!(matches!(read_command("status", &commands), Command::Status));
    assert!(matches!(read_command("deploy", &commands), Command::Custom(0)));
    assert!(matches!(read_command("x", &commands), Command::Unknown));
    let (name, _) = slash_command("/brief now").unwrap();
    assert_eq!(name, "brief");
}

#[test]
fn reports_show_the_last_lines() {
    assert_eq!(tail_of("a\nb\nc\n", 2), "b\nc");
    assert_eq!(report_script("x", true, ""), "✅ /x");
    assert_eq!(report_script("x", false, "boom\n"), "❌ /x\n```\nboom\n```");
    let many: String = (0..30).map(|i| format!("{i}\n")).collect();
    assert!(report_script("x", true, &many).starts_with("✅ /x\n```\n10\n11\n"));
}

#[test]
fn terminal_commands_are_answered() {
    let (acts, known) = handle_tui_command("status", &slot(None), "2 open", true);
    assert!(known);
    assert_eq!(
        shown(&acts),
        vec!["token ws 2 open", "done ws", "activity tui ws assistant_message 2 open"]
    );
    let (acts, known) = handle_tui_command("reset", &slot(None), "", false);
    assert!(known);
    assert_eq!(shown(&acts), vec!["job reset", "token ws Session reset.", "done ws"]);
    let (acts, _) = handle_tui_command("brief", &slot(None), "", false);
    assert_eq!(
        shown(&acts),
        vec!["token ws No Telegram channel configured for briefs.", "done ws"]
    );
    let (acts, _) = handle_tui_command("compact", &slot(None), "", false);
    assert_eq!(shown(&acts), vec!["job compact true"]);
    let (acts, known) = handle_tui_command("nope", &slot(None), "", false);
    assert!(!known && acts.is_empty());
    let (acts, known) = handle_tui_command("deploy", &slot(None), "", false);
    assert!(known);
    assert_eq!(shown(&acts), vec!["run make deploy"]);
}

#[test]
fn scripts_report_to_whoever_asked() {
    let ok = ScriptOutcome::Ran { success: true, output: "fine\n".to_string() };
    assert_eq!(
        shown(&tui_script_done("deploy", "ws", &ok, false)),
        vec!["token ws ✅ /deploy\n```\nfine\n```", "done ws"]
    );
    let failed = ScriptOutcome::Failed { error: "no sh".to_string() };
    assert_eq!(
        shown(&tui_script_done("deploy", "ws", &failed, false))[0],
        "token ws ❌ /deploy failed: no sh"
    );
    let s = slot(Some(target(5, None)));
    let acts = shown(&telegram_script_done("deploy", &s, target(5, None), &ok, false));
    assert_eq!(acts.last().map(String::as_str), Some("restart"));
    let bad = ScriptOutcome::Ran { success: false, output: String::new() };
    let acts = shown(&telegram_script_done("deploy", &s, target(5, None), &bad, false));
    assert!(!acts.contains(&"restart".to_string()));
}

#[test]
fn chats_reach_the_coordinator() {
    assert_eq!(
        shown(&handle_tui_chat(&slot(None), "hello", "", true)),
        vec!["activity tui ws user_message hello", "job tui ws hello"]
    );
    assert_eq!(
        shown(&handle_telegram_message(
            &slot(Some(target(5, None))),
            "hi",
            target(5, None),
            9,
            true
        )),
        vec!["activity telegram ws user_message hi", "job telegram hi"]
    );
    assert_eq!(show(&unknown_workspace("x")), "error x workspace 'x' not found");
    let telegram =
        shown(&handle_telegram_command("status", &slot(None), target(5, None), "s", true));
    assert_eq!(telegram, vec!["activity telegram ws user_message /status"]);
}

#[test]
fn jobs_that_cannot_be_delivered_are_answered() {
    let job = CoordinatorJob::TuiChat { text: "x".to_string(), ws_name: "ws".to_string() };
    assert_eq!(shown(&undelivered(&job, false)), vec!["error ws coordinator task shut down"]);
}

#[test]
fn coordinator_answers_and_compacts() {
    let mut c = CoordinatorTask::new(2, false);
    let job = CoordinatorJob::TuiChat { text: "q".to_string(), ws_name: "ws".to_string() };
    assert_eq!(shown(&c.begin(&job, true, 0)), vec!["prepare"]);
    assert_eq!(prompt_for(&job).as_deref(), Some("q"));
    let acts = c.finish(&job, &Outcome::Answer("a".to_string()), &vec![], true, 0);
    assert_eq!(
        shown(&acts)[..2],
        ["save user q tui".to_string(), "save assistant a system".to_string()]
    );
    assert_eq!(c.turn_count, 1);
    let acts = c.finish(&job, &Outcome::Answer("a".to_string()), &vec![], true, 0);
    assert!(shown(&acts).contains(&"reset".to_string()));
    assert_eq!(c.turn_count, 0);
    let acts = c.finish(&job, &Outcome::Failure("down".to_string()), &vec![], true, 0);
    assert_eq!(shown(&acts), vec!["save user q tui", "reset", "error ws down"]);
}

#[test]
fn stale_follow_throughs_are_dropped() {
    let job = |ttl_secs| CoordinatorJob::SignalFollowThrough {
        signals: strings(&["e"]),
        source: "github".to_string(),
        prompt_override: None,
        ttl_secs,
        telegram: None,
        slot_name: "ws".to_string(),
    };
    let mut c = CoordinatorTask::new(0, false);
    assert!(c.begin(&job(60), true, 60).is_empty());
    assert!(!c.begin(&job(60), true, 59).is_empty());
    assert!(c.begin(&job(60), false, 0).is_empty());
    assert_eq!(shown(&unprepared(&job(60), "x", 7)), vec!["turns 7"]);
}

#[test]
fn telegram_messages_show_that_an_answer_is_written() {
    let mut c = CoordinatorTask::new(0, true);
    let job = CoordinatorJob::TelegramMessage {
        text: "q".to_string(),
        target: target(5, None),
        message_id: 9,
        slot_name: "ws".to_string(),
    };
    assert_eq!(shown(&c.begin(&job, true, 0)), vec!["react 5 9 👀", "start 5", "prepare"]);
    let event = CoordinatorEvent::FilesModified {
        files: vec![("repo".to_string(), "a.rs".to_string())],
    };
    let alert = event_alert(&job, &event).unwrap();
    assert_eq!(alert, "⚠️ Coordinator modified workspace files:\n- `repo/a.rs`");
    assert!(event_action(&job, &CoordinatorEvent::Token("t".to_string())).is_none());
    let acts = c.finish(&job, &Outcome::Answer("a".to_string()), &vec![alert], true, 0);
    let acts = shown(&acts);
    assert!(acts.contains(&"send 5 a".to_string()), "{acts:?}");
    assert!(
        acts.contains(&"send 5 ⚠️ Coordinator modified workspace files:\n- `repo/a.rs`".to_string())
    );
    assert_eq!(c.turn_count, 1);
}

#[test]
fn tokens_are_passed_to_terminals() {
    let job = CoordinatorJob::TuiChat { text: "q".to_string(), ws_name: "ws".to_string() };
    let act = event_action(&job, &CoordinatorEvent::Token("t".to_string())).unwrap();
    assert_eq!(show(&act), "token ws t");
    assert!(!worth_telling("ACK", "ack"));
    assert!(worth_telling("news", "news"));
    assert!(!worth_telling("", ""));
    assert_eq!(
        format_files_alert(&vec![]),
        "⚠️ Coordinator modified workspace files:\n"
    );
}

#[test]
fn chats_find_their_workspace() {
    let slots = vec![
        Some(target(1, None)),
        None,
        Some(target(1, Some(4))),
        Some(target(2, None)),
        Some(target(1, None)),
    ];
    assert_eq!(find_slot(&slots, target(1, None)), Some(4));
    assert_eq!(route(&slots, target(1, Some(4))), Some(2));
    assert_eq!(route(&slots, target(1, Some(9))), Some(4));
    assert_eq!(route(&slots, target(3, None)), None);
    assert_eq!(find_workspace(&strings(&["a", "b", "a"]), "a"), Some(2));
    assert_eq!(find_workspace(&strings(&["a"]), "c"), None);
}

#[test]
fn listeners_and_intervals() {
    let configs = vec![
        TcpConfig { port: None, bind: Some("0.0.0.0".to_string()) },
        TcpConfig { port: Some(7000), bind: None },
        TcpConfig { port: Some(8000), bind: None },
    ];
    assert_eq!(tcp_listener(&configs), Some((7000, "127.0.0.1".to_string())));
    assert_eq!(tcp_listener(&vec![]), None);
    assert_eq!(poll_interval(&vec![120, 45, 300]), 45);
    assert_eq!(bot_tokens(&strings(&["t1", "t2", "t1"])), strings(&["t1", "t2"]));
}

fn signal(source: &str, title: &str, external_id: &str) -> SignalRecord {
    let now = Moment::new(1_777_680_000, 0).unwrap();
    SignalRecord {
        id: 1,
        source: source.to_string(),
        external_id: external_id.to_string(),
        title: title.to_string(),
        body: None,
        severity: Severity::Info,
        status: SignalStatus::Open,
        url: None,
        created_at: now,
        updated_at: now,
        resolved_at: None,
        metadata: None,
        snoozed_until: None,
    }
}

#[test]
fn polled_signals_are_gathered_by_hook() {
    let hooks = vec![SignalHookConfig {
        source: "github".to_string(),
        prompt: String::new(),
        action: None,
        ttl_secs: 300,
    }];
    assert_eq!(find_hook(&hooks, "github_ci_pass"), Some(0));
    assert_eq!(find_hook(&hooks, "sentry"), None);
    let mut batch = PollBatch::new();
    let ci = signal("github_ci_pass", "CI passed", "ci-pass-org/repo-12");
    let kind = batch.note(&hooks, &ci);
    assert!(matches!(kind, Announcement::Nothing));
    assert_eq!(batch.ci_passed.len(), 1);
    assert_eq!(batch.hooks.len(), 1);
    assert_eq!(batch.hooks[0].events, vec![describe(&ci)]);
    let acts = shown(&finish_round(batch, &None, Some(target(5, None)), "ws"));
    assert_eq!(acts.len(), 2, "{acts:?}");
    assert!(acts[0].starts_with("send 5 "), "{acts:?}");
    assert!(acts[1].starts_with("job follow github "), "{acts:?}");
}

#[test]
fn nothing_is_announced_without_a_text() {
    assert!(announce(Some(target(5, None)), &None).is_empty());
    assert!(announce(None, &Some("x".to_string())).is_empty());
    assert_eq!(shown(&announce(Some(target(5, None)), &Some("x".to_string()))), vec!["send 5 x"]);
    assert_eq!(ci_text(&vec![]), None);
    assert_eq!(pr_ref("ci-pass-repo-12-999"), "#12");
    assert_eq!(pr_ref("x"), "");
}

#[test]
fn updates_that_are_not_new_are_not_announced() {
    let hooks = vec![SignalHookConfig {
        source: "github".to_string(),
        prompt: String::new(),
        action: None,
        ttl_secs: 300,
    }];
    let ci = signal("github_ci_pass", "CI passed", "ci-pass-org/repo-12");
    let mut batch = PollBatch::new();
    let known = batch.note_stored(&hooks, false, &Some(ci));
    assert!(matches!(known, Announcement::Nothing));
    assert!(matches!(batch.note_stored(&hooks, true, &None), Announcement::Nothing));
    assert!(batch.hooks.is_empty() && batch.ci_passed.is_empty());
    let bug = signal("github_bug", "It broke", "bug-1");
    assert!(matches!(batch.note_stored(&hooks, true, &Some(bug)), Announcement::ByRules));
}

#[test]
fn sessions_are_reset_at_every_limit() {
    let chat = CoordinatorJob::TuiChat { text: "q".to_string(), ws_name: "ws".to_string() };
    let follow = CoordinatorJob::SignalFollowThrough {
        signals: strings(&["e"]),
        source: "github".to_string(),
        prompt_override: None,
        ttl_secs: 60,
        telegram: None,
        slot_name: "ws".to_string(),
    };
    let mut c = CoordinatorTask::new(2, false);
    let mut answer = |c: &mut CoordinatorTask, job: &CoordinatorJob| {
        c.begin(job, true, 0);
        let acts = c.finish(job, &Outcome::Answer("a".to_string()), &vec![], true, 0);
        shown(&acts).contains(&"reset".to_string())
    };
    assert!(!answer(&mut c, &chat));
    assert!(!answer(&mut c, &follow));
    assert!(answer(&mut c, &chat));
    assert!(!answer(&mut c, &chat));
    assert!(shown(&c.begin(&CoordinatorJob::ResetSession, true, 0)).contains(&"reset".to_string()));
    assert!(!answer(&mut c, &chat));
    assert!(answer(&mut c, &chat));
}
