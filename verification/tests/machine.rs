use apiari::config::CURRENT_CONFIG_VERSION;
use apiari::init::{
    install_message, path_below, workspace_name, workspace_template, InstallOutcome,
};
use apiari::process::{
    after_exit, is_daemon_running, plan_watchers, read_chat_line, read_pid, restores_session,
    resume_uid, status_text, stop_message, AfterExit, ChatInput, ExitReason, WatcherKind,
    WatcherSettings,
};
use apiari::shells::{
    preview_of, read_windows, shell_window, ShellsConfig, TmuxManager, WindowEntry,
};
use apiari::signal::{Severity, SignalRecord, SignalStatus};
use apiari::time::Moment;

#[test]
fn pid_files_hold_a_number() {
    assert_eq!(read_pid(&Some(" 42\n".to_string())), Some(42));
    assert_eq!(read_pid(&Some("x".to_string())), None);
    assert_eq!(read_pid(&Some("4294967296".to_string())), None);
    assert_eq!(read_pid(&None), None);
    assert!(is_daemon_running(Some(42), true));
    assert!(!is_daemon_running(Some(42), false));
    assert!(!is_daemon_running(None, true));
}

#[test]
fn stopping_says_what_happened() {
    assert_eq!(stop_message(Some(7), true), "daemon stopped (pid: 7)");
    assert_eq!(stop_message(Some(7), false), "daemon not running (stale pid file)");
    assert_eq!(stop_message(None, false), "daemon not running");
    assert_eq!(after_exit(&ExitReason::Shutdown), AfterExit::Quit);
    assert_eq!(after_exit(&ExitReason::Error("e".to_string())), AfterExit::RetryAfterPause);
    assert_eq!(after_exit(&ExitReason::Restart), AfterExit::Exec);
}

#[test]
fn watchers_follow_the_settings() {
    let plans = plan_watchers(&WatcherSettings {
        github: Some(120),
        has_review_queue: true,
        sentry: None,
        swarm: Some(15),
        email: vec![60, 90],
        notion: vec![],
        linear: vec![30],
    });
    assert_eq!(plans[0].kind, WatcherKind::Github);
    assert_eq!(plans[0].interval_secs, 120);
    assert!(plans.iter().any(|p| p.kind == WatcherKind::Email(1) && p.interval_secs == 90));
    assert!(plans.iter().any(|p| p.kind == WatcherKind::Linear(0) && p.interval_secs == 30));
    assert!(!plans.iter().any(|p| p.kind == WatcherKind::Sentry));
}

#[test]
fn sessions_and_cursors_are_taken_up_again() {
    assert_eq!(resume_uid(&Some("17".to_string())), Some(17));
    assert_eq!(resume_uid(&Some("-1".to_string())), None);
    assert_eq!(resume_uid(&None), None);
    assert!(restores_session(&Some("codex".to_string()), "codex"));
    assert!(!restores_session(&Some("codex".to_string()), "gemini"));
    assert!(!restores_session(&None, "gemini"));
}

#[test]
fn status_lists_open_signals() {
    let now = Moment::new(0, 0).unwrap();
    let signal = SignalRecord {
        id: 1,
        source: "sentry".to_string(),
        external_id: String::new(),
        title: "Boom".to_string(),
        body: Some("line one\nline two".to_string()),
        severity: Severity::Critical,
        status: SignalStatus::Open,
        url: Some("https://x".to_string()),
        created_at: now,
        updated_at: now,
        resolved_at: None,
        metadata: None,
        snoozed_until: None,
    };
    assert_eq!(
        status_text("ws", &vec![signal], &vec![("open".to_string(), 1)]),
        "=== ws ===\n  1 open signal(s):\n\n  [critical] [sentry] Boom\n    https://x\n    line one\n\n  open: 1\n\n"
    );
    assert_eq!(status_text("ws", &vec![], &vec![]), "=== ws ===\n  No open signals.\n\n");
}

#[test]
fn chat_lines_are_read() {
    assert!(matches!(read_chat_line("  \n"), ChatInput::Blank));
    assert!(matches!(read_chat_line("quit\n"), ChatInput::Quit));
    assert!(matches!(read_chat_line(" exit "), ChatInput::Quit));
    match read_chat_line(" hello \n") {
        ChatInput::Message(m) => assert_eq!(m, "hello"),
        _ => panic!("no message"),
    }
}

#[test]
fn templates_name_the_root() {
    let t = workspace_template("/ws", "Be kind.\nBe brief.");
    assert!(t.starts_with(&format!("config_version = {CURRENT_CONFIG_VERSION}\nroot = \"/ws\"\n")));
    assert!(t.contains("prompt = \"\"\"\nBe kind.\nBe brief.\"\"\"\n"), "{t}");
    assert!(t.ends_with("# state_path = \"/ws/.swarm/state.json\"\n# interval_secs = 15\n"), "{t}");
    assert_eq!(path_below("/ws/", "a"), "/ws/a");
    assert_eq!(path_below("", "a"), "a");
    assert_eq!(workspace_name(&Some("x".to_string()), &None), "x");
    assert_eq!(workspace_name(&None, &Some("dir".to_string())), "dir");
    assert_eq!(workspace_name(&None, &None), "workspace");
}

#[test]
fn installing_says_how_it_went() {
    assert!(install_message(&InstallOutcome::Installed).contains("installed successfully"));
    assert!(install_message(&InstallOutcome::Failed).contains("retry manually"));
    assert!(install_message(&InstallOutcome::NotRun("no cargo".to_string())).contains("no cargo"));
}

#[test]
fn tmux_sessions_have_names() {
    let t = TmuxManager::with_availability("apiari-ws", false);
    assert!(!t.is_available());
    assert_eq!(t.session_name(), "apiari-ws");
    assert_eq!(t.target("w"), "apiari-ws:w");
    assert_eq!(
        t.attach_args("w"),
        vec!["attach-session", "-t", "apiari-ws", ";", "select-window", "-t", "apiari-ws:w"]
    );
    let none = ShellsConfig { tmux_session: None };
    assert_eq!(TmuxManager::session_name_for("ws", &none), "apiari-ws");
    let own = ShellsConfig { tmux_session: Some("mine".to_string()) };
    assert_eq!(TmuxManager::session_name_for("ws", &own), "mine");
}

#[test]
fn windows_are_listed_by_name() {
    let list = read_windows("web\t/ws/web\n\napi\t/ws/api\nbare\n");
    let names: Vec<_> = list.iter().map(|w| w.name.as_str()).collect();
    assert_eq!(names, vec!["api", "bare", "web"]);
    assert_eq!(list[0].working_dir, "/ws/api");
    assert_eq!(list[1].working_dir, "");
    assert_eq!(preview_of("a\nb\n"), "a\nb");
    assert_eq!(preview_of("1\n2\n3\n4\n5\n6\n"), "2\n3\n4\n5\n6");
    let there = TmuxManager::with_availability("s", true);
    let gone = TmuxManager::with_availability("s", false);
    let pane = Some("x\ny\n".to_string());
    assert_eq!(there.capture_preview(&pane).as_deref(), Some("x\ny"));
    assert_eq!(there.capture_preview(&None), None);
    assert_eq!(gone.capture_preview(&pane), None);
    let w = shell_window(
        WindowEntry { name: "n".to_string(), working_dir: "d".to_string() },
        &Some("$ ls\n".to_string()),
    );
    assert_eq!(w.preview, "$ ls");
}
