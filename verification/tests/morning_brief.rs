use apiari::action::{Action, ChatTarget};
use apiari::morning_brief::{
    build_brief_prompt, deliver_brief, is_due, BriefOutcome, MorningBriefConfig,
    MorningBriefScheduler, PrInfo, WorktreeEntry,
};
use apiari::signal::{Severity, SignalRecord, SignalStatus};
use apiari::time::Moment;
use chrono::TimeZone;

fn moment(y: i32, mo: u32, d: u32, h: u32, mi: u32, s: u32) -> Moment {
    let at = chrono::Utc.with_ymd_and_hms(y, mo, d, h, mi, s).unwrap();
    Moment::new(at.timestamp(), 0).unwrap()
}

fn make_signal(source: &str, title: &str, severity: Severity) -> SignalRecord {
    SignalRecord {
        id: 1,
        source: source.to_string(),
        external_id: "ext-1".to_string(),
        title: title.to_string(),
        body: None,
        severity,
        status: SignalStatus::Open,
        url: None,
        created_at: moment(2026, 3, 16, 0, 0, 0),
        updated_at: moment(2026, 3, 16, 0, 0, 0),
        resolved_at: None,
        metadata: None,
        snoozed_until: None,
    }
}

fn make_worker(id: &str, status: &str, summary: &str) -> WorktreeEntry {
    WorktreeEntry {
        id: id.to_string(),
        branch: Some(format!("swarm/{id}")),
        summary: Some(summary.to_string()),
        pr: None,
        agent_kind: Some("codex".to_string()),
        agent_session_status: Some(status.to_string()),
        phase: None,
    }
}

fn config(time: &str, tz: &str) -> MorningBriefConfig {
    MorningBriefConfig { enabled: true, time: time.to_string(), timezone: tz.to_string() }
}

fn make_scheduler(time: &str, tz: &str) -> MorningBriefScheduler {
    match MorningBriefScheduler::new(&config(time, tz), &None) {
        Ok(s) => s,
        Err(e) => panic!("{e}"),
    }
}

#[test]
fn test_should_fire_at_configured_time() {
    let scheduler = make_scheduler("09:00", "America/Chicago");
    let now = moment(2026, 3, 16, 14, 1, 0);
    assert!(scheduler.should_fire(&now));
}

#[test]
fn test_should_not_fire_before_configured_time() {
    let scheduler = make_scheduler("09:00", "America/Chicago");
    let now = moment(2026, 3, 16, 13, 30, 0);
    assert!(!scheduler.should_fire(&now));
}

#[test]
fn test_should_not_fire_twice_same_day() {
    let mut scheduler = make_scheduler("09:00", "America/Chicago");
    let now = moment(2026, 3, 16, 14, 1, 0);
    assert!(scheduler.should_fire(&now));

    scheduler.mark_sent(&now);
    assert!(!scheduler.should_fire(&now));

    let later = moment(2026, 3, 16, 20, 0, 0);
    assert!(!scheduler.should_fire(&later));
}

#[test]
fn test_should_fire_next_day() {
    let mut scheduler = make_scheduler("09:00", "America/Chicago");
    let day1 = moment(2026, 3, 16, 14, 1, 0);
    scheduler.mark_sent(&day1);

    let day2 = moment(2026, 3, 17, 14, 1, 0);
    assert!(scheduler.should_fire(&day2));
}

#[test]
fn test_timezone_boundary_utc_plus() {
    let scheduler = make_scheduler("09:00", "Asia/Tokyo");
    let now = moment(2026, 3, 16, 0, 0, 0);
    assert!(scheduler.should_fire(&now));
}

#[test]
fn test_timezone_boundary_before_midnight_utc() {
    let scheduler = make_scheduler("09:00", "America/Chicago");
    let now = moment(2026, 3, 16, 13, 59, 0);
    assert!(!scheduler.should_fire(&now));

    let now = moment(2026, 3, 16, 14, 0, 0);
    assert!(scheduler.should_fire(&now));
}

#[test]
fn test_state_persistence() {
    let mut scheduler = make_scheduler("09:00", "America/Chicago");
    let now = moment(2026, 3, 16, 14, 1, 0);
    let stored = scheduler.mark_sent(&now);
    assert_eq!(stored, "2026-03-16");

    let loaded = match MorningBriefScheduler::new(
        &config("09:00", "America/Chicago"),
        &Some(stored),
    ) {
        Ok(s) => s,
        Err(e) => panic!("{e}"),
    };
    assert!(!loaded.should_fire(&now));
    assert!(loaded.should_fire(&moment(2026, 3, 17, 14, 1, 0)));
}

#[test]
fn test_prompt_includes_signal_counts() {
    let signals = vec![
        make_signal("sentry", "Server error", Severity::Critical),
        make_signal("sentry", "Memory warning", Severity::Warning),
        make_signal("github", "CI failure", Severity::Error),
    ];
    let prompt = build_brief_prompt(&signals, &vec![], "test-ws");

    assert!(prompt.contains("critical"));
    assert!(prompt.contains("(1)"));
    assert!(prompt.contains("Server error"));
    assert!(prompt.contains("CI failure"));
}

#[test]
fn test_prompt_includes_worker_status() {
    let workers = vec![
        make_worker("w1", "running", "Fix auth bug"),
        make_worker("w2", "waiting", "Add feature X"),
    ];
    let prompt = build_brief_prompt(&vec![], &workers, "test-ws");

    assert!(prompt.contains("w1"));
    assert!(prompt.contains("[running]"));
    assert!(prompt.contains("Fix auth bug"));
    assert!(prompt.contains("w2"));
    assert!(prompt.contains("[waiting]"));
}

#[test]
fn test_prompt_includes_review_queue() {
    let signals = vec![
        make_signal("review_queue", "PR #42: Fix login", Severity::Info),
        make_signal("review_queue", "PR #43: Update deps", Severity::Info),
    ];
    let prompt = build_brief_prompt(&signals, &vec![], "test-ws");

    assert!(prompt.contains("Review Queue"));
    assert!(prompt.contains("2 item(s)"));
    assert!(prompt.contains("PR #42"));
}

#[test]
fn test_prompt_empty_state() {
    let prompt = build_brief_prompt(&vec![], &vec![], "test-ws");

    assert!(prompt.contains("No open signals"));
    assert!(prompt.contains("No active workers"));
    assert!(prompt.contains("No review queue items"));
}

#[test]
fn test_prompt_includes_worker_pr_info() {
    let workers = vec![WorktreeEntry {
        id: "w1".to_string(),
        branch: Some("swarm/w1".to_string()),
        summary: Some("Fix bug".to_string()),
        pr: Some(PrInfo {
            url: Some("https://github.com/org/repo/pull/1".to_string()),
            title: Some("Fix bug PR".to_string()),
            state: Some("OPEN".to_string()),
        }),
        agent_kind: None,
        agent_session_status: Some("waiting".to_string()),
        phase: None,
    }];
    let prompt = build_brief_prompt(&vec![], &workers, "test-ws");

    assert!(prompt.contains("PR: OPEN"));
}

#[test]
fn bad_time_and_zone_are_refused() {
    match MorningBriefScheduler::new(&config("nine", "UTC"), &None) {
        Ok(_) => panic!("a time was read"),
        Err(e) => assert!(e.starts_with("invalid time 'nine': "), "{e}"),
    }
    match MorningBriefScheduler::new(&config("09:00", "Mars/Olympus"), &None) {
        Ok(_) => panic!("a zone was found"),
        Err(e) => assert!(e.starts_with("invalid timezone 'Mars/Olympus': "), "{e}"),
    }
}

#[test]
fn unreadable_day_is_as_none() {
    let s = match MorningBriefScheduler::new(&config("09:00", "UTC"), &Some("soon".to_string())) {
        Ok(s) => s,
        Err(e) => panic!("{e}"),
    };
    assert!(s.should_fire(&moment(2026, 3, 16, 9, 0, 0)));
    assert!(!s.should_fire(&moment(2026, 3, 16, 8, 59, 59)));
}

#[test]
fn due_is_once_a_day_from_the_wanted_second() {
    assert!(is_due(None, 5, 32400, 32400));
    assert!(!is_due(None, 5, 32399, 32400));
    assert!(!is_due(Some(5), 5, 40000, 32400));
    assert!(is_due(Some(4), 5, 32400, 32400));
}

#[test]
fn brief_is_sent_and_shown() {
    let target = ChatTarget { chat_id: 7, topic_id: None };
    let acts = deliver_brief(&BriefOutcome::Brief("All quiet.".to_string()), "ws", target, true);
    assert_eq!(acts.len(), 2);
    match &acts[0] {
        Action::Send { target, text } => {
            assert_eq!(target.chat_id, 7);
            assert_eq!(text, "\u{1f305} Morning Brief\n\nAll quiet.");
        }
        _ => panic!("not sent"),
    }
}
