use apiari::briefing::{
    briefing_that_fits, dedup_title, get_briefing, in_order, without_repetitions, BriefingItem,
    WorkspaceSignals,
};
use apiari::signal::{
    signal_limit, signal_views, snooze_until, Severity, SignalRecord, SignalStatus,
};
use apiari::time::Moment;

const NOW: i64 = 1_777_680_000;

fn at(seconds: i64) -> Moment {
    Moment::new(NOW + seconds, 0).unwrap()
}

fn signal(id: i64, source: &str, title: &str, seconds: i64) -> SignalRecord {
    SignalRecord {
        id,
        source: source.to_string(),
        external_id: format!("ext-{id}"),
        title: title.to_string(),
        body: None,
        severity: Severity::Info,
        status: SignalStatus::Open,
        url: Some(format!("https://x/{id}")),
        created_at: at(seconds),
        updated_at: at(seconds),
        resolved_at: None,
        metadata: None,
        snoozed_until: None,
    }
}

fn brief(signals: Vec<SignalRecord>) -> Vec<BriefingItem> {
    get_briefing(&vec![WorkspaceSignals { name: "ws".to_string(), signals }], &at(0))
}

#[test]
fn waiting_workers_are_shown_once() {
    let mut a = signal(1, "swarm_worker_waiting", "Worker waits", -60);
    a.metadata =
        Some(r#"{"worker_id": "repo-1a", "pr_url": "https://pr/1"}"#.to_string());
    let mut b = signal(2, "swarm_worker_waiting", "Worker waits still", -30);
    b.metadata = Some(r#"{"worker_id": "repo-1a"}"#.to_string());
    let mut c = signal(3, "swarm_worker_waiting", "Nobody waits", -20);
    c.metadata = Some("not json".to_string());
    let items = brief(vec![a, b, c]);
    assert_eq!(items.len(), 2);
    assert_eq!(items[0].id, "wait-3-");
    assert_eq!(items[0].body.as_deref(), Some("Worker:  · no PR yet"));
    assert_eq!(items[0].url.as_deref(), Some("https://x/3"));
    assert_eq!(items[1].id, "wait-1-repo-1a");
    assert_eq!(items[1].body.as_deref(), Some("Worker: repo-1a · PR: https://pr/1"));
    assert_eq!(items[1].url.as_deref(), Some("https://pr/1"));
    assert_eq!(items[1].source, "swarm:repo-1a");
    assert_eq!(items[1].timestamp, "2026-05-01T23:59:00+00:00");
    assert_eq!(items[1].actions[0].label, "View PR");
    assert_eq!(items[1].actions[1].style, "default");
}

#[test]
fn passed_checks_need_a_review_of_the_same_address() {
    let mut ci = signal(1, "github_ci_pass", "PR #5 green", -10);
    ci.url = Some("u".to_string());
    let mut seen = signal(2, "github_bot_review", "looked", -9);
    seen.url = Some("u".to_string());
    assert_eq!(brief(vec![ci]).len(), 0);
    let mut ci = signal(1, "github_ci_pass", "PR #5 green", -10);
    ci.url = Some("u".to_string());
    let items = brief(vec![ci, seen]);
    assert_eq!(items.len(), 1);
    assert_eq!(items[0].title, "PR ready: PR #5 green");
    assert_eq!(items[0].body.as_deref(), Some("CI green + Copilot reviewed"));
}

#[test]
fn crowds_of_errors_are_one_item() {
    let items = brief(vec![
        signal(1, "sentry", "first", -30),
        signal(2, "sentry", &"n".repeat(100), -10),
        signal(3, "sentry", "third", -20),
    ]);
    assert_eq!(items.len(), 1);
    assert_eq!(items[0].id, "sentry-ws");
    assert_eq!(items[0].title, "3 Sentry errors");
    assert_eq!(items[0].body, Some(format!("Latest: {}", "n".repeat(80))));
    assert_eq!(items[0].url.as_deref(), Some("https://x/2"));
    let two = brief(vec![signal(1, "sentry", "a", -3), signal(2, "sentry", "b", -2)]);
    assert_eq!(two.len(), 2);
    assert_eq!(two[0].priority, "notice");
}

#[test]
fn titles_that_cannot_be_cut_give_no_briefing() {
    let title = format!("x{}", "é".repeat(60));
    let signals = vec![
        signal(1, "sentry", &title, -3),
        signal(2, "sentry", "b", -20),
        signal(3, "sentry", "c", -20),
    ];
    let ws = vec![WorkspaceSignals { name: "ws".to_string(), signals }];
    assert!(briefing_that_fits(&ws, &at(0)).is_none());
    assert!(briefing_that_fits(&vec![], &at(0)).is_some());
}

#[test]
fn items_come_by_tier_and_newest_first() {
    let items = brief(vec![
        signal(1, "swarm_worker_spawned", "spawned", -1),
        signal(2, "bee_Main", "fix it", -2),
        signal(3, "escalation", "look", -50),
        signal(4, "escalation", "look here", -40),
        signal(5, "github_merged_pr", "done", -3),
    ]);
    let ids: Vec<_> = items.iter().map(|i| i.id.as_str()).collect();
    assert_eq!(ids, vec!["escalation-4", "escalation-3", "bee-fix-2", "worker-1", "merged-5"]);
    assert_eq!(items[2].title, "Main requested fix: fix it");
    assert_eq!(items[4].title, "Merged: done");
}

#[test]
fn only_five_merges_are_shown() {
    let merges = (0..8).map(|i| signal(i, "github_merged_pr", &format!("m{i}"), -10)).collect();
    assert_eq!(brief(merges).len(), 5);
}

#[test]
fn old_and_snoozed_signals_are_left_out() {
    let mut snoozed = signal(1, "escalation", "later", -10);
    snoozed.snoozed_until = Some(at(60));
    let mut awake = signal(2, "escalation", "now", -10);
    awake.snoozed_until = Some(at(-1));
    let old = signal(3, "escalation", "old", -172_800);
    let recent = signal(4, "escalation", "recent", -172_799);
    let ids: Vec<_> =
        brief(vec![snoozed, awake, old, recent]).into_iter().map(|i| i.id).collect();
    assert_eq!(ids, vec!["escalation-2", "escalation-4"]);
}

#[test]
fn repetitions_go_by_pull_request_or_start_of_title() {
    assert_eq!(dedup_title("fix PR #375 now"), "PR#375");
    assert_eq!(dedup_title("see #x"), "see #x");
    assert_eq!(dedup_title(&"y".repeat(40)), "y".repeat(25));
    let items = brief(vec![
        signal(1, "escalation", "PR #7 is stuck", -10),
        signal(2, "escalation", "again PR #7", -5),
    ]);
    assert_eq!(items.len(), 1);
    assert_eq!(items[0].id, "escalation-1");
    assert_eq!(in_order(without_repetitions(items)).len(), 1);
}

#[test]
fn signals_are_snoozed_by_the_hour() {
    assert_eq!(snooze_until(&at(0), 2).unix_seconds(), NOW + 7200);
    assert_eq!(snooze_until(&at(0), u64::MAX).unix_seconds(), NOW - 3600);
}

#[test]
fn feeds_of_signals_are_limited() {
    assert_eq!(signal_limit(Some(3)), 3);
    let list = vec![signal(1, "a", "x", 0), signal(2, "b", "y", 0)];
    let shown = signal_views(&list, "ws", 1);
    assert_eq!(shown.len(), 1);
    assert_eq!(shown[0].severity, "Info");
    assert_eq!(shown[0].created_at, "2026-05-02T00:00:00+00:00");
}
