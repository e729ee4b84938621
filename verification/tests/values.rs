use apiari::action::{refused_request, Action, ChatTarget, DaemonResponse};
use apiari::coordinator::{event_warning, CoordinatorEvent};
use apiari::context_bot::{dispatch_record, ContextBotContext};
use apiari::json::{
    object, parse, parse_or_problem, parse_slice, render, render_pretty, text, Json, RAW_TOKEN,
};
use apiari::morning_brief::{MorningBriefConfig, MorningBriefScheduler};
use apiari::text::{
    can_clip, clipped, joined, lines_of, parse_number, replaced,
};
use apiari::textmap::TextMap;
use apiari::time::Moment;
use apiari::worker::{
    read_verdict, sent_out, started, started_id, Started, Verdict, WorkerState,
};
use apiari::worker_events::AgentEventWire;
use apiari::worker_manager::{resumed, AgentRun, RunAction, WorkerManager};

fn json(s: &str) -> Json {
    match parse(s) {
        Some(v) => v,
        None => panic!("{s}"),
    }
}

#[test]
fn json_is_read_and_written() {
    let v = json(r#" {"b": [1, -2, 2.5, null, true], "a": "x\ny"} "#);
    assert_eq!(render(&v), r#"{"a":"x\ny","b":[1,-2,2.5,null,true]}"#);
    assert_eq!(render_pretty(&json("[1]")), "[\n  1\n]");
    assert!(parse("{").is_none());
    assert_eq!(v.text_field("a").as_deref(), Some("x\ny"));
    assert!(v.get("c").is_none());
    assert!(matches!(json("18446744073709551615"), Json::Number(18446744073709551615)));
}

#[test]
fn json_that_is_written_reads_back() {
    let v = object().with("z", text("é\u{1f600}\"")).with("a", json("[{\"k\":1},{}]"));
    let back = json(&render(&v));
    assert_eq!(back.text_field("z").as_deref(), Some("é\u{1f600}\""));
    assert_eq!(render(&back), render(&v));
}

#[test]
fn members_are_set_in_place() {
    let v = json(r#"{"a": 1, "b": 2}"#).set("a", text("x"));
    assert_eq!(render(&v), r#"{"a":"x","b":2}"#);
}

#[test]
fn moments_are_written() {
    let m = Moment::new(0, 0).unwrap();
    assert_eq!(m.rfc3339(), "1970-01-01T00:00:00+00:00");
    assert!(Moment::new(i64::MAX, 0).is_none());
    assert!(Moment::new(0, 1_000_000_000).is_none());
    assert_eq!(m.plus_hours(-1).unix_seconds(), -3600);
}

#[test]
fn briefs_are_generated_once_a_day() {
    let config = MorningBriefConfig {
        enabled: true,
        time: "09:00".to_string(),
        timezone: "UTC".to_string(),
    };
    let mut s = match MorningBriefScheduler::new(&config, &None) {
        Ok(s) => s,
        Err(e) => panic!("{e}"),
    };
    let nine = Moment::new(1_777_712_400, 0).unwrap();
    let target = ChatTarget { chat_id: 5, topic_id: Some(2) };
    assert!(s.tick(&nine, None).is_none());
    match s.tick(&nine, Some(target)) {
        Some((Action::Brief { target }, day)) => {
            assert_eq!((target.chat_id, day.as_str()), (5, "2026-05-02"))
        }
        _ => panic!("not due"),
    }
    assert!(s.tick(&nine, Some(target)).is_none());
}

#[test]
fn agents_take_up_what_waits() {
    let mut m = WorkerManager::new();
    m.note_created("w", "/ws");
    m.send_message("w", "more");
    let mut run = AgentRun::new();
    let told = AgentEventWire::SessionResult {
        turns: 1,
        cost_usd: None,
        session_id: Some("ses".to_string()),
    };
    assert!(matches!(run.take_event(&told), Some(RunAction::SetSession(_))));
    assert!(run.take_event(&AgentEventWire::Other).is_none());
    let acts = run.end(&mut m, "w");
    assert_eq!(acts.len(), 3);
    match &acts[2] {
        RunAction::Resume { prompt, session_id } => {
            assert_eq!((prompt.as_str(), session_id.as_deref()), ("more", Some("ses")))
        }
        _ => panic!("not resumed"),
    }
    assert!(!m.is_live("w"));
    assert!(resumed(&mut m, "w", &Ok(())).is_empty());
    assert!(m.is_live("w"));
    let acts = AgentRun::new().end(&mut m, "w");
    assert!(matches!(&acts[0], RunAction::SetPhase(p) if p == "completed"));
    assert!(matches!(acts[1], RunAction::CleanUp));
    assert!(matches!(acts[2], RunAction::Forget));
    m.note_finished("w");
    assert!(m.close_worker("w").is_err());
    let acts = resumed(&mut m, "w", &Err("no agent".to_string()));
    assert!(matches!(&acts[0], RunAction::LogError(e) if e == "no agent"));
    assert!(matches!(&acts[1], RunAction::SetPhase(p) if p == "failed"));
}

#[test]
fn users_of_the_command_line_are_warned() {
    let audit = CoordinatorEvent::BashAudit {
        command: "rm x".to_string(),
        matched_pattern: "rm".to_string(),
    };
    assert_eq!(event_warning(&audit).as_deref(), Some("Bash audit (rm): rm x"));
    let files = CoordinatorEvent::FilesModified {
        files: vec![
            ("api".to_string(), "a.rs".to_string()),
            ("web".to_string(), "b.ts".to_string()),
        ],
    };
    assert_eq!(
        event_warning(&files).as_deref(),
        Some("Warning: coordinator modified workspace files:\n  - api/a.rs\n  - web/b.ts")
    );
    assert_eq!(event_warning(&CoordinatorEvent::Token("t".to_string())), None);
}

#[test]
fn test_handle_client_invalid_json() {
    match refused_request("expected value") {
        Action::Reply(DaemonResponse::Error { workspace, text }) => {
            assert!(text.contains("invalid request"));
            assert_eq!(
                (workspace.as_str(), text.as_str()),
                ("", "invalid request: expected value")
            )
        }
        _ => panic!("not refused"),
    }
}

#[test]
fn started_workers_keep_or_change_their_identifier() {
    assert_eq!(started_id("a", ""), "a");
    assert_eq!(started_id("a", "b"), "b");
    assert_eq!(started_id("a", "a"), "a");
}

#[test]
fn texts_are_cut_between_characters() {
    assert_eq!(clipped("héllo", 2), "h");
    assert_eq!(clipped("héllo", 3), "hé");
    assert!(!can_clip("héllo", 2));
    assert!(can_clip("héllo", 3));
    assert!(can_clip("hé", 80));
}

#[test]
fn texts_are_taken_apart_and_put_together() {
    assert_eq!(lines_of("a\r\nb\n\nc"), vec!["a", "b", "", "c"]);
    assert_eq!(joined(&vec!["a".to_string(), "b".to_string()], ", "), "a, b");
    assert_eq!(replaced("a{x}b{x}", "{x}", "-"), "a-b-");
    assert_eq!(parse_number("+42", 100), Some(42));
    assert_eq!(parse_number("101", 100), None);
    assert_eq!(parse_number("", 100), None);
    assert_eq!(parse_number("4 2", 100), None);
}

#[test]
fn maps_hold_one_value_per_name() {
    let mut m: TextMap<u32> = TextMap::new();
    m.insert("a", 1);
    m.insert("a", 2);
    assert_eq!(m.get("a"), Some(&2));
    assert_eq!(m.remove("a"), Some(2));
    assert!(!m.contains("a"));
    assert_eq!(m.remove("a"), None);
}

#[test]
fn problems_with_json_are_told() {
    match parse_or_problem("[1") {
        Ok(_) => panic!("read"),
        Err(e) => assert_eq!(e, "EOF while parsing a list at line 1 column 2"),
    }
    match parse_slice(&b"{\"a\": 1.10}".to_vec()) {
        Ok(v) => assert_eq!(render(&v), r#"{"a":1.1}"#),
        Err(e) => panic!("{e}"),
    }
    assert!(parse_slice(&vec![b'"', 0xff, b'"']).is_err());
}

#[test]
fn objects_that_start_with_the_raw_token_do_not_read_back() {
    let v = object().with(RAW_TOKEN, text("1"));
    assert!(matches!(json(&render(&v)), Json::Number(1)));
    assert!(parse(&render(&object().with(RAW_TOKEN, text("no json")))).is_none());
}

#[test]
fn objects_with_the_raw_token_further_on_read_back() {
    let v = object().with(RAW_TOKEN, text("1")).with("!", text("first"));
    let written = render(&v);
    assert_eq!(written, r#"{"!":"first","$serde_json::private::RawValue":"1"}"#);
    let back = json(&written);
    assert_eq!(back.text_field(RAW_TOKEN).as_deref(), Some("1"));
    assert_eq!(back.text_field("!").as_deref(), Some("first"));
    let marked = object().with("a", text("b")).with(RAW_TOKEN, text("1"));
    assert!(parse(&render(&marked)).is_none(), "the names are put in order");
}

#[test]
fn fractions_are_written_as_they_were_read() {
    for s in ["0.1", "1e-7", "123456789.12345679", "1.7976931348623157e308"] {
        let once = render(&json(s));
        assert_eq!(render(&json(&once)), once);
        assert_eq!(render(&json(s)), once);
    }
    assert_eq!(render(&json("0.1")), "0.1");
}

#[test]
fn records_of_sent_out_workers_stay_briefed() {
    let ctx = ContextBotContext { view: "v".to_string(), entity_id: None, entity_snapshot: None };
    let record = || dispatch_record(&ctx, "g", "id", "ws", "repo", "now");
    match sent_out(record(), "w-1") {
        Started::Rekey { record } => {
            assert_eq!(record.id, "w-1");
            assert_eq!(record.state, WorkerState::Briefed);
            assert_eq!(record.goal.as_deref(), Some("g"));
        }
        Started::Queue => panic!("queued"),
    }
    assert!(matches!(sent_out(record(), "id"), Started::Queue));
    assert!(matches!(sent_out(record(), ""), Started::Queue));
    match started(record(), "w-1") {
        Started::Rekey { record } => assert_eq!(record.state, WorkerState::Queued),
        Started::Queue => panic!("queued"),
    }
}

#[test]
fn words_of_reviews_are_read() {
    assert_eq!(read_verdict("approve", "change"), Verdict::Approve);
    assert_eq!(read_verdict("change", "change"), Verdict::RequestChanges);
    assert_eq!(read_verdict("Approve", "change"), Verdict::Comment);
    assert_eq!(read_verdict("comment", "change"), Verdict::Comment);
}
