use apiari::context_bot::{
    answer_of, build_context_bot_system_prompt, build_dispatch_brief, choose_model,
    context_bot_args, context_bot_call, dispatch_record, dispatched_goal, format_tool_activity, AnswerStream,
    ContextBotChatResponse, ContextBotContext, ModelRun,
};
use apiari::json::{object, parse, render, text, Json};

fn json(s: &str) -> Json {
    match parse(s) {
        Some(v) => v,
        None => panic!("{s}"),
    }
}

fn dashboard() -> ContextBotContext {
    ContextBotContext { view: "dashboard".to_string(), entity_id: None, entity_snapshot: None }
}

#[test]
fn context_bot_system_prompt_includes_view_and_snapshot() {
    let ctx = ContextBotContext {
        view: "worker_detail".to_string(),
        entity_id: Some("apiari-3".to_string()),
        entity_snapshot: Some(json(
            r#"{
                "state": "waiting",
                "label": "Tests failing",
                "goal": "Add rate limiting to /api/chat",
                "branch": "swarm/rate-limit",
                "pr_url": "https://github.com/example/pr/42",
                "tests_passing": false,
                "branch_ready": true,
                "revision_count": 1
            }"#,
        )),
    };

    let prompt = build_context_bot_system_prompt(&ctx, "/ws");

    assert!(prompt.contains("worker_detail"), "prompt should include the view name");
    assert!(prompt.contains("apiari-3"), "prompt should include the entity_id");
    assert!(prompt.contains("tests_passing"), "prompt should include snapshot keys");
    assert!(prompt.contains("branch_ready"), "prompt should include branch_ready key");
    assert!(prompt.contains("rate-limit"), "prompt should include snapshot values");
    assert!(
        prompt.contains("DISPATCH_WORKER"),
        "prompt should explain the dispatch directive"
    );
    assert!(prompt.contains("\n  \"branch_ready\": true,\n"), "{prompt}");

    let resp = ContextBotChatResponse {
        response: "The tests are failing because...".to_string(),
        session_id: "ctx-abc123".to_string(),
        model: "sonnet-4-6".to_string(),
        dispatched_worker_id: None,
    };
    let json = resp.to_json();
    assert_eq!(json.text_field("session_id").as_deref(), Some("ctx-abc123"));
    assert_eq!(
        json.text_field("response").as_deref(),
        Some("The tests are failing because...")
    );
    assert!(
        json.get("dispatched_worker_id").is_none(),
        "dispatched_worker_id should be omitted when None"
    );
}

#[test]
fn context_bot_system_prompt_without_entity_id() {
    let ctx = ContextBotContext {
        view: "auto_bot_feed".to_string(),
        entity_id: None,
        entity_snapshot: Some(json(r#"{"status": "idle"}"#)),
    };

    let prompt = build_context_bot_system_prompt(&ctx, "/ws");
    assert!(prompt.contains("auto_bot_feed"));
    assert!(prompt.contains("idle"));
    assert!(
        !prompt.contains("You are looking at:"),
        "entity_id line should be absent when no entity_id"
    );
    assert!(!prompt.contains("Focused on:"));
}

#[test]
fn context_bot_response_with_dispatched_worker_serializes_worker_id() {
    let resp = ContextBotChatResponse {
        response: "Dispatching worker.\n\nDISPATCH_WORKER: Fix the failing auth tests"
            .to_string(),
        session_id: "ctx-xyz".to_string(),
        model: "opus-4-7".to_string(),
        dispatched_worker_id: Some("apiari-5".to_string()),
    };
    let json = resp.to_json();
    assert_eq!(
        json.text_field("dispatched_worker_id").as_deref(),
        Some("apiari-5"),
        "dispatched_worker_id should appear in JSON when set"
    );
    assert_eq!(json.text_field("session_id").as_deref(), Some("ctx-xyz"));
}

#[test]
fn context_bot_chat_returns_claude_response() {
    let mut stream = AnswerStream::new();
    assert_eq!(stream.take_line("Everything looks good."), Some(vec![]));
    let answer = match answer_of(
        &ModelRun::Ended { success: true, answer: stream.answer.clone() },
        "helper",
    ) {
        Ok(a) => a,
        Err(e) => panic!("{}", e.error),
    };
    assert_eq!(dispatched_goal(&answer), None);
    let resp = ContextBotChatResponse::new(&answer, &None, "fresh", "model-1", None).to_json();
    assert_eq!(resp.text_field("response").as_deref(), Some("Everything looks good."));
    assert!(resp.text_field("session_id").is_some(), "session_id must be present");
    assert!(resp.text_field("model").is_some(), "model must be present in response");
    assert!(resp.get("dispatched_worker_id").is_none(), "no dispatch expected");
}

#[test]
fn context_bot_chat_echoes_provided_session_id() {
    let resp = ContextBotChatResponse::new(
        "Got it.",
        &Some("my-session-42".to_string()),
        "fresh",
        "model-1",
        None,
    );
    assert_eq!(resp.to_json().text_field("session_id").as_deref(), Some("my-session-42"));
}

#[test]
fn context_bot_chat_uses_system_prompt_flag() {
    let system = build_context_bot_system_prompt(&dashboard(), "/ws");
    let args = context_bot_args("model-1", &system);
    let logged = format!("{}\n", args.join("\n"));
    assert!(logged.contains("--system-prompt"), "{logged}");
    assert!(!logged.contains("--system\n") && !logged.contains("--system "), "{logged}");
    assert!(logged.contains("--print"), "{logged}");
    assert!(logged.contains("--max-turns"), "{logged}");
    assert!(logged.contains("--model"), "{logged}");
    assert!(!logged.lines().any(|l| l == "hi"), "{logged}");
}

#[test]
fn context_bot_chat_message_sent_via_stdin_not_args() {
    let system = build_context_bot_system_prompt(&dashboard(), "/ws");
    let tricky_message = "What's the status? It's $HOME and \"quoted\" and has\nnewlines.";
    let call = context_bot_call("model-1", &system, tricky_message);
    assert!(
        call.stdin.contains(tricky_message),
        "message must be sent via stdin, got stdin: {:?}",
        call.stdin
    );
    assert_eq!(call.stdin, tricky_message);
    let args = call.args.join("\n");
    assert!(
        !args.contains("What's the status"),
        "message must NOT be passed as a CLI arg, got args: {args:?}"
    );
}

#[test]
fn context_bot_chat_missing_claude_returns_503() {
    match answer_of(&ModelRun::Missing, "helper") {
        Ok(_) => panic!("answered"),
        Err(e) => {
            assert_eq!(e.status, 503);
            assert_eq!(e.error, "helper CLI not available");
        }
    }
}

#[test]
fn runs_that_fail_are_refusals() {
    let refusal = |run: ModelRun| match answer_of(&run, "helper") {
        Ok(a) => panic!("{a}"),
        Err(e) => (e.status, e.error),
    };
    assert_eq!(
        refusal(ModelRun::Ended { success: false, answer: "oops".to_string() }),
        (500, "helper exited non-zero: oops".to_string())
    );
    assert_eq!(
        refusal(ModelRun::Failed { error: "no such file".to_string() }),
        (503, "failed to run helper: no such file".to_string())
    );
    assert_eq!(refusal(ModelRun::TimedOut), (504, "helper timed out after 300s".to_string()));
}

#[test]
fn models_are_chosen_in_order() {
    let asked = Some("a".to_string());
    let configured = Some("b".to_string());
    assert_eq!(choose_model(&asked, &configured, "c"), "a");
    assert_eq!(choose_model(&None, &configured, "c"), "b");
    assert_eq!(choose_model(&None, &None, "c"), "c");
}

#[test]
fn tools_are_shown_with_what_they_are_used_for() {
    assert_eq!(format_tool_activity("Bash", &json(r#"{"command": "ls"}"#)), "Bash: ls");
    assert_eq!(format_tool_activity("Read", &json(r#"{"file_path": "/a"}"#)), "Read: /a");
    assert_eq!(format_tool_activity("Task", &json(r#"{"x": 1}"#)), "Task");
    assert_eq!(format_tool_activity("Grep", &json(r#"{"pattern": 3, "url": "u"}"#)), "Grep");
    let long = "y".repeat(100);
    let input = object().with("query", text(&long));
    assert_eq!(format_tool_activity("Web", &input), format!("Web: {}", "y".repeat(80)));
}

#[test]
fn streamed_events_make_the_answer() {
    let mut s = AnswerStream::new();
    let shown = s
        .take_line(
            r#"{"type":"assistant","message":{"content":[{"type":"text","text":"Looking. "},{"type":"tool_use","name":"Bash","input":{"command":"git log"}}]}}"#,
        )
        .unwrap();
    assert_eq!(shown, vec!["Bash: git log"]);
    assert_eq!(s.answer, "Looking. ");
    assert_eq!(s.take_line(""), Some(vec![]));
    let long = "é".repeat(60);
    let uneven = format!(
        r#"{{"type":"assistant","message":{{"content":[{{"type":"tool_use","name":"Bash","input":{{"command":"x{long}"}}}}]}}}}"#
    );
    assert_eq!(s.take_line(&uneven), None);
    assert_eq!(s.answer, "Looking. ");
}

#[test]
fn answers_can_send_out_a_worker() {
    assert_eq!(
        dispatched_goal("Sure.\n DISPATCH_WORKER: Fix auth \nDISPATCH_WORKER: other").as_deref(),
        Some("Fix auth")
    );
    assert_eq!(dispatched_goal("DISPATCH_WORKER:  "), None);
    let brief = build_dispatch_brief(&dashboard(), "Fix auth");
    assert_eq!(
        render(&brief),
        r#"{"acceptance_criteria":[],"constraints":[],"context":{"entity_id":null,"snapshot":null,"view":"dashboard"},"goal":"Fix auth","review_mode":"local_first"}"#
    );
    let w = dispatch_record(&dashboard(), "Fix auth", "id", "ws", "repo", "now");
    assert_eq!(w.agent_kind.as_deref(), Some("codex"));
    assert_eq!(w.goal.as_deref(), Some("Fix auth"));
}

#[test]
fn plain_text_counts_only_without_events() {
    let result = r#"{"type":"result","result":"Done."}"#;
    let mut s = AnswerStream::new();
    assert_eq!(s.take_line("one"), Some(vec![]));
    assert_eq!(s.take_line("two"), Some(vec![]));
    assert_eq!(s.answer, "one\ntwo");
    assert_eq!(s.take_line(r#"{"type":"system"}"#), Some(vec![]));
    assert_eq!(s.answer, "");
    assert_eq!(s.take_line("warning: slow"), Some(vec![]));
    assert_eq!(s.answer, "");
    assert_eq!(s.take_line(result), Some(vec![]));
    assert_eq!(s.take_line("bye"), Some(vec![]));
    assert_eq!(s.answer, "Done.");
}

#[test]
fn blank_lines_of_plain_text_are_kept() {
    let mut s = AnswerStream::new();
    for line in ["", "first", "", "", "second", ""] {
        assert_eq!(s.take_line(line), Some(vec![]));
    }
    assert_eq!(s.answer, "first\n\n\nsecond\n");
    let run = ModelRun::Ended { success: true, answer: s.answer };
    match answer_of(&run, "helper") {
        Ok(answer) => assert_eq!(answer, "first\n\n\nsecond"),
        Err(e) => panic!("{}", e.error),
    }
    let mut s = AnswerStream::new();
    assert_eq!(s.take_line(r#"{"type":"result","result":"Done."}"#), Some(vec![]));
    assert_eq!(s.take_line(""), Some(vec![]));
    assert_eq!(s.answer, "Done.");
}
