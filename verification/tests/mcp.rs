use apiari::json::{object, parse, render, Json};
use apiari::mcp::{
    created_worker, frame_message, handle_message, plan_tool, read_message, sent_message,
    tool_error, tool_ok, tool_result, write_message, FrameHeader, McpStep, SwarmResponse, ToolCall,
    ToolOutcome, ToolPlan, WorkerSummary,
};

fn json(s: &str) -> Json {
    match parse(s) {
        Some(v) => v,
        None => panic!("{s}"),
    }
}

fn answer(msg: &str) -> String {
    match handle_message(&json(msg), "1.2.3", "helper") {
        McpStep::Answer(v) => render(&v),
        McpStep::Silent => panic!("silent"),
        McpStep::Run { .. } => panic!("a tool"),
    }
}

#[test]
fn frames_count_bytes() {
    assert_eq!(frame_message("{}"), "Content-Length: 2\r\n\r\n{}");
    assert_eq!(frame_message("é"), "Content-Length: 2\r\n\r\né");
}

#[test]
fn headers_are_read_line_by_line() {
    let mut h = FrameHeader::new();
    assert_eq!(h.length(), Err("missing Content-Length header".to_string()));
    assert!(!h.take_line("Content-Type: x\r\n"));
    assert!(!h.take_line("Content-Length:  17 \r\n"));
    assert!(h.take_line("\r\n"));
    assert_eq!(h.length(), Ok(17));
    assert!(!h.take_line("Content-Length: many"));
    assert!(h.length().is_err());
}

#[test]
fn written_headers_read_back() {
    let body = "{\"a\": \"ü\"}";
    let frame = frame_message(body);
    let mut h = FrameHeader::new();
    let mut lines = frame.split_inclusive('\n');
    while !h.take_line(lines.next().unwrap()) {}
    assert_eq!(h.length(), Ok(body.len()));
    assert_eq!(lines.collect::<String>(), body);
}

#[test]
fn servers_introduce_themselves() {
    assert_eq!(
        answer(r#"{"id": 1, "method": "initialize"}"#),
        r#"{"id":1,"jsonrpc":"2.0","result":{"capabilities":{"tools":{}},"protocolVersion":"2024-11-05","serverInfo":{"name":"apiari-swarm","version":"1.2.3"}}}"#
    );
    assert_eq!(
        answer(r#"{"id": "x", "method": "ping"}"#),
        r#"{"id":"x","jsonrpc":"2.0","result":{}}"#
    );
}

#[test]
fn tools_are_listed() {
    let list: serde_json::Value =
        serde_json::from_str(&answer(r#"{"id": 1, "method": "tools/list"}"#)).unwrap();
    let tools = list["result"]["tools"].as_array().unwrap();
    let names: Vec<_> = tools.iter().map(|t| t["name"].as_str().unwrap()).collect();
    assert_eq!(
        names,
        vec![
            "swarm_create_worker",
            "swarm_send_message",
            "swarm_close_worker",
            "swarm_list_workers"
        ]
    );
    assert_eq!(tools[0]["inputSchema"]["required"][0].as_str(), Some("prompt"));
    assert_eq!(
        tools[0]["inputSchema"]["properties"]["agent"]["default"].as_str(),
        Some("helper")
    );
    assert_eq!(
        tools[0]["inputSchema"]["properties"]["agent"]["description"].as_str(),
        Some("Agent to use: helper, codex, gemini, helper-tui, codex-tui, gemini-tui")
    );
    assert!(tools[3]["inputSchema"].get("required").is_none());
    assert_eq!(tools[1]["inputSchema"]["required"].as_array().unwrap().len(), 2);
}

#[test]
fn unknown_methods_and_tools_are_errors() {
    assert_eq!(
        answer(r#"{"id": 1, "method": "x"}"#),
        r#"{"error":{"code":-32601,"message":"method not found: x"},"id":1,"jsonrpc":"2.0"}"#
    );
    assert_eq!(
        answer(r#"{"id": 1, "method": "tools/call", "params": {"name": "y"}}"#),
        r#"{"error":{"code":-32602,"message":"unknown tool: y"},"id":1,"jsonrpc":"2.0"}"#
    );
}

#[test]
fn notifications_are_not_answered() {
    for msg in [
        r#"{"method": "initialize"}"#,
        r#"{"id": 1, "method": "notifications/initialized"}"#,
        r#"{"id": 1, "method": "notifications/cancelled"}"#,
    ] {
        assert!(matches!(handle_message(&json(msg), "1", "helper"), McpStep::Silent));
    }
}

#[test]
fn calls_become_plans() {
    match handle_message(
        &json(
            r#"{"id": 3, "method": "tools/call", "params": {"name": "swarm_create_worker", "arguments": {"prompt": "do", "repo": "r"}}}"#,
        ),
        "1",
        "helper",
    ) {
        McpStep::Run { id, call } => {
            assert!(matches!(id, Json::Number(3)));
            match call {
                ToolCall::CreateWorker { prompt, agent, repo } => {
                    assert_eq!((prompt.as_str(), agent.as_str()), ("do", "helper"));
                    assert_eq!(repo.as_deref(), Some("r"));
                }
                _ => panic!("another tool"),
            }
        }
        _ => panic!("no tool"),
    }
}

#[test]
fn calls_need_their_arguments() {
    let refused = |params: &str| match plan_tool(&json(params), "helper") {
        ToolPlan::Result(v) => render(&v),
        _ => panic!("not refused"),
    };
    let text = |s: &str| format!(r#"{{"content":[{{"text":"{s}","type":"text"}}],"isError":true}}"#);
    assert_eq!(refused(r#"{"name": "swarm_create_worker"}"#), text("prompt is required"));
    assert_eq!(
        refused(r#"{"name": "swarm_send_message", "arguments": {"worktree_id": "w"}}"#),
        text("worktree_id and message are required")
    );
    assert_eq!(refused(r#"{"name": "swarm_close_worker"}"#), text("worktree_id is required"));
    assert!(matches!(
        plan_tool(&json(r#"{"name": "swarm_list_workers"}"#), "helper"),
        ToolPlan::Run(ToolCall::ListWorkers)
    ));
    match plan_tool(
        &json(r#"{"name": "swarm_close_worker", "arguments": {"worktree_id": "w"}}"#),
        "helper",
    ) {
        ToolPlan::Run(ToolCall::CloseWorker { worktree_id }) => assert_eq!(worktree_id, "w"),
        _ => panic!("not closed"),
    }
}

#[test]
fn results_of_tools_are_texts() {
    let text = |o: ToolOutcome| match tool_result(&o).array_field("content") {
        Some(items) => items[0].text_field("text").unwrap(),
        None => panic!("no content"),
    };
    assert_eq!(text(ToolOutcome::Created(String::new())), "Worker created");
    assert_eq!(text(ToolOutcome::Created("w-1".to_string())), "Worker created: w-1");
    assert_eq!(text(ToolOutcome::Sent), "Message sent");
    assert_eq!(text(ToolOutcome::Closed), "Worker closed");
    assert_eq!(text(ToolOutcome::Failed("e".to_string())), "e");
    assert_eq!(text(ToolOutcome::ListFailed("e".to_string())), "failed to list workers: e");
    let listed = text(ToolOutcome::Listed(vec![WorkerSummary {
        id: "w-1".to_string(),
        branch: "b".to_string(),
        phase: "Waiting".to_string(),
        agent: "codex".to_string(),
        pr_url: None,
        pr_title: Some("t".to_string()),
    }]));
    assert_eq!(
        listed,
        "[\n  {\n    \"agent\": \"codex\",\n    \"branch\": \"b\",\n    \"id\": \"w-1\",\n    \"phase\": \"waiting\",\n    \"pr_title\": \"t\",\n    \"pr_url\": null\n  }\n]"
    );
    assert_eq!(render(&tool_ok("x")), r#"{"content":[{"text":"x","type":"text"}]}"#);
    assert!(tool_error("x").bool_field("isError").unwrap());
}

#[test]
fn answers_of_the_worker_daemon_are_read() {
    let done = |s: Option<&str>| SwarmResponse::Done { data: s.map(json) };
    assert_eq!(created_worker(&done(Some(r#"{"worktree_id": "w"}"#))), Ok("w".to_string()));
    assert_eq!(
        created_worker(&SwarmResponse::Done { data: Some(object()) }),
        Err("no worktree_id in swarm create response".to_string())
    );
    let error = || SwarmResponse::Error { message: "m".to_string() };
    assert_eq!(created_worker(&error()), Err("swarm create failed: m".to_string()));
    assert_eq!(
        created_worker(&SwarmResponse::Other),
        Err("unexpected response from swarm daemon".to_string())
    );
    assert_eq!(
        created_worker(&done(None)),
        Err("unexpected response from swarm daemon".to_string())
    );
    assert_eq!(sent_message(&done(None)), Ok(()));
    assert_eq!(sent_message(&error()), Err("swarm send failed: m".to_string()));
    assert_eq!(
        sent_message(&SwarmResponse::Other),
        Err("unexpected response from swarm daemon".to_string())
    );
}

#[test]
fn messages_read_back_in_order() {
    let values = [
        r#"{"id":1,"method":"ping"}"#,
        r#"["ü","\n","\r\n\r\n"]"#,
        "null",
        r#"{"a":{"b":[-9223372036854775808,18446744073709551615]}}"#,
        r#"{"!":0,"$serde_json::private::RawValue":"1"}"#,
    ];
    let mut bytes: Vec<u8> = Vec::new();
    for v in values {
        write_message(&mut bytes, &json(v));
    }
    let mut at = 0;
    for v in values {
        match read_message(&bytes, at) {
            Ok(Some((msg, next))) => {
                assert_eq!(render(&msg), v);
                at = next;
            }
            Ok(None) => panic!("ended before {v}"),
            Err(e) => panic!("{e}"),
        }
    }
    assert_eq!(at, bytes.len());
    assert!(matches!(read_message(&bytes, at), Ok(None)));
}

#[test]
fn broken_messages_are_refused() {
    let refused = |input: &[u8]| match read_message(&input.to_vec(), 0) {
        Ok(Some(_)) => panic!("read"),
        Ok(None) => "the end".to_string(),
        Err(e) => e,
    };
    assert_eq!(refused(b""), "the end");
    assert_eq!(refused(b"Content-Length: 2\r\n"), "the end");
    assert_eq!(refused(b"X: y\r\n\r\n{}"), "missing Content-Length header");
    assert_eq!(
        refused(b"Content-Length: 3\n\n{}"),
        "body read: failed to fill whole buffer"
    );
    assert_eq!(
        refused(b"Content-Length: 1\r\n\r\n{"),
        "json parse: EOF while parsing an object at line 1 column 1"
    );
    assert_eq!(
        refused(b"\xff\r\n\r\n"),
        "header read: stream did not contain valid UTF-8"
    );
    assert!(refused(b"Content-Length: 3\r\n\r\n\"\xff\"").starts_with("json parse: "));
}
