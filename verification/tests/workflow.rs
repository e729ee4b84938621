use apiari::json::{object, text, Json};
use apiari::time::Moment;
use apiari::web::WebChatEvent;
use apiari::workflow::{
    accumulate, canvas_file, canvas_prompt, describe_condition, graph_to_view, parse_node_type,
    run_cursor, run_task, step_message, update_canvas, view_to_graph, workflow_steps, Condition,
    Edge, EdgeCondition, Node, NodeAction, NodeType, Parsed, RunError, StreamStep, WorkflowGraph,
    WorkflowRun,
};

fn node(label: &str, node_type: NodeType, kind: Option<&str>, role: Option<&str>) -> Node {
    Node {
        node_type,
        label: label.to_string(),
        stage: None,
        action: kind.map(|k| NodeAction {
            kind: k.to_string(),
            role: role.map(str::to_string),
            json: object().with("kind", text(k)),
        }),
    }
}

fn edge(from: &str, to: &str, priority: i32, source: Option<&str>) -> Edge {
    Edge {
        from: from.to_string(),
        to: to.to_string(),
        condition: source.map(|s| EdgeCondition {
            condition: Condition::Signal { source: s.to_string() },
            json: object().with("source", text(s)),
        }),
        guard: None,
        priority,
    }
}

fn graph() -> WorkflowGraph {
    WorkflowGraph {
        name: "research".to_string(),
        nodes: vec![
            ("start".to_string(), node("Start", NodeType::Entry, None, None)),
            ("dig".to_string(), node("Dig", NodeType::Action, Some("Prompt"), Some("bee"))),
            ("code".to_string(), node("Code It", NodeType::Action, Some("Spawn"), Some("coder"))),
            ("end".to_string(), node("End", NodeType::Terminal, Some("Notify"), None)),
        ],
        edges: vec![
            edge("start", "code", 1, None),
            edge("start", "dig", 5, Some("x")),
            edge("dig", "end", 0, None),
            edge("code", "end", 2, None),
            edge("code", "start", 1, Some("y")),
        ],
    }
}

fn ids(lane: Option<&str>) -> Vec<String> {
    match workflow_steps(&graph(), &lane.map(str::to_string)) {
        Ok(steps) => steps.into_iter().map(|s| s.node_id).collect(),
        Err(e) => panic!("{}", e.text()),
    }
}

#[test]
fn runs_follow_unconditional_edges_first() {
    assert_eq!(ids(None), vec!["code", "end"]);
}

#[test]
fn lanes_lead_to_their_role() {
    assert_eq!(ids(Some("bee")), vec!["dig"]);
    assert_eq!(ids(Some("CODE")), vec!["code"]);
}

#[test]
fn steps_carry_the_kind_in_lower_case() {
    let steps = match workflow_steps(&graph(), &None) {
        Ok(s) => s,
        Err(_) => panic!("no steps"),
    };
    assert_eq!(steps[0].prompt, "spawn");
    assert_eq!(steps[0].label, "Code It");
}

#[test]
fn workflows_without_entry_or_steps_are_not_run() {
    let mut g = graph();
    g.nodes.remove(0);
    match workflow_steps(&g, &None) {
        Ok(_) => panic!("ran"),
        Err(e) => {
            assert_eq!(e, RunError::NoEntry);
            assert_eq!(e.text(), "no entry node in workflow");
        }
    }
    match workflow_steps(&graph(), &Some("nobody".to_string())) {
        Ok(_) => panic!("ran"),
        Err(e) => assert_eq!(e.text(), "no action steps found in workflow lane"),
    }
    assert_eq!(RunError::Unavailable.text(), "coordinator unavailable");
}

#[test]
fn cycles_end_a_run() {
    let mut g = graph();
    g.edges = vec![edge("start", "dig", 0, None), edge("dig", "start", 0, None)];
    let steps = match workflow_steps(&g, &None) {
        Ok(s) => s,
        Err(_) => panic!("no steps"),
    };
    assert_eq!(steps.len(), 1);
}

#[test]
fn runs_gather_their_findings() {
    let steps = match workflow_steps(&graph(), &None) {
        Ok(s) => s,
        Err(_) => panic!("no steps"),
    };
    let mut run = WorkflowRun::new("bees".to_string(), steps);
    assert_eq!(run.message().as_deref(), Some("[Step: Code It]\nspawn\n\nTopic: bees"));
    let token = WebChatEvent::Token { text: "found".to_string() };
    assert_eq!(run.take_event(&token), StreamStep::Forward);
    let start = WebChatEvent::StepStart { step: "s".to_string(), label: "l".to_string() };
    assert_eq!(run.take_event(&start), StreamStep::Skip);
    assert_eq!(
        run.take_event(&WebChatEvent::Error { text: "e".to_string() }),
        StreamStep::Abort
    );
    assert_eq!(run.take_event(&WebChatEvent::Done), StreamStep::Complete);
    run.end_step();
    assert_eq!(
        run.message().as_deref(),
        Some(
            "[Step: End]\nnotify\n\nOriginal topic: bees\n\nFindings so far:\n\n## Code It\nfound\n"
        )
    );
    run.end_step();
    assert_eq!(run.message(), None);
    assert_eq!(step_message("L", "p", "t", ""), "[Step: L]\np\n\nTopic: t");
    assert_eq!(accumulate("a", "L", "x"), "a\n## L\nx\n");
}

#[test]
fn canvases_grow_at_the_front() {
    assert_eq!(
        update_canvas("2026-05-02 00:00 UTC", "bees", "text", "old"),
        "## 2026-05-02 00:00 UTC — bees\n\ntext\n\n---\n\nold"
    );
    let prompt = canvas_prompt("F");
    assert!(prompt.starts_with(
        "You just completed a workflow. Here are your accumulated findings:\n\nF\n\nWrite a clean"
    ));
    assert_eq!(canvas_file(&None), "Bee.md");
    assert_eq!(canvas_file(&Some("Codex".to_string())), "Codex.md");
}

#[test]
fn tasks_track_a_run() {
    let now = Moment::new(1_777_680_000, 0).unwrap();
    let steps = match workflow_steps(&graph(), &None) {
        Ok(s) => s,
        Err(_) => panic!("no steps"),
    };
    let cursor = run_cursor(&steps, 1, &now);
    assert_eq!(cursor.current_node, "end");
    assert_eq!(cursor.history.len(), 1);
    assert_eq!(cursor.history[0].from_node, "code");
    assert_eq!(cursor.history[0].to_node, "end");
    assert_eq!(cursor.history[0].trigger, "workflow_run");
    let task = run_task("t", "ws", "bees", &Some("Bee".to_string()), cursor, now);
    assert_eq!(task.source.as_deref(), Some("workflow"));
    assert_eq!(task.worker_id.as_deref(), Some("Bee"));
}

#[test]
fn editors_show_the_graph_and_give_it_back() {
    let view = graph_to_view(&graph());
    assert_eq!(view.name, "workflow");
    assert_eq!(view.nodes[2].node_type, "action");
    assert_eq!(view.nodes[2].description.as_deref(), Some("spawn"));
    assert_eq!(view.edges[1].label.as_deref(), Some("signal: x"));
    assert!(view.edges[1].has_condition);
    assert!(!view.edges[0].has_condition);
    let back = match view_to_graph(
        &view,
        (0..4).map(|_| Parsed::Absent).collect(),
        (0..5).map(|_| Parsed::Absent).collect(),
        (0..5).map(|_| Parsed::Absent).collect(),
    ) {
        Ok(g) => g,
        Err(e) => panic!("{}", e.text()),
    };
    assert_eq!(back.nodes.len(), 4);
    assert_eq!(back.nodes[0].1.node_type, NodeType::Entry);
    assert_eq!(back.edges[1].priority, 5);
}

fn as_read<T>(value: Option<T>) -> Parsed<T> {
    match value {
        Some(v) => Parsed::Value(v),
        None => Parsed::Absent,
    }
}

#[test]
fn editors_give_nodes_and_edges_back() {
    let view = graph_to_view(&graph());
    let actions = graph().nodes.into_iter().map(|n| as_read(n.1.action)).collect();
    let (conditions, guards) =
        graph().edges.into_iter().map(|e| (as_read(e.condition), as_read(e.guard))).unzip();
    let back = match view_to_graph(&view, actions, conditions, guards) {
        Ok(g) => g,
        Err(e) => panic!("{}", e.text()),
    };
    let g = graph();
    assert_eq!(back.name, "workflow");
    assert_eq!(back.nodes.len(), g.nodes.len());
    for (a, b) in back.nodes.iter().zip(&g.nodes) {
        assert_eq!((&a.0, &a.1.label, &a.1.stage), (&b.0, &b.1.label, &b.1.stage));
        assert_eq!(a.1.node_type, b.1.node_type);
        let role = |n: &Node| n.action.as_ref().map(|x| (x.kind.clone(), x.role.clone()));
        assert_eq!(role(&a.1), role(&b.1));
    }
    assert_eq!(back.edges.len(), g.edges.len());
    for (a, b) in back.edges.iter().zip(&g.edges) {
        assert_eq!((&a.from, &a.to, a.priority), (&b.from, &b.to, b.priority));
        assert_eq!(a.condition.is_some(), b.condition.is_some());
        assert!(a.guard.is_none());
    }
}

#[test]
fn edited_graphs_can_be_refused() {
    let mut view = graph_to_view(&graph());
    view.nodes[1].node_type = "loop".to_string();
    let absent = |n: usize| -> Vec<Parsed<Json>> { (0..n).map(|_| Parsed::Absent).collect() };
    let conditions = || -> Vec<Parsed<EdgeCondition>> { (0..5).map(|_| Parsed::Absent).collect() };
    let actions = || -> Vec<Parsed<NodeAction>> { (0..4).map(|_| Parsed::Absent).collect() };
    match view_to_graph(&view, actions(), conditions(), absent(5)) {
        Ok(_) => panic!("accepted"),
        Err(e) => assert_eq!(e.text(), "unknown node type: loop"),
    }
    let view = graph_to_view(&graph());
    let mut bad = actions();
    bad[2] = Parsed::Invalid("a".to_string());
    match view_to_graph(&view, bad, conditions(), absent(5)) {
        Ok(_) => panic!("accepted"),
        Err(e) => assert_eq!(e.text(), "invalid action: a"),
    }
    let mut bad = conditions();
    bad[0] = Parsed::Invalid("c".to_string());
    match view_to_graph(&view, actions(), bad, absent(5)) {
        Ok(_) => panic!("accepted"),
        Err(e) => assert_eq!(e.text(), "invalid condition: c"),
    }
    let mut bad = absent(5);
    bad[4] = Parsed::Invalid("g".to_string());
    match view_to_graph(&view, actions(), conditions(), bad) {
        Ok(_) => panic!("accepted"),
        Err(e) => assert_eq!(e.text(), "invalid guard: g"),
    }
}

#[test]
fn conditions_are_put_in_words() {
    let agent = Condition::AgentOutput {
        source: "bee".to_string(),
        match_fields: vec![("a".to_string(), "1".to_string()), ("b".to_string(), "2".to_string())],
    };
    assert_eq!(describe_condition(&agent), "agent: bee (a=1, b=2)");
    let check = Condition::StateCheck { check: "ci".to_string(), expect: "green".to_string() };
    assert_eq!(describe_condition(&check), "check: ci=green");
    assert_eq!(parse_node_type("wait"), Some(NodeType::Wait));
    assert_eq!(parse_node_type("Wait"), None);
    for t in [NodeType::Entry, NodeType::Action, NodeType::Wait, NodeType::Terminal] {
        assert_eq!(parse_node_type(t.as_str()), Some(t));
    }
}
