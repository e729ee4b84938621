use apiari::task::TaskStage;
use apiari::time::Moment;
use apiari::web::WebChatEvent;
use apiari::workflow::{RunError, WorkflowStep};
use apiari::workflow_run::{RunInput, RunOutput, WorkflowStream};

fn step(id: &str, label: &str) -> WorkflowStep {
    WorkflowStep { node_id: id.to_string(), label: label.to_string(), prompt: "do".to_string() }
}

fn steps() -> Result<Vec<WorkflowStep>, RunError> {
    Ok(vec![step("dig", "Dig"), step("end", "End")])
}

fn event(e: &WebChatEvent) -> String {
    match e {
        WebChatEvent::Token { text } => format!("token {text}"),
        WebChatEvent::Done => "done".to_string(),
        WebChatEvent::Error { text } => format!("error {text}"),
        WebChatEvent::StepStart { step, label } => format!("start {step} {label}"),
        WebChatEvent::StepDone { step } => format!("step done {step}"),
    }
}

fn show(o: &RunOutput) -> String {
    match o {
        RunOutput::Emit(e) => event(e),
        RunOutput::CreateTask(c) => format!("task at {}", c.current_node),
        RunOutput::SetCursor(c) => {
            assert!(c.counters.is_empty());
            format!("cursor {} {}", c.current_node, c.history.len())
        }
        RunOutput::SetStage(stage) => match stage {
            TaskStage::Merged => "merged".to_string(),
            _ => "stage".to_string(),
        },
        RunOutput::Ask(text) => format!("ask {}", text.lines().next().unwrap_or("")),
        RunOutput::WriteCanvas(text) => format!("canvas {text}"),
    }
}

fn feed(run: &mut WorkflowStream, input: RunInput) -> Vec<String> {
    let now = Moment::new(0, 0).unwrap();
    run.step(&input, &now).iter().map(show).collect()
}

fn token(text: &str) -> RunInput {
    RunInput::Answer(WebChatEvent::Token { text: text.to_string() })
}

fn done() -> RunInput {
    RunInput::Answer(WebChatEvent::Done)
}

fn fails(text: &str) -> RunInput {
    RunInput::Answer(WebChatEvent::Error { text: text.to_string() })
}

#[test]
fn runs_tell_their_steps_and_then_the_end() {
    let mut run = WorkflowStream::new("bees", steps());
    assert_eq!(
        feed(&mut run, RunInput::Started),
        vec!["task at dig", "cursor dig 0", "start dig Dig", "ask [Step: Dig]"]
    );
    assert_eq!(feed(&mut run, token("a")), vec!["token a"]);
    assert_eq!(feed(&mut run, token("b")), vec!["token b"]);
    assert_eq!(
        feed(&mut run, done()),
        vec!["step done dig", "cursor end 1", "start end End", "ask [Step: End]"]
    );
    let last = feed(&mut run, RunInput::AnswerClosed);
    assert_eq!(last[..2], ["step done end".to_string(), "merged".to_string()]);
    assert!(last[2].starts_with("ask You just completed a workflow."), "{last:?}");
    assert_eq!(last.len(), 3);
    assert!(feed(&mut run, token("canvas text")).is_empty());
    assert_eq!(feed(&mut run, done()), vec!["canvas canvas text", "done"]);
    for input in [RunInput::Started, token("x"), done(), RunInput::AnswerClosed, fails("late")] {
        assert!(feed(&mut run, input).is_empty());
    }
}

#[test]
fn nothing_follows_an_error() {
    let mut run = WorkflowStream::new("bees", steps());
    feed(&mut run, RunInput::Started);
    assert_eq!(feed(&mut run, fails("model down")), vec!["error model down"]);
    assert!(feed(&mut run, done()).is_empty());
    let mut run = WorkflowStream::new("bees", steps());
    feed(&mut run, RunInput::Started);
    assert_eq!(feed(&mut run, RunInput::Unavailable), vec!["error coordinator unavailable"]);
    assert!(feed(&mut run, RunInput::AnswerClosed).is_empty());
}

#[test]
fn runs_without_steps_are_refused() {
    let mut run = WorkflowStream::new("bees", Err(RunError::NoEntry));
    assert_eq!(feed(&mut run, RunInput::Started), vec!["error no entry node in workflow"]);
    assert!(feed(&mut run, RunInput::Started).is_empty());
    let mut run = WorkflowStream::new("bees", Ok(vec![]));
    assert_eq!(
        feed(&mut run, RunInput::Started),
        vec!["error no action steps found in workflow lane"]
    );
}

#[test]
fn the_end_comes_even_without_a_canvas() {
    let mut run = WorkflowStream::new("bees", Ok(vec![step("dig", "Dig")]));
    feed(&mut run, RunInput::Started);
    feed(&mut run, done());
    assert_eq!(feed(&mut run, RunInput::Unavailable), vec!["done"]);
    let mut run = WorkflowStream::new("bees", Ok(vec![step("dig", "Dig")]));
    feed(&mut run, RunInput::Started);
    feed(&mut run, done());
    assert_eq!(feed(&mut run, fails("x")), vec!["canvas ", "done"]);
}
