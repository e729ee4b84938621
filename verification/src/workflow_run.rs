//! Running a workflow: what is asked of the bee, what the web interface is
//! told, and what is noted of the run, event by event.

use crate::task::{CursorStep, GraphCursor, TaskStage};
use crate::time::Moment;
use crate::web::{ChatEvent, WebChatEvent};
use crate::workflow::{
    canvas_prompt, canvas_request, found_after, message_for, run_cursor, steps_view, tracks,
    RunError, Step, WorkflowRun, WorkflowStep,
};
use vstd::prelude::*;

verus! {

/// What happens to a run.
pub enum RunInput {
    /// It starts.
    Started,
    /// The bee answers.
    Answer(WebChatEvent),
    /// No more comes of the bee's answer.
    AnswerClosed,
    /// The bee cannot be asked.
    Unavailable,
}

/// What happens to a run, with texts for strings.
pub enum RunIn {
    Started,
    Answer(ChatEvent),
    AnswerClosed,
    Unavailable,
}

impl View for RunInput {
    type V = RunIn;

    open spec fn view(&self) -> RunIn {
        match *self {
            RunInput::Started => RunIn::Started,
            RunInput::Answer(event) => RunIn::Answer(event@),
            RunInput::AnswerClosed => RunIn::AnswerClosed,
            RunInput::Unavailable => RunIn::Unavailable,
        }
    }
}

/// What a run does.
pub enum RunOutput {
    /// The web interface is told.
    Emit(WebChatEvent),
    /// The task that tracks the run is created with a cursor.
    CreateTask(GraphCursor),
    /// The task gets another cursor.
    SetCursor(GraphCursor),
    /// The task gets another stage.
    SetStage(TaskStage),
    /// The bee is asked.
    Ask(String),
    /// The bee's answer is looked through for what belongs on its canvas.
    WriteCanvas(String),
}

/// A cursor without its storage: the node, what is counted, and the moves with
/// their times and what caused them.
pub struct CursorShape {
    pub node: Seq<char>,
    pub counters: Seq<(Seq<char>, u32)>,
    pub moves: Seq<(Seq<char>, Seq<char>, Moment, Seq<char>)>,
}

/// A cursor without its storage.
pub open spec fn shape_of(cursor: GraphCursor) -> CursorShape {
    CursorShape {
        node: cursor.current_node@,
        counters: cursor.counters@.map_values(|c: (String, u32)| (c.0@, c.1)),
        moves: cursor.history@.map_values(
            |m: CursorStep| (m.from_node@, m.to_node@, m.timestamp, m.trigger@),
        ),
    }
}

/// The cursor of a run at its step `i`: nothing is counted, and there is one
/// move to each step after the first, all from the step before the current one.
pub open spec fn shape_at(steps: Seq<Step>, i: int, now: Moment) -> CursorShape {
    CursorShape {
        node: steps[i].node_id,
        counters: seq![],
        moves: Seq::new(
            i as nat,
            |j: int| (steps[i - 1].node_id, steps[j + 1].node_id, now, "workflow_run"@),
        ),
    }
}

/// What a run does, with texts for strings.
pub enum RunOut {
    Emit(ChatEvent),
    CreateTask(CursorShape),
    SetCursor(CursorShape),
    SetStage(TaskStage),
    Ask(Seq<char>),
    WriteCanvas(Seq<char>),
}

impl View for RunOutput {
    type V = RunOut;

    open spec fn view(&self) -> RunOut {
        match *self {
            RunOutput::Emit(event) => RunOut::Emit(event@),
            RunOutput::CreateTask(c) => RunOut::CreateTask(shape_of(c)),
            RunOutput::SetCursor(c) => RunOut::SetCursor(shape_of(c)),
            RunOutput::SetStage(stage) => RunOut::SetStage(stage),
            RunOutput::Ask(text) => RunOut::Ask(text@),
            RunOutput::WriteCanvas(text) => RunOut::WriteCanvas(text@),
        }
    }
}

/// What a list of outputs does.
pub open spec fn outs(list: Seq<RunOutput>) -> Seq<RunOut> {
    list.map_values(|o: RunOutput| o@)
}

/// How far a run is.
#[derive(Debug, Clone, Copy, PartialEq, Eq, Structural)]
pub enum RunPhase {
    /// It has not started.
    Fresh,
    /// The bee works on a step.
    Asking,
    /// All steps are done, and the bee writes its canvas.
    Canvas,
    /// It is over.
    Over,
}

/// A run of a workflow, as it is streamed to the web interface.
pub struct WorkflowStream {
    pub run: WorkflowRun,
    /// Why the workflow cannot be run, where it cannot.
    pub problem: Option<RunError>,
    pub phase: RunPhase,
}

/// The state of a run, with texts for strings.
pub struct RunState {
    pub topic: Seq<char>,
    pub steps: Seq<Step>,
    pub problem: Option<RunError>,
    pub at: int,
    pub found: Seq<char>,
    pub answer: Seq<char>,
    pub phase: RunPhase,
}

impl View for WorkflowStream {
    type V = RunState;

    open spec fn view(&self) -> RunState {
        RunState {
            topic: self.run.topic@,
            steps: steps_view(self.run.steps@),
            problem: self.problem,
            at: self.run.at as int,
            found: self.run.found@,
            answer: self.run.answer@,
            phase: self.phase,
        }
    }
}

impl RunState {
    /// The run is at a step while the bee works on one, and has done them all
    /// once it writes its canvas.
    pub open spec fn wf(self) -> bool {
        &&& 0 <= self.at <= self.steps.len()
        &&& self.phase == RunPhase::Fresh ==> self.at == 0 && self.found.len() == 0
            && self.answer.len() == 0
        &&& self.phase == RunPhase::Asking ==> self.at < self.steps.len()
        &&& self.phase == RunPhase::Canvas ==> self.at == self.steps.len() && self.at > 0
    }
}

/// What a step starts with.
pub open spec fn step_outs(s: RunState, now: Moment) -> Seq<RunOut> {
    let step = s.steps[s.at];
    seq![
        RunOut::SetCursor(shape_at(s.steps, s.at, now)),
        RunOut::Emit(ChatEvent::StepStart(step.node_id, step.label)),
        RunOut::Ask(message_for(step.label, step.prompt, s.topic, s.found)),
    ]
}

/// Why a run cannot start, where it cannot.
pub open spec fn problem_of(s: RunState) -> Option<RunError> {
    match s.problem {
        Some(e) => Some(e),
        None => if s.steps.len() == 0 {
            Some(RunError::NoSteps)
        } else {
            None
        },
    }
}

/// The run after its current step has been answered.
pub open spec fn after_step(s: RunState) -> RunState {
    RunState {
        at: s.at + 1,
        found: found_after(s.found, s.steps[s.at].label, s.answer),
        answer: seq![],
        phase: if s.at + 1 < s.steps.len() {
            RunPhase::Asking
        } else {
            RunPhase::Canvas
        },
        ..s
    }
}

/// What is done once the current step has been answered.
pub open spec fn after_step_outs(s: RunState, now: Moment) -> Seq<RunOut> {
    let t = after_step(s);
    seq![RunOut::Emit(ChatEvent::StepDone(s.steps[s.at].node_id))] + if t.phase
        == RunPhase::Asking {
        step_outs(t, now)
    } else {
        seq![RunOut::SetStage(TaskStage::Merged), RunOut::Ask(canvas_request(t.found))]
    }
}

/// The run after one more thing has happened to it, and what it does.
pub open spec fn stepped(s: RunState, input: RunIn, now: Moment) -> (RunState, Seq<RunOut>) {
    let over = RunState { phase: RunPhase::Over, ..s };
    match s.phase {
        RunPhase::Fresh => match input {
            RunIn::Started => match problem_of(s) {
                Some(e) => (over, seq![RunOut::Emit(ChatEvent::Error(e.message()))]),
                None => (
                    RunState { phase: RunPhase::Asking, ..s },
                    seq![RunOut::CreateTask(shape_at(s.steps, 0, now))] + step_outs(s, now),
                ),
            },
            _ => (s, seq![]),
        },
        RunPhase::Asking => match input {
            RunIn::Started => (s, seq![]),
            RunIn::Unavailable => (
                over,
                seq![RunOut::Emit(ChatEvent::Error(RunError::Unavailable.message()))],
            ),
            RunIn::AnswerClosed => (after_step(s), after_step_outs(s, now)),
            RunIn::Answer(event) => match event {
                ChatEvent::Token(text) => (
                    RunState { answer: s.answer + text, ..s },
                    seq![RunOut::Emit(event)],
                ),
                ChatEvent::Done => (after_step(s), after_step_outs(s, now)),
                ChatEvent::Error(text) => (over, seq![RunOut::Emit(event)]),
                _ => (s, seq![]),
            },
        },
        RunPhase::Canvas => match input {
            RunIn::Started => (s, seq![]),
            RunIn::Unavailable => (over, seq![RunOut::Emit(ChatEvent::Done)]),
            RunIn::AnswerClosed => (
                over,
                seq![RunOut::WriteCanvas(s.answer), RunOut::Emit(ChatEvent::Done)],
            ),
            RunIn::Answer(event) => match event {
                ChatEvent::Token(text) => (RunState { answer: s.answer + text, ..s }, seq![]),
                ChatEvent::StepStart(step, label) => (s, seq![]),
                ChatEvent::StepDone(step) => (s, seq![]),
                _ => (
                    over,
                    seq![RunOut::WriteCanvas(s.answer), RunOut::Emit(ChatEvent::Done)],
                ),
            },
        },
        RunPhase::Over => (s, seq![]),
    }
}

proof fn lemma_shape(cursor: GraphCursor, steps: Seq<WorkflowStep>, i: int, now: Moment)
    requires
        0 <= i < steps.len(),
        tracks(cursor, steps, i, now),
    ensures
        shape_of(cursor) == shape_at(steps_view(steps), i, now),
{
    assert(shape_of(cursor).counters =~= seq![]);
    let got = shape_of(cursor).moves;
    let expected = shape_at(steps_view(steps), i, now).moves;
    assert forall|j: int| 0 <= j < i implies got[j] == expected[j] by {
        assert(cursor.history@[j].from_node@ == steps[i - 1].node_id@);
    }
    assert(got =~= expected);
}

fn put(list: &mut Vec<RunOutput>, output: RunOutput)
    ensures
        outs(final(list)@) == outs(old(list)@).push(output@),
{
    proof {
        assert(outs(list@.push(output)) =~= outs(list@).push(output@));
    }
    list.push(output);
}

impl WorkflowStream {
    /// A run that has not started: of the steps that were found, or with why
    /// there are none.
    pub fn new(topic: &str, found: Result<Vec<WorkflowStep>, RunError>) -> (r: WorkflowStream)
        ensures
            r@.wf(),
            r@ == (RunState {
                topic: topic@,
                steps: match found {
                    Ok(steps) => steps_view(steps@),
                    Err(e) => seq![],
                },
                problem: match found {
                    Ok(steps) => None,
                    Err(e) => Some(e),
                },
                at: 0,
                found: seq![],
                answer: seq![],
                phase: RunPhase::Fresh,
            }),
    {
        let (steps, problem) = match found {
            Ok(steps) => (steps, None),
            Err(e) => {
                let none: Vec<WorkflowStep> = Vec::new();
                proof {
                    assert(steps_view(none@) =~= Seq::<Step>::empty());
                }
                (none, Some(e))
            },
        };
        let run = WorkflowRun::new(topic.to_owned(), steps);
        proof {
            assert(run.found@ =~= Seq::<char>::empty());
            assert(run.answer@ =~= Seq::<char>::empty());
        }
        WorkflowStream { run, problem, phase: RunPhase::Fresh }
    }

    fn begin_step(&self, out: &mut Vec<RunOutput>, now: &Moment)
        requires
            self.run.at < self.run.steps@.len(),
        ensures
            outs(final(out)@) == outs(old(out)@) + step_outs(self@, *now),
    {
        let ghost before = outs(out@);
        let at: usize = self.run.at;
        let cursor = run_cursor(&self.run.steps, at, now);
        proof {
            lemma_shape(cursor, self.run.steps@, at as int, *now);
        }
        put(out, RunOutput::SetCursor(cursor));
        let step = &self.run.steps[at];
        put(
            out,
            RunOutput::Emit(
                WebChatEvent::StepStart { step: step.node_id.clone(), label: step.label.clone() },
            ),
        );
        if let Some(message) = self.run.message() {
            put(out, RunOutput::Ask(message));
        }
        proof {
            assert(outs(out@) =~= before + step_outs(self@, *now));
        }
    }

    fn finish_step(&mut self, out: &mut Vec<RunOutput>, now: &Moment)
        requires
            old(self)@.wf(),
            old(self).phase == RunPhase::Asking,
        ensures
            final(self)@ == after_step(old(self)@),
            outs(final(out)@) == outs(old(out)@) + after_step_outs(old(self)@, *now),
    {
        let ghost before = outs(out@);
        let ghost was = self@;
        let step = self.run.steps[self.run.at].node_id.clone();
        put(out, RunOutput::Emit(WebChatEvent::StepDone { step }));
        self.run.end_step();
        proof {
            assert(self.run.answer@ =~= Seq::<char>::empty());
        }
        let n: usize = self.run.steps.len();
        if self.run.at < n {
            self.begin_step(out, now);
            proof {
                assert(step_outs(self@, *now) == step_outs(after_step(was), *now));
                assert(outs(out@) =~= before + after_step_outs(was, *now));
            }
        } else {
            self.phase = RunPhase::Canvas;
            put(out, RunOutput::SetStage(TaskStage::Merged));
            put(out, RunOutput::Ask(canvas_prompt(self.run.found.as_str())));
            proof {
                assert(outs(out@) =~= before + after_step_outs(was, *now));
            }
        }
    }

    /// Takes in what happens to the run, and says what is to be done.
    pub fn step(&mut self, input: &RunInput, now: &Moment) -> (r: Vec<RunOutput>)
        requires
            old(self)@.wf(),
        ensures
            final(self)@.wf(),
            (final(self)@, outs(r@)) == stepped(old(self)@, input@, *now),
    {
        let ghost was = self@;
        let mut out: Vec<RunOutput> = Vec::new();
        proof {
            assert(outs(out@) =~= Seq::<RunOut>::empty());
        }
        match self.phase {
            RunPhase::Fresh => {
                if let RunInput::Started = input {
                    let problem = match self.problem {
                        Some(e) => Some(e),
                        None => if self.run.steps.len() == 0 {
                            Some(RunError::NoSteps)
                        } else {
                            None
                        },
                    };
                    match problem {
                        Some(e) => {
                            self.phase = RunPhase::Over;
                            put(
                                &mut out,
                                RunOutput::Emit(WebChatEvent::Error { text: e.text().to_owned() }),
                            );
                        },
                        None => {
                            let cursor = run_cursor(&self.run.steps, 0, now);
                            proof {
                                lemma_shape(cursor, self.run.steps@, 0, *now);
                            }
                            put(&mut out, RunOutput::CreateTask(cursor));
                            self.begin_step(&mut out, now);
                            self.phase = RunPhase::Asking;
                        },
                    }
                }
            },
            RunPhase::Asking => match input {
                RunInput::Started => {},
                RunInput::Unavailable => {
                    self.phase = RunPhase::Over;
                    put(
                        &mut out,
                        RunOutput::Emit(
                            WebChatEvent::Error { text: RunError::Unavailable.text().to_owned() },
                        ),
                    );
                },
                RunInput::AnswerClosed => {
                    self.finish_step(&mut out, now);
                },
                RunInput::Answer(event) => {
                    let _ = self.run.take_event(event);
                    match event {
                        WebChatEvent::Token { text } => {
                            put(
                                &mut out,
                                RunOutput::Emit(WebChatEvent::Token { text: text.clone() }),
                            );
                        },
                        WebChatEvent::Done => {
                            self.finish_step(&mut out, now);
                        },
                        WebChatEvent::Error { text } => {
                            self.phase = RunPhase::Over;
                            put(
                                &mut out,
                                RunOutput::Emit(WebChatEvent::Error { text: text.clone() }),
                            );
                        },
                        _ => {},
                    }
                },
            },
            RunPhase::Canvas => match input {
                RunInput::Started => {},
                RunInput::Unavailable => {
                    self.phase = RunPhase::Over;
                    put(&mut out, RunOutput::Emit(WebChatEvent::Done));
                },
                RunInput::AnswerClosed => {
                    self.close(&mut out);
                },
                RunInput::Answer(event) => {
                    let _ = self.run.take_event(event);
                    match event {
                        WebChatEvent::Done => {
                            self.close(&mut out);
                        },
                        WebChatEvent::Error { text } => {
                            self.close(&mut out);
                        },
                        _ => {},
                    }
                },
            },
            RunPhase::Over => {},
        }
        proof {
            assert(outs(out@) =~= stepped(was, input@, *now).1);
        }
        out
    }

    fn close(&mut self, out: &mut Vec<RunOutput>)
        ensures
            final(self)@ == (RunState { phase: RunPhase::Over, ..old(self)@ }),
            outs(final(out)@) == outs(old(out)@) + seq![
                RunOut::WriteCanvas(old(self)@.answer),
                RunOut::Emit(ChatEvent::Done),
            ],
    {
        let ghost before = outs(out@);
        put(out, RunOutput::WriteCanvas(self.run.answer.clone()));
        put(out, RunOutput::Emit(WebChatEvent::Done));
        self.phase = RunPhase::Over;
        proof {
            assert(outs(out@) =~= before + seq![
                RunOut::WriteCanvas(self@.answer),
                RunOut::Emit(ChatEvent::Done),
            ]);
        }
    }
}

// ---------------------------------------------------------------------------
// What a run tells
// ---------------------------------------------------------------------------

/// What the web interface is told, out of all that a run does.
pub open spec fn emitted(list: Seq<RunOut>) -> Seq<ChatEvent>
    decreases list.len(),
{
    if list.len() == 0 {
        seq![]
    } else {
        let rest = emitted(list.drop_last());
        match list.last() {
            RunOut::Emit(event) => rest.push(event),
            _ => rest,
        }
    }
}

/// A run after all that has happened to it, and what the web interface has
/// been told.
pub open spec fn told(
    start: RunState,
    inputs: Seq<(RunIn, Moment)>,
) -> (RunState, Seq<ChatEvent>)
    decreases inputs.len(),
{
    if inputs.len() == 0 {
        (start, seq![])
    } else {
        let before = told(start, inputs.drop_last());
        let (input, now) = inputs.last();
        let done = stepped(before.0, input, now);
        (done.0, before.1 + emitted(done.1))
    }
}

/// The tokens of an answer as events.
pub open spec fn token_events(tokens: Seq<Seq<char>>) -> Seq<ChatEvent> {
    tokens.map_values(|t: Seq<char>| ChatEvent::Token(t))
}

/// How a step is told as long as it is answered: its start, and the tokens so
/// far.
pub open spec fn opening(step: Step, tokens: Seq<Seq<char>>) -> Seq<ChatEvent> {
    seq![ChatEvent::StepStart(step.node_id, step.label)] + token_events(tokens)
}

/// How the first `upto` steps are told, each with its tokens: its start, the
/// tokens, and its end.
pub open spec fn story(
    steps: Seq<Step>,
    tokens: Seq<Seq<Seq<char>>>,
    upto: int,
) -> Seq<ChatEvent>
    decreases upto,
{
    if upto <= 0 {
        seq![]
    } else {
        story(steps, tokens, upto - 1) + opening(steps[upto - 1], tokens[upto - 1]).push(
            ChatEvent::StepDone(steps[upto - 1].node_id),
        )
    }
}

/// Whether what was told of a run fits how far it is, given the tokens of each
/// step that has begun: the steps in their order, each once from its start to
/// its end; `Done` at the end where all steps are done; else one error, with
/// which the telling ends.
pub open spec fn tells(
    s: RunState,
    events: Seq<ChatEvent>,
    tokens: Seq<Seq<Seq<char>>>,
) -> bool {
    let n = s.steps.len() as int;
    match s.phase {
        RunPhase::Fresh => events.len() == 0,
        RunPhase::Asking => {
            &&& 0 <= s.at < n
            &&& tokens.len() == s.at + 1
            &&& events == story(s.steps, tokens, s.at) + opening(s.steps[s.at], tokens[s.at])
        },
        RunPhase::Canvas => {
            &&& s.at == n
            &&& tokens.len() == n
            &&& events == story(s.steps, tokens, n)
        },
        RunPhase::Over => {
            ||| s.at == n && n > 0 && tokens.len() == n && events == story(
                s.steps,
                tokens,
                n,
            ).push(ChatEvent::Done)
            ||| 0 <= s.at < n && tokens.len() == s.at + 1 && events.len() > 0
                && events.last() is Error && events.drop_last() == story(s.steps, tokens, s.at)
                + opening(s.steps[s.at], tokens[s.at])
            ||| problem_of(s) is Some && s.at == 0 && events == seq![
                ChatEvent::Error(problem_of(s)->0.message()),
            ]
        },
    }
}

proof fn lemma_emitted_push(list: Seq<RunOut>, out: RunOut)
    ensures
        emitted(list.push(out)) == match out {
            RunOut::Emit(event) => emitted(list).push(event),
            _ => emitted(list),
        },
{
    assert(list.push(out).drop_last() =~= list);
}

proof fn lemma_emitted_step(s: RunState, now: Moment)
    ensures
        emitted(step_outs(s, now)) == seq![
            ChatEvent::StepStart(s.steps[s.at].node_id, s.steps[s.at].label),
        ],
{
    let step = s.steps[s.at];
    let a = RunOut::SetCursor(shape_at(s.steps, s.at, now));
    let b = RunOut::Emit(ChatEvent::StepStart(step.node_id, step.label));
    let c = RunOut::Ask(message_for(step.label, step.prompt, s.topic, s.found));
    lemma_emitted_push(seq![], a);
    lemma_emitted_push(seq![a], b);
    lemma_emitted_push(seq![a, b], c);
    assert(seq![].push(a) =~= seq![a]);
    assert(seq![a].push(b) =~= seq![a, b]);
    assert(seq![a, b].push(c) =~= step_outs(s, now));
    assert(emitted(step_outs(s, now)) =~= seq![
        ChatEvent::StepStart(step.node_id, step.label),
    ]);
}

proof fn lemma_emitted_concat(a: Seq<RunOut>, b: Seq<RunOut>)
    ensures
        emitted(a + b) == emitted(a) + emitted(b),
    decreases b.len(),
{
    if b.len() == 0 {
        assert(a + b =~= a);
        assert(emitted(a) + emitted(b) =~= emitted(a));
    } else {
        lemma_emitted_concat(a, b.drop_last());
        assert((a + b).drop_last() =~= a + b.drop_last());
        assert((a + b).last() == b.last());
        assert(emitted(a + b) =~= emitted(a) + emitted(b));
    }
}

proof fn lemma_emitted_one(out: RunOut)
    ensures
        emitted(seq![out]) == match out {
            RunOut::Emit(event) => seq![event],
            _ => Seq::<ChatEvent>::empty(),
        },
{
    lemma_emitted_push(seq![], out);
    assert(Seq::<RunOut>::empty().push(out) =~= seq![out]);
    assert(emitted(Seq::<RunOut>::empty()) =~= Seq::<ChatEvent>::empty());
    assert(emitted(seq![out]) =~= match out {
        RunOut::Emit(event) => seq![event],
        _ => Seq::<ChatEvent>::empty(),
    });
}

proof fn lemma_story_same(
    steps: Seq<Step>,
    a: Seq<Seq<Seq<char>>>,
    b: Seq<Seq<Seq<char>>>,
    upto: int,
)
    requires
        forall|i: int| 0 <= i < upto ==> a[i] == b[i],
    ensures
        story(steps, a, upto) == story(steps, b, upto),
    decreases upto,
{
    if upto > 0 {
        lemma_story_same(steps, a, b, upto - 1);
    }
}

/// What a run emits when its current step has been answered.
proof fn lemma_emitted_after_step(s: RunState, now: Moment)
    ensures
        emitted(after_step_outs(s, now)) == seq![
            ChatEvent::StepDone(s.steps[s.at].node_id),
        ] + if after_step(s).phase == RunPhase::Asking {
            seq![
                ChatEvent::StepStart(s.steps[s.at + 1].node_id, s.steps[s.at + 1].label),
            ]
        } else {
            Seq::<ChatEvent>::empty()
        },
{
    let t = after_step(s);
    let done = RunOut::Emit(ChatEvent::StepDone(s.steps[s.at].node_id));
    lemma_emitted_one(done);
    if t.phase == RunPhase::Asking {
        lemma_emitted_concat(seq![done], step_outs(t, now));
        lemma_emitted_step(t, now);
    } else {
        let stage = RunOut::SetStage(TaskStage::Merged);
        let ask = RunOut::Ask(canvas_request(t.found));
        lemma_emitted_one(stage);
        lemma_emitted_push(seq![stage], ask);
        assert(seq![stage].push(ask) =~= seq![stage, ask]);
        lemma_emitted_concat(seq![done], seq![stage, ask]);
    }
}

/// Whatever happens to a run, its steps are told in their order, each once
/// from its start over its tokens to its end. The telling ends with `Done`
/// exactly where all steps are done, else with one error: that there is no way
/// in or nothing to do, that the bee cannot be asked, or the bee's own.
pub proof fn law_run_tells_its_steps(start: RunState, inputs: Seq<(RunIn, Moment)>)
    requires
        start.wf(),
        start.phase == RunPhase::Fresh,
    ensures
        told(start, inputs).0.wf(),
        told(start, inputs).0.steps == start.steps,
        told(start, inputs).0.problem == start.problem,
        exists|tokens: Seq<Seq<Seq<char>>>|
            tells(told(start, inputs).0, told(start, inputs).1, tokens),
    decreases inputs.len(),
{
    if inputs.len() == 0 {
        let none: Seq<Seq<Seq<char>>> = seq![];
        assert(told(start, inputs).0 == start);
        assert(tells(told(start, inputs).0, told(start, inputs).1, none));
    } else {
        law_run_tells_its_steps(start, inputs.drop_last());
        let before = told(start, inputs.drop_last());
        let s = before.0;
        let events = before.1;
        let tokens = choose|tokens: Seq<Seq<Seq<char>>>| tells(s, events, tokens);
        let (input, now) = inputs.last();
        let (t, out) = stepped(s, input, now);
        let after = told(start, inputs);
        assert(after == (t, events + emitted(out)));
        lemma_tells_on(s, events, tokens, input, now);
        let more = choose|more: Seq<Seq<Seq<char>>>| tells(t, events + emitted(out), more);
        assert(tells(after.0, after.1, more));
    }
}

proof fn lemma_tells_on(
    s: RunState,
    events: Seq<ChatEvent>,
    tokens: Seq<Seq<Seq<char>>>,
    input: RunIn,
    now: Moment,
)
    requires
        s.wf(),
        tells(s, events, tokens),
    ensures
        stepped(s, input, now).0.wf(),
        stepped(s, input, now).0.steps == s.steps,
        stepped(s, input, now).0.problem == s.problem,
        exists|more: Seq<Seq<Seq<char>>>|
            tells(
                stepped(s, input, now).0,
                events + emitted(stepped(s, input, now).1),
                more,
            ),
{
    let (t, out) = stepped(s, input, now);
    let n = s.steps.len() as int;
    let all = events + emitted(out);
    if out.len() == 0 {
        assert(emitted(out) =~= Seq::<ChatEvent>::empty());
        assert(all =~= events);
        assert(tells(t, all, tokens));
    } else if s.phase == RunPhase::Fresh {
        match problem_of(s) {
            Some(e) => {
                lemma_emitted_one(out[0]);
                assert(out =~= seq![out[0]]);
                assert(all =~= seq![ChatEvent::Error(e.message())]);
                assert(tells(t, all, tokens));
            },
            None => {
                let create = RunOut::CreateTask(shape_at(s.steps, 0, now));
                lemma_emitted_concat(seq![create], step_outs(s, now));
                lemma_emitted_one(create);
                lemma_emitted_step(s, now);
                let more: Seq<Seq<Seq<char>>> = seq![seq![]];
                assert(token_events(more[0]) =~= Seq::<ChatEvent>::empty());
                assert(all =~= story(s.steps, more, 0) + opening(s.steps[0], more[0]));
                assert(tells(t, all, more));
            },
        }
    } else if s.phase == RunPhase::Asking {
        let head = story(s.steps, tokens, s.at);
        let open = opening(s.steps[s.at], tokens[s.at]);
        if t.phase == RunPhase::Over {
            lemma_emitted_one(out[0]);
            assert(out =~= seq![out[0]]);
            assert(all.drop_last() =~= events);
            assert(tells(t, all, tokens));
        } else if t.at == s.at {
            let text = input->Answer_0->Token_0;
            lemma_emitted_one(out[0]);
            assert(out =~= seq![out[0]]);
            let more = tokens.update(s.at, tokens[s.at].push(text));
            lemma_story_same(s.steps, tokens, more, s.at);
            assert(token_events(more[s.at]) =~= token_events(tokens[s.at]).push(
                ChatEvent::Token(text),
            ));
            assert(all =~= story(s.steps, more, s.at) + opening(s.steps[s.at], more[s.at]));
            assert(tells(t, all, more));
        } else {
            lemma_emitted_after_step(s, now);
            let done = ChatEvent::StepDone(s.steps[s.at].node_id);
            assert(out == after_step_outs(s, now));
            if t.phase == RunPhase::Asking {
                let more = tokens.push(seq![]);
                lemma_story_same(s.steps, tokens, more, s.at);
                assert(token_events(more[t.at]) =~= Seq::<ChatEvent>::empty());
                assert(story(s.steps, more, t.at) == story(s.steps, more, s.at) + opening(
                    s.steps[s.at],
                    more[s.at],
                ).push(done));
                assert(all =~= story(s.steps, more, t.at) + opening(s.steps[t.at], more[t.at]));
                assert(tells(t, all, more));
            } else {
                assert(story(s.steps, tokens, t.at) == head + open.push(done));
                assert(all =~= story(s.steps, tokens, n));
                assert(tells(t, all, tokens));
            }
        }
    } else {
        assert(s.phase == RunPhase::Canvas);
        let done = RunOut::Emit(ChatEvent::Done);
        if out.len() == 1 {
            lemma_emitted_one(done);
            assert(out =~= seq![done]);
        } else {
            let write = RunOut::WriteCanvas(s.answer);
            lemma_emitted_one(write);
            lemma_emitted_push(seq![write], done);
            assert(seq![write].push(done) =~= out);
        }
        assert(all =~= events.push(ChatEvent::Done));
        assert(tells(t, all, tokens));
    }
}

/// Once a run is over nothing happens to it any more and nothing is told; it
/// is over exactly when `Done` or an error has been told.
pub proof fn law_nothing_follows_the_end(s: RunState, input: RunIn, now: Moment)
    requires
        s.wf(),
    ensures
        s.phase == RunPhase::Over ==> stepped(s, input, now) == (s, Seq::<RunOut>::empty()),
        s.phase != RunPhase::Over ==> ({
            let (t, out) = stepped(s, input, now);
            t.phase == RunPhase::Over <==> out.len() > 0 && (out.last() == RunOut::Emit(
                ChatEvent::Done,
            ) || (out.last() is Emit && out.last()->Emit_0 is Error))
        }),
        forall|i: int|
            0 <= i < stepped(s, input, now).1.len() - 1 ==> {
                let o = #[trigger] stepped(s, input, now).1[i];
                o != RunOut::Emit(ChatEvent::Done) && !(o is Emit && o->Emit_0 is Error)
            },
{
}

/// A run that has steps starts by making its task and asking its first one; one
/// that has none, or could not be made, only tells why.
pub proof fn law_run_starts_with_its_first_step(s: RunState, now: Moment)
    requires
        s.wf(),
        s.phase == RunPhase::Fresh,
    ensures
        s.problem is None && s.steps.len() > 0 ==> {
            let (t, out) = stepped(s, RunIn::Started, now);
            &&& t.phase == RunPhase::Asking && t.at == 0
            &&& out.len() == 4
            &&& out[0] is CreateTask && out[0]->CreateTask_0.node == s.steps[0].node_id
            &&& out[1] is SetCursor && out[1]->SetCursor_0.node == s.steps[0].node_id
            &&& out[2] == RunOut::Emit(
                ChatEvent::StepStart(s.steps[0].node_id, s.steps[0].label),
            )
            &&& out[3] == RunOut::Ask(
                message_for(s.steps[0].label, s.steps[0].prompt, s.topic, s.found),
            )
        },
        s.problem is Some ==> stepped(s, RunIn::Started, now).1 == seq![
            RunOut::Emit(ChatEvent::Error(s.problem->0.message())),
        ] && stepped(s, RunIn::Started, now).0.phase == RunPhase::Over,
        s.problem is None && s.steps.len() == 0 ==> stepped(s, RunIn::Started, now).1 == seq![
            RunOut::Emit(ChatEvent::Error(RunError::NoSteps.message())),
        ] && stepped(s, RunIn::Started, now).0.phase == RunPhase::Over,
{
}

/// While a step is asked, every token is added to its answer and passed on; when
/// the answer is complete it joins the findings under the step's label, and the
/// next step is asked with them, or after the last one the canvas is.
pub proof fn law_answers_become_findings(s: RunState, text: Seq<char>, now: Moment)
    requires
        s.wf(),
        s.phase == RunPhase::Asking,
    ensures
        stepped(s, RunIn::Answer(ChatEvent::Token(text)), now) == (
            RunState { answer: s.answer + text, ..s },
            seq![RunOut::Emit(ChatEvent::Token(text))],
        ),
        stepped(s, RunIn::Answer(ChatEvent::Done), now) == stepped(s, RunIn::AnswerClosed, now),
        ({
            let (t, out) = stepped(s, RunIn::Answer(ChatEvent::Done), now);
            &&& t.at == s.at + 1
            &&& t.found == found_after(s.found, s.steps[s.at].label, s.answer)
            &&& t.answer.len() == 0
            &&& t.steps == s.steps && t.topic == s.topic
            &&& out.len() > 0 && out[0] == RunOut::Emit(
                ChatEvent::StepDone(s.steps[s.at].node_id),
            )
            &&& s.at + 1 < s.steps.len() ==> t.phase == RunPhase::Asking && out.len() == 4
                && out[2] == RunOut::Emit(
                ChatEvent::StepStart(s.steps[s.at + 1].node_id, s.steps[s.at + 1].label),
            ) && out[3] == RunOut::Ask(
                message_for(s.steps[s.at + 1].label, s.steps[s.at + 1].prompt, s.topic, t.found),
            )
            &&& s.at + 1 == s.steps.len() ==> t.phase == RunPhase::Canvas && out.len() == 3
                && out[1] == RunOut::SetStage(TaskStage::Merged) && out[2] == RunOut::Ask(
                canvas_request(t.found),
            )
        }),
        stepped(s, RunIn::Answer(ChatEvent::Error(text)), now) == (
            RunState { phase: RunPhase::Over, ..s },
            seq![RunOut::Emit(ChatEvent::Error(text))],
        ),
        stepped(s, RunIn::Unavailable, now) == (
            RunState { phase: RunPhase::Over, ..s },
            seq![RunOut::Emit(ChatEvent::Error("coordinator unavailable"@))],
        ),
{
}

/// The answer about the canvas is gathered in silence, written when it ends, and
/// ends the run; where nobody answers the run ends without it.
pub proof fn law_canvas_ends_the_run(s: RunState, text: Seq<char>, now: Moment)
    requires
        s.wf(),
        s.phase == RunPhase::Canvas,
    ensures
        stepped(s, RunIn::Answer(ChatEvent::Token(text)), now) == (
            RunState { answer: s.answer + text, ..s },
            Seq::<RunOut>::empty(),
        ),
        stepped(s, RunIn::Answer(ChatEvent::Done), now) == (
            RunState { phase: RunPhase::Over, ..s },
            seq![RunOut::WriteCanvas(s.answer), RunOut::Emit(ChatEvent::Done)],
        ),
        stepped(s, RunIn::AnswerClosed, now) == (
            RunState { phase: RunPhase::Over, ..s },
            seq![RunOut::WriteCanvas(s.answer), RunOut::Emit(ChatEvent::Done)],
        ),
        stepped(s, RunIn::Unavailable, now) == (
            RunState { phase: RunPhase::Over, ..s },
            seq![RunOut::Emit(ChatEvent::Done)],
        ),
{
}

/// The cursor of a task stands on the step that is asked, behind a move for each
/// step that was done, into the step that followed it.
pub proof fn law_cursor_follows_the_steps(steps: Seq<Step>, i: int, now: Moment, j: int)
    requires
        0 <= j < i < steps.len(),
    ensures
        shape_at(steps, i, now).node == steps[i].node_id,
        shape_at(steps, i, now).moves.len() == i,
        (shape_at(steps, i, now).moves[j]).1 == steps[j + 1].node_id,
        (shape_at(steps, i, now).moves[j]).2 == now,
        shape_at(steps, 0, now).moves.len() == 0,
        shape_at(steps, i, now).counters.len() == 0,
{
}

} // verus!
