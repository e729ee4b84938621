//! The context bot: the assistant that answers from within a view of the web
//! interface, and can send out a worker.

use crate::json::{
    array_field, field, lemma_field_is, members_of, object, optional_text, parse, parsed, pretty,
    render_pretty, stored, text, text_field, text_or_null, trees, Json, Tree,
};
use crate::text::{
    byte_len, can_clip, cat2, cat3, cat4, chars_of, clip, clipped, clips_evenly, contains,
    has_prefix, is_white, law_clip_keeps_the_longest_start, lemma_byte_len_take, lemma_holds_part,
    lemma_trim_solid, lines, lines_of, opt_text, same, starts_with, string_between, texts, trim,
    trimmed,
};
use crate::worker::{briefed_record, refuses, Refusal, Worker, WorkerState};
use vstd::prelude::*;

verus! {

/// The view from which a message to the context bot is sent.
pub struct ContextBotContext {
    pub view: String,
    pub entity_id: Option<String>,
    pub entity_snapshot: Option<Json>,
}

/// The model that answers: the one that the request asks for, else the
/// workspace's own, else the default.
pub fn choose_model(
    asked: &Option<String>,
    configured: &Option<String>,
    default_model: &str,
) -> (r: String)
    ensures
        r@ == match *asked {
            Some(m) => m@,
            None => match *configured {
                Some(m) => m@,
                None => default_model@,
            },
        },
{
    match asked {
        Some(m) => m.clone(),
        None => match configured {
            Some(m) => m.clone(),
            None => default_model.to_owned(),
        },
    }
}

// ---------------------------------------------------------------------------
// The system prompt
// ---------------------------------------------------------------------------

/// How the system prompt starts.
pub open spec fn prompt_opening() -> Seq<char> {
    "You are a context-aware assistant embedded in the apiari web UI. You help the user understand their project, investigate history, and decide what to do next.\n\n"@
}

/// How the system prompt ends.
pub open spec fn prompt_closing() -> Seq<char> {
    "\nYou have full tool access: use Bash to run git commands, grep, etc. Use Read to inspect files. The workspace root is your working directory.\n\nYou can also dispatch a new worker by responding with DISPATCH_WORKER: {goal} on its own line.\n\nBe concise. The user is a developer. Answer directly."@
}

/// The system prompt for a view, with the text that its snapshot is printed
/// as.
pub open spec fn system_prompt(
    view: Seq<char>,
    entity_id: Option<Seq<char>>,
    snapshot: Option<Seq<char>>,
    root: Seq<char>,
) -> Seq<char> {
    prompt_opening() + ("Workspace root: "@ + root + "\n"@) + ("Current view: "@ + view + "\n"@) + (
    match entity_id {
        Some(id) => "Focused on: "@ + id + "\n"@,
        None => seq![],
    }) + (match snapshot {
        Some(s) => "\nCurrent state snapshot:\n"@ + s + "\n"@,
        None => seq![],
    }) + prompt_closing()
}

/// The text that the snapshot of a view is printed as.
pub open spec fn snapshot_text(snapshot: Option<Json>) -> Option<Seq<char>> {
    match snapshot {
        Some(s) => Some(pretty(stored(s.tree()))),
        None => None,
    }
}

/// The system prompt for a view, with the text that its snapshot is printed
/// as.
pub fn system_prompt_with(ctx: &ContextBotContext, snapshot: &Option<String>, root: &str) -> (r:
    String)
    ensures
        r@ == system_prompt(ctx.view@, opt_text(ctx.entity_id), opt_text(*snapshot), root@),
{
    let mut prompt =
        "You are a context-aware assistant embedded in the apiari web UI. You help the user understand their project, investigate history, and decide what to do next.\n\n".to_owned();
    let place = cat3("Workspace root: ", root, "\n");
    prompt.push_str(place.as_str());
    let view = cat3("Current view: ", ctx.view.as_str(), "\n");
    prompt.push_str(view.as_str());
    let focus = match &ctx.entity_id {
        Some(id) => cat3("Focused on: ", id.as_str(), "\n"),
        None => String::new(),
    };
    prompt.push_str(focus.as_str());
    let state = match snapshot {
        Some(s) => cat3("\nCurrent state snapshot:\n", s.as_str(), "\n"),
        None => String::new(),
    };
    prompt.push_str(state.as_str());
    prompt.push_str(
        "\nYou have full tool access: use Bash to run git commands, grep, etc. Use Read to inspect files. The workspace root is your working directory.\n\nYou can also dispatch a new worker by responding with DISPATCH_WORKER: {goal} on its own line.\n\nBe concise. The user is a developer. Answer directly.",
    );
    prompt
}

/// The context bot's system prompt for a view of a workspace.
pub fn build_context_bot_system_prompt(ctx: &ContextBotContext, workspace_root: &str) -> (r: String)
    ensures
        r@ == system_prompt(
            ctx.view@,
            opt_text(ctx.entity_id),
            snapshot_text(ctx.entity_snapshot),
            workspace_root@,
        ),
{
    let snapshot = match &ctx.entity_snapshot {
        Some(s) => Some(render_pretty(s)),
        None => None,
    };
    system_prompt_with(ctx, &snapshot, workspace_root)
}

/// How many turns the context bot may take for one message.
pub const CONTEXT_BOT_MAX_TURNS: &'static str = "20";

/// The arguments that the model's command line is run with.
pub open spec fn bot_args(model: Seq<char>, system: Seq<char>) -> Seq<Seq<char>> {
    seq![
        "--print"@,
        "--output-format"@,
        "stream-json"@,
        "--verbose"@,
        "--max-turns"@,
        CONTEXT_BOT_MAX_TURNS@,
        "--model"@,
        model,
        "--system-prompt"@,
        system,
    ]
}

/// The arguments that the model's command line is run with. The message is not
/// among them: it is written to the standard input.
pub fn context_bot_args(model: &str, system: &str) -> (r: Vec<String>)
    ensures
        texts(r@) == bot_args(model@, system@),
{
    let r = vec![
        "--print".to_owned(),
        "--output-format".to_owned(),
        "stream-json".to_owned(),
        "--verbose".to_owned(),
        "--max-turns".to_owned(),
        CONTEXT_BOT_MAX_TURNS.to_owned(),
        "--model".to_owned(),
        model.to_owned(),
        "--system-prompt".to_owned(),
        system.to_owned(),
    ];
    proof {
        assert(texts(r@) =~= seq![
            "--print"@,
            "--output-format"@,
            "stream-json"@,
            "--verbose"@,
            "--max-turns"@,
            CONTEXT_BOT_MAX_TURNS@,
            "--model"@,
            model@,
            "--system-prompt"@,
            system@,
        ]);
    }
    r
}

/// How the model's command line is run.
pub struct ModelCall {
    pub args: Vec<String>,
    /// What is written to the standard input.
    pub stdin: String,
}

/// How the model is asked: the message goes to the standard input as it is, so
/// that nothing in it is read as an argument.
pub fn context_bot_call(model: &str, system: &str, message: &str) -> (r: ModelCall)
    ensures
        texts(r.args@) == bot_args(model@, system@),
        r.stdin@ == message@,
{
    ModelCall { args: context_bot_args(model, system), stdin: message.to_owned() }
}

// ---------------------------------------------------------------------------
// The answer, as it is streamed
// ---------------------------------------------------------------------------

/// The argument of a tool that tells what it is used for: the first of these
/// that the tool has.
pub open spec fn telling_argument(input: Tree) -> Option<Tree> {
    match field(input, "command"@) {
        Some(v) => Some(v),
        None => match field(input, "file_path"@) {
            Some(v) => Some(v),
            None => match field(input, "pattern"@) {
                Some(v) => Some(v),
                None => match field(input, "query"@) {
                    Some(v) => Some(v),
                    None => field(input, "url"@),
                },
            },
        },
    }
}

/// What a use of a tool is shown as: its name, and the first eighty bytes of
/// what it is used for.
pub open spec fn tool_activity(name: Seq<char>, input: Tree) -> Seq<char> {
    match telling_argument(input) {
        Some(Tree::Text(s)) => name + (": "@ + clip(s, 80)),
        _ => name,
    }
}

/// Whether what a tool is used for can be cut to its first eighty bytes.
pub open spec fn activity_fits(input: Tree) -> bool {
    match telling_argument(input) {
        Some(Tree::Text(s)) => clips_evenly(s, 80),
        _ => true,
    }
}

fn find_argument(input: &Json) -> (r: Option<&Json>)
    ensures
        match r {
            Some(v) => telling_argument(input.tree()) == Some(v.tree()),
            None => telling_argument(input.tree()) is None,
        },
{
    match input.get("command") {
        Some(v) => Some(v),
        None => match input.get("file_path") {
            Some(v) => Some(v),
            None => match input.get("pattern") {
                Some(v) => Some(v),
                None => match input.get("query") {
                    Some(v) => Some(v),
                    None => input.get("url"),
                },
            },
        },
    }
}

/// What a use of a tool is shown as.
pub fn format_tool_activity(name: &str, input: &Json) -> (r: String)
    requires
        activity_fits(input.tree()),
    ensures
        r@ == tool_activity(name@, input.tree()),
{
    match find_argument(input) {
        Some(v) => match v {
            Json::Text(s) => {
                let start = clipped(s.as_str(), 80);
                cat3(name, ": ", start.as_str())
            },
            _ => name.to_owned(),
        },
        None => name.to_owned(),
    }
}

/// The input of a tool in a block of the answer.
pub open spec fn block_input(block: Tree) -> Tree {
    match field(block, "input"@) {
        Some(v) => v,
        None => Tree::Null,
    }
}

/// The name of a tool in a block of the answer.
pub open spec fn block_tool(block: Tree) -> Seq<char> {
    match text_field(block, "name"@) {
        Some(s) => s,
        None => "tool"@,
    }
}

/// The text that a block adds to the answer.
pub open spec fn block_text(block: Tree) -> Seq<char> {
    if text_field(block, "type"@) == Some("text"@) {
        match text_field(block, "text"@) {
            Some(s) => s,
            None => seq![],
        }
    } else {
        seq![]
    }
}

/// The uses of tools that blocks of the answer show.
pub open spec fn block_activities(blocks: Seq<Tree>) -> Seq<Seq<char>>
    decreases blocks.len(),
{
    if blocks.len() == 0 {
        seq![]
    } else {
        let rest = block_activities(blocks.drop_last());
        let b = blocks.last();
        if text_field(b, "type"@) == Some("tool_use"@) {
            rest.push(tool_activity(block_tool(b), block_input(b)))
        } else {
            rest
        }
    }
}

/// The text that blocks of the answer add to it.
pub open spec fn block_texts(blocks: Seq<Tree>) -> Seq<char>
    decreases blocks.len(),
{
    if blocks.len() == 0 {
        seq![]
    } else {
        block_texts(blocks.drop_last()) + block_text(blocks.last())
    }
}

/// The blocks of a message of the assistant.
pub open spec fn blocks_of(value: Tree) -> Option<Seq<Tree>> {
    if text_field(value, "type"@) == Some("assistant"@) {
        match field(value, "message"@) {
            Some(m) => array_field(m, "content"@),
            None => None,
        }
    } else {
        None
    }
}

/// The final text of an answer.
pub open spec fn result_of(value: Tree) -> Option<Seq<char>> {
    if text_field(value, "type"@) == Some("result"@) {
        text_field(value, "result"@)
    } else {
        None
    }
}

/// The answer so far, after one more event: the assistant's texts add to it,
/// and the final text takes its place.
pub open spec fn answer_after(answer: Seq<char>, value: Tree) -> Seq<char> {
    match blocks_of(value) {
        Some(blocks) => answer + block_texts(blocks),
        None => match result_of(value) {
            Some(s) => s,
            None => answer,
        },
    }
}

/// The uses of tools that an event shows.
pub open spec fn activities_of(value: Tree) -> Seq<Seq<char>> {
    match blocks_of(value) {
        Some(blocks) => block_activities(blocks),
        None => seq![],
    }
}

/// Whether all uses of tools that an event shows can be cut.
pub open spec fn activities_fit(value: Tree) -> bool {
    match blocks_of(value) {
        Some(blocks) => forall|i: int|
            0 <= i < blocks.len() && text_field(#[trigger] blocks[i], "type"@) == Some(
                "tool_use"@,
            ) ==> activity_fits(block_input(blocks[i])),
        None => true,
    }
}

/// An answer of the context bot, as far as it has been streamed.
pub struct AnswerStream {
    pub answer: String,
    /// Whether an event has been read.
    pub events: bool,
}

impl AnswerStream {
    /// What the events have answered so far.
    pub open spec fn told(self) -> Seq<char> {
        if self.events {
            self.answer@
        } else {
            Seq::empty()
        }
    }
}

/// The event that a line of the model's output tells: none where it is empty
/// or not JSON.
pub open spec fn event_in(line: Seq<char>) -> Option<Tree> {
    if line.len() == 0 {
        None
    } else {
        parsed(line)
    }
}

/// The answer so far, after a line of plain text: it adds to the answer as a
/// line, but nothing comes before the first line that holds anything.
pub open spec fn answer_after_text(answer: Seq<char>, line: Seq<char>) -> Seq<char> {
    if answer.len() == 0 {
        line
    } else {
        answer + "\n"@ + line
    }
}

fn is_type(value: &Json, word: &str) -> (r: bool)
    ensures
        r == (text_field(value.tree(), "type"@) == Some(word@)),
{
    match value.text_field("type") {
        Some(t) => same(t.as_str(), word),
        None => false,
    }
}

fn find_blocks(value: &Json) -> (r: Option<&Vec<Json>>)
    ensures
        match r {
            Some(items) => blocks_of(value.tree()) == Some(trees(items@)),
            None => blocks_of(value.tree()) is None,
        },
{
    if is_type(value, "assistant") {
        match value.get("message") {
            Some(m) => m.array_field("content"),
            None => None,
        }
    } else {
        None
    }
}

fn block_fits(block: &Json) -> (r: bool)
    ensures
        r == (text_field(block.tree(), "type"@) == Some("tool_use"@) ==> activity_fits(
            block_input(block.tree()),
        )),
{
    if !is_type(block, "tool_use") {
        return true;
    }
    match block.get("input") {
        Some(input) => match find_argument(input) {
            Some(v) => match v {
                Json::Text(s) => can_clip(s.as_str(), 80),
                _ => true,
            },
            None => true,
        },
        None => true,
    }
}

/// Whether all uses of tools that an event shows can be cut.
pub fn event_fits(value: &Json) -> (r: bool)
    ensures
        r == activities_fit(value.tree()),
{
    match find_blocks(value) {
        Some(blocks) => {
            let ghost all = trees(blocks@);
            let n: usize = blocks.len();
            let mut i: usize = 0;
            while i < n
                invariant
                    n == blocks@.len(),
                    all == trees(blocks@),
                    blocks_of(value.tree()) == Some(all),
                    0 <= i <= n,
                    forall|j: int|
                        0 <= j < i && text_field(#[trigger] all[j], "type"@) == Some(
                            "tool_use"@,
                        ) ==> activity_fits(block_input(all[j])),
                decreases n - i,
            {
                proof {
                    assert(all[i as int] == blocks@[i as int].tree());
                }
                if !block_fits(&blocks[i]) {
                    return false;
                }
                i = i + 1;
            }
            true
        },
        None => true,
    }
}

impl AnswerStream {
    /// An answer of which nothing has come yet.
    pub fn new() -> (r: AnswerStream)
        ensures
            r.answer@ == Seq::<char>::empty(),
            !r.events,
    {
        AnswerStream { answer: String::new(), events: false }
    }

    /// Takes in an event, and returns the uses of tools that it shows. Plain
    /// text that came before the first event counts for nothing.
    pub fn take(&mut self, value: &Json) -> (r: Vec<String>)
        requires
            activities_fit(value.tree()),
        ensures
            final(self).answer@ == answer_after(old(self).told(), value.tree()),
            final(self).events,
            texts(r@) == activities_of(value.tree()),
    {
        if !self.events {
            self.answer = String::new();
            self.events = true;
        }
        proof {
            assert(self.answer@ =~= old(self).told());
        }
        let mut shown: Vec<String> = Vec::new();
        match find_blocks(value) {
            Some(blocks) => {
                let ghost all = trees(blocks@);
                let ghost before = self.answer@;
                let mut answer = self.answer.clone();
                let n: usize = blocks.len();
                let mut i: usize = 0;
                proof {
                    assert(texts(shown@) =~= block_activities(all.take(0)));
                    assert(before + block_texts(all.take(0)) =~= before);
                }
                while i < n
                    invariant
                        n == blocks@.len(),
                        all == trees(blocks@),
                        0 <= i <= n,
                        forall|j: int|
                            0 <= j < all.len() && text_field(#[trigger] all[j], "type"@) == Some(
                                "tool_use"@,
                            ) ==> activity_fits(block_input(all[j])),
                        texts(shown@) == block_activities(all.take(i as int)),
                        answer@ == before + block_texts(all.take(i as int)),
                    decreases n - i,
                {
                    let block = &blocks[i];
                    proof {
                        assert(all.take(i + 1).drop_last() =~= all.take(i as int));
                        assert(all.take(i + 1).last() == block.tree());
                        assert(all[i as int] == block.tree());
                        reveal_strlit("tool_use");
                        reveal_strlit("text");
                        assert("tool_use"@.len() != "text"@.len());
                    }
                    let ghost so_far = block_texts(all.take(i as int));
                    if is_type(block, "tool_use") {
                        let name = match block.text_field("name") {
                            Some(s) => s,
                            None => "tool".to_owned(),
                        };
                        let null = Json::Null;
                        let input = match block.get("input") {
                            Some(v) => v,
                            None => &null,
                        };
                        let line = format_tool_activity(name.as_str(), input);
                        proof {
                            assert(texts(shown@.push(line)) =~= texts(shown@).push(line@));
                            assert(so_far + block_text(block.tree()) =~= so_far);
                        }
                        shown.push(line);
                    } else if is_type(block, "text") {
                        let more = match block.text_field("text") {
                            Some(s) => s,
                            None => String::new(),
                        };
                        proof {
                            assert((before + so_far) + more@ =~= before + (so_far + more@));
                        }
                        answer.push_str(more.as_str());
                    } else {
                        proof {
                            assert(so_far + block_text(block.tree()) =~= so_far);
                        }
                    }
                    i = i + 1;
                }
                proof {
                    assert(all.take(n as int) =~= all);
                }
                self.answer = answer;
            },
            None => {
                if is_type(value, "result") {
                    if let Some(s) = value.text_field("result") {
                        self.answer = s;
                    }
                }
                proof {
                    assert(texts(shown@) =~= seq![]);
                }
            },
        }
        shown
    }

    /// Takes in a line of plain text: the answer of a model that tells no
    /// events.
    pub fn take_text(&mut self, line: &str)
        ensures
            final(self).events == old(self).events,
            final(self).answer@ == if old(self).events {
                old(self).answer@
            } else {
                answer_after_text(old(self).answer@, line@)
            },
    {
        if self.events {
            return;
        }
        if self.answer.as_str().is_empty() {
            self.answer = line.to_owned();
        } else {
            let longer = cat3(self.answer.as_str(), "\n", line);
            self.answer = longer;
        }
    }

    /// Takes in a line of the model's output: an event, or plain text. Returns
    /// the uses of tools that it shows; nothing, and the answer is as it was,
    /// where one of them cannot be cut.
    pub fn take_line(&mut self, line: &str) -> (r: Option<Vec<String>>)
        ensures
            match event_in(line@) {
                Some(value) => if activities_fit(value) {
                    &&& r is Some
                    &&& texts(r->0@) == activities_of(value)
                    &&& final(self).answer@ == answer_after(old(self).told(), value)
                    &&& final(self).events
                } else {
                    r is None && *final(self) == *old(self)
                },
                None => {
                    &&& r is Some
                    &&& r->0@.len() == 0
                    &&& final(self).events == old(self).events
                    &&& final(self).answer@ == if old(self).events {
                        old(self).answer@
                    } else {
                        answer_after_text(old(self).answer@, line@)
                    }
                },
            },
    {
        if line.is_empty() {
            self.take_text(line);
            return Some(Vec::new());
        }
        match parse(line) {
            Some(value) => {
                if event_fits(&value) {
                    Some(self.take(&value))
                } else {
                    None
                }
            },
            None => {
                self.take_text(line);
                Some(Vec::new())
            },
        }
    }
}

// ---------------------------------------------------------------------------
// The end of an answer
// ---------------------------------------------------------------------------

/// What became of running the model.
pub enum ModelRun {
    /// Its command line is not installed.
    Missing,
    /// It ended: whether well, and what it had answered.
    Ended { success: bool, answer: String },
    /// It could not be run, for this reason.
    Failed { error: String },
    /// It took too long.
    TimedOut,
}

/// The answer of the context bot, or why there is none. `agent` is the command
/// line that runs the model.
pub fn answer_of(run: &ModelRun, agent: &str) -> (r: Result<String, Refusal>)
    ensures
        match *run {
            ModelRun::Missing => r is Err && refuses(r->Err_0, 503, agent@ + " CLI not available"@),
            ModelRun::Ended { success, answer } => if success {
                r is Ok && r->Ok_0@ == trim(answer@)
            } else {
                r is Err && refuses(r->Err_0, 500, agent@ + " exited non-zero: "@ + answer@)
            },
            ModelRun::Failed { error } => r is Err && refuses(
                r->Err_0,
                503,
                "failed to run "@ + agent@ + ": "@ + error@,
            ),
            ModelRun::TimedOut => r is Err && refuses(
                r->Err_0,
                504,
                agent@ + " timed out after 300s"@,
            ),
        },
{
    match run {
        ModelRun::Missing => Err(
            Refusal { status: 503, error: cat2(agent, " CLI not available") },
        ),
        ModelRun::Ended { success, answer } => if *success {
            Ok(trimmed(answer.as_str()))
        } else {
            Err(Refusal { status: 500, error: cat3(agent, " exited non-zero: ", answer.as_str()) })
        },
        ModelRun::Failed { error } => Err(
            Refusal { status: 503, error: cat4("failed to run ", agent, ": ", error.as_str()) },
        ),
        ModelRun::TimedOut => Err(
            Refusal { status: 504, error: cat2(agent, " timed out after 300s") },
        ),
    }
}

/// The goal that a line gives a new worker.
pub open spec fn goal_in_line(line: Seq<char>) -> Option<Seq<char>> {
    let t = trim(line);
    if starts_with(t, "DISPATCH_WORKER:"@) && trim(t.skip(16)).len() > 0 {
        Some(trim(t.skip(16)))
    } else {
        None
    }
}

/// The goal that the first such line gives a new worker.
pub open spec fn goal_in_lines(list: Seq<Seq<char>>) -> Option<Seq<char>>
    decreases list.len(),
{
    if list.len() == 0 {
        None
    } else {
        match goal_in_line(list[0]) {
            Some(goal) => Some(goal),
            None => goal_in_lines(list.drop_first()),
        }
    }
}

fn find_goal(line: &str) -> (r: Option<String>)
    ensures
        opt_text(r) == goal_in_line(line@),
{
    let t = trimmed(line);
    if has_prefix(t.as_str(), "DISPATCH_WORKER:") {
        let v = chars_of(t.as_str());
        proof {
            reveal_strlit("DISPATCH_WORKER:");
            assert(t@.skip(16) =~= v@.subrange(16, v@.len() as int));
        }
        let rest = string_between(&v, 16, v.len());
        let goal = trimmed(rest.as_str());
        if goal.as_str().is_empty() {
            None
        } else {
            Some(goal)
        }
    } else {
        None
    }
}

/// The goal of the worker that an answer sends out, where it sends out one.
pub fn dispatched_goal(answer: &str) -> (r: Option<String>)
    ensures
        opt_text(r) == goal_in_lines(lines(answer@)),
{
    let list = lines_of(answer);
    let ghost all = texts(list@);
    let n: usize = list.len();
    let mut i: usize = 0;
    proof {
        assert(all.skip(0) =~= all);
    }
    while i < n
        invariant
            n == list@.len(),
            all == texts(list@),
            all == lines(answer@),
            0 <= i <= n,
            goal_in_lines(all) == goal_in_lines(all.skip(i as int)),
        decreases n - i,
    {
        let goal = find_goal(list[i].as_str());
        proof {
            assert(all.skip(i as int)[0] == list@[i as int]@);
            assert(all.skip(i as int).drop_first() =~= all.skip(i + 1));
        }
        if goal.is_some() {
            return goal;
        }
        i = i + 1;
    }
    None
}

/// The brief of a worker that the context bot sends out.
pub open spec fn dispatch_brief(ctx: ContextBotContext, goal: Seq<char>) -> Tree {
    Tree::Object(
        seq![
            ("goal"@, Tree::Text(goal)),
            (
                "context"@,
                Tree::Object(
                    seq![
                        ("view"@, Tree::Text(ctx.view@)),
                        ("entity_id"@, text_or_null(opt_text(ctx.entity_id))),
                        (
                            "snapshot"@,
                            match ctx.entity_snapshot {
                                Some(s) => s.tree(),
                                None => Tree::Null,
                            },
                        ),
                    ],
                ),
            ),
            ("constraints"@, Tree::Array(seq![])),
            ("acceptance_criteria"@, Tree::Array(seq![])),
            ("review_mode"@, Tree::Text("local_first"@)),
        ],
    )
}

/// The brief of a worker that the context bot sends out.
pub fn build_dispatch_brief(ctx: &ContextBotContext, goal: &str) -> (r: Json)
    ensures
        r.tree() == dispatch_brief(*ctx, goal@),
{
    let snapshot = match &ctx.entity_snapshot {
        Some(s) => s.copy(),
        None => Json::Null,
    };
    let context = object().with("view", text(ctx.view.as_str())).with(
        "entity_id",
        optional_text(&ctx.entity_id),
    ).with("snapshot", snapshot);
    let r = object().with("goal", text(goal)).with("context", context).with(
        "constraints",
        crate::json::array(),
    ).with("acceptance_criteria", crate::json::array()).with("review_mode", text("local_first"));
    proof {
        let inner = dispatch_brief(*ctx, goal@)->Object_0[1].1->Object_0;
        assert(members_of(context.tree()) =~= inner);
        assert(members_of(r.tree()) =~= dispatch_brief(*ctx, goal@)->Object_0);
    }
    r
}

/// The record of a worker that the context bot sends out.
pub fn dispatch_record(
    ctx: &ContextBotContext,
    goal: &str,
    id: &str,
    workspace: &str,
    repo: &str,
    now: &str,
) -> (r: Worker)
    ensures
        briefed_record(
            r,
            id@,
            workspace@,
            now@,
            dispatch_brief(*ctx, goal@),
            repo@,
            Some(goal@),
            "local_first"@,
            "codex"@,
            None,
        ),
{
    Worker {
        id: id.to_owned(),
        workspace: workspace.to_owned(),
        state: WorkerState::Briefed,
        brief: Some(build_dispatch_brief(ctx, goal)),
        repo: Some(repo.to_owned()),
        branch: None,
        goal: Some(goal.to_owned()),
        tests_passing: false,
        branch_ready: false,
        pr_url: None,
        pr_approved: false,
        ci_passing: None,
        is_stalled: false,
        revision_count: 0,
        review_mode: "local_first".to_owned(),
        blocked_reason: None,
        display_title: None,
        last_output_at: None,
        state_entered_at: now.to_owned(),
        created_at: now.to_owned(),
        updated_at: now.to_owned(),
        worktree_path: None,
        isolation_mode: None,
        agent_kind: Some("codex".to_owned()),
        model: None,
        repo_path: None,
        label: String::new(),
    }
}

/// The context bot's answer to the web interface.
pub open spec fn chat_response(
    response: Seq<char>,
    session_id: Seq<char>,
    model: Seq<char>,
    worker_id: Option<Seq<char>>,
) -> Tree {
    let base = seq![
        ("response"@, Tree::Text(response)),
        ("session_id"@, Tree::Text(session_id)),
        ("model"@, Tree::Text(model)),
    ];
    Tree::Object(
        match worker_id {
            Some(id) => base.push(("dispatched_worker_id"@, Tree::Text(id))),
            None => base,
        },
    )
}

/// The context bot's answer to the web interface. The worker that was sent out
/// is named only where there is one.
pub struct ContextBotChatResponse {
    pub response: String,
    pub session_id: String,
    pub model: String,
    pub dispatched_worker_id: Option<String>,
}

impl ContextBotChatResponse {
    /// The answer to a message: the session goes on under the name that the
    /// request gives it, or starts under a fresh one.
    pub fn new(
        answer: &str,
        session: &Option<String>,
        fresh_session: &str,
        model: &str,
        dispatched_worker_id: Option<String>,
    ) -> (r: ContextBotChatResponse)
        ensures
            r.response@ == answer@,
            r.session_id@ == match *session {
                Some(s) => s@,
                None => fresh_session@,
            },
            r.model@ == model@,
            r.dispatched_worker_id == dispatched_worker_id,
    {
        let session_id = match session {
            Some(s) => s.clone(),
            None => fresh_session.to_owned(),
        };
        ContextBotChatResponse {
            response: answer.to_owned(),
            session_id,
            model: model.to_owned(),
            dispatched_worker_id,
        }
    }

    /// The answer as the web interface gets it.
    pub fn to_json(&self) -> (r: Json)
        ensures
            r.tree() == chat_response(
                self.response@,
                self.session_id@,
                self.model@,
                opt_text(self.dispatched_worker_id),
            ),
    {
        let base = object().with("response", text(self.response.as_str())).with(
            "session_id",
            text(self.session_id.as_str()),
        ).with("model", text(self.model.as_str()));
        proof {
            assert(members_of(base.tree()) =~= seq![
                ("response"@, Tree::Text(self.response@)),
                ("session_id"@, Tree::Text(self.session_id@)),
                ("model"@, Tree::Text(self.model@)),
            ]);
        }
        match &self.dispatched_worker_id {
            Some(id) => base.with("dispatched_worker_id", text(id.as_str())),
            None => base,
        }
    }
}

// ---------------------------------------------------------------------------
// Laws
// ---------------------------------------------------------------------------

/// The bot is told where the workspace lies, which view the user looks at, what
/// the view is focused on and what it shows, as far as there is anything, and
/// how it can send out a worker.
pub proof fn law_prompt_tells_the_context(
    view: Seq<char>,
    entity_id: Option<Seq<char>>,
    snapshot: Option<Seq<char>>,
    root: Seq<char>,
)
    ensures
        contains(system_prompt(view, entity_id, snapshot, root), "Workspace root: "@ + root + "\n"@),
        contains(system_prompt(view, entity_id, snapshot, root), "Current view: "@ + view + "\n"@),
        entity_id is Some ==> contains(
            system_prompt(view, entity_id, snapshot, root),
            "Focused on: "@ + entity_id->0 + "\n"@,
        ),
        snapshot is Some ==> contains(
            system_prompt(view, entity_id, snapshot, root),
            "\nCurrent state snapshot:\n"@ + snapshot->0 + "\n"@,
        ),
        contains(
            system_prompt(view, entity_id, snapshot, root),
            "DISPATCH_WORKER: {goal} on its own line"@,
        ),
{
    let all = system_prompt(view, entity_id, snapshot, root);
    let a = prompt_opening();
    let b = "Workspace root: "@ + root + "\n"@;
    let c = "Current view: "@ + view + "\n"@;
    let d = match entity_id {
        Some(id) => "Focused on: "@ + id + "\n"@,
        None => seq![],
    };
    let e = match snapshot {
        Some(s) => "\nCurrent state snapshot:\n"@ + s + "\n"@,
        None => seq![],
    };
    let f = prompt_closing();
    lemma_holds_part(a, b, c + d + e + f);
    lemma_holds_part(a + b, c, d + e + f);
    lemma_holds_part(a + b + c, d, e + f);
    lemma_holds_part(a + b + c + d, e, f);
    assert(all =~= a + b + (c + d + e + f));
    assert(all =~= a + b + c + (d + e + f));
    assert(all =~= a + b + c + d + (e + f));
    let words = "DISPATCH_WORKER: {goal} on its own line"@;
    let lead =
        "\nYou have full tool access: use Bash to run git commands, grep, etc. Use Read to inspect files. The workspace root is your working directory.\n\nYou can also dispatch a new worker by responding with "@;
    let rest = ".\n\nBe concise. The user is a developer. Answer directly."@;
    reveal_strlit("DISPATCH_WORKER: {goal} on its own line");
    reveal_strlit(
        "\nYou have full tool access: use Bash to run git commands, grep, etc. Use Read to inspect files. The workspace root is your working directory.\n\nYou can also dispatch a new worker by responding with ",
    );
    reveal_strlit(".\n\nBe concise. The user is a developer. Answer directly.");
    reveal_strlit(
        "\nYou have full tool access: use Bash to run git commands, grep, etc. Use Read to inspect files. The workspace root is your working directory.\n\nYou can also dispatch a new worker by responding with DISPATCH_WORKER: {goal} on its own line.\n\nBe concise. The user is a developer. Answer directly.",
    );
    assert(f =~= lead + words + rest);
    lemma_holds_part(a + b + c + d + e + lead, words, rest);
    assert(all =~= a + b + c + d + e + lead + words + rest);
}

/// The model that was chosen answers, under the prompt that tells the context.
pub proof fn law_call_names_model_and_prompt(model: Seq<char>, system: Seq<char>)
    ensures
        exists|i: int|
            0 <= i < bot_args(model, system).len() - 1 && #[trigger] bot_args(model, system)[i]
                == "--model"@ && bot_args(model, system)[i + 1] == model,
        exists|i: int|
            0 <= i < bot_args(model, system).len() - 1 && #[trigger] bot_args(model, system)[i]
                == "--system-prompt"@ && bot_args(model, system)[i + 1] == system,
        bot_args(model, system)[0] == "--print"@,
{
    assert(bot_args(model, system)[6] == "--model"@);
    assert(bot_args(model, system)[8] == "--system-prompt"@);
}

/// A worker is sent out for the goal of the first line that asks for one, in
/// whatever lines stand around it.
pub proof fn law_first_dispatch_line_counts(
    before: Seq<Seq<char>>,
    goal: Seq<char>,
    after: Seq<Seq<char>>,
)
    requires
        goal.len() > 0,
        !is_white(goal[0]),
        !is_white(goal.last()),
        forall|i: int|
            0 <= i < before.len() ==> !starts_with(
                trim(#[trigger] before[i]),
                "DISPATCH_WORKER:"@,
            ),
    ensures
        goal_in_lines(before + seq!["DISPATCH_WORKER: "@ + goal] + after) == Some(goal),
        goal_in_lines(before) is None,
    decreases before.len(),
{
    reveal_strlit("DISPATCH_WORKER:");
    reveal_strlit("DISPATCH_WORKER: ");
    let line = "DISPATCH_WORKER: "@ + goal;
    let all = before + seq![line] + after;
    if before.len() == 0 {
        assert(all[0] == line);
        assert(line[0] == 'D');
        assert(line.last() == goal.last());
        lemma_trim_solid(line);
        assert(line.subrange(0, 16) =~= "DISPATCH_WORKER:"@);
        let rest = line.skip(16);
        assert(rest =~= seq![' '] + goal);
        crate::text::lemma_trim_start(rest, 1);
        assert(rest.skip(1) =~= goal);
        crate::text::lemma_trim_end(goal, goal.len() as int);
        assert(goal.take(goal.len() as int) =~= goal);
    } else {
        let t = before.drop_first();
        assert(all[0] == before[0]);
        assert(all.drop_first() =~= t + seq![line] + after);
        assert forall|i: int| 0 <= i < t.len() implies !starts_with(
            trim(#[trigger] t[i]),
            "DISPATCH_WORKER:"@,
        ) by {
            assert(t[i] == before[i + 1]);
        }
        law_first_dispatch_line_counts(t, goal, after);
    }
}

/// The worker that is sent out is told the goal, the view and what it is
/// focused on, and is to be reviewed locally first.
pub proof fn law_brief_tells_goal_and_view(ctx: ContextBotContext, goal: Seq<char>)
    ensures
        text_field(dispatch_brief(ctx, goal), "goal"@) == Some(goal),
        field(dispatch_brief(ctx, goal), "context"@) is Some,
        text_field(field(dispatch_brief(ctx, goal), "context"@)->0, "view"@) == Some(ctx.view@),
        ctx.entity_id is Some ==> text_field(
            field(dispatch_brief(ctx, goal), "context"@)->0,
            "entity_id"@,
        ) == Some(ctx.entity_id->0@),
        ctx.entity_snapshot is Some ==> field(
            field(dispatch_brief(ctx, goal), "context"@)->0,
            "snapshot"@,
        ) == Some(ctx.entity_snapshot->0.tree()),
        text_field(dispatch_brief(ctx, goal), "review_mode"@) == Some("local_first"@),
{
    reveal_strlit("goal");
    reveal_strlit("context");
    reveal_strlit("constraints");
    reveal_strlit("acceptance_criteria");
    reveal_strlit("review_mode");
    reveal_strlit("view");
    reveal_strlit("entity_id");
    reveal_strlit("snapshot");
    assert("goal"@[0] == 'g' && "context"@[0] == 'c' && "context"@[3] == 't');
    assert("constraints"@[0] == 'c' && "acceptance_criteria"@[0] == 'a');
    assert("review_mode"@[0] == 'r' && "view"@[0] == 'v' && "entity_id"@[0] == 'e');
    assert("snapshot"@[0] == 's');
    let brief = dispatch_brief(ctx, goal);
    lemma_field_is(brief, "goal"@, 0);
    lemma_field_is(brief, "context"@, 1);
    lemma_field_is(brief, "review_mode"@, 4);
    let inner = brief->Object_0[1].1;
    lemma_field_is(inner, "view"@, 0);
    lemma_field_is(inner, "entity_id"@, 1);
    lemma_field_is(inner, "snapshot"@, 2);
}

/// What is answered holds the bot's words, the session and the model; the
/// worker that was sent out is named exactly where there is one.
pub proof fn law_response_tells_all(
    response: Seq<char>,
    session_id: Seq<char>,
    model: Seq<char>,
    worker_id: Option<Seq<char>>,
)
    ensures
        text_field(chat_response(response, session_id, model, worker_id), "response"@) == Some(
            response,
        ),
        text_field(chat_response(response, session_id, model, worker_id), "session_id"@) == Some(
            session_id,
        ),
        text_field(chat_response(response, session_id, model, worker_id), "model"@) == Some(model),
        text_field(
            chat_response(response, session_id, model, worker_id),
            "dispatched_worker_id"@,
        ) == worker_id,
{
    reveal_strlit("response");
    reveal_strlit("session_id");
    reveal_strlit("model");
    reveal_strlit("dispatched_worker_id");
    assert("response"@[0] == 'r' && "session_id"@[0] == 's' && "model"@[0] == 'm');
    assert("dispatched_worker_id"@[0] == 'd');
    let all = chat_response(response, session_id, model, worker_id);
    lemma_field_is(all, "response"@, 0);
    lemma_field_is(all, "session_id"@, 1);
    lemma_field_is(all, "model"@, 2);
    if worker_id is Some {
        lemma_field_is(all, "dispatched_worker_id"@, 3);
    } else {
        crate::json::lemma_member_at(all->Object_0, "dispatched_worker_id"@);
    }
}

/// The answer is what the final event says; before it comes, it is what the
/// assistant's texts add up to, one after the other. Events of other kinds
/// change nothing and show nothing.
pub proof fn law_answer_gathers_the_texts(answer: Seq<char>, event: Tree, block: Tree, s: Seq<char>)
    ensures
        text_field(event, "type"@) == Some("result"@) && text_field(event, "result"@) == Some(s)
            ==> answer_after(answer, event) == s && activities_of(event).len() == 0,
        text_field(event, "type"@) != Some("result"@) && text_field(event, "type"@) != Some(
            "assistant"@,
        ) ==> answer_after(answer, event) == answer && activities_of(event).len() == 0,
        text_field(event, "type"@) == Some("assistant"@) && field(event, "message"@) is Some
            && array_field(field(event, "message"@)->0, "content"@) == Some(seq![block]) ==> {
            &&& text_field(block, "type"@) == Some("text"@) && text_field(block, "text"@) == Some(s)
                ==> answer_after(answer, event) == answer + s && activities_of(event).len() == 0
            &&& text_field(block, "type"@) == Some("tool_use"@) ==> answer_after(answer, event)
                == answer && activities_of(event).len() == 1
        },
{
    reveal_strlit("result");
    reveal_strlit("assistant");
    reveal_strlit("text");
    reveal_strlit("tool_use");
    assert("result"@[0] == 'r' && "assistant"@[0] == 'a');
    assert("text"@[1] == 'e' && "tool_use"@[1] == 'o');
    assert(seq![block].drop_last() =~= seq![]);
    assert(block_texts(seq![block].drop_last()) =~= seq![]);
    assert(block_activities(seq![block].drop_last()) =~= seq![]);
    assert(seq![] + block_text(block) =~= block_text(block));
    assert(block_texts(seq![block]) =~= block_text(block));
    assert(answer + seq![] =~= answer);
}

/// The texts of more blocks are the texts of the first and those of the rest,
/// and so are the uses of tools.
pub proof fn law_blocks_add_up(a: Seq<Tree>, b: Seq<Tree>)
    ensures
        block_texts(a + b) == block_texts(a) + block_texts(b),
        block_activities(a + b) == block_activities(a) + block_activities(b),
    decreases b.len(),
{
    if b.len() == 0 {
        assert(a + b =~= a);
        assert(block_texts(a) + block_texts(b) =~= block_texts(a));
        assert(block_activities(a) + block_activities(b) =~= block_activities(a));
    } else {
        law_blocks_add_up(a, b.drop_last());
        assert((a + b).drop_last() =~= a + b.drop_last());
        assert((a + b).last() == b.last());
        assert(block_texts(a + b) =~= block_texts(a) + block_texts(b));
        assert(block_activities(a + b) =~= block_activities(a) + block_activities(b));
    }
}

/// The use of a tool is shown under its name, with the command that it runs,
/// else the file, the pattern, the query or the address that it works on.
pub proof fn law_tool_use_tells_its_argument(name: Seq<char>, input: Tree, s: Seq<char>)
    requires
        byte_len(s) <= 80,
    ensures
        text_field(input, "command"@) == Some(s) ==> tool_activity(name, input) == name + (": "@
            + s),
        field(input, "command"@) is None && text_field(input, "file_path"@) == Some(s)
            ==> tool_activity(name, input) == name + (": "@ + s),
        field(input, "command"@) is None && field(input, "file_path"@) is None && text_field(
            input,
            "pattern"@,
        ) == Some(s) ==> tool_activity(name, input) == name + (": "@ + s),
        field(input, "command"@) is None && field(input, "file_path"@) is None && field(
            input,
            "pattern"@,
        ) is None && text_field(input, "query"@) == Some(s) ==> tool_activity(name, input) == name
            + (": "@ + s),
        field(input, "command"@) is None && field(input, "file_path"@) is None && field(
            input,
            "pattern"@,
        ) is None && field(input, "query"@) is None && text_field(input, "url"@) == Some(s)
            ==> tool_activity(name, input) == name + (": "@ + s),
        field(input, "command"@) is None && field(input, "file_path"@) is None && field(
            input,
            "pattern"@,
        ) is None && field(input, "query"@) is None && field(input, "url"@) is None
            ==> tool_activity(name, input) == name,
{
    law_clip_keeps_the_longest_start(s, 80);
    let c = clip(s, 80);
    if c.len() < s.len() {
        lemma_byte_len_take(s, c.len() as int + 1);
    }
    assert(c =~= s);
}

/// Plain text is taken line by line, with a line break between each two.
pub proof fn law_plain_lines_are_joined(answer: Seq<char>, line: Seq<char>)
    ensures
        answer.len() > 0 ==> answer_after_text(answer, line) == answer + "\n"@ + line,
        answer_after_text(Seq::<char>::empty(), line) == line,
        event_in(Seq::<char>::empty()) is None,
        line.len() > 0 ==> event_in(line) == parsed(line),
{
}

/// A line asks for a worker by its mark, whether or not a space follows it, and
/// the rest is the goal.
pub proof fn law_goal_follows_the_mark(goal: Seq<char>)
    requires
        goal.len() > 0,
        !is_white(goal[0]),
        !is_white(goal.last()),
    ensures
        goal_in_line("DISPATCH_WORKER:"@ + goal) == Some(goal),
{
    reveal_strlit("DISPATCH_WORKER:");
    let m = "DISPATCH_WORKER:"@;
    let s = m + goal;
    assert(m[0] == 'D' && m.len() == 16);
    assert(s[0] == 'D' && s.last() == goal.last());
    lemma_trim_solid(s);
    lemma_trim_solid(goal);
    assert(s.subrange(0, 16) =~= m);
    assert(s.skip(16) =~= goal);
}

} // verus!
