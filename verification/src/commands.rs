//! Chat messages and slash commands, from Telegram and from terminal clients.

use crate::action::{
    activity, acts, done, failure, only_if, plan, send, token, Act, Action, ChatTarget,
    CoordinatorJob, Job, Response,
};
use crate::config::CommandConfig;
use crate::text::{
    before, cat2, cat3, cat4, chars_of, contains, join, joined, lemma_before_is, lines, lines_of,
    occurs_at, same, starts_with, string_between, texts, trim, trimmed,
};
use vstd::prelude::*;

verus! {

/// The script that installs the latest daemon and worker manager.
pub open spec fn update_script() -> Seq<char> {
    "source /Users/josh/.cargo/env 2>/dev/null; /Users/josh/.cargo/bin/cargo install --force apiari 2>&1 && codesign -f -s - /Users/josh/.cargo/bin/apiari 2>&1 && /Users/josh/.cargo/bin/cargo install --force swarm 2>&1 && codesign -f -s - /Users/josh/.cargo/bin/swarm 2>&1"@
}

/// The commands that every workspace has, with what they do.
pub open spec fn builtin_help() -> Seq<char> {
    "Built-in commands:\n/status — show open signals\n/brief — generate morning brief on demand\n/reset — reset coordinator session\n/compact — compact coordinator session (clear context, start fresh)\n/update — install latest apiari + swarm from crates.io\n/help — this message"@
}

// ---------------------------------------------------------------------------
// Texts
// ---------------------------------------------------------------------------

/// The lines about a workspace's own commands.
pub open spec fn custom_help(commands: Seq<CommandConfig>) -> Seq<char>
    decreases commands.len(),
{
    if commands.len() == 0 {
        seq![]
    } else {
        let c = commands.last();
        custom_help(commands.drop_last()) + ("\n/"@ + c.name@ + " — "@ + match c.description {
            Some(d) => d@,
            None => "(no description)"@,
        })
    }
}

/// What `/help` answers.
pub open spec fn help_message(commands: Seq<CommandConfig>) -> Seq<char> {
    if commands.len() == 0 {
        builtin_help()
    } else {
        builtin_help() + "\n\nCustom commands:"@ + custom_help(commands)
    }
}

/// What `/help` answers.
pub fn help_text(commands: &Vec<CommandConfig>) -> (r: String)
    ensures
        r@ == help_message(commands@),
{
    let mut text =
        "Built-in commands:\n/status — show open signals\n/brief — generate morning brief on demand\n/reset — reset coordinator session\n/compact — compact coordinator session (clear context, start fresh)\n/update — install latest apiari + swarm from crates.io\n/help — this message".to_owned();
    let n: usize = commands.len();
    if n > 0 {
        text.push_str("\n\nCustom commands:");
        let ghost head = text@;
        let mut i: usize = 0;
        proof {
            assert(head + custom_help(commands@.take(0)) =~= head);
        }
        while i < n
            invariant
                n == commands@.len(),
                0 <= i <= n,
                text@ == head + custom_help(commands@.take(i as int)),
            decreases n - i,
        {
            let desc = match &commands[i].description {
                Some(d) => d.as_str(),
                None => "(no description)",
            };
            let line = cat4("\n/", commands[i].name.as_str(), " — ", desc);
            proof {
                assert(commands@.take(i + 1).drop_last() =~= commands@.take(i as int));
                let done = custom_help(commands@.take(i as int));
                assert(head + done + line@ =~= head + (done + line@));
            }
            text.push_str(line.as_str());
            i = i + 1;
        }
        proof {
            assert(commands@.take(n as int) =~= commands@);
        }
    }
    text
}

/// How many lines of a script's output are shown.
pub const TAIL_LINES: usize = 20;

/// The last `limit` lines of a text.
pub open spec fn tail(s: Seq<char>, limit: int) -> Seq<char> {
    let all = lines(s);
    join(
        if all.len() <= limit {
            all
        } else {
            all.skip(all.len() - limit)
        },
        "\n"@,
    )
}

/// The last `limit` lines of a text.
pub fn tail_of(s: &str, limit: usize) -> (r: String)
    ensures
        r@ == tail(s@, limit as int),
{
    let all = lines_of(s);
    let n: usize = all.len();
    let start: usize = if n <= limit {
        0
    } else {
        n - limit
    };
    let ghost list = texts(all@);
    let mut last: Vec<String> = Vec::new();
    let mut i: usize = start;
    proof {
        assert(list.len() == n);
        assert(texts(last@) =~= list.subrange(start as int, start as int));
    }
    while i < n
        invariant
            n == all@.len(),
            list == texts(all@),
            start <= i <= n,
            texts(last@) == list.subrange(start as int, i as int),
        decreases n - i,
    {
        let one = all[i].clone();
        proof {
            assert(texts(last@.push(one)) =~= texts(last@).push(one@));
            assert(list.subrange(start as int, i + 1) =~= list.subrange(
                start as int,
                i as int,
            ).push(one@));
        }
        last.push(one);
        i = i + 1;
    }
    proof {
        if n <= limit {
            assert(list.subrange(0, n as int) =~= list);
        } else {
            assert(list.subrange(start as int, n as int) =~= list.skip(n - limit));
        }
    }
    joined(&last, "\n")
}

/// What is answered once a command's script has run: whether it succeeded, and
/// the end of its output.
pub open spec fn script_report(
    command: Seq<char>,
    success: bool,
    output: Seq<char>,
) -> Seq<char> {
    let head = (if success {
        "✅"@
    } else {
        "❌"@
    }) + " /"@ + command;
    let end = tail(output, TAIL_LINES as int);
    if end.len() == 0 {
        head
    } else {
        head + ("\n```\n"@ + end + "\n```"@)
    }
}

/// What is answered once a command's script has run. `output` is what it wrote
/// to its standard output followed by what it wrote to its standard error.
pub fn report_script(command: &str, success: bool, output: &str) -> (r: String)
    ensures
        r@ == script_report(command@, success, output@),
{
    let icon = if success {
        "✅"
    } else {
        "❌"
    };
    let mut text = cat3(icon, " /", command);
    let end = tail_of(output, TAIL_LINES);
    if !end.as_str().is_empty() {
        let fenced = cat3("\n```\n", end.as_str(), "\n```");
        text.push_str(fenced.as_str());
    }
    text
}

/// What is answered when a command's script cannot be run.
pub open spec fn script_failure(command: Seq<char>, error: Seq<char>) -> Seq<char> {
    "❌ /"@ + command + " failed: "@ + error
}

/// Splits a message into a slash command and its arguments.
pub open spec fn command_of(text: Seq<char>) -> Option<(Seq<char>, Seq<char>)> {
    if text.len() > 0 && text[0] == '/' {
        let rest = text.skip(1);
        let k = before(rest, ' ');
        if k < rest.len() {
            Some((rest.take(k), trim(rest.skip(k + 1))))
        } else {
            Some((rest, seq![]))
        }
    } else {
        None
    }
}

/// Splits a message into a slash command and its arguments.
pub fn slash_command(text: &str) -> (r: Option<(String, String)>)
    ensures
        match r {
            Some((command, args)) => command_of(text@) == Some((command@, args@)),
            None => command_of(text@) is None,
        },
{
    let v = chars_of(text);
    let n: usize = v.len();
    if n == 0 || v[0] != '/' {
        return None;
    }
    let ghost rest = text@.skip(1);
    let mut k: usize = 1;
    while k < n && v[k] != ' '
        invariant
            n == v@.len(),
            1 <= k <= n,
            rest == v@.skip(1),
            forall|j: int| 0 <= j < k - 1 ==> rest[j] != ' ',
        decreases n - k,
    {
        k = k + 1;
    }
    proof {
        lemma_before_is(rest, ' ', k - 1);
    }
    let command = string_between(&v, 1, k);
    proof {
        assert(rest.take(k - 1) =~= command@);
    }
    if k < n {
        let tail = string_between(&v, k + 1, n);
        proof {
            assert(rest.skip(k as int) =~= tail@);
        }
        Some((command, trimmed(tail.as_str())))
    } else {
        proof {
            assert(rest =~= command@);
        }
        Some((command, String::new()))
    }
}

// ---------------------------------------------------------------------------
// Commands
// ---------------------------------------------------------------------------

/// A slash command.
pub enum Command {
    Status,
    Reset,
    Compact,
    Brief,
    Help,
    Update,
    /// A command of the workspace's own: its position in the configuration.
    Custom(usize),
    Unknown,
}

/// The position of the first command of a name, or the number of commands
/// where there is none.
pub open spec fn command_at(commands: Seq<CommandConfig>, name: Seq<char>) -> int
    decreases commands.len(),
{
    if commands.len() == 0 || commands[0].name@ == name {
        0
    } else {
        1 + command_at(commands.drop_first(), name)
    }
}

/// What command a name stands for: one that every workspace has before one of
/// the workspace's own.
pub open spec fn meant(name: Seq<char>, commands: Seq<CommandConfig>) -> Command {
    if name == "status"@ {
        Command::Status
    } else if name == "reset"@ {
        Command::Reset
    } else if name == "compact"@ {
        Command::Compact
    } else if name == "brief"@ {
        Command::Brief
    } else if name == "help"@ {
        Command::Help
    } else if name == "update"@ {
        Command::Update
    } else if command_at(commands, name) < commands.len() {
        Command::Custom(command_at(commands, name) as usize)
    } else {
        Command::Unknown
    }
}

proof fn lemma_command_at(commands: Seq<CommandConfig>, name: Seq<char>, k: int)
    requires
        0 <= k <= commands.len(),
        forall|i: int| 0 <= i < k ==> (#[trigger] commands[i]).name@ != name,
        k < commands.len() ==> commands[k].name@ == name,
    ensures
        command_at(commands, name) == k,
    decreases commands.len(),
{
    if k > 0 {
        let t = commands.drop_first();
        assert forall|i: int| 0 <= i < k - 1 implies (#[trigger] t[i]).name@ != name by {
            assert(t[i] == commands[i + 1]);
        }
        lemma_command_at(t, name, k - 1);
        assert(commands[0].name@ != name);
    }
}

fn find_command(commands: &Vec<CommandConfig>, name: &str) -> (r: usize)
    ensures
        r <= commands@.len(),
        r == command_at(commands@, name@),
{
    let n: usize = commands.len();
    let mut i: usize = 0;
    while i < n && !same(commands[i].name.as_str(), name)
        invariant
            n == commands@.len(),
            0 <= i <= n,
            forall|j: int| 0 <= j < i ==> (#[trigger] commands@[j]).name@ != name@,
        decreases n - i,
    {
        i = i + 1;
    }
    proof {
        lemma_command_at(commands@, name@, i as int);
    }
    i
}

/// Finds out what command a name stands for.
pub fn read_command(name: &str, commands: &Vec<CommandConfig>) -> (r: Command)
    ensures
        r == meant(name@, commands@),
        r matches Command::Custom(i) ==> i < commands@.len(),
{
    if same(name, "status") {
        Command::Status
    } else if same(name, "reset") {
        Command::Reset
    } else if same(name, "compact") {
        Command::Compact
    } else if same(name, "brief") {
        Command::Brief
    } else if same(name, "help") {
        Command::Help
    } else if same(name, "update") {
        Command::Update
    } else {
        let i = find_command(commands, name);
        if i < commands.len() {
            Command::Custom(i)
        } else {
            Command::Unknown
        }
    }
}

/// A workspace as its commands see it.
pub struct Slot {
    pub name: String,
    pub commands: Vec<CommandConfig>,
    /// The workspace's chat, where it has one that can be reached.
    pub telegram: Option<ChatTarget>,
}

/// A text answered to a terminal client, and shown by all of them.
pub open spec fn tui_reply(ws: Seq<char>, text: Seq<char>, server: bool) -> Seq<Act> {
    seq![Act::Reply(Response::Token(ws, text)), Act::Reply(Response::Done(ws))] + only_if(
        server,
        Act::Reply(Response::Activity("tui"@, ws, "assistant_message"@, text)),
    )
}

/// A text answered on Telegram, and shown by all terminal clients.
pub open spec fn telegram_reply(
    slot: Seq<char>,
    target: ChatTarget,
    text: Seq<char>,
    server: bool,
) -> Seq<Act> {
    only_if(
        server,
        Act::Reply(Response::Activity("telegram"@, slot, "assistant_message"@, text)),
    ) + seq![Act::Send(target, text)]
}

/// What a command from a terminal client does. `summary` is the summary of the
/// workspace's open signals.
pub open spec fn tui_acts(
    command: Command,
    slot: Slot,
    summary: Seq<char>,
    server: bool,
) -> Seq<Act> {
    let ws = slot.name@;
    match command {
        Command::Status => tui_reply(ws, summary, server),
        Command::Reset => seq![Act::Enqueue(Job::ResetSession)] + tui_reply(
            ws,
            "Session reset."@,
            server,
        ),
        Command::Compact => seq![Act::Enqueue(Job::Compact(None, true, ws))],
        Command::Brief => match slot.telegram {
            Some(target) => seq![Act::Brief(target)] + tui_reply(
                ws,
                "Generating morning brief..."@,
                server,
            ),
            None => tui_reply(ws, "No Telegram channel configured for briefs."@, server),
        },
        Command::Help => tui_reply(ws, help_message(slot.commands@), server),
        Command::Update => seq![
            Act::Reply(
                Response::Token(ws, "Updating apiari + swarm from crates.io...\n"@),
            ),
            Act::Run(update_script()),
        ],
        Command::Custom(i) => seq![Act::Run(slot.commands@[i as int].script@)],
        Command::Unknown => seq![],
    }
}

/// What a command from Telegram does.
pub open spec fn telegram_acts(
    command: Command,
    name: Seq<char>,
    slot: Slot,
    target: ChatTarget,
    summary: Seq<char>,
    server: bool,
) -> Seq<Act> {
    let ws = slot.name@;
    match command {
        Command::Status => telegram_reply(ws, target, summary, server),
        Command::Reset => seq![Act::Enqueue(Job::ResetSession)] + telegram_reply(
            ws,
            target,
            "Session reset."@,
            server,
        ),
        Command::Compact => seq![Act::Enqueue(Job::Compact(Some(target), false, ws))],
        Command::Brief => seq![Act::Typing(target), Act::Brief(target)],
        Command::Help => telegram_reply(ws, target, help_message(slot.commands@), server),
        Command::Update => seq![
            Act::Send(target, "Updating apiari + swarm from crates.io..."@),
            Act::Run(update_script()),
        ],
        Command::Custom(i) => seq![Act::Run(slot.commands@[i as int].script@)],
        Command::Unknown => seq![Act::Send(target, "Unknown command: /"@ + name)],
    }
}

fn plan_tui_reply(out: &mut Vec<Action>, ws: &str, text: &str, server: bool)
    ensures
        acts(final(out)@) == acts(old(out)@) + tui_reply(ws@, text@, server),
{
    let ghost base = acts(out@);
    plan(out, token(ws, text));
    plan(out, done(ws));
    if server {
        plan(out, activity("tui", ws, "assistant_message", text));
    }
    proof {
        assert(acts(out@) =~= base + tui_reply(ws@, text@, server));
    }
}

fn plan_telegram_reply(
    out: &mut Vec<Action>,
    slot: &str,
    target: ChatTarget,
    text: &str,
    server: bool,
)
    ensures
        acts(final(out)@) == acts(old(out)@) + telegram_reply(slot@, target, text@, server),
{
    let ghost base = acts(out@);
    if server {
        plan(out, activity("telegram", slot, "assistant_message", text));
    }
    plan(out, send(target, text));
    proof {
        assert(acts(out@) =~= base + telegram_reply(slot@, target, text@, server));
    }
}

fn the_update_script() -> (r: String)
    ensures
        r@ == update_script(),
{
    "source /Users/josh/.cargo/env 2>/dev/null; /Users/josh/.cargo/bin/cargo install --force apiari 2>&1 && codesign -f -s - /Users/josh/.cargo/bin/apiari 2>&1 && /Users/josh/.cargo/bin/cargo install --force swarm 2>&1 && codesign -f -s - /Users/josh/.cargo/bin/swarm 2>&1".to_owned()
}

/// Handles a slash command from a terminal client. The second part of the
/// result tells whether it was one: if not, the message goes to the
/// coordinator.
pub fn handle_tui_command(name: &str, slot: &Slot, summary: &str, server: bool) -> (r: (
    Vec<Action>,
    bool,
))
    ensures
        acts(r.0@) == tui_acts(meant(name@, slot.commands@), *slot, summary@, server),
        r.1 == !(meant(name@, slot.commands@) is Unknown),
{
    let command = read_command(name, &slot.commands);
    let ws = slot.name.as_str();
    let mut out: Vec<Action> = Vec::new();
    let mut handled: bool = true;
    match &command {
        Command::Status => plan_tui_reply(&mut out, ws, summary, server),
        Command::Reset => {
            plan(&mut out, Action::Enqueue(CoordinatorJob::ResetSession));
            plan_tui_reply(&mut out, ws, "Session reset.", server);
        },
        Command::Compact => plan(
            &mut out,
            Action::Enqueue(
                CoordinatorJob::Compact { telegram: None, tui: true, slot_name: ws.to_owned() },
            ),
        ),
        Command::Brief => match slot.telegram {
            Some(target) => {
                plan(&mut out, Action::Brief { target });
                plan_tui_reply(&mut out, ws, "Generating morning brief...", server);
            },
            None => plan_tui_reply(
                &mut out,
                ws,
                "No Telegram channel configured for briefs.",
                server,
            ),
        },
        Command::Help => {
            let text = help_text(&slot.commands);
            plan_tui_reply(&mut out, ws, text.as_str(), server);
        },
        Command::Update => {
            plan(&mut out, token(ws, "Updating apiari + swarm from crates.io...\n"));
            plan(&mut out, Action::Run { script: the_update_script() });
        },
        Command::Custom(i) => plan(
            &mut out,
            Action::Run { script: slot.commands[*i].script.clone() },
        ),
        Command::Unknown => {
            handled = false;
        },
    }
    proof {
        assert(acts(out@) =~= tui_acts(command, *slot, summary@, server));
    }
    (out, handled)
}

/// Handles a slash command from Telegram: all terminal clients show it, and
/// the workspace's chat is answered where it can be reached.
pub fn handle_telegram_command(
    name: &str,
    slot: &Slot,
    target: ChatTarget,
    summary: &str,
    server: bool,
) -> (r: Vec<Action>)
    ensures
        acts(r@) == only_if(
            server,
            Act::Reply(
                Response::Activity("telegram"@, slot.name@, "user_message"@, "/"@ + name@),
            ),
        ) + match slot.telegram {
            Some(_) => telegram_acts(
                meant(name@, slot.commands@),
                name@,
                *slot,
                target,
                summary@,
                server,
            ),
            None => seq![],
        },
{
    let ws = slot.name.as_str();
    let mut out: Vec<Action> = Vec::new();
    if server {
        let shown = cat2("/", name);
        plan(&mut out, activity("telegram", ws, "user_message", shown.as_str()));
    }
    let ghost head = acts(out@);
    let command = read_command(name, &slot.commands);
    if slot.telegram.is_some() {
        match &command {
            Command::Status => plan_telegram_reply(&mut out, ws, target, summary, server),
            Command::Reset => {
                plan(&mut out, Action::Enqueue(CoordinatorJob::ResetSession));
                plan_telegram_reply(&mut out, ws, target, "Session reset.", server);
            },
            Command::Compact => plan(
                &mut out,
                Action::Enqueue(
                    CoordinatorJob::Compact {
                        telegram: Some(target),
                        tui: false,
                        slot_name: ws.to_owned(),
                    },
                ),
            ),
            Command::Brief => {
                plan(&mut out, Action::Typing { target });
                plan(&mut out, Action::Brief { target });
            },
            Command::Help => {
                let text = help_text(&slot.commands);
                plan_telegram_reply(&mut out, ws, target, text.as_str(), server);
            },
            Command::Update => {
                plan(&mut out, send(target, "Updating apiari + swarm from crates.io..."));
                plan(&mut out, Action::Run { script: the_update_script() });
            },
            Command::Custom(i) => plan(
                &mut out,
                Action::Run { script: slot.commands[*i].script.clone() },
            ),
            Command::Unknown => {
                let text = cat2("Unknown command: /", name);
                plan(&mut out, send(target, text.as_str()));
            },
        }
    }
    proof {
        assert(head =~= only_if(
            server,
            Act::Reply(
                Response::Activity("telegram"@, slot.name@, "user_message"@, "/"@ + name@),
            ),
        ));
        if slot.telegram is Some {
            assert(acts(out@) =~= head + telegram_acts(
                command,
                name@,
                *slot,
                target,
                summary@,
                server,
            ));
        } else {
            assert(acts(out@) =~= head + Seq::<Act>::empty());
        }
    }
    out
}

// ---------------------------------------------------------------------------
// After a script, and after a coordinator that is gone
// ---------------------------------------------------------------------------

/// What became of a script.
pub enum ScriptOutcome {
    /// It ran: whether it succeeded, and what it wrote.
    Ran { success: bool, output: String },
    /// It could not be run.
    Failed { error: String },
}

/// What a command's script leads to on Telegram.
pub open spec fn telegram_script_acts(
    name: Seq<char>,
    slot: Seq<char>,
    target: ChatTarget,
    outcome: ScriptOutcome,
    restarts: bool,
    server: bool,
) -> Seq<Act> {
    match outcome {
        ScriptOutcome::Ran { success, output } => telegram_reply(
            slot,
            target,
            script_report(name, success, output@),
            server,
        ) + if success && restarts {
            seq![Act::Send(target, "Restarting daemon..."@), Act::Restart]
        } else {
            seq![]
        },
        ScriptOutcome::Failed { error } => seq![
            Act::Send(target, script_failure(name, error@)),
        ],
    }
}

/// What a command's script leads to in a terminal client.
pub open spec fn tui_script_acts(
    name: Seq<char>,
    ws: Seq<char>,
    outcome: ScriptOutcome,
    server: bool,
) -> Seq<Act> {
    match outcome {
        ScriptOutcome::Ran { success, output } => tui_reply(
            ws,
            script_report(name, success, output@),
            server,
        ),
        ScriptOutcome::Failed { error } => tui_reply(ws, script_failure(name, error@), server),
    }
}

/// Whether the daemon starts anew once a command's script has succeeded: after
/// an update always, after a command of the workspace's own where it says so.
pub open spec fn restarts_after(command: Command, commands: Seq<CommandConfig>) -> bool {
    match command {
        Command::Update => true,
        Command::Custom(i) => i < commands.len() && commands[i as int].restart,
        _ => false,
    }
}

/// Answers on Telegram once a command's script has run.
pub fn telegram_script_done(
    name: &str,
    slot: &Slot,
    target: ChatTarget,
    outcome: &ScriptOutcome,
    server: bool,
) -> (r: Vec<Action>)
    ensures
        acts(r@) == telegram_script_acts(
            name@,
            slot.name@,
            target,
            *outcome,
            restarts_after(meant(name@, slot.commands@), slot.commands@),
            server,
        ),
{
    let command = read_command(name, &slot.commands);
    let restarts = match &command {
        Command::Update => true,
        Command::Custom(i) => slot.commands[*i].restart,
        _ => false,
    };
    let mut out: Vec<Action> = Vec::new();
    match outcome {
        ScriptOutcome::Ran { success, output } => {
            let text = report_script(name, *success, output.as_str());
            plan_telegram_reply(&mut out, slot.name.as_str(), target, text.as_str(), server);
            if *success && restarts {
                plan(&mut out, send(target, "Restarting daemon..."));
                plan(&mut out, Action::Restart);
            }
        },
        ScriptOutcome::Failed { error } => {
            let text = cat4("❌ /", name, " failed: ", error.as_str());
            plan(&mut out, send(target, text.as_str()));
        },
    }
    proof {
        assert(acts(out@) =~= telegram_script_acts(
            name@,
            slot.name@,
            target,
            *outcome,
            restarts,
            server,
        ));
    }
    out
}

/// Answers a terminal client once a command's script has run.
pub fn tui_script_done(name: &str, ws: &str, outcome: &ScriptOutcome, server: bool) -> (r: Vec<
    Action,
>)
    ensures
        acts(r@) == tui_script_acts(name@, ws@, *outcome, server),
{
    let text = match outcome {
        ScriptOutcome::Ran { success, output } => report_script(name, *success, output.as_str()),
        ScriptOutcome::Failed { error } => cat4("❌ /", name, " failed: ", error.as_str()),
    };
    let mut out: Vec<Action> = Vec::new();
    plan_tui_reply(&mut out, ws, text.as_str(), server);
    proof {
        assert(acts(out@) =~= tui_script_acts(name@, ws@, *outcome, server));
    }
    out
}

/// What is done when the coordinator's task does not take a job any more.
pub open spec fn undelivered_acts(job: Job, server: bool) -> Seq<Act> {
    match job {
        Job::TuiChat(text, ws) => seq![
            Act::Reply(Response::Error(ws, "coordinator task shut down"@)),
        ],
        Job::Compact(telegram, tui, slot) => match telegram {
            Some(target) => seq![Act::Send(target, "Error: coordinator task shut down"@)],
            None => tui_reply(slot, "Error: coordinator task shut down"@, server),
        },
        _ => seq![],
    }
}

/// What is done when the coordinator's task does not take a job any more.
pub fn undelivered(job: &CoordinatorJob, server: bool) -> (r: Vec<Action>)
    ensures
        acts(r@) == undelivered_acts(job@, server),
{
    let mut out: Vec<Action> = Vec::new();
    match job {
        CoordinatorJob::TuiChat { text, ws_name } => {
            plan(&mut out, failure(ws_name.as_str(), "coordinator task shut down"));
        },
        CoordinatorJob::Compact { telegram, tui, slot_name } => match telegram {
            Some(target) => plan(&mut out, send(*target, "Error: coordinator task shut down")),
            None => plan_tui_reply(
                &mut out,
                slot_name.as_str(),
                "Error: coordinator task shut down",
                server,
            ),
        },
        _ => {},
    }
    proof {
        assert(acts(out@) =~= undelivered_acts(job@, server));
    }
    out
}

// ---------------------------------------------------------------------------
// Messages
// ---------------------------------------------------------------------------

/// What a message from a terminal client does in its workspace.
pub open spec fn tui_chat_acts(
    slot: Slot,
    text: Seq<char>,
    summary: Seq<char>,
    server: bool,
) -> Seq<Act> {
    let ws = slot.name@;
    only_if(server, Act::Reply(Response::Activity("tui"@, ws, "user_message"@, text)))
        + match command_of(text) {
        Some((name, args)) => if meant(name, slot.commands@) is Unknown {
            seq![Act::Enqueue(Job::TuiChat(text, ws))]
        } else {
            tui_acts(meant(name, slot.commands@), slot, summary, server)
        },
        None => seq![Act::Enqueue(Job::TuiChat(text, ws))],
    }
}

/// Handles a message from a terminal client: a slash command, or else a
/// message for the coordinator.
pub fn handle_tui_chat(slot: &Slot, text: &str, summary: &str, server: bool) -> (r: Vec<Action>)
    ensures
        acts(r@) == tui_chat_acts(*slot, text@, summary@, server),
{
    let ws = slot.name.as_str();
    let mut out: Vec<Action> = Vec::new();
    if server {
        plan(&mut out, activity("tui", ws, "user_message", text));
    }
    let ghost head = only_if(
        server,
        Act::Reply(Response::Activity("tui"@, slot.name@, "user_message"@, text@)),
    );
    proof {
        assert(acts(out@) =~= head);
    }
    if let Some((name, _args)) = slash_command(text) {
        let (commanded, handled) = handle_tui_command(name.as_str(), slot, summary, server);
        if handled {
            let ghost more = acts(commanded@);
            let ghost was = out@;
            let ghost add = commanded@;
            let mut tail = commanded;
            out.append(&mut tail);
            proof {
                assert(out@ =~= was + add);
                assert(acts(out@) =~= acts(was) + acts(add));
            }
            return out;
        }
    }
    plan(
        &mut out,
        Action::Enqueue(CoordinatorJob::TuiChat { text: text.to_owned(), ws_name: ws.to_owned() }),
    );
    proof {
        assert(acts(out@) =~= tui_chat_acts(*slot, text@, summary@, server));
    }
    out
}

/// Answers a terminal client that asks for a workspace that does not exist.
pub fn unknown_workspace(ws: &str) -> (r: Action)
    ensures
        r@ == Act::Reply(Response::Error(ws@, "workspace '"@ + ws@ + "' not found"@)),
{
    let text = cat3("workspace '", ws, "' not found");
    failure(ws, text.as_str())
}

/// Handles a message from Telegram: all terminal clients show it, and the
/// coordinator gets it where the workspace's chat can be answered.
pub fn handle_telegram_message(
    slot: &Slot,
    text: &str,
    target: ChatTarget,
    message_id: i64,
    server: bool,
) -> (r: Vec<Action>)
    ensures
        acts(r@) == only_if(
            server,
            Act::Reply(Response::Activity("telegram"@, slot.name@, "user_message"@, text@)),
        ) + only_if(
            slot.telegram is Some,
            Act::Enqueue(Job::TelegramMessage(text@, target, message_id, slot.name@)),
        ),
{
    let mut out: Vec<Action> = Vec::new();
    if server {
        plan(&mut out, activity("telegram", slot.name.as_str(), "user_message", text));
    }
    if slot.telegram.is_some() {
        plan(
            &mut out,
            Action::Enqueue(
                CoordinatorJob::TelegramMessage {
                    text: text.to_owned(),
                    target,
                    message_id,
                    slot_name: slot.name.clone(),
                },
            ),
        );
    }
    proof {
        assert(acts(out@) =~= only_if(
            server,
            Act::Reply(Response::Activity("telegram"@, slot.name@, "user_message"@, text@)),
        ) + only_if(
            slot.telegram is Some,
            Act::Enqueue(Job::TelegramMessage(text@, target, message_id, slot.name@)),
        ));
    }
    out
}

// ---------------------------------------------------------------------------
// Laws
// ---------------------------------------------------------------------------

/// A message from a terminal client is never lost: either it is a command
/// that the workspace knows, or the coordinator gets it, word for word.
pub proof fn law_tui_messages_reach_the_coordinator(
    slot: Slot,
    text: Seq<char>,
    summary: Seq<char>,
    server: bool,
)
    requires
        match command_of(text) {
            Some((name, args)) => meant(name, slot.commands@) is Unknown,
            None => true,
        },
    ensures
        tui_chat_acts(slot, text, summary, server).last() == Act::Enqueue(
            Job::TuiChat(text, slot.name@),
        ),
{
}

/// The daemon starts anew only after a script that succeeded.
pub proof fn law_restart_needs_success(
    name: Seq<char>,
    slot: Seq<char>,
    target: ChatTarget,
    outcome: ScriptOutcome,
    restarts: bool,
    server: bool,
)
    ensures
        telegram_script_acts(name, slot, target, outcome, restarts, server).contains(Act::Restart)
            <==> (restarts && outcome is Ran && outcome->success),
{
    let list = telegram_script_acts(name, slot, target, outcome, restarts, server);
    if restarts && outcome is Ran && outcome->success {
        assert(list.last() == Act::Restart);
    } else if list.contains(Act::Restart) {
        let i = choose|i: int| 0 <= i < list.len() && list[i] == Act::Restart;
        assert(list[i] == Act::Restart);
    }
}

// ---------------------------------------------------------------------------
// Laws on what a command does
// ---------------------------------------------------------------------------

/// A message is a command exactly where it starts with a slash. Its name goes
/// up to the first space; what follows, without white space around it, are its
/// arguments.
pub proof fn law_command_is_named_up_to_the_space(name: Seq<char>, args: Seq<char>, text: Seq<char>)
    requires
        !name.contains(' '),
    ensures
        command_of(seq!['/'] + name) == Some((name, Seq::<char>::empty())),
        command_of(seq!['/'] + name + seq![' '] + args) == Some((name, trim(args))),
        command_of(text) is Some <==> text.len() > 0 && text[0] == '/',
{
    let short = seq!['/'] + name;
    let long = seq!['/'] + name + seq![' '] + args;
    let n = name.len() as int;
    assert(short.skip(1) =~= name);
    let rest = long.skip(1);
    assert(rest =~= name + seq![' '] + args);
    assert forall|i: int| 0 <= i < n implies name[i] != ' ' by {
        if name[i] == ' ' {
            assert(name.contains(' '));
        }
    }
    assert forall|i: int| 0 <= i < n implies rest[i] != ' ' by {
        assert(rest[i] == name[i]);
    }
    lemma_before_is(name, ' ', n);
    lemma_before_is(rest, ' ', n);
    assert(rest.take(n) =~= name);
    assert(rest.skip(n + 1) =~= args);
}

proof fn lemma_command_at_holds(commands: Seq<CommandConfig>, name: Seq<char>)
    ensures
        0 <= command_at(commands, name) <= commands.len(),
        command_at(commands, name) < commands.len() ==> commands[command_at(
            commands,
            name,
        )].name@ == name,
        forall|m: int| 0 <= m < command_at(commands, name) ==> (#[trigger] commands[m]).name@ != name,
    decreases commands.len(),
{
    if commands.len() > 0 && commands[0].name@ != name {
        let t = commands.drop_first();
        lemma_command_at_holds(t, name);
        assert forall|m: int| 0 <= m < command_at(commands, name) implies (
        #[trigger] commands[m]).name@ != name by {
            if m > 0 {
                assert(t[m - 1] == commands[m]);
            }
        }
    }
}

/// The built-in commands have their names whatever else a workspace defines.
/// Any other name is that of the first command of the workspace that has it,
/// and unknown exactly where none has.
pub proof fn law_commands_go_by_their_names(name: Seq<char>, commands: Seq<CommandConfig>)
    requires
        commands.len() <= usize::MAX,
    ensures
        meant("status"@, commands) == Command::Status,
        meant("reset"@, commands) == Command::Reset,
        meant("compact"@, commands) == Command::Compact,
        meant("brief"@, commands) == Command::Brief,
        meant("help"@, commands) == Command::Help,
        meant("update"@, commands) == Command::Update,
        ({
            let own = name != "status"@ && name != "reset"@ && name != "compact"@ && name
                != "brief"@ && name != "help"@ && name != "update"@;
            &&& own && meant(name, commands) is Custom ==> {
                let i = meant(name, commands)->Custom_0;
                &&& i < commands.len()
                &&& commands[i as int].name@ == name
                &&& forall|m: int| 0 <= m < i ==> (#[trigger] commands[m]).name@ != name
            }
            &&& own && !(meant(name, commands) is Custom) ==> meant(name, commands) is Unknown
                && forall|m: int| 0 <= m < commands.len() ==> (#[trigger] commands[m]).name@ != name
        }),
{
    lemma_command_at_holds(commands, name);
    reveal_strlit("status");
    reveal_strlit("reset");
    reveal_strlit("compact");
    reveal_strlit("brief");
    reveal_strlit("help");
    reveal_strlit("update");
    assert("status"@[0] == 's' && "reset"@[0] == 'r' && "compact"@[0] == 'c');
    assert("brief"@[0] == 'b' && "help"@[0] == 'h' && "update"@[0] == 'u');
}

/// A terminal client that gives a command is answered to the end: with the
/// state of things, with the help, with the news that the session is reset.
/// Compacting is left to the coordinator, which answers itself; a brief is made
/// for the chat of the workspace where it has one; a command of the workspace
/// runs its script.
pub proof fn law_terminal_commands(slot: Slot, summary: Seq<char>, server: bool, i: usize)
    ensures
        ({
            let ws = slot.name@;
            let said = |text: Seq<char>|
                seq![
                    Act::Reply(Response::Token(ws, text)),
                    Act::Reply(Response::Done(ws)),
                ];
            let status = tui_acts(Command::Status, slot, summary, server);
            let help = tui_acts(Command::Help, slot, summary, server);
            let reset = tui_acts(Command::Reset, slot, summary, server);
            let brief = tui_acts(Command::Brief, slot, summary, server);
            &&& status.take(2) == said(summary)
            &&& status.len() == if server {
                3int
            } else {
                2
            }
            &&& server ==> status[2] == Act::Reply(
                Response::Activity("tui"@, ws, "assistant_message"@, summary),
            )
            &&& help.take(2) == said(help_message(slot.commands@))
            &&& reset[0] == Act::Enqueue(Job::ResetSession)
            &&& reset.subrange(1, 3) == said("Session reset."@)
            &&& slot.telegram is Some ==> brief[0] == Act::Brief(slot.telegram->0)
                && brief.subrange(1, 3) == said("Generating morning brief..."@)
            &&& slot.telegram is None ==> brief.take(2) == said(
                "No Telegram channel configured for briefs."@,
            )
        }),
        tui_acts(Command::Compact, slot, summary, server) == seq![
            Act::Enqueue(Job::Compact(None, true, slot.name@)),
        ],
        tui_acts(Command::Update, slot, summary, server).last() is Run,
        i < slot.commands@.len() ==> tui_acts(Command::Custom(i), slot, summary, server) == seq![
            Act::Run(slot.commands@[i as int].script@),
        ],
{
    let ws = slot.name@;
    let status = tui_acts(Command::Status, slot, summary, server);
    let help = tui_acts(Command::Help, slot, summary, server);
    let reset = tui_acts(Command::Reset, slot, summary, server);
    let brief = tui_acts(Command::Brief, slot, summary, server);
    let said = |text: Seq<char>|
        seq![Act::Reply(Response::Token(ws, text)), Act::Reply(Response::Done(ws))];
    assert(status.take(2) =~= said(summary));
    assert(help.take(2) =~= said(help_message(slot.commands@)));
    assert(reset.subrange(1, 3) =~= said("Session reset."@));
    if slot.telegram is Some {
        assert(brief.subrange(1, 3) =~= said("Generating morning brief..."@));
    } else {
        assert(brief.take(2) =~= said("No Telegram channel configured for briefs."@));
    }
}

/// A command that a chat gives is answered in that chat and in no other:
/// with the state of things, with the help, with the news that the session is
/// reset, or with the news that there is no such command.
pub proof fn law_chat_commands(
    name: Seq<char>,
    slot: Slot,
    target: ChatTarget,
    summary: Seq<char>,
    server: bool,
    i: usize,
)
    ensures
        telegram_acts(Command::Status, name, slot, target, summary, server).last() == Act::Send(
            target,
            summary,
        ),
        telegram_acts(Command::Help, name, slot, target, summary, server).last() == Act::Send(
            target,
            help_message(slot.commands@),
        ),
        telegram_acts(Command::Reset, name, slot, target, summary, server)[0] == Act::Enqueue(
            Job::ResetSession,
        ),
        telegram_acts(Command::Reset, name, slot, target, summary, server).last() == Act::Send(
            target,
            "Session reset."@,
        ),
        telegram_acts(Command::Compact, name, slot, target, summary, server) == seq![
            Act::Enqueue(Job::Compact(Some(target), false, slot.name@)),
        ],
        telegram_acts(Command::Brief, name, slot, target, summary, server).last() == Act::Brief(
            target,
        ),
        telegram_acts(Command::Update, name, slot, target, summary, server).last() is Run,
        telegram_acts(Command::Unknown, name, slot, target, summary, server) == seq![
            Act::Send(target, "Unknown command: /"@ + name),
        ],
        i < slot.commands@.len() ==> telegram_acts(
            Command::Custom(i),
            name,
            slot,
            target,
            summary,
            server,
        ) == seq![Act::Run(slot.commands@[i as int].script@)],
        forall|command: Command, k: int|
            0 <= k < telegram_acts(command, name, slot, target, summary, server).len() ==> {
                let act = #[trigger] telegram_acts(
                    command,
                    name,
                    slot,
                    target,
                    summary,
                    server,
                )[k];
                act is Send ==> act->Send_0 == target
            },
{
}

/// What comes of a script is told where the command was given: that it
/// succeeded or failed, under the name of the command, with the last lines of
/// what it printed; or that it could not be run.
pub proof fn law_script_results_are_told(
    name: Seq<char>,
    ws: Seq<char>,
    target: ChatTarget,
    outcome: ScriptOutcome,
    restarts: bool,
    server: bool,
)
    ensures
        outcome is Ran ==> {
            let told = script_report(name, outcome->success, outcome->output@);
            &&& telegram_script_acts(name, ws, target, outcome, restarts, server).contains(
                Act::Send(target, told),
            )
            &&& tui_script_acts(name, ws, outcome, server)[0] == Act::Reply(
                Response::Token(ws, told),
            )
            &&& tui_script_acts(name, ws, outcome, server)[1] == Act::Reply(Response::Done(ws))
            &&& outcome->success ==> starts_with(told, "✅ /"@ + name)
            &&& !outcome->success ==> starts_with(told, "❌ /"@ + name)
        },
        outcome is Failed ==> {
            let told = "❌ /"@ + name + " failed: "@ + outcome->error@;
            &&& telegram_script_acts(name, ws, target, outcome, restarts, server) == seq![
                Act::Send(target, told),
            ]
            &&& tui_script_acts(name, ws, outcome, server)[0] == Act::Reply(
                Response::Token(ws, told),
            )
            &&& tui_script_acts(name, ws, outcome, server)[1] == Act::Reply(Response::Done(ws))
        },
{
    if outcome is Ran {
        let told = script_report(name, outcome->success, outcome->output@);
        let done = telegram_script_acts(name, ws, target, outcome, restarts, server);
        let k = if server {
            1int
        } else {
            0
        };
        assert(done[k] == Act::Send(target, told));
        reveal_strlit("✅");
        reveal_strlit("❌");
        reveal_strlit(" /");
        reveal_strlit("✅ /");
        reveal_strlit("❌ /");
        let head = (if outcome->success {
            "✅ /"@
        } else {
            "❌ /"@
        }) + name;
        assert(told.subrange(0, head.len() as int) =~= head);
    }
}

/// The report on a script shows at most the last twenty lines that it printed,
/// in their order, and all of them where there are no more.
pub proof fn law_report_shows_the_last_lines(s: Seq<char>)
    ensures
        ({
            let all = lines(s);
            let n = if all.len() <= 20 {
                all.len() as int
            } else {
                20
            };
            tail(s, TAIL_LINES as int) == join(all.subrange(all.len() - n, all.len() as int), "\n"@)
        }),
{
    let all = lines(s);
    if all.len() <= 20 {
        assert(all.subrange(0, all.len() as int) =~= all);
    } else {
        assert(all.subrange(all.len() - 20, all.len() as int) =~= all.skip(all.len() - 20));
    }
}

proof fn lemma_custom_help(commands: Seq<CommandConfig>, k: int)
    requires
        0 <= k < commands.len(),
    ensures
        contains(
            custom_help(commands),
            "\n/"@ + commands[k].name@ + " — "@ + match commands[k].description {
                Some(d) => d@,
                None => "(no description)"@,
            },
        ),
    decreases commands.len(),
{
    let line = "\n/"@ + commands[k].name@ + " — "@ + match commands[k].description {
        Some(d) => d@,
        None => "(no description)"@,
    };
    let front = commands.drop_last();
    let all = custom_help(commands);
    let before = custom_help(front);
    if k < front.len() {
        lemma_custom_help(front, k);
        assert(front[k] == commands[k]);
        let i = choose|i: int| occurs_at(before, line, i);
        assert(all.subrange(i, i + line.len()) =~= before.subrange(i, i + line.len()));
        assert(occurs_at(all, line, i));
    } else {
        let i = before.len() as int;
        assert(all.subrange(i, i + line.len()) =~= line);
        assert(occurs_at(all, line, i));
    }
}

/// The help names every command of the workspace, with what it is for.
pub proof fn law_help_names_every_command(commands: Seq<CommandConfig>, k: int)
    requires
        0 <= k < commands.len(),
    ensures
        starts_with(help_message(commands), builtin_help()),
        contains(
            help_message(commands),
            "\n/"@ + commands[k].name@ + " — "@ + match commands[k].description {
                Some(d) => d@,
                None => "(no description)"@,
            },
        ),
{
    let line = "\n/"@ + commands[k].name@ + " — "@ + match commands[k].description {
        Some(d) => d@,
        None => "(no description)"@,
    };
    let all = help_message(commands);
    let head = builtin_help() + "\n\nCustom commands:"@;
    let list = custom_help(commands);
    lemma_custom_help(commands, k);
    let i = choose|i: int| occurs_at(list, line, i);
    assert(all.subrange(head.len() + i, head.len() + i + line.len()) =~= list.subrange(
        i,
        i + line.len(),
    ));
    assert(occurs_at(all, line, head.len() + i));
    assert(all.subrange(0, builtin_help().len() as int) =~= builtin_help());
}

/// A user whose message can no longer reach the coordinator is told so where it
/// was given.
pub proof fn law_undelivered_messages_are_told(
    text: Seq<char>,
    ws: Seq<char>,
    target: ChatTarget,
    tui: bool,
    server: bool,
)
    ensures
        undelivered_acts(Job::TuiChat(text, ws), server) == seq![
            Act::Reply(Response::Error(ws, "coordinator task shut down"@)),
        ],
        undelivered_acts(Job::Compact(Some(target), tui, ws), server) == seq![
            Act::Send(target, "Error: coordinator task shut down"@),
        ],
        undelivered_acts(Job::Compact(None, tui, ws), server)[0] == Act::Reply(
            Response::Token(ws, "Error: coordinator task shut down"@),
        ),
        undelivered_acts(Job::Compact(None, tui, ws), server)[1] == Act::Reply(Response::Done(ws)),
{
}

/// The daemon starts again after an update, and after a command that is set up
/// for it, and after no other.
pub proof fn law_restart_follows_updates(command: Command, commands: Seq<CommandConfig>)
    ensures
        restarts_after(Command::Update, commands),
        command is Custom && command->Custom_0 < commands.len() ==> restarts_after(
            command,
            commands,
        ) == commands[command->Custom_0 as int].restart,
        !(command is Update) && !(command is Custom) ==> !restarts_after(command, commands),
{
}

/// The daemon is restarted, and this is told, exactly where a script that asks
/// for it succeeded.
pub proof fn law_restart_is_told(
    name: Seq<char>,
    slot: Seq<char>,
    target: ChatTarget,
    outcome: ScriptOutcome,
    restarts: bool,
    server: bool,
)
    ensures
        outcome is Ran && outcome->success && restarts ==> telegram_script_acts(
            name,
            slot,
            target,
            outcome,
            restarts,
            server,
        ).last() == Act::Restart && telegram_script_acts(
            name,
            slot,
            target,
            outcome,
            restarts,
            server,
        ).contains(Act::Send(target, "Restarting daemon..."@)),
        outcome is Failed || !outcome->success || !restarts ==> !telegram_script_acts(
            name,
            slot,
            target,
            outcome,
            restarts,
            server,
        ).contains(Act::Restart),
{
    let all = telegram_script_acts(name, slot, target, outcome, restarts, server);
    if outcome is Ran && outcome->success && restarts {
        assert(all[all.len() - 2] == Act::Send(target, "Restarting daemon..."@));
    }
}

/// Where others watch, they are told what a user said and what was answered, and
/// through which channel; else nobody is.
pub proof fn law_watchers_are_told(
    slot: Slot,
    target: ChatTarget,
    text: Seq<char>,
    summary: Seq<char>,
)
    ensures
        tui_chat_acts(slot, text, summary, true)[0] == Act::Reply(
            Response::Activity("tui"@, slot.name@, "user_message"@, text),
        ),
        tui_chat_acts(slot, text, summary, true).drop_first() == tui_chat_acts(
            slot,
            text,
            summary,
            false,
        ) || command_of(text) is Some,
        tui_reply(slot.name@, text, true) == seq![
            Act::Reply(Response::Token(slot.name@, text)),
            Act::Reply(Response::Done(slot.name@)),
            Act::Reply(Response::Activity("tui"@, slot.name@, "assistant_message"@, text)),
        ],
        tui_reply(slot.name@, text, false) == seq![
            Act::Reply(Response::Token(slot.name@, text)),
            Act::Reply(Response::Done(slot.name@)),
        ],
        telegram_reply(slot.name@, target, text, true) == seq![
            Act::Reply(Response::Activity("telegram"@, slot.name@, "assistant_message"@, text)),
            Act::Send(target, text),
        ],
        telegram_reply(slot.name@, target, text, false) == seq![Act::Send(target, text)],
{
    assert(tui_chat_acts(slot, text, summary, true).drop_first() =~= tui_chat_acts(
        slot,
        text,
        summary,
        false,
    ) || command_of(text) is Some);
}

/// An update is announced before it runs.
pub proof fn law_update_is_announced(
    name: Seq<char>,
    slot: Slot,
    target: ChatTarget,
    summary: Seq<char>,
    server: bool,
)
    ensures
        tui_acts(Command::Update, slot, summary, server).len() == 2,
        tui_acts(Command::Update, slot, summary, server)[0] == Act::Reply(
            Response::Token(slot.name@, "Updating apiari + swarm from crates.io...\n"@),
        ),
        telegram_acts(Command::Update, name, slot, target, summary, server).len() == 2,
        telegram_acts(Command::Update, name, slot, target, summary, server)[0] == Act::Send(
            target,
            "Updating apiari + swarm from crates.io..."@,
        ),
        tui_acts(Command::Update, slot, summary, server)[1] == telegram_acts(
            Command::Update,
            name,
            slot,
            target,
            summary,
            server,
        )[1],
{
}

} // verus!
