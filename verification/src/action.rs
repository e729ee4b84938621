//! What the daemon does to the outside: the actions that its decisions ask
//! for, in the order in which they are to be carried out.

use crate::text::{opt_text, texts};
use vstd::prelude::*;

verus! {

/// A request of a terminal client.
pub enum DaemonRequest {
    Chat { workspace: String, text: String },
}

/// An answer to terminal clients.
pub enum DaemonResponse {
    /// A piece of the answer to the client's own request.
    Token { workspace: String, text: String },
    /// The client's own request is done.
    Done { workspace: String },
    /// The client's own request failed.
    Error { workspace: String, text: String },
    /// Something happened that every client shows.
    Activity { source: String, workspace: String, kind: String, text: String },
}

/// What an answer to terminal clients says.
pub enum Response {
    Token(Seq<char>, Seq<char>),
    Done(Seq<char>),
    Error(Seq<char>, Seq<char>),
    Activity(Seq<char>, Seq<char>, Seq<char>, Seq<char>),
}

impl View for DaemonResponse {
    type V = Response;

    open spec fn view(&self) -> Response {
        match self {
            DaemonResponse::Token { workspace, text } => Response::Token(workspace@, text@),
            DaemonResponse::Done { workspace } => Response::Done(workspace@),
            DaemonResponse::Error { workspace, text } => Response::Error(workspace@, text@),
            DaemonResponse::Activity { source, workspace, kind, text } => Response::Activity(
                source@,
                workspace@,
                kind@,
                text@,
            ),
        }
    }
}

/// A chat on Telegram, and the topic in it.
#[derive(Clone, Copy, PartialEq, Eq, Structural)]
pub struct ChatTarget {
    pub chat_id: i64,
    pub topic_id: Option<i64>,
}

/// A job for the coordinator of a workspace.
pub enum CoordinatorJob {
    /// A user wrote on Telegram.
    TelegramMessage { text: String, target: ChatTarget, message_id: i64, slot_name: String },
    /// A user wrote in a terminal client.
    TuiChat { text: String, ws_name: String },
    /// Forget the session.
    ResetSession,
    /// Forget the session and say so.
    Compact { telegram: Option<ChatTarget>, tui: bool, slot_name: String },
    /// Tell the coordinator about signals that a hook asked for.
    SignalFollowThrough {
        signals: Vec<String>,
        source: String,
        prompt_override: Option<String>,
        ttl_secs: u64,
        telegram: Option<ChatTarget>,
        slot_name: String,
    },
}

/// What a job asks for.
pub enum Job {
    TelegramMessage(Seq<char>, ChatTarget, i64, Seq<char>),
    TuiChat(Seq<char>, Seq<char>),
    ResetSession,
    Compact(Option<ChatTarget>, bool, Seq<char>),
    SignalFollowThrough(
        Seq<Seq<char>>,
        Seq<char>,
        Option<Seq<char>>,
        u64,
        Option<ChatTarget>,
        Seq<char>,
    ),
}

impl View for CoordinatorJob {
    type V = Job;

    open spec fn view(&self) -> Job {
        match self {
            CoordinatorJob::TelegramMessage { text, target, message_id, slot_name } =>
                Job::TelegramMessage(text@, *target, *message_id, slot_name@),
            CoordinatorJob::TuiChat { text, ws_name } => Job::TuiChat(text@, ws_name@),
            CoordinatorJob::ResetSession => Job::ResetSession,
            CoordinatorJob::Compact { telegram, tui, slot_name } => Job::Compact(
                *telegram,
                *tui,
                slot_name@,
            ),
            CoordinatorJob::SignalFollowThrough {
                signals,
                source,
                prompt_override,
                ttl_secs,
                telegram,
                slot_name,
            } => Job::SignalFollowThrough(
                texts(signals@),
                source@,
                opt_text(*prompt_override),
                *ttl_secs,
                *telegram,
                slot_name@,
            ),
        }
    }
}

/// Something that the daemon does.
pub enum Action {
    /// Put a reaction on a Telegram message.
    React { chat_id: i64, message_id: i64, emoji: String },
    /// Show that an answer is being written until told otherwise.
    StartTyping { target: ChatTarget },
    StopTyping,
    /// Show once that an answer is being written.
    Typing { target: ChatTarget },
    /// Gather the options of the coordinator's next turn.
    Prepare,
    /// Give the coordinator a message.
    Ask { text: String },
    /// Keep a message of the conversation; the assistant's with the provider
    /// and the session that it came from.
    Save { role: String, text: String, channel: String },
    /// Send a message on Telegram.
    Send { target: ChatTarget, text: String },
    /// Answer terminal clients.
    Reply(DaemonResponse),
    /// Forget the coordinator's session.
    ResetSession,
    /// Set how many turns the coordinator may take for one message.
    SetMaxTurns(u32),
    /// Give the coordinator's task a job.
    Enqueue(CoordinatorJob),
    /// Run a shell script.
    Run { script: String },
    /// Generate a morning brief.
    Brief { target: ChatTarget },
    /// Start the daemon anew.
    Restart,
}

/// What an action does.
pub enum Act {
    React(i64, i64, Seq<char>),
    StartTyping(ChatTarget),
    StopTyping,
    Typing(ChatTarget),
    Prepare,
    Ask(Seq<char>),
    Save(Seq<char>, Seq<char>, Seq<char>),
    Send(ChatTarget, Seq<char>),
    Reply(Response),
    ResetSession,
    SetMaxTurns(u32),
    Enqueue(Job),
    Run(Seq<char>),
    Brief(ChatTarget),
    Restart,
}

impl View for Action {
    type V = Act;

    open spec fn view(&self) -> Act {
        match self {
            Action::React { chat_id, message_id, emoji } => Act::React(
                *chat_id,
                *message_id,
                emoji@,
            ),
            Action::StartTyping { target } => Act::StartTyping(*target),
            Action::StopTyping => Act::StopTyping,
            Action::Typing { target } => Act::Typing(*target),
            Action::Prepare => Act::Prepare,
            Action::Ask { text } => Act::Ask(text@),
            Action::Save { role, text, channel } => Act::Save(role@, text@, channel@),
            Action::Send { target, text } => Act::Send(*target, text@),
            Action::Reply(response) => Act::Reply(response@),
            Action::ResetSession => Act::ResetSession,
            Action::SetMaxTurns(n) => Act::SetMaxTurns(*n),
            Action::Enqueue(job) => Act::Enqueue(job@),
            Action::Run { script } => Act::Run(script@),
            Action::Brief { target } => Act::Brief(*target),
            Action::Restart => Act::Restart,
        }
    }
}

/// What a list of actions does.
pub open spec fn acts(list: Seq<Action>) -> Seq<Act> {
    list.map_values(|a: Action| a@)
}

/// A list of one act where a condition holds, else of none.
pub open spec fn only_if(condition: bool, act: Act) -> Seq<Act> {
    if condition {
        seq![act]
    } else {
        seq![]
    }
}

/// Adds an action to a list.
pub fn plan(list: &mut Vec<Action>, action: Action)
    ensures
        acts(final(list)@) == acts(old(list)@).push(action@),
{
    proof {
        assert(acts(list@.push(action)) =~= acts(list@).push(action@));
    }
    list.push(action);
}

/// A message on Telegram.
pub fn send(target: ChatTarget, text: &str) -> (r: Action)
    ensures
        r@ == Act::Send(target, text@),
{
    Action::Send { target, text: text.to_owned() }
}

/// What every terminal client shows of an event in a workspace.
pub fn activity(source: &str, workspace: &str, kind: &str, text: &str) -> (r: Action)
    ensures
        r@ == Act::Reply(Response::Activity(source@, workspace@, kind@, text@)),
{
    Action::Reply(
        DaemonResponse::Activity {
            source: source.to_owned(),
            workspace: workspace.to_owned(),
            kind: kind.to_owned(),
            text: text.to_owned(),
        },
    )
}

/// A piece of the answer to a client's own request.
pub fn token(workspace: &str, text: &str) -> (r: Action)
    ensures
        r@ == Act::Reply(Response::Token(workspace@, text@)),
{
    Action::Reply(DaemonResponse::Token { workspace: workspace.to_owned(), text: text.to_owned() })
}

/// The end of the answer to a client's own request.
pub fn done(workspace: &str) -> (r: Action)
    ensures
        r@ == Act::Reply(Response::Done(workspace@)),
{
    Action::Reply(DaemonResponse::Done { workspace: workspace.to_owned() })
}

/// The failure of a client's own request.
pub fn failure(workspace: &str, text: &str) -> (r: Action)
    ensures
        r@ == Act::Reply(Response::Error(workspace@, text@)),
{
    Action::Reply(DaemonResponse::Error { workspace: workspace.to_owned(), text: text.to_owned() })
}

/// The answer to a client's line that is no request: what is wrong with it.
pub fn refused_request(problem: &str) -> (r: Action)
    ensures
        r@ == Act::Reply(Response::Error(seq![], "invalid request: "@ + problem@)),
{
    Action::Reply(
        DaemonResponse::Error {
            workspace: String::new(),
            text: crate::text::cat2("invalid request: ", problem),
        },
    )
}

/// A message of the conversation to keep.
pub fn save(role: &str, text: &str, channel: &str) -> (r: Action)
    ensures
        r@ == Act::Save(role@, text@, channel@),
{
    Action::Save { role: role.to_owned(), text: text.to_owned(), channel: channel.to_owned() }
}

} // verus!
