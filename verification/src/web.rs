//! What the web interface exchanges with bees.

use crate::bees::{bee_meant, resolve_bee_name_for_api};
use crate::config::{BeeConfig, WorkspaceConfig};
use crate::json::{members_of, object, text, Json, Tree};
use crate::text::{cat2, decimal, opt_text, signed_number};
use vstd::prelude::*;

verus! {

/// A file that a user attached to a chat message.
pub struct WebChatAttachment {
    pub name: String,
    pub content_type: String,
    pub data_url: String,
}

/// A chat message from the web interface to a bee.
pub struct WebChatMessage {
    pub workspace: String,
    pub bee: Option<String>,
    pub text: String,
    pub attachments_json: Option<String>,
    pub attachments: Vec<WebChatAttachment>,
}

/// A wish to stop a bee.
pub struct WebCancelRequest {
    pub workspace: String,
    pub bee: Option<String>,
}

/// An event of a streamed answer.
pub enum WebChatEvent {
    Token { text: String },
    Done,
    Error { text: String },
    /// A step of a workflow starts.
    StepStart { step: String, label: String },
    /// A step of a workflow is done.
    StepDone { step: String },
}

/// An event of a streamed answer, with texts for strings.
pub enum ChatEvent {
    Token(Seq<char>),
    Done,
    Error(Seq<char>),
    StepStart(Seq<char>, Seq<char>),
    StepDone(Seq<char>),
}

impl View for WebChatEvent {
    type V = ChatEvent;

    open spec fn view(&self) -> ChatEvent {
        match *self {
            WebChatEvent::Token { text } => ChatEvent::Token(text@),
            WebChatEvent::Done => ChatEvent::Done,
            WebChatEvent::Error { text } => ChatEvent::Error(text@),
            WebChatEvent::StepStart { step, label } => ChatEvent::StepStart(step@, label@),
            WebChatEvent::StepDone { step } => ChatEvent::StepDone(step@),
        }
    }
}

impl WebChatEvent {
    /// Whether a streamed answer ends with this event.
    pub open spec fn ends_answer(self) -> bool {
        self is Done || self is Error
    }

    /// Whether a streamed answer ends with this event.
    pub fn is_terminal(&self) -> (r: bool)
        ensures
            r == self.ends_answer(),
    {
        match self {
            WebChatEvent::Done => true,
            WebChatEvent::Error { text } => true,
            _ => false,
        }
    }
}

// ---------------------------------------------------------------------------
// Requests for a bot
// ---------------------------------------------------------------------------

/// The bee that a name of the web interface stands for, or the name itself
/// where it stands for none.
pub open spec fn bee_or_name(bees: Seq<BeeConfig>, bot: Seq<char>) -> Seq<char> {
    match bee_meant(bees, bot) {
        Some(name) => name,
        None => bot,
    }
}

fn resolved(config: &WorkspaceConfig, bot: &str) -> (r: String)
    ensures
        r@ == bee_or_name(config.bees@, bot@),
{
    match resolve_bee_name_for_api(config, bot) {
        Some(name) => name,
        None => bot.to_owned(),
    }
}

/// A message from the web interface to a bot. `written` are the attachments
/// in JSON notation; where there are none, nothing is noted of them.
pub fn chat_message(
    config: &WorkspaceConfig,
    workspace: &str,
    bot: &str,
    message: &str,
    attachments: Vec<WebChatAttachment>,
    written: Option<String>,
) -> (r: WebChatMessage)
    ensures
        r.workspace@ == workspace@,
        opt_text(r.bee) == Some(bee_or_name(config.bees@, bot@)),
        r.text@ == message@,
        r.attachments == attachments,
        r.attachments_json == if attachments@.len() == 0 {
            None
        } else {
            written
        },
{
    let attachments_json = if attachments.len() == 0 {
        None
    } else {
        written
    };
    WebChatMessage {
        workspace: workspace.to_owned(),
        bee: Some(resolved(config, bot)),
        text: message.to_owned(),
        attachments_json,
        attachments,
    }
}

/// The wish to stop a bot.
pub fn cancel_request(config: &WorkspaceConfig, workspace: &str, bot: &str) -> (r: WebCancelRequest)
    ensures
        r.workspace@ == workspace@,
        opt_text(r.bee) == Some(bee_or_name(config.bees@, bot@)),
{
    WebCancelRequest { workspace: workspace.to_owned(), bee: Some(resolved(config, bot)) }
}

/// The answer to a wish for research, at the given milliseconds since the
/// start of 1970.
pub fn research_started(workspace: &str, topic: &str, millis: i64) -> (r: Json)
    ensures
        r.tree() == Tree::Object(
            seq![
                ("id"@, Tree::Text("research-"@ + decimal(millis as int))),
                ("topic"@, Tree::Text(topic@)),
                ("status"@, Tree::Text("running"@)),
                ("workspace"@, Tree::Text(workspace@)),
            ],
        ),
{
    let n = signed_number(millis);
    let id = cat2("research-", n.as_str());
    let r = object().with("id", Json::Text(id)).with("topic", text(topic)).with(
        "status",
        text("running"),
    ).with("workspace", text(workspace));
    proof {
        assert(members_of(r.tree()) =~= seq![
            ("id"@, Tree::Text("research-"@ + decimal(millis as int))),
            ("topic"@, Tree::Text(topic@)),
            ("status"@, Tree::Text("running"@)),
            ("workspace"@, Tree::Text(workspace@)),
        ]);
    }
    r
}

/// A chat goes to the bee that a name means, and to the name itself where it
/// means none.
pub proof fn law_chat_goes_to_the_bee_meant(bees: Seq<BeeConfig>, bot: Seq<char>)
    ensures
        bee_meant(bees, bot) is Some ==> bee_or_name(bees, bot) == bee_meant(bees, bot)->0,
        bee_meant(bees, bot) is None ==> bee_or_name(bees, bot) == bot,
{
}

/// An answer ends when it is done or has failed, and with nothing else.
pub proof fn law_answer_ends_once(event: WebChatEvent)
    ensures
        event is Done || event is Error ==> event.ends_answer(),
        event is Token || event is StepStart || event is StepDone ==> !event.ends_answer(),
{
}

} // verus!
