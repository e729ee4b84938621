//! The configuration of workspaces, as far as decisions rest on it.

use vstd::prelude::*;

verus! {

/// Names that are set where the daemon is installed.
pub struct Names {
    /// The agent that works where none is named.
    pub agent: String,
    /// The model that answers where none is chosen.
    pub model: String,
    /// The role of those who inspect work.
    pub review_role: String,
    /// The word of a review that asks for changes.
    pub changes_word: String,
}

/// The version of the configuration that this program writes.
pub const CURRENT_CONFIG_VERSION: u32 = 1;

/// A hook that tells the coordinator about signals of a source.
pub struct SignalHookConfig {
    pub source: String,
    /// The template of the message; empty for the system's own.
    pub prompt: String,
    pub action: Option<String>,
    /// For how many seconds a message may wait to be delivered.
    pub ttl_secs: u64,
}

/// What a bee may do by itself.
#[derive(Debug, Clone, Copy, PartialEq, Eq, Structural)]
pub enum BeeExecutionPolicy {
    Observe,
    DispatchOnly,
    Autonomous,
}

impl BeeExecutionPolicy {
    /// The word for a policy.
    pub open spec fn word(self) -> Seq<char> {
        match self {
            BeeExecutionPolicy::Observe => "observe"@,
            BeeExecutionPolicy::DispatchOnly => "dispatch_only"@,
            BeeExecutionPolicy::Autonomous => "autonomous"@,
        }
    }
}

/// The word for a policy.
pub fn execution_policy_label(policy: BeeExecutionPolicy) -> (r: &'static str)
    ensures
        r@ == policy.word(),
{
    match policy {
        BeeExecutionPolicy::Observe => "observe",
        BeeExecutionPolicy::DispatchOnly => "dispatch_only",
        BeeExecutionPolicy::Autonomous => "autonomous",
    }
}

/// What a workspace may do by itself.
#[derive(Debug, Clone, Copy, PartialEq, Eq, Structural)]
pub enum WorkspaceAuthority {
    Observe,
    Autonomous,
}

impl WorkspaceAuthority {
    /// The word for an authority.
    pub open spec fn word(self) -> Seq<char> {
        match self {
            WorkspaceAuthority::Observe => "observe"@,
            WorkspaceAuthority::Autonomous => "autonomous"@,
        }
    }
}

/// The word for an authority.
pub fn authority_label(authority: WorkspaceAuthority) -> (r: &'static str)
    ensures
        r@ == authority.word(),
{
    match authority {
        WorkspaceAuthority::Observe => "observe",
        WorkspaceAuthority::Autonomous => "autonomous",
    }
}

/// A bee: a coordinator with a name of its own.
pub struct BeeConfig {
    pub name: String,
    pub role: Option<String>,
    pub color: Option<String>,
    pub execution_policy: BeeExecutionPolicy,
    pub provider: String,
    pub model: String,
    pub max_turns: u32,
    pub prompt: Option<String>,
    pub max_session_turns: u32,
    /// How often the bee wakes up by itself.
    pub heartbeat: Option<String>,
    pub signal_hooks: Vec<SignalHookConfig>,
    pub topic_id: Option<i64>,
}

/// A workspace.
pub struct WorkspaceConfig {
    pub root: String,
    pub repos: Vec<String>,
    pub authority: WorkspaceAuthority,
    /// The workspace's bees; where it configures none, the one that its
    /// coordinator makes.
    pub bees: Vec<BeeConfig>,
}

/// A command of the workspace's own.
pub struct CommandConfig {
    pub name: String,
    pub script: String,
    pub description: Option<String>,
    /// Whether the daemon starts anew once the script has succeeded.
    pub restart: bool,
}

/// Each policy of a bee and each authority of a workspace has a word of its own.
pub proof fn law_policy_words(a: BeeExecutionPolicy, b: BeeExecutionPolicy)
    ensures
        a.word() == b.word() ==> a == b,
        BeeExecutionPolicy::Observe.word() == "observe"@,
        BeeExecutionPolicy::DispatchOnly.word() == "dispatch_only"@,
        BeeExecutionPolicy::Autonomous.word() == "autonomous"@,
        WorkspaceAuthority::Observe.word() == "observe"@,
        WorkspaceAuthority::Autonomous.word() == "autonomous"@,
{
    reveal_strlit("observe");
    reveal_strlit("dispatch_only");
    reveal_strlit("autonomous");
    assert("observe"@[0] == 'o' && "dispatch_only"@[0] == 'd' && "autonomous"@[0] == 'a');
}

} // verus!
