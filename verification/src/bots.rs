//! What the web interface shows about a bot: its effective configuration, its
//! recent conversations, what it did by itself, and which providers are there.

use crate::bees::{bee_meant, hook_sources};
use crate::briefing::{items_view, BriefingAction, BriefingItem, Item};
use crate::config::{
    authority_label, execution_policy_label, BeeConfig, BeeExecutionPolicy, WorkspaceConfig,
};
use crate::conversations::last_of;
use crate::order::{law_sorted, lemma_placed_at, sorted};
use crate::text::{
    cat2, comes_before, contains, decimal, first_chars, has_part, lemma_text_less_irreflexive,
    lemma_text_less_total, lemma_text_less_transitive, number_up_to, opt_text, parse_number, same,
    signed_number, start_of, text_less, texts,
};
use vstd::prelude::*;

verus! {

// ---------------------------------------------------------------------------
// Effective configuration
// ---------------------------------------------------------------------------

/// How many entries the details of a bot show: twenty unless the request says
/// otherwise, at most a hundred.
pub open spec fn debug_limit_of(asked: Option<String>) -> int {
    let n = crate::auto_bots::number_or(asked, 20);
    if n <= 100 {
        n
    } else {
        100
    }
}

/// How many entries the details of a bot show.
pub fn debug_limit(asked: &Option<String>) -> (r: usize)
    ensures
        r == debug_limit_of(*asked),
{
    let n: u64 = match asked {
        Some(s) => match parse_number(s.as_str(), usize::MAX as u64) {
            Some(n) => n,
            None => 20,
        },
        None => 20,
    };
    if n <= 100 {
        n as usize
    } else {
        100
    }
}

/// The position of the first bee with the name, or the number of bees where
/// there is none.
pub open spec fn bee_at(bees: Seq<BeeConfig>, name: Seq<char>) -> int
    decreases bees.len(),
{
    if bees.len() == 0 || bees[0].name@ == name {
        0
    } else {
        1 + bee_at(bees.drop_first(), name)
    }
}

/// The name of the bee that a bot stands for.
pub open spec fn actual_name(bees: Seq<BeeConfig>, bot: Seq<char>) -> Seq<char> {
    match bee_meant(bees, bot) {
        Some(name) => name,
        None => bot,
    }
}

/// The effective configuration of a bot.
pub struct BotEffectiveConfigView {
    pub api_name: String,
    pub resolved_bee_name: String,
    pub workspace_authority: String,
    pub configured_execution_policy: String,
    pub effective_execution_policy: String,
    pub provider: String,
    pub model: String,
    pub role: Option<String>,
    pub color: Option<String>,
    pub max_turns: u32,
    pub max_session_turns: u32,
    pub heartbeat: Option<String>,
    pub signal_sources: Vec<String>,
}

/// Whether `view` shows the bee as the configuration of the bot.
pub open spec fn shows_config(
    view: BotEffectiveConfigView,
    bot: Seq<char>,
    name: Seq<char>,
    config: WorkspaceConfig,
    bee: BeeConfig,
    effective: BeeExecutionPolicy,
) -> bool {
    &&& view.api_name@ == bot
    &&& view.resolved_bee_name@ == name
    &&& view.workspace_authority@ == config.authority.word()
    &&& view.configured_execution_policy@ == bee.execution_policy.word()
    &&& view.effective_execution_policy@ == effective.word()
    &&& view.provider == bee.provider
    &&& view.model == bee.model
    &&& view.role == bee.role
    &&& view.color == bee.color
    &&& view.max_turns == bee.max_turns
    &&& view.max_session_turns == bee.max_session_turns
    &&& view.heartbeat == bee.heartbeat
    &&& texts(view.signal_sources@) == hook_sources(bee.signal_hooks@)
}

proof fn lemma_bee_at(bees: Seq<BeeConfig>, name: Seq<char>, k: int)
    requires
        0 <= k <= bees.len(),
        forall|i: int| 0 <= i < k ==> (#[trigger] bees[i]).name@ != name,
        k < bees.len() ==> bees[k].name@ == name,
    ensures
        bee_at(bees, name) == k,
    decreases bees.len(),
{
    if k > 0 {
        let t = bees.drop_first();
        assert forall|i: int| 0 <= i < k - 1 implies (#[trigger] t[i]).name@ != name by {
            assert(t[i] == bees[i + 1]);
        }
        lemma_bee_at(t, name, k - 1);
        assert(bees[0].name@ != name);
    }
}

/// The position of the bee that a bot stands for, or the number of bees.
pub fn find_bot(config: &WorkspaceConfig, bot: &str) -> (r: usize)
    ensures
        r <= config.bees@.len(),
        r == bee_at(config.bees@, actual_name(config.bees@, bot@)),
{
    let name = match crate::bees::resolve_bee_name_for_api(config, bot) {
        Some(n) => n,
        None => bot.to_owned(),
    };
    let n: usize = config.bees.len();
    let mut i: usize = 0;
    while i < n && !same(config.bees[i].name.as_str(), name.as_str())
        invariant
            n == config.bees@.len(),
            0 <= i <= n,
            forall|j: int| 0 <= j < i ==> (#[trigger] config.bees@[j]).name@ != name@,
        decreases n - i,
    {
        i = i + 1;
    }
    proof {
        lemma_bee_at(config.bees@, name@, i as int);
    }
    i
}

/// The effective configuration of a bot, where a bee stands behind it.
/// `effective` is what the workspace's authority leaves of the bee's policy.
pub fn effective_config(
    config: &WorkspaceConfig,
    bot: &str,
    effective: BeeExecutionPolicy,
) -> (r: Option<BotEffectiveConfigView>)
    ensures
        ({
            let name = actual_name(config.bees@, bot@);
            let k = bee_at(config.bees@, name);
            &&& r is Some <==> k < config.bees@.len()
            &&& (r matches Some(v) ==> shows_config(
                v,
                bot@,
                name,
                *config,
                config.bees@[k],
                effective,
            ))
        }),
{
    let k = find_bot(config, bot);
    if k >= config.bees.len() {
        return None;
    }
    let bee = &config.bees[k];
    let name = match crate::bees::resolve_bee_name_for_api(config, bot) {
        Some(n) => n,
        None => bot.to_owned(),
    };
    let mut sources: Vec<String> = Vec::new();
    let n: usize = bee.signal_hooks.len();
    let mut i: usize = 0;
    while i < n
        invariant
            n == bee.signal_hooks@.len(),
            0 <= i <= n,
            sources@.len() == i,
            forall|j: int|
                0 <= j < i ==> (#[trigger] sources@[j])@ == bee.signal_hooks@[j].source@,
        decreases n - i,
    {
        sources.push(bee.signal_hooks[i].source.clone());
        i = i + 1;
    }
    proof {
        assert(texts(sources@) =~= hook_sources(bee.signal_hooks@));
    }
    Some(
        BotEffectiveConfigView {
            api_name: bot.to_owned(),
            resolved_bee_name: name,
            workspace_authority: authority_label(config.authority).to_owned(),
            configured_execution_policy: execution_policy_label(bee.execution_policy).to_owned(),
            effective_execution_policy: execution_policy_label(effective).to_owned(),
            provider: bee.provider.clone(),
            model: bee.model.clone(),
            role: bee.role.clone(),
            color: bee.color.clone(),
            max_turns: bee.max_turns,
            max_session_turns: bee.max_session_turns,
            heartbeat: bee.heartbeat.clone(),
            signal_sources: sources,
        },
    )
}

// ---------------------------------------------------------------------------
// Conversations with all bees
// ---------------------------------------------------------------------------

/// A message of a conversation with one of the bees of a workspace.
pub struct ConversationMessage {
    pub role: String,
    pub content: String,
    pub source: Option<String>,
    pub bee: String,
    pub workspace: String,
    pub created_at: String,
}

/// Whether a message was written before another.
pub open spec fn written_before() -> spec_fn(ConversationMessage, ConversationMessage) -> bool {
    |a: ConversationMessage, b: ConversationMessage| text_less(a.created_at@, b.created_at@)
}

/// The last fifty messages with the bees of a workspace, in the order in which
/// they were written.
pub fn recent_conversations(messages: Vec<ConversationMessage>) -> (r: Vec<ConversationMessage>)
    ensures
        r@ == last_of(sorted(messages@, written_before()), 50),
{
    let ghost all = messages@;
    let ghost less = written_before();
    let mut rest = messages;
    let mut out: Vec<ConversationMessage> = Vec::new();
    let ghost mut m: int = 0;
    proof {
        assert(all.skip(0) =~= all);
        assert(out@ =~= sorted(all.take(0), less));
    }
    while rest.len() > 0
        invariant
            0 <= m <= all.len(),
            less == written_before(),
            rest@ == all.skip(m),
            out@ == sorted(all.take(m), less),
        decreases rest@.len(),
    {
        proof {
            assert(m < all.len());
            assert(rest@[0] == all[m]);
        }
        let message = rest.remove(0);
        let mut k: usize = out.len();
        while k > 0 && comes_before(message.created_at.as_str(), out[k - 1].created_at.as_str())
            invariant
                0 <= k <= out@.len(),
                less == written_before(),
                forall|j: int| k <= j < out@.len() ==> less(message, #[trigger] out@[j]),
            decreases k,
        {
            k = k - 1;
        }
        proof {
            assert(rest@ =~= all.skip(m + 1));
            lemma_placed_at(out@, message, less, k as int);
            assert(all.take(m + 1).drop_last() =~= all.take(m));
            assert(all.take(m + 1).last() == message);
            m = m + 1;
        }
        out.insert(k, message);
    }
    proof {
        assert(all.take(m) =~= all);
    }
    let total: usize = out.len();
    if total > 50 {
        let ghost whole = out@;
        let last = out.split_off(total - 50);
        proof {
            assert(last@ =~= whole.skip(total - 50));
        }
        last
    } else {
        out
    }
}

// ---------------------------------------------------------------------------
// What bees did by themselves
// ---------------------------------------------------------------------------

/// A signal that a bee has dismissed by itself.
pub struct DismissedSignal {
    pub id: i64,
    pub workspace: String,
    pub source: String,
    pub title: String,
    pub resolved_at: String,
}

/// The item for a signal that a bee has dismissed.
pub open spec fn dismissed_item(s: DismissedSignal) -> Item {
    Item {
        id: "dismissed-"@ + decimal(s.id as int),
        priority: "quiet"@,
        icon: "✓"@,
        title: "Auto-dismissed: "@ + first_chars(s.title@, 60),
        body: Some("Source: "@ + s.source@),
        workspace: s.workspace@,
        source: "bee_activity"@,
        url: None,
        actions: seq![],
        timestamp: s.resolved_at@,
    }
}

/// Whether an item is newer than another.
pub open spec fn newer() -> spec_fn(Item, Item) -> bool {
    |a: Item, b: Item| text_less(b.timestamp, a.timestamp)
}

/// The items for signals that bees have dismissed.
pub open spec fn dismissed_items(list: Seq<DismissedSignal>) -> Seq<Item> {
    list.map_values(|s: DismissedSignal| dismissed_item(s))
}

fn make_dismissed(s: &DismissedSignal) -> (r: BriefingItem)
    ensures
        r@ == dismissed_item(*s),
{
    let id = signed_number(s.id);
    let title = start_of(s.title.as_str(), 60);
    let actions: Vec<BriefingAction> = Vec::new();
    proof {
        assert(crate::briefing::action_texts(actions@) =~= Seq::<(Seq<char>, Seq<char>)>::empty());
    }
    BriefingItem {
        id: cat2("dismissed-", id.as_str()),
        priority: "quiet".to_owned(),
        icon: "✓".to_owned(),
        title: cat2("Auto-dismissed: ", title.as_str()),
        body: Some(cat2("Source: ", s.source.as_str())),
        workspace: s.workspace.clone(),
        source: "bee_activity".to_owned(),
        url: None,
        actions,
        timestamp: s.resolved_at.clone(),
    }
}

/// What bees did by themselves lately, the newest first.
pub fn bee_activity(list: &Vec<DismissedSignal>) -> (r: Vec<BriefingItem>)
    ensures
        items_view(r@) == sorted(dismissed_items(list@), newer()),
{
    let ghost all = dismissed_items(list@);
    let ghost less = newer();
    let n: usize = list.len();
    let mut out: Vec<BriefingItem> = Vec::new();
    let mut i: usize = 0;
    proof {
        assert(items_view(out@) =~= sorted(all.take(0), less));
    }
    while i < n
        invariant
            n == list@.len(),
            all == dismissed_items(list@),
            less == newer(),
            0 <= i <= n,
            items_view(out@) == sorted(all.take(i as int), less),
        decreases n - i,
    {
        let item = make_dismissed(&list[i]);
        let ghost order = items_view(out@);
        let mut k: usize = out.len();
        while k > 0 && comes_before(out[k - 1].timestamp.as_str(), item.timestamp.as_str())
            invariant
                0 <= k <= out@.len(),
                order == items_view(out@),
                less == newer(),
                forall|j: int| k <= j < order.len() ==> less(item@, #[trigger] order[j]),
            decreases k,
        {
            k = k - 1;
        }
        proof {
            lemma_placed_at(order, item@, less, k as int);
            assert(items_view(out@.insert(k as int, item)) =~= order.insert(k as int, item@));
            assert(all.take(i + 1).drop_last() =~= all.take(i as int));
            assert(all.take(i + 1).last() == item@);
        }
        out.insert(k, item);
        i = i + 1;
    }
    proof {
        assert(all.take(n as int) =~= all);
    }
    out
}

// ---------------------------------------------------------------------------
// Providers
// ---------------------------------------------------------------------------

/// What became of looking at a provider's help.
pub enum HelpProbe {
    /// What the help says.
    Text(String),
    /// Why it could not be read.
    Failed(String),
}

/// What a provider's command line can do.
pub struct ProviderCapabilityView {
    pub name: String,
    pub installed: bool,
    pub binary_path: Option<String>,
    pub sandbox_flag_supported: Option<bool>,
    pub approval_flag_supported: Option<bool>,
    pub notes: Vec<String>,
}

/// What is noted about a provider.
pub open spec fn provider_notes(
    name: Seq<char>,
    installed: bool,
    help: HelpProbe,
) -> Seq<Seq<char>> {
    if !installed {
        seq!["Provider CLI not found on PATH."@]
    } else {
        match help {
            HelpProbe::Text(s) => if name == "codex"@ && !contains(s@, "--approval-policy"@) {
                seq!["Current codex exec CLI does not support --approval-policy."@]
            } else {
                seq![]
            },
            HelpProbe::Failed(e) => seq!["Failed to inspect CLI help: "@ + e@],
        }
    }
}

/// Whether a provider has an option, as far as its help tells.
pub open spec fn flag_supported(
    name: Seq<char>,
    installed: bool,
    help: HelpProbe,
    flag: Seq<char>,
) -> Option<bool> {
    match help {
        HelpProbe::Text(s) => if installed && name == "codex"@ {
            Some(contains(s@, flag))
        } else {
            None
        },
        HelpProbe::Failed(e) => None,
    }
}

/// What a provider's command line can do. `which` is what the search for it
/// printed, where it succeeded.
pub fn provider_capability(name: &str, which: &Option<String>, help: &HelpProbe) -> (r:
    ProviderCapabilityView)
    ensures
        r.name@ == name@,
        r.installed == which is Some,
        opt_text(r.binary_path) == crate::worker::given(opt_text(*which)),
        r.sandbox_flag_supported == flag_supported(name@, which is Some, *help, "--sandbox"@),
        r.approval_flag_supported == flag_supported(
            name@,
            which is Some,
            *help,
            "--approval-policy"@,
        ),
        texts(r.notes@) == provider_notes(name@, which is Some, *help),
{
    let installed = which.is_some();
    let mut notes: Vec<String> = Vec::new();
    let mut sandbox: Option<bool> = None;
    let mut approval: Option<bool> = None;
    if installed {
        match help {
            HelpProbe::Text(s) => {
                if same(name, "codex") {
                    let has_approval = has_part(s.as_str(), "--approval-policy");
                    sandbox = Some(has_part(s.as_str(), "--sandbox"));
                    approval = Some(has_approval);
                    if !has_approval {
                        notes.push(
                            "Current codex exec CLI does not support --approval-policy.".to_owned(),
                        );
                    }
                }
            },
            HelpProbe::Failed(e) => {
                notes.push(cat2("Failed to inspect CLI help: ", e.as_str()));
            },
        }
    } else {
        notes.push("Provider CLI not found on PATH.".to_owned());
    }
    proof {
        assert(texts(notes@) =~= provider_notes(name@, which is Some, *help));
    }
    ProviderCapabilityView {
        name: name.to_owned(),
        installed,
        binary_path: crate::worker::given_text(which),
        sandbox_flag_supported: sandbox,
        approval_flag_supported: approval,
        notes,
    }
}

// ---------------------------------------------------------------------------
// Status
// ---------------------------------------------------------------------------

/// What a bot is doing.
pub struct BotStatusView {
    pub status: String,
    pub streaming_content: String,
    pub tool_name: Option<String>,
}

/// What a bot is doing: what is stored of it, or nothing.
pub fn bot_status(stored: Option<BotStatusView>) -> (r: BotStatusView)
    ensures
        match stored {
            Some(s) => r == s,
            None => r.status@ == "idle"@ && r.streaming_content@.len() == 0 && r.tool_name is None,
        },
{
    match stored {
        Some(s) => s,
        None => BotStatusView {
            status: "idle".to_owned(),
            streaming_content: String::new(),
            tool_name: None,
        },
    }
}

// ---------------------------------------------------------------------------
// Laws
// ---------------------------------------------------------------------------

/// The details of a bot show twenty entries where the request asks for no
/// number, as many as it asks for, and never more than a hundred.
pub proof fn law_details_are_limited(asked: Option<String>)
    ensures
        asked is None ==> debug_limit_of(asked) == 20,
        asked is Some && number_up_to(asked->0@, usize::MAX as nat) is None ==> debug_limit_of(
            asked,
        ) == 20,
        asked is Some && number_up_to(asked->0@, usize::MAX as nat) is Some ==> {
            let n = number_up_to(asked->0@, usize::MAX as nat)->0;
            &&& n <= 100 ==> debug_limit_of(asked) == n
            &&& n > 100 ==> debug_limit_of(asked) == 100
        },
{
}

/// The configuration of a bot is that of the first bee of the name that the bot
/// stands for.
pub proof fn law_bot_is_the_first_bee_of_its_name(bees: Seq<BeeConfig>, name: Seq<char>)
    ensures
        0 <= bee_at(bees, name) <= bees.len(),
        bee_at(bees, name) < bees.len() ==> bees[bee_at(bees, name)].name@ == name,
        forall|m: int| 0 <= m < bee_at(bees, name) ==> (#[trigger] bees[m]).name@ != name,
        bee_meant(bees, name) is Some ==> actual_name(bees, name) == bee_meant(bees, name)->0,
        bee_meant(bees, name) is None ==> actual_name(bees, name) == name,
    decreases bees.len(),
{
    if bees.len() > 0 && bees[0].name@ != name {
        let t = bees.drop_first();
        law_bot_is_the_first_bee_of_its_name(t, name);
        assert forall|m: int| 0 <= m < bee_at(bees, name) implies (#[trigger] bees[m]).name@
            != name by {
            if m > 0 {
                assert(t[m - 1] == bees[m]);
            }
        }
    }
}

/// The recent conversations are the fifty that were written last, the oldest of
/// them first.
pub proof fn law_recent_conversations_are_the_last(messages: Seq<ConversationMessage>)
    ensures
        ({
            let all = sorted(messages, written_before());
            let shown = last_of(all, 50);
            &&& all.len() == messages.len()
            &&& all.to_multiset() =~= messages.to_multiset()
            &&& shown.len() == if messages.len() <= 50 {
                messages.len() as int
            } else {
                50
            }
            &&& forall|i: int, j: int|
                0 <= i < j < all.len() ==> !text_less(
                    (#[trigger] all[j]).created_at@,
                    (#[trigger] all[i]).created_at@,
                )
            &&& forall|i: int|
                0 <= i < shown.len() ==> #[trigger] shown[i] == all[all.len() - shown.len() + i]
        }),
{
    let less = written_before();
    assert forall|a: ConversationMessage, b: ConversationMessage| #[trigger] less(a, b) implies
        !less(b, a) by {
        lemma_text_order(a.created_at@, b.created_at@, a.created_at@);
    }
    assert forall|a: ConversationMessage, b: ConversationMessage, c: ConversationMessage|
        !(#[trigger] less(a, b)) && !(#[trigger] less(b, c)) implies !less(a, c) by {
        lemma_text_order(a.created_at@, b.created_at@, c.created_at@);
    }
    law_sorted(messages, less);
    let all = sorted(messages, less);
    assert forall|i: int, j: int| 0 <= i < j < all.len() implies !text_less(
        (#[trigger] all[j]).created_at@,
        (#[trigger] all[i]).created_at@,
    ) by {
        assert(!less(all[j], all[i]));
    }
}

proof fn lemma_text_order(a: Seq<char>, b: Seq<char>, c: Seq<char>)
    ensures
        text_less(a, b) ==> !text_less(b, a),
        !text_less(a, b) && !text_less(b, c) ==> !text_less(a, c),
{
    lemma_text_less_irreflexive(a);
    lemma_text_less_irreflexive(b);
    lemma_text_less_irreflexive(c);
    lemma_text_less_total(a, b);
    lemma_text_less_total(b, c);
    if text_less(a, b) && text_less(b, a) {
        lemma_text_less_transitive(a, b, a);
    }
    if text_less(b, a) && text_less(a, c) {
        lemma_text_less_transitive(b, a, c);
    }
    if text_less(c, b) && text_less(b, c) {
        lemma_text_less_transitive(c, b, c);
    }
    if text_less(b, c) && text_less(c, b) {
        lemma_text_less_transitive(b, c, b);
    }
    if text_less(c, b) && text_less(b, a) {
        lemma_text_less_transitive(c, b, a);
        if text_less(a, c) {
            lemma_text_less_transitive(a, c, a);
        }
    }
}

/// What a bee dismissed is merely mentioned, under the signal's own workspace
/// and the instant of its dismissal; what was dismissed last comes first, and
/// nothing is left out.
pub proof fn law_dismissed_signals_are_mentioned(list: Seq<DismissedSignal>, k: int)
    requires
        0 <= k < list.len(),
    ensures
        ({
            let shown = sorted(dismissed_items(list), newer());
            &&& shown.len() == list.len()
            &&& shown.to_multiset() =~= dismissed_items(list).to_multiset()
            &&& forall|i: int, j: int|
                0 <= i < j < shown.len() ==> !text_less(
                    (#[trigger] shown[i]).timestamp,
                    (#[trigger] shown[j]).timestamp,
                )
        }),
        ({
            let x = dismissed_items(list)[k];
            &&& x.priority == "quiet"@
            &&& x.workspace == list[k].workspace@
            &&& x.timestamp == list[k].resolved_at@
            &&& x.body == Some("Source: "@ + list[k].source@)
            &&& list[k].title@.len() <= 60 ==> x.title == "Auto-dismissed: "@ + list[k].title@
            &&& list[k].title@.len() > 60 ==> x.title == "Auto-dismissed: "@ + list[k].title@.take(
                60,
            )
            &&& x.actions.len() == 0
        }),
{
    let less = newer();
    let items = dismissed_items(list);
    assert forall|a: Item, b: Item| #[trigger] less(a, b) implies !less(b, a) by {
        lemma_text_order(a.timestamp, b.timestamp, a.timestamp);
        lemma_text_order(b.timestamp, a.timestamp, b.timestamp);
    }
    assert forall|a: Item, b: Item, c: Item|
        !(#[trigger] less(a, b)) && !(#[trigger] less(b, c)) implies !less(a, c) by {
        lemma_text_order(c.timestamp, b.timestamp, a.timestamp);
    }
    law_sorted(items, less);
    let shown = sorted(items, less);
    assert forall|i: int, j: int| 0 <= i < j < shown.len() implies !text_less(
        (#[trigger] shown[i]).timestamp,
        (#[trigger] shown[j]).timestamp,
    ) by {
        assert(!less(shown[j], shown[i]));
    }
}

/// Of a provider that is not installed nothing is known but that. Whether a
/// flag is supported is told of one provider alone, where its help could be
/// read: exactly where the help mentions the flag.
pub proof fn law_capabilities_come_from_the_help(name: Seq<char>, help: HelpProbe, flag: Seq<char>)
    ensures
        flag_supported(name, false, help, flag) is None,
        provider_notes(name, false, help) == seq!["Provider CLI not found on PATH."@],
        help is Failed ==> flag_supported(name, true, help, flag) is None && provider_notes(
            name,
            true,
            help,
        ) == seq!["Failed to inspect CLI help: "@ + help->Failed_0@],
        help is Text && name == "codex"@ ==> flag_supported(name, true, help, flag) == Some(
            contains(help->Text_0@, flag),
        ),
        help is Text && name != "codex"@ ==> flag_supported(name, true, help, flag) is None
            && provider_notes(name, true, help).len() == 0,
        help is Text && name == "codex"@ ==> (provider_notes(name, true, help).len() == 0
            <==> contains(help->Text_0@, "--approval-policy"@)),
{
}

/// A bot's settings are shown as they are configured, beside the policy that
/// holds in the workspace.
pub proof fn law_shown_config(
    view: BotEffectiveConfigView,
    bot: Seq<char>,
    name: Seq<char>,
    config: WorkspaceConfig,
    bee: BeeConfig,
    effective: BeeExecutionPolicy,
)
    requires
        shows_config(view, bot, name, config, bee, effective),
    ensures
        view.api_name@ == bot && view.resolved_bee_name@ == name,
        view.workspace_authority@ == config.authority.word(),
        view.configured_execution_policy@ == bee.execution_policy.word(),
        view.effective_execution_policy@ == effective.word(),
        view.provider == bee.provider && view.model == bee.model && view.role == bee.role
            && view.color == bee.color && view.heartbeat == bee.heartbeat,
        view.max_turns == bee.max_turns && view.max_session_turns == bee.max_session_turns,
{
}

} // verus!
