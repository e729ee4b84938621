//! Bees: their names in the web interface, how they are described there, and
//! how their configuration is shown and saved.

use crate::config::{
    execution_policy_label, BeeConfig, BeeExecutionPolicy, SignalHookConfig, WorkspaceConfig,
};
use crate::text::{
    blank, byte_len, can_clip, cat2, cat3, clip, clipped, clips_evenly, has_prefix, join, joined,
    longer_than, opt_text, parts_between, pieces, pieces_of, same, split_on, starts_with, texts,
    trim, trim_end, trimmed, trimmed_end, Gap,
};
use crate::toml_doc::{
    all_bare, bare, document_in, fields_of, law_other_keys_stay, law_set_key_is_read, new_table,
    printed, set_integer, set_optional_text, set_tables, set_text, tables_of, value_in,
    value_under, with_key, with_optional_key, with_tables, write_tables, TomlTree,
};
use vstd::prelude::*;

verus! {

// ---------------------------------------------------------------------------
// Names
// ---------------------------------------------------------------------------

/// The name under which the web interface shows a bee: the default bee is
/// called `Main` there.
pub open spec fn shown_name(name: Seq<char>) -> Seq<char> {
    if name == "Bee"@ {
        "Main"@
    } else {
        name
    }
}

/// The name under which the web interface shows a bee.
pub fn display_bee_name(_bees: &Vec<BeeConfig>, bee: &BeeConfig) -> (r: String)
    ensures
        r@ == shown_name(bee.name@),
{
    if same(bee.name.as_str(), "Bee") {
        "Main".to_owned()
    } else {
        bee.name.clone()
    }
}

/// Whether a bee has the name.
pub open spec fn has_bee(bees: Seq<BeeConfig>, name: Seq<char>) -> bool {
    exists|i: int| 0 <= i < bees.len() && (#[trigger] bees[i]).name@ == name
}

/// The bee that a name of the web interface stands for: `Main` is the default
/// bee, or the first where there is no default bee; other names are their own.
pub open spec fn bee_meant(bees: Seq<BeeConfig>, api_name: Seq<char>) -> Option<Seq<char>> {
    if api_name == "Main"@ && has_bee(bees, "Bee"@) {
        Some("Bee"@)
    } else if api_name == "Main"@ && bees.len() > 0 {
        Some(bees[0].name@)
    } else if has_bee(bees, api_name) {
        Some(api_name)
    } else {
        None
    }
}

fn find_bee(bees: &Vec<BeeConfig>, name: &str) -> (r: bool)
    ensures
        r == has_bee(bees@, name@),
{
    let n: usize = bees.len();
    let mut i: usize = 0;
    while i < n
        invariant
            n == bees@.len(),
            0 <= i <= n,
            forall|j: int| 0 <= j < i ==> (#[trigger] bees@[j]).name@ != name@,
        decreases n - i,
    {
        if same(bees[i].name.as_str(), name) {
            return true;
        }
        i = i + 1;
    }
    false
}

/// The bee that a name of the web interface stands for.
pub fn resolve_bee_name_for_api(config: &WorkspaceConfig, api_name: &str) -> (r: Option<String>)
    ensures
        opt_text(r) == bee_meant(config.bees@, api_name@),
{
    if same(api_name, "Main") {
        if find_bee(&config.bees, "Bee") {
            return Some("Bee".to_owned());
        }
        if config.bees.len() > 0 {
            return Some(config.bees[0].name.clone());
        }
    }
    if find_bee(&config.bees, api_name) {
        Some(api_name.to_owned())
    } else {
        None
    }
}

/// The name under which a bee is shown stands for that bee, unless the bee
/// itself is called `Main`.
pub proof fn law_shown_name_resolves(bees: Seq<BeeConfig>, i: int)
    requires
        0 <= i < bees.len(),
        bees[i].name@ != "Main"@,
    ensures
        bee_meant(bees, shown_name(bees[i].name@)) == Some(bees[i].name@),
{
    reveal_strlit("Bee");
    reveal_strlit("Main");
    assert("Bee"@.len() != "Main"@.len());
    assert(has_bee(bees, bees[i].name@));
}

/// The scopes under which the conversations with a bot are kept.
pub open spec fn scopes_of(
    workspace: Seq<char>,
    bees: Seq<BeeConfig>,
    bot: Seq<char>,
) -> Seq<Seq<char>> {
    let actual = match bee_meant(bees, bot) {
        Some(name) => name,
        None => bot,
    };
    let first = seq![workspace + "/"@ + actual];
    if bot == "Main"@ {
        first + seq![workspace + "/Main"@, workspace + "/Bee"@, workspace]
    } else if actual != bot {
        first + seq![workspace + "/"@ + bot]
    } else {
        first
    }
}

/// The scopes under which the conversations with a bot are kept.
pub fn conversation_scopes_for_bot(workspace: &str, config: &WorkspaceConfig, bot: &str) -> (r: Vec<
    String,
>)
    ensures
        texts(r@) == scopes_of(workspace@, config.bees@, bot@),
{
    let actual = match resolve_bee_name_for_api(config, bot) {
        Some(name) => name,
        None => bot.to_owned(),
    };
    let mut scopes: Vec<String> = Vec::new();
    scopes.push(cat3(workspace, "/", actual.as_str()));
    if same(bot, "Main") {
        scopes.push(cat2(workspace, "/Main"));
        scopes.push(cat2(workspace, "/Bee"));
        scopes.push(workspace.to_owned());
    } else if !same(actual.as_str(), bot) {
        scopes.push(cat3(workspace, "/", bot));
    }
    proof {
        assert(texts(scopes@) =~= scopes_of(workspace@, config.bees@, bot@));
    }
    scopes
}

// ---------------------------------------------------------------------------
// Descriptions
// ---------------------------------------------------------------------------

/// Whether a section of a prompt describes the bee.
pub open spec fn describes(section: Seq<char>) -> bool {
    let t = trim(section);
    t.len() > 0 && !starts_with(t, "Role:"@) && !starts_with(t, "Color:"@)
}

/// The first section of a prompt that describes the bee.
pub open spec fn describing(sections: Seq<Seq<char>>) -> Option<Seq<char>>
    decreases sections.len(),
{
    if sections.len() == 0 {
        None
    } else if describes(sections[0]) {
        Some(trim(sections[0]))
    } else {
        describing(sections.drop_first())
    }
}

/// A text with single spaces between its words.
pub open spec fn squeezed(s: Seq<char>) -> Seq<char> {
    join(pieces(s, Gap::White), " "@)
}

/// A description cut to 160 bytes.
pub open spec fn shortened(s: Seq<char>) -> Seq<char> {
    if byte_len(s) > 160 {
        trim_end(clip(s, 160)) + "…"@
    } else {
        s
    }
}

/// The description of a bee that its prompt gives.
pub open spec fn prompt_description(prompt: Seq<char>) -> Option<Seq<char>> {
    match describing(split_on(prompt, "\n\n"@)) {
        Some(section) => if shortened(squeezed(section)).len() > 0 {
            Some(shortened(squeezed(section)))
        } else {
            None
        },
        None => None,
    }
}

/// How the web interface describes a bee: by its role, else by the first
/// section of its prompt that says more than role and color.
pub open spec fn bee_description(role: Option<Seq<char>>, prompt: Option<Seq<char>>) -> Option<
    Seq<char>,
> {
    match crate::worker::given(role) {
        Some(r) => Some(r),
        None => match prompt {
            Some(p) => prompt_description(p),
            None => None,
        },
    }
}

/// Whether the description that a prompt gives can be cut to 160 bytes.
pub open spec fn description_fits(role: Option<Seq<char>>, prompt: Option<Seq<char>>) -> bool {
    crate::worker::given(role) is None && prompt is Some ==> match describing(
        split_on(prompt->0, "\n\n"@),
    ) {
        Some(section) => byte_len(squeezed(section)) > 160 ==> clips_evenly(squeezed(section), 160),
        None => true,
    }
}

fn find_description(prompt: &str) -> (r: Option<String>)
    ensures
        opt_text(r) == describing(split_on(prompt@, "\n\n"@)),
{
    proof {
        reveal_strlit("\n\n");
    }
    let sections = parts_between(prompt, "\n\n");
    let ghost all = texts(sections@);
    let n: usize = sections.len();
    let mut i: usize = 0;
    proof {
        assert(all.skip(0) =~= all);
    }
    while i < n
        invariant
            n == sections@.len(),
            all == texts(sections@),
            all == split_on(prompt@, "\n\n"@),
            0 <= i <= n,
            describing(all) == describing(all.skip(i as int)),
        decreases n - i,
    {
        let t = trimmed(sections[i].as_str());
        proof {
            assert(all.skip(i as int)[0] == sections@[i as int]@);
            assert(all.skip(i as int).drop_first() =~= all.skip(i + 1));
        }
        if !t.as_str().is_empty() && !has_prefix(t.as_str(), "Role:") && !has_prefix(
            t.as_str(),
            "Color:",
        ) {
            return Some(t);
        }
        i = i + 1;
    }
    None
}

/// Whether the description that a bee's prompt gives can be cut.
pub fn description_can_be_cut(bee: &BeeConfig) -> (r: bool)
    ensures
        r == description_fits(opt_text(bee.role), opt_text(bee.prompt)),
{
    if crate::worker::given_text(&bee.role).is_some() {
        return true;
    }
    match &bee.prompt {
        Some(prompt) => match find_description(prompt.as_str()) {
            Some(section) => {
                let words = pieces_of(section.as_str(), Gap::White);
                let compact = joined(&words, " ");
                !longer_than(compact.as_str(), 160) || can_clip(compact.as_str(), 160)
            },
            None => true,
        },
        None => true,
    }
}

/// How the web interface describes a bee.
pub fn bot_description_for_ui(bee: &BeeConfig) -> (r: Option<String>)
    requires
        description_fits(opt_text(bee.role), opt_text(bee.prompt)),
    ensures
        opt_text(r) == bee_description(opt_text(bee.role), opt_text(bee.prompt)),
{
    if let Some(role) = crate::worker::given_text(&bee.role) {
        return Some(role);
    }
    match &bee.prompt {
        Some(prompt) => match find_description(prompt.as_str()) {
            Some(section) => {
                let words = pieces_of(section.as_str(), Gap::White);
                let compact = joined(&words, " ");
                let short = if longer_than(compact.as_str(), 160) {
                    let start = clipped(compact.as_str(), 160);
                    let end = trimmed_end(start.as_str());
                    cat2(end.as_str(), "…")
                } else {
                    compact
                };
                if short.as_str().is_empty() {
                    None
                } else {
                    Some(short)
                }
            },
            None => None,
        },
        None => None,
    }
}

/// A bot in the web interface's list.
pub struct BotListItem {
    pub name: String,
    pub color: Option<String>,
    pub role: Option<String>,
    pub description: Option<String>,
    pub provider: Option<String>,
    pub model: Option<String>,
    pub watch: Vec<String>,
}

/// The sources that hooks watch.
pub open spec fn hook_sources(hooks: Seq<SignalHookConfig>) -> Seq<Seq<char>> {
    hooks.map_values(|h: SignalHookConfig| h.source@)
}

/// Whether an item lists a bee.
pub open spec fn lists(item: BotListItem, bee: BeeConfig) -> bool {
    &&& item.name@ == shown_name(bee.name@)
    &&& item.color == bee.color
    &&& item.role == bee.role
    &&& opt_text(item.description) == bee_description(opt_text(bee.role), opt_text(bee.prompt))
    &&& opt_text(item.provider) == Some(bee.provider@)
    &&& opt_text(item.model) == if trim(bee.model@).len() > 0 {
        Some(bee.model@)
    } else {
        None
    }
    &&& texts(item.watch@) == hook_sources(bee.signal_hooks@)
}

fn sources_of(hooks: &Vec<SignalHookConfig>) -> (r: Vec<String>)
    ensures
        texts(r@) == hook_sources(hooks@),
{
    let mut out: Vec<String> = Vec::new();
    let n: usize = hooks.len();
    let mut i: usize = 0;
    while i < n
        invariant
            n == hooks@.len(),
            0 <= i <= n,
            out@.len() == i,
            forall|j: int| 0 <= j < i ==> (#[trigger] out@[j])@ == hooks@[j].source@,
        decreases n - i,
    {
        out.push(hooks[i].source.clone());
        i = i + 1;
    }
    proof {
        assert(texts(out@) =~= hook_sources(hooks@));
    }
    out
}

/// The bots of a workspace, as the web interface lists them.
pub fn bot_items_for_workspace(config: &WorkspaceConfig) -> (r: Vec<BotListItem>)
    requires
        forall|i: int|
            0 <= i < config.bees@.len() ==> description_fits(
                opt_text((#[trigger] config.bees@[i]).role),
                opt_text(config.bees@[i].prompt),
            ),
    ensures
        r@.len() == config.bees@.len(),
        forall|i: int| 0 <= i < r@.len() ==> lists(#[trigger] r@[i], config.bees@[i]),
{
    let mut out: Vec<BotListItem> = Vec::new();
    let n: usize = config.bees.len();
    let mut i: usize = 0;
    while i < n
        invariant
            n == config.bees@.len(),
            0 <= i <= n,
            forall|i: int|
                0 <= i < config.bees@.len() ==> description_fits(
                    opt_text((#[trigger] config.bees@[i]).role),
                    opt_text(config.bees@[i].prompt),
                ),
            out@.len() == i,
            forall|j: int| 0 <= j < i ==> lists(#[trigger] out@[j], config.bees@[j]),
        decreases n - i,
    {
        let bee = &config.bees[i];
        let model = if blank(bee.model.as_str()) {
            None
        } else {
            Some(bee.model.clone())
        };
        let item = BotListItem {
            name: display_bee_name(&config.bees, bee),
            color: bee.color.clone(),
            role: bee.role.clone(),
            description: bot_description_for_ui(bee),
            provider: Some(bee.provider.clone()),
            model,
            watch: sources_of(&bee.signal_hooks),
        };
        out.push(item);
        i = i + 1;
    }
    out
}

// ---------------------------------------------------------------------------
// The configuration as the web interface shows it
// ---------------------------------------------------------------------------

/// A hook as the web interface shows it.
pub struct SignalHookView {
    pub source: String,
    pub prompt: String,
    pub action: Option<String>,
    pub ttl_secs: u64,
}

/// A bee's configuration as the web interface shows it.
pub struct BeeConfigView {
    pub name: String,
    pub role: Option<String>,
    pub color: Option<String>,
    pub execution_policy: BeeExecutionPolicy,
    pub provider: String,
    pub model: String,
    pub max_turns: u32,
    pub prompt: Option<String>,
    pub max_session_turns: u32,
    pub signal_hooks: Vec<SignalHookView>,
    pub topic_id: Option<i64>,
}

/// The bees of a workspace as the web interface shows them.
pub struct BeesConfigResponse {
    pub workspace: String,
    pub bees: Vec<BeeConfigView>,
}

/// Whether `view` shows `hook`.
pub open spec fn shows_hook(view: SignalHookView, hook: SignalHookConfig) -> bool {
    &&& view.source == hook.source
    &&& view.prompt == hook.prompt
    &&& view.action == hook.action
    &&& view.ttl_secs == hook.ttl_secs
}

/// Whether `view` shows `bee`.
pub open spec fn shows_bee(view: BeeConfigView, bee: BeeConfig) -> bool {
    &&& view.name == bee.name
    &&& view.role == bee.role
    &&& view.color == bee.color
    &&& view.execution_policy == bee.execution_policy
    &&& view.provider == bee.provider
    &&& view.model == bee.model
    &&& view.max_turns == bee.max_turns
    &&& view.prompt == bee.prompt
    &&& view.max_session_turns == bee.max_session_turns
    &&& view.topic_id == bee.topic_id
    &&& view.signal_hooks@.len() == bee.signal_hooks@.len()
    &&& forall|i: int|
        0 <= i < bee.signal_hooks@.len() ==> shows_hook(
            #[trigger] view.signal_hooks@[i],
            bee.signal_hooks@[i],
        )
}

fn bee_view(bee: &BeeConfig) -> (r: BeeConfigView)
    ensures
        shows_bee(r, *bee),
{
    let mut hooks: Vec<SignalHookView> = Vec::new();
    let n: usize = bee.signal_hooks.len();
    let mut i: usize = 0;
    while i < n
        invariant
            n == bee.signal_hooks@.len(),
            0 <= i <= n,
            hooks@.len() == i,
            forall|j: int|
                0 <= j < i ==> shows_hook(#[trigger] hooks@[j], bee.signal_hooks@[j]),
        decreases n - i,
    {
        let h = &bee.signal_hooks[i];
        hooks.push(
            SignalHookView {
                source: h.source.clone(),
                prompt: h.prompt.clone(),
                action: h.action.clone(),
                ttl_secs: h.ttl_secs,
            },
        );
        i = i + 1;
    }
    BeeConfigView {
        name: bee.name.clone(),
        role: bee.role.clone(),
        color: bee.color.clone(),
        execution_policy: bee.execution_policy,
        provider: bee.provider.clone(),
        model: bee.model.clone(),
        max_turns: bee.max_turns,
        prompt: bee.prompt.clone(),
        max_session_turns: bee.max_session_turns,
        signal_hooks: hooks,
        topic_id: bee.topic_id,
    }
}

/// The bees of a workspace as the web interface shows them; none where there
/// is no such workspace.
pub fn get_bees(workspace: &str, config: &Option<WorkspaceConfig>) -> (r: BeesConfigResponse)
    ensures
        r.workspace@ == workspace@,
        match *config {
            Some(c) => r.bees@.len() == c.bees@.len() && forall|i: int|
                0 <= i < r.bees@.len() ==> shows_bee(#[trigger] r.bees@[i], c.bees@[i]),
            None => r.bees@.len() == 0,
        },
{
    let mut bees: Vec<BeeConfigView> = Vec::new();
    if let Some(c) = config {
        let n: usize = c.bees.len();
        let mut i: usize = 0;
        while i < n
            invariant
                n == c.bees@.len(),
                0 <= i <= n,
                bees@.len() == i,
                forall|j: int| 0 <= j < i ==> shows_bee(#[trigger] bees@[j], c.bees@[j]),
            decreases n - i,
        {
            bees.push(bee_view(&c.bees[i]));
            i = i + 1;
        }
    }
    BeesConfigResponse { workspace: workspace.to_owned(), bees }
}

// ---------------------------------------------------------------------------
// Saving the configuration
// ---------------------------------------------------------------------------

/// The entries of a table.
pub type Fields = Seq<(Seq<char>, TomlTree)>;

/// The text of an optional entry.
pub open spec fn toml_text(value: Option<String>) -> Option<TomlTree> {
    match value {
        Some(s) => Some(TomlTree::Text(s@)),
        None => None,
    }
}

/// The signed number with the same bits.
pub open spec fn as_signed(n: u64) -> i64 {
    n as i64
}

/// The table that a hook is saved as: an empty prompt and a time to live of
/// zero are left out.
pub open spec fn hook_table(hook: SignalHookView) -> Fields {
    let t0 = with_key(seq![], "source"@, TomlTree::Text(hook.source@));
    let t1 = if hook.prompt@.len() > 0 {
        with_key(t0, "prompt"@, TomlTree::Text(hook.prompt@))
    } else {
        t0
    };
    let t2 = with_optional_key(t1, "action"@, toml_text(hook.action));
    if hook.ttl_secs > 0 {
        with_key(t2, "ttl_secs"@, TomlTree::Integer(as_signed(hook.ttl_secs) as int))
    } else {
        t2
    }
}

/// The tables that hooks are saved as.
pub open spec fn hook_tables(hooks: Seq<SignalHookView>) -> Seq<Fields> {
    hooks.map_values(|h: SignalHookView| hook_table(h))
}

/// The table that a bee is saved as.
pub open spec fn bee_table(bee: BeeConfigView) -> Fields {
    let t0 = with_key(seq![], "name"@, TomlTree::Text(bee.name@));
    let t1 = with_optional_key(t0, "role"@, toml_text(bee.role));
    let t2 = with_optional_key(t1, "color"@, toml_text(bee.color));
    let t3 = with_key(t2, "execution_policy"@, TomlTree::Text(bee.execution_policy.word()));
    let t4 = with_key(t3, "provider"@, TomlTree::Text(bee.provider@));
    let t5 = with_key(t4, "model"@, TomlTree::Text(bee.model@));
    let t6 = with_key(t5, "max_turns"@, TomlTree::Integer(bee.max_turns as int));
    let t7 = with_optional_key(t6, "prompt"@, toml_text(bee.prompt));
    let t8 = with_key(t7, "max_session_turns"@, TomlTree::Integer(bee.max_session_turns as int));
    let t9 = with_optional_key(
        t8,
        "topic_id"@,
        match bee.topic_id {
            Some(id) => Some(TomlTree::Integer(id as int)),
            None => None,
        },
    );
    if bee.signal_hooks@.len() > 0 {
        with_key(t9, "signal_hooks"@, TomlTree::Tables(hook_tables(bee.signal_hooks@)))
    } else {
        t9
    }
}

/// The tables that bees are saved as.
pub open spec fn bee_tables(bees: Seq<BeeConfigView>) -> Seq<Fields> {
    bees.map_values(|b: BeeConfigView| bee_table(b))
}

#[verifier::truncate]
fn to_signed(n: u64) -> (r: i64)
    ensures
        r == as_signed(n),
{
    n as i64
}

fn build_hook(hook: &SignalHookView) -> (r: toml_edit::Table)
    ensures
        fields_of(r) == hook_table(*hook),
        bare(r),
{
    let mut table = new_table();
    set_text(&mut table, "source", hook.source.as_str());
    if !hook.prompt.as_str().is_empty() {
        set_text(&mut table, "prompt", hook.prompt.as_str());
    }
    set_optional_text(&mut table, "action", &hook.action);
    if hook.ttl_secs > 0 {
        set_integer(&mut table, "ttl_secs", to_signed(hook.ttl_secs));
    }
    table
}

fn build_bee(bee: &BeeConfigView) -> (r: toml_edit::Table)
    ensures
        fields_of(r) == bee_table(*bee),
        bare(r),
{
    let mut table = new_table();
    set_text(&mut table, "name", bee.name.as_str());
    set_optional_text(&mut table, "role", &bee.role);
    set_optional_text(&mut table, "color", &bee.color);
    set_text(&mut table, "execution_policy", execution_policy_label(bee.execution_policy));
    set_text(&mut table, "provider", bee.provider.as_str());
    set_text(&mut table, "model", bee.model.as_str());
    set_integer(&mut table, "max_turns", bee.max_turns as i64);
    set_optional_text(&mut table, "prompt", &bee.prompt);
    set_integer(&mut table, "max_session_turns", bee.max_session_turns as i64);
    if let Some(id) = bee.topic_id {
        set_integer(&mut table, "topic_id", id);
    }
    let n: usize = bee.signal_hooks.len();
    if n > 0 {
        let mut hooks: Vec<toml_edit::Table> = Vec::new();
        let mut i: usize = 0;
        while i < n
            invariant
                n == bee.signal_hooks@.len(),
                0 <= i <= n,
                hooks@.len() == i,
                forall|j: int|
                    0 <= j < i ==> fields_of(#[trigger] hooks@[j]) == hook_table(
                        bee.signal_hooks@[j],
                    ),
                all_bare(hooks@),
            decreases n - i,
        {
            hooks.push(build_hook(&bee.signal_hooks[i]));
            i = i + 1;
        }
        proof {
            assert(tables_of(hooks@) =~= hook_tables(bee.signal_hooks@));
        }
        set_tables(&mut table, "signal_hooks", hooks);
    }
    table
}

/// The text of a workspace's configuration file with other bees, or why the
/// file cannot be read. Everything else in the file stays.
pub fn save_bees(contents: &str, bees: &Vec<BeeConfigView>) -> (r: Result<String, String>)
    ensures
        match document_in(contents@) {
            Ok(doc) => {
                let saved = with_tables(doc, "bees"@, bee_tables(bees@));
                &&& r is Ok
                &&& r->Ok_0@ == printed(saved)
                &&& value_under(saved.entries, "bees"@) == Some(
                    TomlTree::Tables(bee_tables(bees@)),
                )
                &&& forall|key: Seq<char>|
                    key != "bees"@ ==> #[trigger] value_under(saved.entries, key) == value_under(
                        doc.entries,
                        key,
                    )
            },
            Err(e) => r is Err && r->Err_0@ == "failed to parse TOML: "@ + e,
        },
{
    let mut tables: Vec<toml_edit::Table> = Vec::new();
    let n: usize = bees.len();
    let mut i: usize = 0;
    while i < n
        invariant
            n == bees@.len(),
            0 <= i <= n,
            tables@.len() == i,
            forall|j: int| 0 <= j < i ==> fields_of(#[trigger] tables@[j]) == bee_table(bees@[j]),
            all_bare(tables@),
        decreases n - i,
    {
        tables.push(build_bee(&bees[i]));
        i = i + 1;
    }
    proof {
        assert(tables_of(tables@) =~= bee_tables(bees@));
        if let Ok(doc) = document_in(contents@) {
            law_other_keys_stay(doc, "bees"@, bee_tables(bees@), "bees"@);
            assert forall|key: Seq<char>| key != "bees"@ implies #[trigger] value_under(
                with_tables(doc, "bees"@, bee_tables(bees@)).entries,
                key,
            ) == value_under(doc.entries, key) by {
                law_other_keys_stay(doc, "bees"@, bee_tables(bees@), key);
            }
        }
    }
    match write_tables(contents, "bees", tables) {
        Ok(s) => Ok(s),
        Err(e) => Err(cat2("failed to parse TOML: ", e.as_str())),
    }
}

// ---------------------------------------------------------------------------
// Laws
// ---------------------------------------------------------------------------

/// `Main` is the default bee where there is one, else the first bee; any other
/// name is that of the bee itself. A name that is no bee's means none.
pub proof fn law_main_is_the_default_bee(bees: Seq<BeeConfig>, name: Seq<char>, i: int)
    ensures
        0 <= i < bees.len() && bees[i].name@ == "Bee"@ ==> bee_meant(bees, "Main"@) == Some(
            "Bee"@,
        ),
        bees.len() > 0 && (forall|j: int|
            0 <= j < bees.len() ==> (#[trigger] bees[j]).name@ != "Bee"@) ==> bee_meant(
            bees,
            "Main"@,
        ) == Some(bees[0].name@),
        name != "Main"@ && 0 <= i < bees.len() && bees[i].name@ == name ==> bee_meant(bees, name)
            == Some(name),
        (forall|j: int| 0 <= j < bees.len() ==> (#[trigger] bees[j]).name@ != name) && (name
            != "Main"@ || bees.len() == 0) ==> bee_meant(bees, name) is None,
        shown_name("Bee"@) == "Main"@,
        name != "Bee"@ ==> shown_name(name) == name,
{
}

/// The history of a bot is looked for where its bee keeps it. That of the
/// default bot is also looked for under the names that it had before, and where
/// the workspace as a whole keeps it.
pub proof fn law_history_is_kept_under_the_bee(
    workspace: Seq<char>,
    bees: Seq<BeeConfig>,
    bot: Seq<char>,
    i: int,
)
    ensures
        0 <= i < bees.len() && bees[i].name@ == bot && bot != "Main"@ ==> scopes_of(
            workspace,
            bees,
            bot,
        ) == seq![workspace + "/"@ + bot],
        ({
            let all = scopes_of(workspace, bees, "Main"@);
            &&& all.contains(workspace)
            &&& all.contains(workspace + "/Main"@)
            &&& all.contains(workspace + "/Bee"@)
            &&& bee_meant(bees, "Main"@) is Some ==> all[0] == workspace + "/"@ + bee_meant(
                bees,
                "Main"@,
            )->0
        }),
        scopes_of(workspace, bees, bot).contains(
            workspace + "/"@ + (match bee_meant(bees, bot) {
                Some(name) => name,
                None => bot,
            }),
        ),
{
    let all = scopes_of(workspace, bees, "Main"@);
    assert(all[1] == workspace + "/Main"@);
    assert(all[2] == workspace + "/Bee"@);
    assert(all[3] == workspace);
    let own = scopes_of(workspace, bees, bot);
    assert(own[0] == workspace + "/"@ + (match bee_meant(bees, bot) {
        Some(name) => name,
        None => bot,
    }));
}

/// A bee is described by its role where it has one. Else the first section of
/// its prompt that says anything but its role or color describes it, on one
/// line, and cut where it is long.
pub proof fn law_role_describes_a_bee(
    role: Seq<char>,
    prompt: Option<Seq<char>>,
    before: Seq<Seq<char>>,
    section: Seq<char>,
    after: Seq<Seq<char>>,
)
    ensures
        trim(role).len() > 0 ==> bee_description(Some(role), prompt) == Some(trim(role)),
        bee_description(None, None) is None,
        (forall|i: int|
            0 <= i < before.len() ==> trim(#[trigger] before[i]).len() == 0 || starts_with(
                trim(before[i]),
                "Role:"@,
            ) || starts_with(trim(before[i]), "Color:"@)) && trim(section).len() > 0
            && !starts_with(trim(section), "Role:"@) && !starts_with(trim(section), "Color:"@)
            ==> describing(before + seq![section] + after) == Some(trim(section)),
    decreases before.len(),
{
    let all = before + seq![section] + after;
    if before.len() == 0 {
        assert(all[0] == section);
    } else {
        let t = before.drop_first();
        law_role_describes_a_bee(role, prompt, t, section, after);
        assert(all[0] == before[0]);
        assert(all.drop_first() =~= t + seq![section] + after);
        if forall|i: int|
            0 <= i < before.len() ==> trim(#[trigger] before[i]).len() == 0 || starts_with(
                trim(before[i]),
                "Role:"@,
            ) || starts_with(trim(before[i]), "Color:"@) {
            assert(!describes(before[0]));
            assert forall|i: int| 0 <= i < t.len() implies trim(#[trigger] t[i]).len() == 0
                || starts_with(trim(t[i]), "Role:"@) || starts_with(trim(t[i]), "Color:"@) by {
                assert(t[i] == before[i + 1]);
            }
        }
    }
}

/// A description of up to a hundred and sixty bytes is shown whole; a longer
/// one is shown as its start, with an ellipsis.
pub proof fn law_long_descriptions_are_cut(s: Seq<char>)
    ensures
        byte_len(s) <= 160 ==> shortened(s) == s,
        byte_len(s) > 160 ==> exists|k: int|
            0 <= k <= s.len() && byte_len(s.take(k)) <= 160 && shortened(s) == #[trigger] s.take(k)
                + "…"@,
{
    if byte_len(s) > 160 {
        crate::text::lemma_fitting_len(s, 160);
        let c = clip(s, 160);
        let k = lemma_trim_end_takes(c);
        assert(c.take(k) =~= s.take(k));
        crate::text::lemma_byte_len_take(c, k);
    }
}

proof fn lemma_trim_end_takes(s: Seq<char>) -> (k: int)
    ensures
        0 <= k <= s.len(),
        trim_end(s) == s.take(k),
    decreases s.len(),
{
    if s.len() > 0 && crate::text::is_white(s.last()) {
        let k = lemma_trim_end_takes(s.drop_last());
        assert(s.drop_last().take(k) =~= s.take(k));
        k
    } else {
        assert(s.take(s.len() as int) =~= s);
        s.len() as int
    }
}

/// What is listed of a bee: its name as it is shown, its provider, its model
/// where it names one, and the sources that it watches, in their order.
pub proof fn law_listed_bee(item: BotListItem, bee: BeeConfig, i: int)
    requires
        lists(item, bee),
        0 <= i < bee.signal_hooks@.len(),
    ensures
        bee.name@ != "Bee"@ ==> item.name@ == bee.name@,
        bee.name@ == "Bee"@ ==> item.name@ == "Main"@,
        item.provider is Some && item.provider->0@ == bee.provider@,
        trim(bee.model@).len() > 0 ==> item.model is Some && item.model->0@ == bee.model@,
        trim(bee.model@).len() == 0 ==> item.model is None,
        item.watch@.len() == bee.signal_hooks@.len(),
        item.watch@[i]@ == bee.signal_hooks@[i].source@,
{
    assert(texts(item.watch@).len() == item.watch@.len());
    assert(hook_sources(bee.signal_hooks@).len() == bee.signal_hooks@.len());
    assert(texts(item.watch@)[i] == hook_sources(bee.signal_hooks@)[i]);
}

proof fn lemma_table_keys(key: Seq<char>, bee: BeeConfigView)
    ensures
        key != "name"@ && key != "role"@ && key != "color"@ && key != "execution_policy"@ && key
            != "provider"@ && key != "model"@ && key != "max_turns"@ && key != "prompt"@ && key
            != "max_session_turns"@ && key != "topic_id"@ && key != "signal_hooks"@ ==> value_in(
            bee_table(bee),
            key,
        ) is None,
        key == "name"@ ==> value_in(bee_table(bee), key) == Some(TomlTree::Text(bee.name@)),
        key == "role"@ ==> value_in(bee_table(bee), key) == toml_text(bee.role),
        key == "color"@ ==> value_in(bee_table(bee), key) == toml_text(bee.color),
        key == "execution_policy"@ ==> value_in(bee_table(bee), key) == Some(
            TomlTree::Text(bee.execution_policy.word()),
        ),
        key == "provider"@ ==> value_in(bee_table(bee), key) == Some(
            TomlTree::Text(bee.provider@),
        ),
        key == "model"@ ==> value_in(bee_table(bee), key) == Some(TomlTree::Text(bee.model@)),
        key == "max_turns"@ ==> value_in(bee_table(bee), key) == Some(
            TomlTree::Integer(bee.max_turns as int),
        ),
        key == "prompt"@ ==> value_in(bee_table(bee), key) == toml_text(bee.prompt),
        key == "max_session_turns"@ ==> value_in(bee_table(bee), key) == Some(
            TomlTree::Integer(bee.max_session_turns as int),
        ),
        key == "topic_id"@ ==> value_in(bee_table(bee), key) == (match bee.topic_id {
            Some(id) => Some(TomlTree::Integer(id as int)),
            None => None,
        }),
        key == "signal_hooks"@ ==> value_in(bee_table(bee), key) == (if bee.signal_hooks@.len()
            > 0 {
            Some(TomlTree::Tables(hook_tables(bee.signal_hooks@)))
        } else {
            None
        }),
{
    reveal_strlit("name");
    reveal_strlit("role");
    reveal_strlit("color");
    reveal_strlit("execution_policy");
    reveal_strlit("provider");
    reveal_strlit("model");
    reveal_strlit("max_turns");
    reveal_strlit("prompt");
    reveal_strlit("max_session_turns");
    reveal_strlit("topic_id");
    reveal_strlit("signal_hooks");
    assert("name"@.len() == 4 && "role"@.len() == 4 && "color"@.len() == 5
        && "execution_policy"@.len() == 16 && "provider"@.len() == 8 && "model"@.len() == 5
        && "max_turns"@.len() == 9 && "prompt"@.len() == 6 && "max_session_turns"@.len() == 17
        && "topic_id"@.len() == 8 && "signal_hooks"@.len() == 12);
    assert("name"@[0] == 'n' && "role"@[0] == 'r' && "color"@[0] == 'c' && "model"@[0] == 'm'
        && "provider"@[0] == 'p' && "topic_id"@[0] == 't');
    let e: Fields = seq![];
    let t0 = with_key(e, "name"@, TomlTree::Text(bee.name@));
    let t1 = with_optional_key(t0, "role"@, toml_text(bee.role));
    let t2 = with_optional_key(t1, "color"@, toml_text(bee.color));
    let t3 = with_key(t2, "execution_policy"@, TomlTree::Text(bee.execution_policy.word()));
    let t4 = with_key(t3, "provider"@, TomlTree::Text(bee.provider@));
    let t5 = with_key(t4, "model"@, TomlTree::Text(bee.model@));
    let t6 = with_key(t5, "max_turns"@, TomlTree::Integer(bee.max_turns as int));
    let t7 = with_optional_key(t6, "prompt"@, toml_text(bee.prompt));
    let t8 = with_key(t7, "max_session_turns"@, TomlTree::Integer(bee.max_session_turns as int));
    let topic = match bee.topic_id {
        Some(id) => Some(TomlTree::Integer(id as int)),
        None => None,
    };
    let t9 = with_optional_key(t8, "topic_id"@, topic);
    law_set_key_is_read(e, "name"@, TomlTree::Text(bee.name@), key);
    if bee.role is Some {
        law_set_key_is_read(t0, "role"@, TomlTree::Text(bee.role->0@), key);
    }
    if bee.color is Some {
        law_set_key_is_read(t1, "color"@, TomlTree::Text(bee.color->0@), key);
    }
    law_set_key_is_read(
        t2,
        "execution_policy"@,
        TomlTree::Text(bee.execution_policy.word()),
        key,
    );
    law_set_key_is_read(t3, "provider"@, TomlTree::Text(bee.provider@), key);
    law_set_key_is_read(t4, "model"@, TomlTree::Text(bee.model@), key);
    law_set_key_is_read(t5, "max_turns"@, TomlTree::Integer(bee.max_turns as int), key);
    if bee.prompt is Some {
        law_set_key_is_read(t6, "prompt"@, TomlTree::Text(bee.prompt->0@), key);
    }
    law_set_key_is_read(
        t7,
        "max_session_turns"@,
        TomlTree::Integer(bee.max_session_turns as int),
        key,
    );
    if topic is Some {
        law_set_key_is_read(t8, "topic_id"@, topic->0, key);
    }
    if bee.signal_hooks@.len() > 0 {
        law_set_key_is_read(
            t9,
            "signal_hooks"@,
            TomlTree::Tables(hook_tables(bee.signal_hooks@)),
            key,
        );
    }
}

/// A bee is saved with each of its settings under its key, an optional one
/// exactly where it is set.
pub proof fn law_settings_are_saved(bee: BeeConfigView)
    ensures
        value_in(bee_table(bee), "name"@) == Some(TomlTree::Text(bee.name@)),
        value_in(bee_table(bee), "execution_policy"@) == Some(
            TomlTree::Text(bee.execution_policy.word()),
        ),
        value_in(bee_table(bee), "provider"@) == Some(TomlTree::Text(bee.provider@)),
        value_in(bee_table(bee), "model"@) == Some(TomlTree::Text(bee.model@)),
        value_in(bee_table(bee), "max_turns"@) == Some(TomlTree::Integer(bee.max_turns as int)),
        value_in(bee_table(bee), "max_session_turns"@) == Some(
            TomlTree::Integer(bee.max_session_turns as int),
        ),
        bee.role is Some ==> value_in(bee_table(bee), "role"@) == Some(
            TomlTree::Text(bee.role->0@),
        ),
        bee.role is None ==> value_in(bee_table(bee), "role"@) is None,
        bee.color is Some ==> value_in(bee_table(bee), "color"@) == Some(
            TomlTree::Text(bee.color->0@),
        ),
        bee.color is None ==> value_in(bee_table(bee), "color"@) is None,
        bee.prompt is Some ==> value_in(bee_table(bee), "prompt"@) == Some(
            TomlTree::Text(bee.prompt->0@),
        ),
        bee.prompt is None ==> value_in(bee_table(bee), "prompt"@) is None,
        bee.topic_id is Some ==> value_in(bee_table(bee), "topic_id"@) == Some(
            TomlTree::Integer(bee.topic_id->0 as int),
        ),
        bee.topic_id is None ==> value_in(bee_table(bee), "topic_id"@) is None,
        bee.signal_hooks@.len() > 0 ==> value_in(bee_table(bee), "signal_hooks"@) == Some(
            TomlTree::Tables(hook_tables(bee.signal_hooks@)),
        ),
        bee.signal_hooks@.len() == 0 ==> value_in(bee_table(bee), "signal_hooks"@) is None,
{
    lemma_table_keys("name"@, bee);
    lemma_table_keys("execution_policy"@, bee);
    lemma_table_keys("provider"@, bee);
    lemma_table_keys("model"@, bee);
    lemma_table_keys("max_turns"@, bee);
    lemma_table_keys("max_session_turns"@, bee);
    lemma_table_keys("role"@, bee);
    lemma_table_keys("color"@, bee);
    lemma_table_keys("prompt"@, bee);
    lemma_table_keys("topic_id"@, bee);
    lemma_table_keys("signal_hooks"@, bee);
}

/// Each hook of a bee is saved, in order, with its source, its prompt where it
/// has one, its action where it has one, and its time limit where it has one.
pub proof fn law_hooks_are_saved(hooks: Seq<SignalHookView>, k: int)
    requires
        0 <= k < hooks.len(),
    ensures
        hook_tables(hooks).len() == hooks.len(),
        value_in(hook_tables(hooks)[k], "source"@) == Some(TomlTree::Text(hooks[k].source@)),
        hooks[k].prompt@.len() > 0 ==> value_in(hook_tables(hooks)[k], "prompt"@) == Some(
            TomlTree::Text(hooks[k].prompt@),
        ),
        hooks[k].prompt@.len() == 0 ==> value_in(hook_tables(hooks)[k], "prompt"@) is None,
        hooks[k].action is Some ==> value_in(hook_tables(hooks)[k], "action"@) == Some(
            TomlTree::Text(hooks[k].action->0@),
        ),
        hooks[k].action is None ==> value_in(hook_tables(hooks)[k], "action"@) is None,
        0 < hooks[k].ttl_secs <= i64::MAX ==> value_in(hook_tables(hooks)[k], "ttl_secs"@) == Some(
            TomlTree::Integer(hooks[k].ttl_secs as int),
        ),
        hooks[k].ttl_secs == 0 ==> value_in(hook_tables(hooks)[k], "ttl_secs"@) is None,
{
    lemma_hook_keys(hooks[k], "source"@);
    lemma_hook_keys(hooks[k], "prompt"@);
    lemma_hook_keys(hooks[k], "action"@);
    lemma_hook_keys(hooks[k], "ttl_secs"@);
}

proof fn lemma_hook_keys(hook: SignalHookView, key: Seq<char>)
    ensures
        key == "source"@ ==> value_in(hook_table(hook), key) == Some(
            TomlTree::Text(hook.source@),
        ),
        key == "prompt"@ ==> value_in(hook_table(hook), key) == (if hook.prompt@.len() > 0 {
            Some(TomlTree::Text(hook.prompt@))
        } else {
            None
        }),
        key == "action"@ ==> value_in(hook_table(hook), key) == toml_text(hook.action),
        key == "ttl_secs"@ ==> value_in(hook_table(hook), key) == (if hook.ttl_secs > 0 {
            Some(TomlTree::Integer(as_signed(hook.ttl_secs) as int))
        } else {
            None
        }),
{
    reveal_strlit("source");
    reveal_strlit("prompt");
    reveal_strlit("action");
    reveal_strlit("ttl_secs");
    assert("source"@[0] == 's' && "prompt"@[0] == 'p' && "action"@[0] == 'a' && "ttl_secs"@[0]
        == 't');
    let e: Fields = seq![];
    let t0 = with_key(e, "source"@, TomlTree::Text(hook.source@));
    law_set_key_is_read(e, "source"@, TomlTree::Text(hook.source@), key);
    let t1 = if hook.prompt@.len() > 0 {
        with_key(t0, "prompt"@, TomlTree::Text(hook.prompt@))
    } else {
        t0
    };
    law_set_key_is_read(t0, "prompt"@, TomlTree::Text(hook.prompt@), key);
    let t2 = with_optional_key(t1, "action"@, toml_text(hook.action));
    if hook.action is Some {
        law_set_key_is_read(t1, "action"@, TomlTree::Text(hook.action->0@), key);
    }
    law_set_key_is_read(
        t2,
        "ttl_secs"@,
        TomlTree::Integer(as_signed(hook.ttl_secs) as int),
        key,
    );
}

/// A bee is shown with all of its settings and each of its hooks.
pub proof fn law_shown_bee(view: BeeConfigView, bee: BeeConfig, k: int)
    requires
        shows_bee(view, bee),
    ensures
        view.name == bee.name && view.role == bee.role && view.color == bee.color,
        view.execution_policy == bee.execution_policy,
        view.provider == bee.provider && view.model == bee.model && view.prompt == bee.prompt,
        view.max_turns == bee.max_turns && view.max_session_turns == bee.max_session_turns,
        view.topic_id == bee.topic_id,
        view.signal_hooks@.len() == bee.signal_hooks@.len(),
        0 <= k < bee.signal_hooks@.len() ==> view.signal_hooks@[k].source
            == bee.signal_hooks@[k].source && view.signal_hooks@[k].prompt
            == bee.signal_hooks@[k].prompt && view.signal_hooks@[k].action
            == bee.signal_hooks@[k].action && view.signal_hooks@[k].ttl_secs
            == bee.signal_hooks@[k].ttl_secs,
{
    if 0 <= k < bee.signal_hooks@.len() {
        assert(shows_hook(view.signal_hooks@[k], bee.signal_hooks@[k]));
    }
}

/// A bee is listed with its colour and role, and described by its role where it
/// has one.
pub proof fn law_listed_bee_is_described(item: BotListItem, bee: BeeConfig)
    requires
        lists(item, bee),
    ensures
        item.color == bee.color && item.role == bee.role,
        bee.role is Some && trim(bee.role->0@).len() > 0 ==> item.description is Some,
        bee.role is None && bee.prompt is None ==> item.description is None,
        opt_text(item.description) == bee_description(opt_text(bee.role), opt_text(bee.prompt)),
{
}

/// A description of a hundred and sixty bytes or less always fits.
pub proof fn law_short_descriptions_fit(role: Option<Seq<char>>, prompt: Seq<char>)
    ensures
        description_fits(role, None),
        describing(split_on(prompt, "\n\n"@)) is None ==> description_fits(role, Some(prompt)),
        describing(split_on(prompt, "\n\n"@)) is Some && byte_len(
            squeezed(describing(split_on(prompt, "\n\n"@))->0),
        ) <= 160 ==> description_fits(role, Some(prompt)),
{
}

} // verus!
