//! Bots that run by themselves: creating them, changing them, and paging
//! through their runs.

use crate::text::{
    contains, decimal, has_part, lemma_decimal_reads_back, number_up_to, parse_number,
    spelled_number,
};
use crate::worker::{refuses, Refusal};
use vstd::prelude::*;

verus! {

/// A bot that runs by itself.
pub struct AutoBot {
    pub id: String,
    pub workspace: String,
    pub name: String,
    pub color: String,
    pub trigger_type: String,
    pub cron_schedule: Option<String>,
    pub signal_source: Option<String>,
    pub signal_filter: Option<String>,
    pub prompt: String,
    pub provider: String,
    pub model: Option<String>,
    pub enabled: bool,
    pub paused_until: Option<String>,
    pub created_at: String,
    pub updated_at: String,
    pub status: String,
}

/// A request for a new bot.
pub struct CreateAutoBot {
    pub name: String,
    pub color: Option<String>,
    pub trigger_type: String,
    pub cron_schedule: Option<String>,
    pub signal_source: Option<String>,
    pub signal_filter: Option<String>,
    pub prompt: String,
    pub provider: Option<String>,
    pub model: Option<String>,
}

/// A request for changes to a bot: what is not given stays.
pub struct UpdateAutoBot {
    pub name: Option<String>,
    pub color: Option<String>,
    pub trigger_type: Option<String>,
    pub cron_schedule: Option<String>,
    pub signal_source: Option<String>,
    pub signal_filter: Option<String>,
    pub prompt: Option<String>,
    pub provider: Option<String>,
    pub model: Option<String>,
    pub enabled: Option<bool>,
}

/// A text, or another where there is none.
pub open spec fn text_or(text: Option<String>, otherwise: Seq<char>) -> Seq<char> {
    match text {
        Some(s) => s@,
        None => otherwise,
    }
}

/// The value that is given, or the one that was there.
pub open spec fn given_or<T>(given: Option<T>, kept: T) -> T {
    match given {
        Some(v) => v,
        None => kept,
    }
}

/// The value that is given, or the one that was there, if any.
pub open spec fn given_or_kept<T>(given: Option<T>, kept: Option<T>) -> Option<T> {
    match given {
        Some(v) => Some(v),
        None => kept,
    }
}

/// Whether `r` is the bot that `request` asks for.
pub open spec fn is_new_bot(
    r: AutoBot,
    id: Seq<char>,
    workspace: Seq<char>,
    request: CreateAutoBot,
    default_provider: Seq<char>,
    now: Seq<char>,
) -> bool {
    &&& r.id@ == id
    &&& r.workspace@ == workspace
    &&& r.name == request.name
    &&& r.color@ == text_or(request.color, "#f5c542"@)
    &&& r.trigger_type == request.trigger_type
    &&& r.cron_schedule == request.cron_schedule
    &&& r.signal_source == request.signal_source
    &&& r.signal_filter == request.signal_filter
    &&& r.prompt == request.prompt
    &&& r.provider@ == text_or(request.provider, default_provider)
    &&& r.model == request.model
    &&& r.enabled
    &&& r.paused_until is None
    &&& r.created_at@ == now
    &&& r.updated_at@ == now
    &&& r.status@ == Seq::<char>::empty()
}

/// A new bot: it is enabled from the start.
pub fn new_auto_bot(
    id: &str,
    workspace: &str,
    request: CreateAutoBot,
    default_provider: &str,
    now: &str,
) -> (r: AutoBot)
    ensures
        is_new_bot(r, id@, workspace@, request, default_provider@, now@),
{
    let color = match request.color {
        Some(c) => c,
        None => "#f5c542".to_owned(),
    };
    let provider = match request.provider {
        Some(p) => p,
        None => default_provider.to_owned(),
    };
    AutoBot {
        id: id.to_owned(),
        workspace: workspace.to_owned(),
        name: request.name,
        color,
        trigger_type: request.trigger_type,
        cron_schedule: request.cron_schedule,
        signal_source: request.signal_source,
        signal_filter: request.signal_filter,
        prompt: request.prompt,
        provider,
        model: request.model,
        enabled: true,
        paused_until: None,
        created_at: now.to_owned(),
        updated_at: now.to_owned(),
        status: String::new(),
    }
}

/// Whether `r` is `bot` after the changes.
pub open spec fn is_updated(r: AutoBot, bot: AutoBot, changes: UpdateAutoBot, now: Seq<char>) -> bool {
    &&& r.name == given_or(changes.name, bot.name)
    &&& r.color == given_or(changes.color, bot.color)
    &&& r.trigger_type == given_or(changes.trigger_type, bot.trigger_type)
    &&& r.cron_schedule == given_or_kept(changes.cron_schedule, bot.cron_schedule)
    &&& r.signal_source == given_or_kept(changes.signal_source, bot.signal_source)
    &&& r.signal_filter == given_or_kept(changes.signal_filter, bot.signal_filter)
    &&& r.prompt == given_or(changes.prompt, bot.prompt)
    &&& r.provider == given_or(changes.provider, bot.provider)
    &&& r.model == given_or_kept(changes.model, bot.model)
    &&& r.enabled == given_or(changes.enabled, bot.enabled)
    &&& r.updated_at@ == now
    &&& r.id == bot.id
    &&& r.workspace == bot.workspace
    &&& r.paused_until == bot.paused_until
    &&& r.created_at == bot.created_at
    &&& r.status == bot.status
}

/// Changes a bot, where there is one.
pub fn update_auto_bot(existing: Option<AutoBot>, changes: UpdateAutoBot, now: &str) -> (r: Result<
    AutoBot,
    Refusal,
>)
    ensures
        match existing {
            Some(bot) => r is Ok && is_updated(r->Ok_0, bot, changes, now@),
            None => r is Err && refuses(r->Err_0, 404, "not found"@),
        },
{
    match existing {
        Some(bot) => Ok(
            AutoBot {
                id: bot.id,
                workspace: bot.workspace,
                name: match changes.name {
                    Some(v) => v,
                    None => bot.name,
                },
                color: match changes.color {
                    Some(v) => v,
                    None => bot.color,
                },
                trigger_type: match changes.trigger_type {
                    Some(v) => v,
                    None => bot.trigger_type,
                },
                cron_schedule: match changes.cron_schedule {
                    Some(v) => Some(v),
                    None => bot.cron_schedule,
                },
                signal_source: match changes.signal_source {
                    Some(v) => Some(v),
                    None => bot.signal_source,
                },
                signal_filter: match changes.signal_filter {
                    Some(v) => Some(v),
                    None => bot.signal_filter,
                },
                prompt: match changes.prompt {
                    Some(v) => v,
                    None => bot.prompt,
                },
                provider: match changes.provider {
                    Some(v) => v,
                    None => bot.provider,
                },
                model: match changes.model {
                    Some(v) => Some(v),
                    None => bot.model,
                },
                enabled: match changes.enabled {
                    Some(v) => v,
                    None => bot.enabled,
                },
                paused_until: bot.paused_until,
                created_at: bot.created_at,
                updated_at: now.to_owned(),
                status: bot.status,
            },
        ),
        None => Err(Refusal { status: 404, error: "not found".to_owned() }),
    }
}

/// Changing nothing leaves a bot as it was but for the time of the change.
pub proof fn law_empty_update_keeps_bot(r: AutoBot, bot: AutoBot, changes: UpdateAutoBot, now: Seq<char>)
    requires
        is_updated(r, bot, changes, now),
        changes == (UpdateAutoBot {
            name: None,
            color: None,
            trigger_type: None,
            cron_schedule: None,
            signal_source: None,
            signal_filter: None,
            prompt: None,
            provider: None,
            model: None,
            enabled: None,
        }),
    ensures
        r == (AutoBot { updated_at: r.updated_at, ..bot }),
{
}

/// What is answered when a bot cannot be deleted: that it is not there, where
/// the reason says so.
pub fn delete_refusal(reason: &str) -> (r: Refusal)
    ensures
        contains(reason@, "not found"@) ==> refuses(r, 404, "not found"@),
        !contains(reason@, "not found"@) ==> refuses(r, 500, reason@),
{
    if has_part(reason, "not found") {
        Refusal { status: 404, error: "not found".to_owned() }
    } else {
        Refusal { status: 500, error: reason.to_owned() }
    }
}

/// The number that a request gives, or another where it gives none.
pub open spec fn number_or(asked: Option<String>, otherwise: int) -> int {
    match asked {
        Some(s) => match number_up_to(s@, usize::MAX as nat) {
            Some(n) => n as int,
            None => otherwise,
        },
        None => otherwise,
    }
}

fn read_number(asked: &Option<String>, otherwise: usize) -> (r: usize)
    ensures
        r == number_or(*asked, otherwise as int),
{
    match asked {
        Some(s) => match parse_number(s.as_str(), usize::MAX as u64) {
            Some(n) => n as usize,
            None => otherwise,
        },
        None => otherwise,
    }
}

/// The part of a list of runs that a request asks for: how many to skip, and
/// how many to fetch in all.
pub fn runs_page(limit: &Option<String>, offset: &Option<String>) -> (r: (usize, usize))
    requires
        number_or(*limit, 20) + number_or(*offset, 0) <= usize::MAX,
    ensures
        r.0 == number_or(*offset, 0),
        r.1 == number_or(*limit, 20) + number_or(*offset, 0),
{
    let n: usize = read_number(limit, 20);
    let skip: usize = read_number(offset, 0);
    (skip, n + skip)
}

/// The runs of a page, out of those that were fetched.
pub fn page_of<T>(runs: Vec<T>, skip: usize) -> (r: Vec<T>)
    ensures
        r@ == if skip <= runs@.len() {
            runs@.skip(skip as int)
        } else {
            Seq::<T>::empty()
        },
{
    if skip > runs.len() {
        return Vec::new();
    }
    let ghost all = runs@;
    let mut list = runs;
    let rest = list.split_off(skip);
    proof {
        assert(rest@ =~= all.skip(skip as int));
    }
    rest
}

/// A run of a bot.
pub struct AutoBotRun {
    pub id: String,
    pub auto_bot_id: String,
    pub workspace: String,
    pub triggered_by: String,
    pub started_at: String,
    pub finished_at: Option<String>,
    pub outcome: Option<String>,
    pub summary: Option<String>,
    pub worker_id: Option<String>,
}

/// Whether `run` is a run of a bot that was started by hand.
pub open spec fn is_manual_run(
    run: AutoBotRun,
    run_id: Seq<char>,
    bot_id: Seq<char>,
    workspace: Seq<char>,
    now: Seq<char>,
) -> bool {
    &&& run.id@ == run_id
    &&& run.auto_bot_id@ == bot_id
    &&& run.workspace@ == workspace
    &&& run.triggered_by@ == "manual"@
    &&& run.started_at@ == now
    &&& run.finished_at is None
    &&& run.outcome is None
    &&& run.summary is None
    &&& run.worker_id is None
}

/// Starts a run of a bot by hand, where there is such a bot.
pub fn manual_run(
    bot_exists: bool,
    run_id: &str,
    bot_id: &str,
    workspace: &str,
    now: &str,
) -> (r: Result<AutoBotRun, Refusal>)
    ensures
        !bot_exists ==> r is Err && refuses(r->Err_0, 404, "not found"@),
        bot_exists ==> r is Ok && is_manual_run(r->Ok_0, run_id@, bot_id@, workspace@, now@),
{
    if !bot_exists {
        return Err(Refusal { status: 404, error: "not found".to_owned() });
    }
    Ok(
        AutoBotRun {
            id: run_id.to_owned(),
            auto_bot_id: bot_id.to_owned(),
            workspace: workspace.to_owned(),
            triggered_by: "manual".to_owned(),
            started_at: now.to_owned(),
            finished_at: None,
            outcome: None,
            summary: None,
            worker_id: None,
        },
    )
}

/// What a change gives is taken, what it leaves out stays, and the time of the
/// change is noted; the bot stays the same bot in the same workspace.
pub proof fn law_given_changes_are_taken(
    r: AutoBot,
    bot: AutoBot,
    changes: UpdateAutoBot,
    now: Seq<char>,
)
    requires
        is_updated(r, bot, changes, now),
    ensures
        changes.name is Some ==> r.name == changes.name->0,
        changes.name is None ==> r.name == bot.name,
        changes.color is Some ==> r.color == changes.color->0,
        changes.color is None ==> r.color == bot.color,
        changes.trigger_type is Some ==> r.trigger_type == changes.trigger_type->0,
        changes.trigger_type is None ==> r.trigger_type == bot.trigger_type,
        changes.cron_schedule is Some ==> r.cron_schedule == changes.cron_schedule,
        changes.cron_schedule is None ==> r.cron_schedule == bot.cron_schedule,
        changes.signal_source is Some ==> r.signal_source == changes.signal_source,
        changes.signal_source is None ==> r.signal_source == bot.signal_source,
        changes.signal_filter is Some ==> r.signal_filter == changes.signal_filter,
        changes.signal_filter is None ==> r.signal_filter == bot.signal_filter,
        changes.prompt is Some ==> r.prompt == changes.prompt->0,
        changes.prompt is None ==> r.prompt == bot.prompt,
        changes.provider is Some ==> r.provider == changes.provider->0,
        changes.provider is None ==> r.provider == bot.provider,
        changes.model is Some ==> r.model == changes.model,
        changes.model is None ==> r.model == bot.model,
        changes.enabled is Some ==> r.enabled == changes.enabled->0,
        changes.enabled is None ==> r.enabled == bot.enabled,
        r.updated_at@ == now,
        r.id == bot.id && r.workspace == bot.workspace && r.created_at == bot.created_at
            && r.paused_until == bot.paused_until && r.status == bot.status,
{
}

/// A number that was asked for is read; what is no number counts as nothing
/// asked.
pub proof fn law_asked_numbers_are_read(asked: String, n: nat, otherwise: int)
    requires
        n <= usize::MAX,
    ensures
        asked@ == decimal(n as int) ==> number_or(Some(asked), otherwise) == n,
        spelled_number(asked@) is None ==> number_or(Some(asked), otherwise) == otherwise,
        number_or(None, otherwise) == otherwise,
{
    lemma_decimal_reads_back(n, usize::MAX as nat);
}

/// A new bot is the one that was asked for, switched on and not paused; what the
/// request leaves open has its default.
pub proof fn law_new_bot_is_as_asked(
    r: AutoBot,
    id: Seq<char>,
    workspace: Seq<char>,
    request: CreateAutoBot,
    default_provider: Seq<char>,
    now: Seq<char>,
)
    requires
        is_new_bot(r, id, workspace, request, default_provider, now),
    ensures
        r.enabled && r.paused_until is None,
        r.id@ == id && r.workspace@ == workspace,
        r.name == request.name && r.prompt == request.prompt && r.trigger_type
            == request.trigger_type && r.cron_schedule == request.cron_schedule
            && r.signal_source == request.signal_source && r.signal_filter
            == request.signal_filter && r.model == request.model,
        request.color is Some ==> r.color@ == request.color->0@,
        request.color is None ==> r.color@ == "#f5c542"@,
        request.provider is Some ==> r.provider@ == request.provider->0@,
        request.provider is None ==> r.provider@ == default_provider,
        r.created_at@ == now && r.updated_at@ == now,
        r.status@.len() == 0,
{
}

/// A run that was started by hand says so, belongs to its bot and workspace, and
/// has no outcome yet.
pub proof fn law_manual_run_is_open(
    run: AutoBotRun,
    run_id: Seq<char>,
    bot_id: Seq<char>,
    workspace: Seq<char>,
    now: Seq<char>,
)
    requires
        is_manual_run(run, run_id, bot_id, workspace, now),
    ensures
        run.triggered_by@ == "manual"@,
        run.id@ == run_id && run.auto_bot_id@ == bot_id && run.workspace@ == workspace,
        run.started_at@ == now,
        run.finished_at is None && run.outcome is None && run.summary is None && run.worker_id
            is None,
{
}

} // verus!
