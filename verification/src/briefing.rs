//! The briefing: what the open signals of all workspaces ask of the user,
//! without repetitions and the most urgent first.

use crate::json::{parse, parsed, text_field, Json, Tree};
use crate::signal::SignalRecord;
use crate::text::{
    before, can_clip, cat2, cat3, cat4, cat5, chars_of, clip, clipped, clips_evenly, comes_before,
    decimal, first_chars, has_prefix, is_digit, leading_digits, lemma_before_is, lemma_text_less_irreflexive,
    lemma_text_less_total, lemma_text_less_transitive, number, opt_text, same, signed_number,
    start_of, starts_with, string_between, text_less, texts,
};
use crate::time::{rfc3339_of, Moment};
use vstd::prelude::*;

verus! {

/// A button of a briefing item.
pub struct BriefingAction {
    pub label: String,
    pub style: String,
}

/// An entry of the briefing.
pub struct BriefingItem {
    pub id: String,
    pub priority: String,
    pub icon: String,
    pub title: String,
    pub body: Option<String>,
    pub workspace: String,
    pub source: String,
    pub url: Option<String>,
    pub actions: Vec<BriefingAction>,
    pub timestamp: String,
}

/// What a briefing item says.
pub struct Item {
    pub id: Seq<char>,
    pub priority: Seq<char>,
    pub icon: Seq<char>,
    pub title: Seq<char>,
    pub body: Option<Seq<char>>,
    pub workspace: Seq<char>,
    pub source: Seq<char>,
    pub url: Option<Seq<char>>,
    pub actions: Seq<(Seq<char>, Seq<char>)>,
    pub timestamp: Seq<char>,
}

/// The labels and styles of a list of buttons.
pub open spec fn action_texts(list: Seq<BriefingAction>) -> Seq<(Seq<char>, Seq<char>)> {
    Seq::new(list.len(), |i: int| (list[i].label@, list[i].style@))
}

impl View for BriefingItem {
    type V = Item;

    open spec fn view(&self) -> Item {
        Item {
            id: self.id@,
            priority: self.priority@,
            icon: self.icon@,
            title: self.title@,
            body: opt_text(self.body),
            workspace: self.workspace@,
            source: self.source@,
            url: opt_text(self.url),
            actions: action_texts(self.actions@),
            timestamp: self.timestamp@,
        }
    }
}

/// What the items of a list say.
pub open spec fn items_view(list: Seq<BriefingItem>) -> Seq<Item> {
    list.map_values(|b: BriefingItem| b@)
}

/// What the briefing reads of a signal.
pub struct BriefSignal {
    pub id: i64,
    pub source: String,
    pub title: String,
    pub url: Option<String>,
    pub created_at: Moment,
    /// The worker that the signal's metadata names, or nothing.
    pub worker_id: String,
    /// The pull request that the signal's metadata names.
    pub pr_url: Option<String>,
    /// When the signal was created, in RFC 3339 notation.
    pub stamp: String,
}

/// A signal as the briefing sees it.
pub struct Notice {
    pub id: int,
    pub source: Seq<char>,
    pub title: Seq<char>,
    pub url: Option<Seq<char>>,
    pub created_at: Moment,
    pub worker_id: Seq<char>,
    pub pr_url: Option<Seq<char>>,
    pub stamp: Seq<char>,
}

impl View for BriefSignal {
    type V = Notice;

    open spec fn view(&self) -> Notice {
        Notice {
            id: self.id as int,
            source: self.source@,
            title: self.title@,
            url: opt_text(self.url),
            created_at: self.created_at,
            worker_id: self.worker_id@,
            pr_url: opt_text(self.pr_url),
            stamp: self.stamp@,
        }
    }
}

/// The notices of a list of signals.
pub open spec fn notices(list: Seq<BriefSignal>) -> Seq<Notice> {
    list.map_values(|s: BriefSignal| s@)
}

// ---------------------------------------------------------------------------
// From stored signals to notices
// ---------------------------------------------------------------------------

/// The value that a signal's metadata spells, where it has any that is JSON.
pub open spec fn metadata_tree(metadata: Option<String>) -> Option<Tree> {
    match metadata {
        Some(text) => parsed(text@),
        None => None,
    }
}

/// The worker that metadata names, or nothing.
pub open spec fn named_worker(meta: Option<Tree>) -> Seq<char> {
    match meta {
        Some(t) => match text_field(t, "worker_id"@) {
            Some(w) => w,
            None => seq![],
        },
        None => seq![],
    }
}

/// The pull request that metadata names.
pub open spec fn named_pr(meta: Option<Tree>) -> Option<Seq<char>> {
    match meta {
        Some(t) => text_field(t, "pr_url"@),
        None => None,
    }
}

/// A stored signal as the briefing sees it.
pub open spec fn notice_of(signal: SignalRecord) -> Notice {
    Notice {
        id: signal.id as int,
        source: signal.source@,
        title: signal.title@,
        url: opt_text(signal.url),
        created_at: signal.created_at,
        worker_id: named_worker(metadata_tree(signal.metadata)),
        pr_url: named_pr(metadata_tree(signal.metadata)),
        stamp: rfc3339_of(signal.created_at.secs(), signal.created_at.nanos()),
    }
}

/// Two days, in seconds.
pub const BRIEFING_WINDOW: u32 = 172800;

/// Whether a signal belongs in a briefing given at `now`: it is at most two
/// days old and not snoozed.
pub open spec fn is_current(signal: SignalRecord, now: Moment) -> bool {
    &&& signal.created_at.total() > now.total() - BRIEFING_WINDOW * 1_000_000_000
    &&& match signal.snoozed_until {
        Some(until) => until.before(now),
        None => true,
    }
}

/// The notices of the signals that belong in a briefing given at `now`.
pub open spec fn current_notices(signals: Seq<SignalRecord>, now: Moment) -> Seq<Notice>
    decreases signals.len(),
{
    if signals.len() == 0 {
        seq![]
    } else {
        let rest = current_notices(signals.drop_last(), now);
        if is_current(signals.last(), now) {
            rest.push(notice_of(signals.last()))
        } else {
            rest
        }
    }
}

/// Reads the worker and the pull request out of a signal's metadata.
pub fn read_metadata(meta: &Option<Json>) -> (r: (String, Option<String>))
    ensures
        r.0@ == named_worker(crate::json::opt_tree(*meta)),
        opt_text(r.1) == named_pr(crate::json::opt_tree(*meta)),
{
    match meta {
        Some(value) => {
            let worker = match value.text_field("worker_id") {
                Some(w) => w,
                None => String::new(),
            };
            (worker, value.text_field("pr_url"))
        },
        None => (String::new(), None),
    }
}

/// A stored signal as the briefing sees it.
pub fn brief_signal(signal: &SignalRecord) -> (r: BriefSignal)
    ensures
        r@ == notice_of(*signal),
{
    let meta = match &signal.metadata {
        Some(text) => parse(text.as_str()),
        None => None,
    };
    let (worker_id, pr_url) = read_metadata(&meta);
    BriefSignal {
        id: signal.id,
        source: signal.source.clone(),
        title: signal.title.clone(),
        url: signal.url.clone(),
        created_at: signal.created_at,
        worker_id,
        pr_url,
        stamp: signal.created_at.rfc3339(),
    }
}

/// Whether a signal belongs in a briefing given at `now`.
pub fn signal_is_current(signal: &SignalRecord, now: &Moment) -> (r: bool)
    ensures
        r == is_current(*signal, *now),
{
    let awake = match &signal.snoozed_until {
        Some(until) => now.after(until),
        None => true,
    };
    awake && signal.created_at.within(BRIEFING_WINDOW, now)
}

/// The signals that belong in a briefing given at `now`, as it sees them.
pub fn current_signals(signals: &Vec<SignalRecord>, now: &Moment) -> (r: Vec<BriefSignal>)
    ensures
        notices(r@) == current_notices(signals@, *now),
{
    let mut out: Vec<BriefSignal> = Vec::new();
    let n: usize = signals.len();
    let mut i: usize = 0;
    proof {
        assert(notices(out@) =~= seq![]);
    }
    while i < n
        invariant
            n == signals@.len(),
            0 <= i <= n,
            notices(out@) == current_notices(signals@.take(i as int), *now),
        decreases n - i,
    {
        proof {
            assert(signals@.take(i + 1).drop_last() =~= signals@.take(i as int));
        }
        if signal_is_current(&signals[i], now) {
            let one = brief_signal(&signals[i]);
            proof {
                assert(notices(out@.push(one)) =~= notices(out@).push(one@));
            }
            out.push(one);
        }
        i = i + 1;
    }
    proof {
        assert(signals@.take(n as int) =~= signals@);
    }
    out
}

// ---------------------------------------------------------------------------
// The items of one workspace
// ---------------------------------------------------------------------------

/// The sections of the briefing that take one signal at a time.
#[derive(Clone, Copy, PartialEq, Eq, Structural)]
pub enum Section {
    Ready,
    Sentry,
    Escalation,
    Merged,
    Spawned,
}

/// Whether a bot has reviewed what a signal's address points at.
pub open spec fn reviewed(all: Seq<Notice>, s: Notice) -> bool {
    s.url is Some && exists|i: int|
        0 <= i < all.len() && (#[trigger] all[i]).source == "github_bot_review"@ && all[i].url
            == s.url
}

/// Whether a signal belongs to a section, among all signals of its workspace.
pub open spec fn belongs(section: Section, all: Seq<Notice>, s: Notice) -> bool {
    match section {
        Section::Ready => s.source == "github_ci_pass"@ && reviewed(all, s),
        Section::Sentry => s.source == "sentry"@,
        Section::Escalation => s.source == "escalation"@,
        Section::Merged => s.source == "github_merged_pr"@,
        Section::Spawned => s.source == "swarm_worker_spawned"@,
    }
}

/// The item that a section makes of a signal of workspace `ws`.
pub open spec fn section_item(section: Section, ws: Seq<char>, s: Notice) -> Item {
    match section {
        Section::Ready => Item {
            id: "pr-ready-"@ + decimal(s.id),
            priority: "action"@,
            icon: "✅"@,
            title: "PR ready: "@ + s.title,
            body: Some("CI green + Copilot reviewed"@),
            workspace: ws,
            source: "github"@,
            url: s.url,
            actions: seq![("Review"@, "primary"@), ("Dismiss"@, "danger"@)],
            timestamp: s.stamp,
        },
        Section::Sentry => Item {
            id: "sentry-"@ + decimal(s.id),
            priority: "notice"@,
            icon: "⚡"@,
            title: s.title,
            body: None,
            workspace: ws,
            source: "sentry"@,
            url: s.url,
            actions: seq![],
            timestamp: s.stamp,
        },
        Section::Escalation => Item {
            id: "escalation-"@ + decimal(s.id),
            priority: "action"@,
            icon: "🚨"@,
            title: s.title,
            body: Some("Escalated by a Bee — needs your attention"@),
            workspace: ws,
            source: "escalation"@,
            url: s.url,
            actions: seq![("Acknowledge"@, "primary"@), ("Dismiss"@, "danger"@)],
            timestamp: s.stamp,
        },
        Section::Merged => Item {
            id: "merged-"@ + decimal(s.id),
            priority: "quiet"@,
            icon: "🔀"@,
            title: "Merged: "@ + s.title,
            body: None,
            workspace: ws,
            source: "github"@,
            url: s.url,
            actions: seq![],
            timestamp: s.stamp,
        },
        Section::Spawned => Item {
            id: "worker-"@ + decimal(s.id),
            priority: "quiet"@,
            icon: "🐝"@,
            title: s.title,
            body: None,
            workspace: ws,
            source: "swarm"@,
            url: None,
            actions: seq![],
            timestamp: s.stamp,
        },
    }
}

/// The items of a section, in the order of their signals.
pub open spec fn section_items(
    section: Section,
    ws: Seq<char>,
    all: Seq<Notice>,
    signals: Seq<Notice>,
) -> Seq<Item>
    decreases signals.len(),
{
    if signals.len() == 0 {
        seq![]
    } else {
        let rest = section_items(section, ws, all, signals.drop_last());
        if belongs(section, all, signals.last()) {
            rest.push(section_item(section, ws, signals.last()))
        } else {
            rest
        }
    }
}

/// Whether a signal says that a worker waits.
pub open spec fn is_waiting(s: Notice) -> bool {
    s.source == "swarm_worker_waiting"@
}

/// The item for a waiting worker.
pub open spec fn waiting_item(ws: Seq<char>, s: Notice) -> Item {
    Item {
        id: "wait-"@ + decimal(s.id) + "-"@ + s.worker_id,
        priority: "action"@,
        icon: "⏸"@,
        title: s.title,
        body: Some(
            match s.pr_url {
                Some(pr) => "Worker: "@ + s.worker_id + " · PR: "@ + pr,
                None => "Worker: "@ + s.worker_id + " · no PR yet"@,
            },
        ),
        workspace: ws,
        source: "swarm:"@ + s.worker_id,
        url: match s.pr_url {
            Some(pr) => Some(pr),
            None => s.url,
        },
        actions: seq![("View PR"@, "primary"@), ("Snooze"@, "default"@)],
        timestamp: s.stamp,
    }
}

/// Whether one of the signals says that the worker waits.
pub open spec fn waits_in(signals: Seq<Notice>, worker: Seq<char>) -> bool {
    exists|i: int|
        0 <= i < signals.len() && is_waiting(#[trigger] signals[i]) && signals[i].worker_id
            == worker
}

/// The items for waiting workers: for each named worker only the first.
pub open spec fn waiting_items(ws: Seq<char>, signals: Seq<Notice>) -> Seq<Item>
    decreases signals.len(),
{
    if signals.len() == 0 {
        seq![]
    } else {
        let earlier = signals.drop_last();
        let s = signals.last();
        let rest = waiting_items(ws, earlier);
        if is_waiting(s) && (s.worker_id.len() == 0 || !waits_in(earlier, s.worker_id)) {
            rest.push(waiting_item(ws, s))
        } else {
            rest
        }
    }
}

/// How many of the signals come from Sentry.
pub open spec fn sentry_count(signals: Seq<Notice>) -> nat
    decreases signals.len(),
{
    if signals.len() == 0 {
        0
    } else {
        sentry_count(signals.drop_last()) + if signals.last().source == "sentry"@ {
            1nat
        } else {
            0nat
        }
    }
}

/// The newest signal from Sentry: the last of those that no other is newer
/// than.
pub open spec fn newest_sentry(signals: Seq<Notice>) -> Option<Notice>
    decreases signals.len(),
{
    if signals.len() == 0 {
        None
    } else {
        let s = signals.last();
        match newest_sentry(signals.drop_last()) {
            Some(best) => if s.source == "sentry"@ && !s.created_at.before(best.created_at) {
                Some(s)
            } else {
                Some(best)
            },
            None => if s.source == "sentry"@ {
                Some(s)
            } else {
                None
            },
        }
    }
}

/// The one item for a crowd of Sentry errors.
pub open spec fn sentry_group(ws: Seq<char>, count: nat, newest: Notice) -> Item {
    Item {
        id: "sentry-"@ + ws,
        priority: "action"@,
        icon: "⚡"@,
        title: decimal(count as int) + " Sentry errors"@,
        body: Some("Latest: "@ + clip(newest.title, 80)),
        workspace: ws,
        source: "sentry"@,
        url: newest.url,
        actions: seq![("Investigate"@, "primary"@), ("Dismiss"@, "danger"@)],
        timestamp: newest.stamp,
    }
}

/// The items for Sentry errors: one for all of them from three on, else one
/// each.
pub open spec fn sentry_items(ws: Seq<char>, signals: Seq<Notice>) -> Seq<Item> {
    match newest_sentry(signals) {
        Some(newest) => if sentry_count(signals) >= 3 {
            seq![sentry_group(ws, sentry_count(signals), newest)]
        } else {
            section_items(Section::Sentry, ws, signals, signals)
        },
        None => section_items(Section::Sentry, ws, signals, signals),
    }
}

/// Whether the title that a crowd of Sentry errors is shown under can be cut
/// to its first eighty bytes.
pub open spec fn sentry_title_fits(signals: Seq<Notice>) -> bool {
    match newest_sentry(signals) {
        Some(newest) => sentry_count(signals) >= 3 ==> clips_evenly(newest.title, 80),
        None => true,
    }
}

/// The item for a fix that a bee asked for.
pub open spec fn bee_item(ws: Seq<char>, s: Notice) -> Item {
    Item {
        id: "bee-fix-"@ + decimal(s.id),
        priority: "notice"@,
        icon: "🔧"@,
        title: s.source.skip(4) + " requested fix: "@ + s.title,
        body: Some("CodeBee is dispatching a worker"@),
        workspace: ws,
        source: s.source,
        url: None,
        actions: seq![],
        timestamp: s.stamp,
    }
}

/// The items for the fixes that one bee asked for.
pub open spec fn bee_items_of(ws: Seq<char>, source: Seq<char>, signals: Seq<Notice>) -> Seq<Item>
    decreases signals.len(),
{
    if signals.len() == 0 {
        seq![]
    } else {
        let rest = bee_items_of(ws, source, signals.drop_last());
        if signals.last().source == source {
            rest.push(bee_item(ws, signals.last()))
        } else {
            rest
        }
    }
}

/// Whether one of the signals comes from the source.
pub open spec fn comes_from(signals: Seq<Notice>, source: Seq<char>) -> bool {
    exists|i: int| 0 <= i < signals.len() && (#[trigger] signals[i]).source == source
}

/// The items for the fixes that bees asked for, bee by bee in the order in
/// which the first `upto` signals name them.
pub open spec fn bee_items(ws: Seq<char>, signals: Seq<Notice>, upto: int) -> Seq<Item>
    decreases upto,
{
    if upto <= 0 || upto > signals.len() {
        seq![]
    } else {
        let s = signals[upto - 1];
        let rest = bee_items(ws, signals, upto - 1);
        if starts_with(s.source, "bee_"@) && !comes_from(signals.take(upto - 1), s.source) {
            rest + bee_items_of(ws, s.source, signals)
        } else {
            rest
        }
    }
}

/// The first `limit` items of a list.
pub open spec fn first_items(list: Seq<Item>, limit: int) -> Seq<Item> {
    if list.len() <= limit {
        list
    } else {
        list.take(limit)
    }
}

/// All items of a workspace, section by section.
pub open spec fn workspace_items(ws: Seq<char>, signals: Seq<Notice>) -> Seq<Item> {
    waiting_items(ws, signals) + section_items(Section::Ready, ws, signals, signals)
        + sentry_items(ws, signals) + section_items(Section::Escalation, ws, signals, signals)
        + bee_items(ws, signals, signals.len() as int) + first_items(
        section_items(Section::Merged, ws, signals, signals),
        5,
    ) + section_items(Section::Spawned, ws, signals, signals)
}

fn two_actions(label: &str, style: &str, other: &str, other_style: &str) -> (r: Vec<BriefingAction>)
    ensures
        action_texts(r@) == seq![(label@, style@), (other@, other_style@)],
{
    let r = vec![
        BriefingAction { label: label.to_owned(), style: style.to_owned() },
        BriefingAction { label: other.to_owned(), style: other_style.to_owned() },
    ];
    proof {
        assert(action_texts(r@) =~= seq![(label@, style@), (other@, other_style@)]);
    }
    r
}

fn no_actions() -> (r: Vec<BriefingAction>)
    ensures
        action_texts(r@) == Seq::<(Seq<char>, Seq<char>)>::empty(),
{
    let r: Vec<BriefingAction> = Vec::new();
    proof {
        assert(action_texts(r@) =~= Seq::<(Seq<char>, Seq<char>)>::empty());
    }
    r
}

fn is_reviewed(all: &Vec<BriefSignal>, s: &BriefSignal) -> (r: bool)
    ensures
        r == reviewed(notices(all@), s@),
{
    let ghost list = notices(all@);
    match &s.url {
        Some(url) => {
            let n: usize = all.len();
            let mut i: usize = 0;
            while i < n
                invariant
                    n == all@.len(),
                    0 <= i <= n,
                    list == notices(all@),
                    s.url == Some(*url),
                    forall|j: int|
                        0 <= j < i ==> !((#[trigger] list[j]).source == "github_bot_review"@
                            && list[j].url == s@.url),
                decreases n - i,
            {
                proof {
                    assert(list[i as int] == all@[i as int]@);
                }
                if same(all[i].source.as_str(), "github_bot_review") {
                    if let Some(other) = &all[i].url {
                        if same(url.as_str(), other.as_str()) {
                            return true;
                        }
                    }
                }
                i = i + 1;
            }
            false
        },
        None => false,
    }
}

fn signal_belongs(section: Section, all: &Vec<BriefSignal>, s: &BriefSignal) -> (r: bool)
    ensures
        r == belongs(section, notices(all@), s@),
{
    match section {
        Section::Ready => same(s.source.as_str(), "github_ci_pass") && is_reviewed(all, s),
        Section::Sentry => same(s.source.as_str(), "sentry"),
        Section::Escalation => same(s.source.as_str(), "escalation"),
        Section::Merged => same(s.source.as_str(), "github_merged_pr"),
        Section::Spawned => same(s.source.as_str(), "swarm_worker_spawned"),
    }
}

fn make_item(section: Section, ws: &str, s: &BriefSignal) -> (r: BriefingItem)
    ensures
        r@ == section_item(section, ws@, s@),
{
    let id = signed_number(s.id);
    match section {
        Section::Ready => BriefingItem {
            id: cat2("pr-ready-", id.as_str()),
            priority: "action".to_owned(),
            icon: "✅".to_owned(),
            title: cat2("PR ready: ", s.title.as_str()),
            body: Some("CI green + Copilot reviewed".to_owned()),
            workspace: ws.to_owned(),
            source: "github".to_owned(),
            url: s.url.clone(),
            actions: two_actions("Review", "primary", "Dismiss", "danger"),
            timestamp: s.stamp.clone(),
        },
        Section::Sentry => BriefingItem {
            id: cat2("sentry-", id.as_str()),
            priority: "notice".to_owned(),
            icon: "⚡".to_owned(),
            title: s.title.clone(),
            body: None,
            workspace: ws.to_owned(),
            source: "sentry".to_owned(),
            url: s.url.clone(),
            actions: no_actions(),
            timestamp: s.stamp.clone(),
        },
        Section::Escalation => BriefingItem {
            id: cat2("escalation-", id.as_str()),
            priority: "action".to_owned(),
            icon: "🚨".to_owned(),
            title: s.title.clone(),
            body: Some("Escalated by a Bee — needs your attention".to_owned()),
            workspace: ws.to_owned(),
            source: "escalation".to_owned(),
            url: s.url.clone(),
            actions: two_actions("Acknowledge", "primary", "Dismiss", "danger"),
            timestamp: s.stamp.clone(),
        },
        Section::Merged => BriefingItem {
            id: cat2("merged-", id.as_str()),
            priority: "quiet".to_owned(),
            icon: "🔀".to_owned(),
            title: cat2("Merged: ", s.title.as_str()),
            body: None,
            workspace: ws.to_owned(),
            source: "github".to_owned(),
            url: s.url.clone(),
            actions: no_actions(),
            timestamp: s.stamp.clone(),
        },
        Section::Spawned => BriefingItem {
            id: cat2("worker-", id.as_str()),
            priority: "quiet".to_owned(),
            icon: "🐝".to_owned(),
            title: s.title.clone(),
            body: None,
            workspace: ws.to_owned(),
            source: "swarm".to_owned(),
            url: None,
            actions: no_actions(),
            timestamp: s.stamp.clone(),
        },
    }
}

fn add_section(
    out: &mut Vec<BriefingItem>,
    section: Section,
    ws: &str,
    signals: &Vec<BriefSignal>,
    limit: usize,
)
    ensures
        items_view(final(out)@) == items_view(old(out)@) + first_items(
            section_items(section, ws@, notices(signals@), notices(signals@)),
            limit as int,
        ),
{
    let n: usize = signals.len();
    let ghost all = notices(signals@);
    let ghost base = items_view(out@);
    let mut added: usize = 0;
    let mut i: usize = 0;
    proof {
        assert(base + first_items(section_items(section, ws@, all, all.take(0)), limit as int)
            =~= base);
    }
    while i < n
        invariant
            n == signals@.len(),
            all == notices(signals@),
            0 <= i <= n,
            added <= i,
            added <= limit,
            added == first_items(
                section_items(section, ws@, all, all.take(i as int)),
                limit as int,
            ).len(),
            items_view(out@) == base + first_items(
                section_items(section, ws@, all, all.take(i as int)),
                limit as int,
            ),
        decreases n - i,
    {
        let ghost done = section_items(section, ws@, all, all.take(i as int));
        proof {
            assert(all.take(i + 1).drop_last() =~= all.take(i as int));
            assert(all.take(i + 1).last() == signals@[i as int]@);
        }
        if signal_belongs(section, signals, &signals[i]) {
            if added < limit {
                let one = make_item(section, ws, &signals[i]);
                proof {
                    assert(items_view(out@.push(one)) =~= items_view(out@).push(one@));
                    assert(first_items(done.push(one@), limit as int) =~= first_items(
                        done,
                        limit as int,
                    ).push(one@));
                    assert(base + first_items(done, limit as int).push(one@) =~= (base
                        + first_items(done, limit as int)).push(one@));
                }
                out.push(one);
                added = added + 1;
            } else {
                proof {
                    let x = section_item(section, ws@, signals@[i as int]@);
                    assert(first_items(done.push(x), limit as int) =~= first_items(
                        done,
                        limit as int,
                    ));
                }
            }
        }
        i = i + 1;
    }
    proof {
        assert(all.take(n as int) =~= all);
    }
}

proof fn lemma_section_len(section: Section, ws: Seq<char>, all: Seq<Notice>, signals: Seq<Notice>)
    ensures
        section_items(section, ws, all, signals).len() <= signals.len(),
    decreases signals.len(),
{
    if signals.len() > 0 {
        lemma_section_len(section, ws, all, signals.drop_last());
    }
}

fn add_whole_section(
    out: &mut Vec<BriefingItem>,
    section: Section,
    ws: &str,
    signals: &Vec<BriefSignal>,
)
    ensures
        items_view(final(out)@) == items_view(old(out)@) + section_items(
            section,
            ws@,
            notices(signals@),
            notices(signals@),
        ),
{
    proof {
        lemma_section_len(section, ws@, notices(signals@), notices(signals@));
    }
    add_section(out, section, ws, signals, signals.len())
}

fn waits_earlier(signals: &Vec<BriefSignal>, upto: usize, worker: &str) -> (r: bool)
    requires
        upto <= signals@.len(),
    ensures
        r == waits_in(notices(signals@).take(upto as int), worker@),
{
    let ghost list = notices(signals@).take(upto as int);
    let mut i: usize = 0;
    while i < upto
        invariant
            upto <= signals@.len(),
            0 <= i <= upto,
            list == notices(signals@).take(upto as int),
            forall|j: int|
                0 <= j < i ==> !(is_waiting(#[trigger] list[j]) && list[j].worker_id == worker@),
        decreases upto - i,
    {
        proof {
            assert(list[i as int] == signals@[i as int]@);
        }
        if same(signals[i].source.as_str(), "swarm_worker_waiting") && same(
            signals[i].worker_id.as_str(),
            worker,
        ) {
            return true;
        }
        i = i + 1;
    }
    false
}

fn make_waiting(ws: &str, s: &BriefSignal) -> (r: BriefingItem)
    ensures
        r@ == waiting_item(ws@, s@),
{
    let id = signed_number(s.id);
    let body = match &s.pr_url {
        Some(pr) => cat4("Worker: ", s.worker_id.as_str(), " · PR: ", pr.as_str()),
        None => cat3("Worker: ", s.worker_id.as_str(), " · no PR yet"),
    };
    let url = match &s.pr_url {
        Some(pr) => Some(pr.clone()),
        None => s.url.clone(),
    };
    BriefingItem {
        id: cat4("wait-", id.as_str(), "-", s.worker_id.as_str()),
        priority: "action".to_owned(),
        icon: "⏸".to_owned(),
        title: s.title.clone(),
        body: Some(body),
        workspace: ws.to_owned(),
        source: cat2("swarm:", s.worker_id.as_str()),
        url,
        actions: two_actions("View PR", "primary", "Snooze", "default"),
        timestamp: s.stamp.clone(),
    }
}

fn add_waiting(out: &mut Vec<BriefingItem>, ws: &str, signals: &Vec<BriefSignal>)
    ensures
        items_view(final(out)@) == items_view(old(out)@) + waiting_items(ws@, notices(signals@)),
{
    let n: usize = signals.len();
    let ghost all = notices(signals@);
    let ghost base = items_view(out@);
    let mut i: usize = 0;
    proof {
        assert(base + waiting_items(ws@, all.take(0)) =~= base);
    }
    while i < n
        invariant
            n == signals@.len(),
            all == notices(signals@),
            0 <= i <= n,
            items_view(out@) == base + waiting_items(ws@, all.take(i as int)),
        decreases n - i,
    {
        let s = &signals[i];
        let ghost done = waiting_items(ws@, all.take(i as int));
        proof {
            assert(all.take(i + 1).drop_last() =~= all.take(i as int));
            assert(all.take(i + 1).last() == s@);
        }
        if same(s.source.as_str(), "swarm_worker_waiting") && (s.worker_id.as_str().is_empty()
            || !waits_earlier(signals, i, s.worker_id.as_str())) {
            let one = make_waiting(ws, s);
            proof {
                assert(items_view(out@.push(one)) =~= items_view(out@).push(one@));
                assert(base + done.push(one@) =~= (base + done).push(one@));
            }
            out.push(one);
        }
        i = i + 1;
    }
    proof {
        assert(all.take(n as int) =~= all);
    }
}

/// The number of signals from Sentry and the position of the newest of them.
fn find_sentry(signals: &Vec<BriefSignal>) -> (r: (usize, Option<usize>))
    ensures
        r.0 == sentry_count(notices(signals@)),
        match r.1 {
            Some(k) => k < signals@.len() && newest_sentry(notices(signals@)) == Some(
                signals@[k as int]@,
            ),
            None => newest_sentry(notices(signals@)) is None,
        },
{
    let n: usize = signals.len();
    let ghost all = notices(signals@);
    let mut count: usize = 0;
    let mut best: Option<usize> = None;
    let mut i: usize = 0;
    while i < n
        invariant
            n == signals@.len(),
            all == notices(signals@),
            0 <= i <= n,
            count <= i,
            count == sentry_count(all.take(i as int)),
            match best {
                Some(k) => k < i && newest_sentry(all.take(i as int)) == Some(
                    signals@[k as int]@,
                ),
                None => newest_sentry(all.take(i as int)) is None,
            },
        decreases n - i,
    {
        let s = &signals[i];
        proof {
            assert(all.take(i + 1).drop_last() =~= all.take(i as int));
            assert(all.take(i + 1).last() == s@);
        }
        if same(s.source.as_str(), "sentry") {
            count = count + 1;
            match best {
                Some(k) => {
                    if !signals[k].created_at.after(&s.created_at) {
                        best = Some(i);
                    }
                },
                None => {
                    best = Some(i);
                },
            }
        }
        i = i + 1;
    }
    proof {
        assert(all.take(n as int) =~= all);
    }
    (count, best)
}

/// Whether the title that a crowd of Sentry errors is shown under can be cut.
fn title_can_be_cut(signals: &Vec<BriefSignal>) -> (r: bool)
    ensures
        r == sentry_title_fits(notices(signals@)),
{
    let (count, best) = find_sentry(signals);
    match best {
        Some(k) => count < 3 || can_clip(signals[k].title.as_str(), 80),
        None => true,
    }
}

fn add_sentry(out: &mut Vec<BriefingItem>, ws: &str, signals: &Vec<BriefSignal>)
    requires
        sentry_title_fits(notices(signals@)),
    ensures
        items_view(final(out)@) == items_view(old(out)@) + sentry_items(ws@, notices(signals@)),
{
    let (count, best) = find_sentry(signals);
    match best {
        Some(k) => if count >= 3 {
            let newest = &signals[k];
            let total = number(count as u64);
            let latest = clipped(newest.title.as_str(), 80);
            let one = BriefingItem {
                id: cat2("sentry-", ws),
                priority: "action".to_owned(),
                icon: "⚡".to_owned(),
                title: cat2(total.as_str(), " Sentry errors"),
                body: Some(cat2("Latest: ", latest.as_str())),
                workspace: ws.to_owned(),
                source: "sentry".to_owned(),
                url: newest.url.clone(),
                actions: two_actions("Investigate", "primary", "Dismiss", "danger"),
                timestamp: newest.stamp.clone(),
            };
            proof {
                assert(items_view(out@.push(one)) =~= items_view(out@) + seq![one@]);
            }
            out.push(one);
        } else {
            add_whole_section(out, Section::Sentry, ws, signals);
        },
        None => add_whole_section(out, Section::Sentry, ws, signals),
    }
}

fn make_bee(ws: &str, s: &BriefSignal) -> (r: BriefingItem)
    requires
        starts_with(s.source@, "bee_"@),
    ensures
        r@ == bee_item(ws@, s@),
{
    let id = signed_number(s.id);
    let source = chars_of(s.source.as_str());
    proof {
        reveal_strlit("bee_");
        assert(s.source@.skip(4) =~= source@.subrange(4, source@.len() as int));
    }
    let name = string_between(&source, 4, source.len());
    BriefingItem {
        id: cat2("bee-fix-", id.as_str()),
        priority: "notice".to_owned(),
        icon: "🔧".to_owned(),
        title: cat3(name.as_str(), " requested fix: ", s.title.as_str()),
        body: Some("CodeBee is dispatching a worker".to_owned()),
        workspace: ws.to_owned(),
        source: s.source.clone(),
        url: None,
        actions: no_actions(),
        timestamp: s.stamp.clone(),
    }
}

fn add_bee(out: &mut Vec<BriefingItem>, ws: &str, source: &str, signals: &Vec<BriefSignal>)
    requires
        starts_with(source@, "bee_"@),
    ensures
        items_view(final(out)@) == items_view(old(out)@) + bee_items_of(
            ws@,
            source@,
            notices(signals@),
        ),
{
    let n: usize = signals.len();
    let ghost all = notices(signals@);
    let ghost base = items_view(out@);
    let mut i: usize = 0;
    proof {
        assert(base + bee_items_of(ws@, source@, all.take(0)) =~= base);
    }
    while i < n
        invariant
            n == signals@.len(),
            all == notices(signals@),
            starts_with(source@, "bee_"@),
            0 <= i <= n,
            items_view(out@) == base + bee_items_of(ws@, source@, all.take(i as int)),
        decreases n - i,
    {
        let s = &signals[i];
        let ghost done = bee_items_of(ws@, source@, all.take(i as int));
        proof {
            assert(all.take(i + 1).drop_last() =~= all.take(i as int));
            assert(all.take(i + 1).last() == s@);
        }
        if same(s.source.as_str(), source) {
            let one = make_bee(ws, s);
            proof {
                assert(items_view(out@.push(one)) =~= items_view(out@).push(one@));
                assert(base + done.push(one@) =~= (base + done).push(one@));
            }
            out.push(one);
        }
        i = i + 1;
    }
    proof {
        assert(all.take(n as int) =~= all);
    }
}

fn source_seen(signals: &Vec<BriefSignal>, upto: usize, source: &str) -> (r: bool)
    requires
        upto <= signals@.len(),
    ensures
        r == comes_from(notices(signals@).take(upto as int), source@),
{
    let ghost list = notices(signals@).take(upto as int);
    let mut i: usize = 0;
    while i < upto
        invariant
            upto <= signals@.len(),
            0 <= i <= upto,
            list == notices(signals@).take(upto as int),
            forall|j: int| 0 <= j < i ==> (#[trigger] list[j]).source != source@,
        decreases upto - i,
    {
        proof {
            assert(list[i as int] == signals@[i as int]@);
        }
        if same(signals[i].source.as_str(), source) {
            return true;
        }
        i = i + 1;
    }
    false
}

fn add_bees(out: &mut Vec<BriefingItem>, ws: &str, signals: &Vec<BriefSignal>)
    ensures
        items_view(final(out)@) == items_view(old(out)@) + bee_items(
            ws@,
            notices(signals@),
            signals@.len() as int,
        ),
{
    let n: usize = signals.len();
    let ghost all = notices(signals@);
    let ghost base = items_view(out@);
    let mut i: usize = 0;
    proof {
        assert(base + bee_items(ws@, all, 0) =~= base);
    }
    while i < n
        invariant
            n == signals@.len(),
            all == notices(signals@),
            0 <= i <= n,
            items_view(out@) == base + bee_items(ws@, all, i as int),
        decreases n - i,
    {
        let s = &signals[i];
        let ghost done = bee_items(ws@, all, i as int);
        proof {
            assert(all[i as int] == s@);
        }
        if has_prefix(s.source.as_str(), "bee_") && !source_seen(signals, i, s.source.as_str()) {
            add_bee(out, ws, s.source.as_str(), signals);
            proof {
                let more = bee_items_of(ws@, s@.source, all);
                assert(base + done + more =~= base + (done + more));
            }
        }
        i = i + 1;
    }
}

/// Adds the items of a workspace to a list.
pub fn add_workspace_items(out: &mut Vec<BriefingItem>, ws: &str, signals: &Vec<BriefSignal>)
    requires
        sentry_title_fits(notices(signals@)),
    ensures
        items_view(final(out)@) == items_view(old(out)@) + workspace_items(
            ws@,
            notices(signals@),
        ),
{
    let ghost base = items_view(out@);
    let ghost all = notices(signals@);
    add_waiting(out, ws, signals);
    add_whole_section(out, Section::Ready, ws, signals);
    add_sentry(out, ws, signals);
    add_whole_section(out, Section::Escalation, ws, signals);
    add_bees(out, ws, signals);
    add_section(out, Section::Merged, ws, signals, 5);
    add_whole_section(out, Section::Spawned, ws, signals);
    proof {
        assert(items_view(out@) =~= base + workspace_items(ws@, all));
    }
}

// ---------------------------------------------------------------------------
// Repetitions
// ---------------------------------------------------------------------------

/// What tells titles apart: the number of the pull request that a title
/// mentions, else how the title starts.
pub open spec fn title_key(title: Seq<char>) -> Seq<char> {
    let k = before(title, '#');
    let rest = title.skip(k + 1);
    if k < title.len() && leading_digits(rest) > 0 {
        "PR#"@ + rest.take(leading_digits(rest))
    } else {
        first_chars(title, 25)
    }
}

/// What tells items apart.
pub open spec fn item_key(item: Item) -> Seq<char> {
    item.workspace + ":"@ + item.source + ":"@ + title_key(item.title)
}

/// Whether one of the items has the key.
pub open spec fn has_key(list: Seq<Item>, key: Seq<char>) -> bool {
    exists|i: int| 0 <= i < list.len() && item_key(#[trigger] list[i]) == key
}

/// The items of a list, of those with the same key only the first.
pub open spec fn distinct(list: Seq<Item>) -> Seq<Item>
    decreases list.len(),
{
    if list.len() == 0 {
        seq![]
    } else {
        let rest = distinct(list.drop_last());
        if has_key(list.drop_last(), item_key(list.last())) {
            rest
        } else {
            rest.push(list.last())
        }
    }
}

/// Where the digits that a list of characters holds from `from` on end.
fn digits_end(v: &Vec<char>, from: usize) -> (r: usize)
    requires
        from <= v@.len(),
    ensures
        from <= r <= v@.len(),
        r - from == leading_digits(v@.skip(from as int)),
{
    let n: usize = v.len();
    let mut i: usize = from;
    while i < n && '0' <= v[i] && v[i] <= '9'
        invariant
            n == v@.len(),
            from <= i <= n,
            leading_digits(v@.skip(from as int)) == i - from + leading_digits(v@.skip(i as int)),
        decreases n - i,
    {
        proof {
            assert(v@.skip(i as int).drop_first() =~= v@.skip(i + 1));
        }
        i = i + 1;
    }
    i
}

/// What tells titles apart.
pub fn dedup_title(title: &str) -> (r: String)
    ensures
        r@ == title_key(title@),
{
    let v = chars_of(title);
    let n: usize = v.len();
    let mut k: usize = 0;
    while k < n && v[k] != '#'
        invariant
            n == v@.len(),
            0 <= k <= n,
            forall|j: int| 0 <= j < k ==> v@[j] != '#',
        decreases n - k,
    {
        k = k + 1;
    }
    proof {
        lemma_before_is(v@, '#', k as int);
    }
    if k < n {
        let end = digits_end(&v, k + 1);
        if end > k + 1 {
            let num = string_between(&v, k + 1, end);
            proof {
                let rest = v@.skip(k + 1);
                assert(rest.take(leading_digits(rest)) =~= num@);
            }
            return cat2("PR#", num.as_str());
        }
    }
    start_of(title, 25)
}

/// What tells items apart.
pub fn dedup_key(item: &BriefingItem) -> (r: String)
    ensures
        r@ == item_key(item@),
{
    let title = dedup_title(item.title.as_str());
    cat5(item.workspace.as_str(), ":", item.source.as_str(), ":", title.as_str())
}

/// The keys of a list of items.
pub open spec fn keys_of(list: Seq<Item>) -> Seq<Seq<char>> {
    list.map_values(|x: Item| item_key(x))
}

fn holds_text(list: &Vec<String>, key: &str) -> (r: bool)
    ensures
        r == texts(list@).contains(key@),
{
    let n: usize = list.len();
    let mut i: usize = 0;
    while i < n
        invariant
            n == list@.len(),
            0 <= i <= n,
            forall|j: int| 0 <= j < i ==> texts(list@)[j] != key@,
        decreases n - i,
    {
        if same(list[i].as_str(), key) {
            proof {
                assert(texts(list@)[i as int] == key@);
            }
            return true;
        }
        i = i + 1;
    }
    false
}

/// The items of a list, of those with the same key only the first.
pub fn without_repetitions(items: Vec<BriefingItem>) -> (r: Vec<BriefingItem>)
    ensures
        items_view(r@) == distinct(items_view(items@)),
{
    let ghost all = items_view(items@);
    let mut rest = items;
    let mut out: Vec<BriefingItem> = Vec::new();
    let mut seen: Vec<String> = Vec::new();
    let ghost mut k: int = 0;
    proof {
        assert(all.skip(0) =~= all);
        assert(texts(seen@) =~= keys_of(all.take(0)));
        assert(items_view(out@) =~= distinct(all.take(0)));
    }
    while rest.len() > 0
        invariant
            0 <= k <= all.len(),
            items_view(rest@) == all.skip(k),
            texts(seen@) == keys_of(all.take(k)),
            items_view(out@) == distinct(all.take(k)),
        decreases rest@.len(),
    {
        proof {
            assert(items_view(rest@).len() == rest@.len());
            assert(k < all.len());
            assert(items_view(rest@)[0] == all.skip(k)[0]);
        }
        let ghost old_rest = rest@;
        let item = rest.remove(0);
        let key = dedup_key(&item);
        let repeated = holds_text(&seen, key.as_str());
        proof {
            let done = all.take(k);
            let x = all[k];
            assert(item@ == x);
            assert(all.take(k + 1).drop_last() =~= done);
            assert(all.take(k + 1).last() == x);
            if texts(seen@).contains(key@) {
                let j = choose|j: int| 0 <= j < texts(seen@).len() && texts(seen@)[j] == key@;
                assert(item_key(done[j]) == key@);
            }
            if has_key(done, key@) {
                let j = choose|j: int| 0 <= j < done.len() && item_key(#[trigger] done[j]) == key@;
                assert(keys_of(done)[j] == key@);
            }
            assert(repeated == has_key(done, item_key(x)));
            assert(keys_of(all.take(k + 1)) =~= keys_of(done).push(key@));
            assert(texts(seen@.push(key)) =~= texts(seen@).push(key@));
            assert(items_view(rest@) =~= all.skip(k + 1)) by {
                assert forall|j: int| 0 <= j < rest@.len() implies items_view(rest@)[j] == all.skip(
                    k + 1,
                )[j] by {
                    assert(rest@[j] == old_rest[j + 1]);
                    assert(items_view(old_rest)[j + 1] == all.skip(k)[j + 1]);
                }
            }
            assert(items_view(out@.push(item)) =~= items_view(out@).push(item@));
            k = k + 1;
        }
        seen.push(key);
        if !repeated {
            out.push(item);
        }
    }
    proof {
        assert(all.take(k) =~= all);
    }
    out
}

// ---------------------------------------------------------------------------
// Order
// ---------------------------------------------------------------------------

/// The rank of a priority: what asks for action comes first.
pub open spec fn tier(priority: Seq<char>) -> int {
    if priority == "action"@ {
        0
    } else if priority == "notice"@ {
        1
    } else {
        2
    }
}

/// Whether an item comes before another: by priority, then the newer first.
pub open spec fn goes_before(a: Item, b: Item) -> bool {
    ||| tier(a.priority) < tier(b.priority)
    ||| tier(a.priority) == tier(b.priority) && text_less(b.timestamp, a.timestamp)
}

/// A list with one more item, behind all that it does not go before.
pub open spec fn inserted(list: Seq<Item>, x: Item) -> Seq<Item>
    decreases list.len(),
{
    if list.len() == 0 || !goes_before(x, list.last()) {
        list.push(x)
    } else {
        inserted(list.drop_last(), x).push(list.last())
    }
}

/// The items of a list in the order of the briefing; items of the same rank
/// keep their order.
pub open spec fn ordered(list: Seq<Item>) -> Seq<Item>
    decreases list.len(),
{
    if list.len() == 0 {
        seq![]
    } else {
        inserted(ordered(list.drop_last()), list.last())
    }
}

/// Whether no item of a list goes before one that stands in front of it.
pub open spec fn is_ordered(list: Seq<Item>) -> bool {
    forall|i: int, j: int| 0 <= i < j < list.len() ==> !goes_before(#[trigger] list[j], #[trigger] list[i])
}

proof fn lemma_inserted_at(list: Seq<Item>, x: Item, k: int)
    requires
        0 <= k <= list.len(),
        forall|j: int| k <= j < list.len() ==> goes_before(x, #[trigger] list[j]),
        k > 0 ==> !goes_before(x, list[k - 1]),
    ensures
        inserted(list, x) == list.insert(k, x),
    decreases list.len(),
{
    if k == list.len() {
        assert(list.insert(k, x) =~= list.push(x));
    } else {
        lemma_inserted_at(list.drop_last(), x, k);
        assert(list.drop_last().insert(k, x).push(list.last()) =~= list.insert(k, x));
    }
}

fn item_tier(priority: &str) -> (r: u8)
    ensures
        r == tier(priority@),
{
    if same(priority, "action") {
        0
    } else if same(priority, "notice") {
        1
    } else {
        2
    }
}

fn item_goes_before(a: &BriefingItem, b: &BriefingItem) -> (r: bool)
    ensures
        r == goes_before(a@, b@),
{
    let p: u8 = item_tier(a.priority.as_str());
    let q: u8 = item_tier(b.priority.as_str());
    p < q || (p == q && comes_before(b.timestamp.as_str(), a.timestamp.as_str()))
}

/// The items of a list in the order of the briefing.
pub fn in_order(items: Vec<BriefingItem>) -> (r: Vec<BriefingItem>)
    ensures
        items_view(r@) == ordered(items_view(items@)),
{
    let ghost all = items_view(items@);
    let mut rest = items;
    let mut out: Vec<BriefingItem> = Vec::new();
    let ghost mut done: int = 0;
    proof {
        assert(all.skip(0) =~= all);
        assert(items_view(out@) =~= ordered(all.take(0)));
    }
    while rest.len() > 0
        invariant
            0 <= done <= all.len(),
            items_view(rest@) == all.skip(done),
            items_view(out@) == ordered(all.take(done)),
        decreases rest@.len(),
    {
        proof {
            assert(items_view(rest@).len() == rest@.len());
            assert(done < all.len());
            assert(items_view(rest@)[0] == all.skip(done)[0]);
        }
        let ghost old_rest = rest@;
        let item = rest.remove(0);
        let ghost sorted = items_view(out@);
        let mut k: usize = out.len();
        while k > 0 && item_goes_before(&item, &out[k - 1])
            invariant
                0 <= k <= out@.len(),
                sorted == items_view(out@),
                forall|j: int| k <= j < sorted.len() ==> goes_before(item@, #[trigger] sorted[j]),
            decreases k,
        {
            k = k - 1;
        }
        proof {
            let x = all[done];
            assert(item@ == x);
            assert(all.take(done + 1).drop_last() =~= all.take(done));
            assert(all.take(done + 1).last() == x);
            lemma_inserted_at(sorted, item@, k as int);
            assert(items_view(out@.insert(k as int, item)) =~= sorted.insert(k as int, item@));
            assert(items_view(rest@) =~= all.skip(done + 1)) by {
                assert forall|j: int| 0 <= j < rest@.len() implies items_view(rest@)[j] == all.skip(
                    done + 1,
                )[j] by {
                    assert(rest@[j] == old_rest[j + 1]);
                    assert(items_view(old_rest)[j + 1] == all.skip(done)[j + 1]);
                }
            }
            done = done + 1;
        }
        out.insert(k, item);
    }
    proof {
        assert(all.take(done) =~= all);
    }
    out
}

// ---------------------------------------------------------------------------
// The briefing
// ---------------------------------------------------------------------------

/// A workspace with its open signals.
pub struct WorkspaceSignals {
    pub name: String,
    pub signals: Vec<SignalRecord>,
}

/// The items of all workspaces, one workspace after the other.
pub open spec fn all_items(workspaces: Seq<WorkspaceSignals>, now: Moment) -> Seq<Item>
    decreases workspaces.len(),
{
    if workspaces.len() == 0 {
        seq![]
    } else {
        let ws = workspaces.last();
        all_items(workspaces.drop_last(), now) + workspace_items(
            ws.name@,
            current_notices(ws.signals@, now),
        )
    }
}

/// The briefing given at `now`: the items of all workspaces without
/// repetitions, in the order of the briefing.
pub fn get_briefing(workspaces: &Vec<WorkspaceSignals>, now: &Moment) -> (r: Vec<BriefingItem>)
    requires
        forall|i: int|
            0 <= i < workspaces@.len() ==> sentry_title_fits(
                current_notices((#[trigger] workspaces@[i]).signals@, *now),
            ),
    ensures
        items_view(r@) == ordered(distinct(all_items(workspaces@, *now))),
{
    let n: usize = workspaces.len();
    let mut items: Vec<BriefingItem> = Vec::new();
    let mut i: usize = 0;
    proof {
        assert(items_view(items@) =~= all_items(workspaces@.take(0), *now));
    }
    while i < n
        invariant
            n == workspaces@.len(),
            0 <= i <= n,
            forall|i: int|
                0 <= i < workspaces@.len() ==> sentry_title_fits(
                    current_notices((#[trigger] workspaces@[i]).signals@, *now),
                ),
            items_view(items@) == all_items(workspaces@.take(i as int), *now),
        decreases n - i,
    {
        let ws = &workspaces[i];
        let signals = current_signals(&ws.signals, now);
        add_workspace_items(&mut items, ws.name.as_str(), &signals);
        proof {
            assert(workspaces@.take(i + 1).drop_last() =~= workspaces@.take(i as int));
            assert(workspaces@.take(i + 1).last() == *ws);
        }
        i = i + 1;
    }
    proof {
        assert(workspaces@.take(n as int) =~= workspaces@);
    }
    in_order(without_repetitions(items))
}

// ---------------------------------------------------------------------------
// Laws
// ---------------------------------------------------------------------------

/// Whether two items have the same place in the order of the briefing.
pub open spec fn same_rank(a: Item, b: Item) -> bool {
    tier(a.priority) == tier(b.priority) && a.timestamp == b.timestamp
}

proof fn lemma_rank_order(a: Item, b: Item, c: Item)
    ensures
        goes_before(a, b) ==> !goes_before(b, a),
        !goes_before(a, b) && !goes_before(b, c) ==> !goes_before(a, c),
        same_rank(a, b) ==> !goes_before(a, b) && goes_before(a, c) == goes_before(b, c),
{
    lemma_text_less_irreflexive(a.timestamp);
    lemma_text_less_total(a.timestamp, b.timestamp);
    lemma_text_less_total(b.timestamp, c.timestamp);
    lemma_text_less_total(a.timestamp, c.timestamp);
    if text_less(a.timestamp, b.timestamp) && text_less(b.timestamp, a.timestamp) {
        lemma_text_less_transitive(a.timestamp, b.timestamp, a.timestamp);
    }
    if text_less(a.timestamp, b.timestamp) && text_less(b.timestamp, c.timestamp) {
        lemma_text_less_transitive(a.timestamp, b.timestamp, c.timestamp);
    }
    if text_less(c.timestamp, a.timestamp) && text_less(a.timestamp, b.timestamp) {
        lemma_text_less_transitive(c.timestamp, a.timestamp, b.timestamp);
    }
    if text_less(b.timestamp, c.timestamp) && text_less(c.timestamp, a.timestamp) {
        lemma_text_less_transitive(b.timestamp, c.timestamp, a.timestamp);
    }
    if text_less(c.timestamp, b.timestamp) && text_less(b.timestamp, c.timestamp) {
        lemma_text_less_transitive(c.timestamp, b.timestamp, c.timestamp);
        lemma_text_less_irreflexive(c.timestamp);
    }
    if text_less(c.timestamp, a.timestamp) && text_less(a.timestamp, c.timestamp) {
        lemma_text_less_transitive(c.timestamp, a.timestamp, c.timestamp);
        lemma_text_less_irreflexive(c.timestamp);
    }
}

proof fn lemma_inserted(list: Seq<Item>, x: Item)
    requires
        is_ordered(list),
    ensures
        is_ordered(inserted(list, x)),
        inserted(list, x).to_multiset() =~= list.to_multiset().insert(x),
        inserted(list, x).len() == list.len() + 1,
        forall|i: int|
            0 <= i <= list.len() ==> (#[trigger] inserted(list, x)[i] == x || exists|j: int|
                0 <= j < list.len() && list[j] == inserted(list, x)[i]),
    decreases list.len(),
{
    broadcast use vstd::seq_lib::group_to_multiset_ensures;

    if list.len() == 0 || !goes_before(x, list.last()) {
        let new = list.push(x);
        assert forall|i: int, j: int| 0 <= i < j < new.len() implies !goes_before(
            #[trigger] new[j],
            #[trigger] new[i],
        ) by {
            if j == list.len() {
                let last = list.last();
                lemma_rank_order(x, last, list[i]);
                if i < list.len() - 1 {
                    assert(!goes_before(list[list.len() - 1], list[i]));
                }
            }
        }
        assert forall|i: int| 0 <= i <= list.len() implies (#[trigger] new[i] == x || exists|j: int|
            0 <= j < list.len() && list[j] == new[i]) by {
            if i < list.len() {
                assert(list[i] == new[i]);
            }
        }
    } else {
        let front = list.drop_last();
        let last = list.last();
        lemma_inserted(front, x);
        let grown = inserted(front, x);
        let new = grown.push(last);
        assert(list =~= front.push(last));
        assert forall|i: int, j: int| 0 <= i < j < new.len() implies !goes_before(
            #[trigger] new[j],
            #[trigger] new[i],
        ) by {
            if j == grown.len() {
                if grown[i] == x {
                    lemma_rank_order(x, last, x);
                } else {
                    let m = choose|m: int| 0 <= m < front.len() && front[m] == grown[i];
                    assert(list[m] == grown[i]);
                    assert(!goes_before(list[list.len() - 1], list[m]));
                }
            } else {
                assert(new[i] == grown[i] && new[j] == grown[j]);
            }
        }
        assert forall|i: int| 0 <= i <= list.len() implies (#[trigger] new[i] == x || exists|j: int|
            0 <= j < list.len() && list[j] == new[i]) by {
            if i < grown.len() {
                if grown[i] != x {
                    let m = choose|m: int| 0 <= m < front.len() && front[m] == grown[i];
                    assert(list[m] == new[i]);
                }
            } else {
                assert(list[list.len() - 1] == new[i]);
            }
        }
        assert(grown.push(last).to_multiset() =~= grown.to_multiset().insert(last));
        assert(list.to_multiset() =~= front.to_multiset().insert(last));
    }
}

/// The order of the briefing puts nothing in front of what goes before it, and
/// neither loses nor invents an item.
pub proof fn law_ordered_sorts(list: Seq<Item>)
    ensures
        is_ordered(ordered(list)),
        ordered(list).to_multiset() =~= list.to_multiset(),
    decreases list.len(),
{
    broadcast use vstd::seq_lib::group_to_multiset_ensures;

    if list.len() > 0 {
        law_ordered_sorts(list.drop_last());
        lemma_inserted(ordered(list.drop_last()), list.last());
        assert(list =~= list.drop_last().push(list.last()));
    }
}

/// The items of a list that have the same rank as `y`, in their order.
pub open spec fn of_rank(list: Seq<Item>, y: Item) -> Seq<Item>
    decreases list.len(),
{
    if list.len() == 0 {
        seq![]
    } else {
        let rest = of_rank(list.drop_last(), y);
        if same_rank(list.last(), y) {
            rest.push(list.last())
        } else {
            rest
        }
    }
}

proof fn lemma_inserted_keeps_rank(list: Seq<Item>, x: Item, y: Item)
    ensures
        of_rank(inserted(list, x), y) == of_rank(list.push(x), y),
    decreases list.len(),
{
    assert(list.push(x).drop_last() =~= list);
    if list.len() > 0 && goes_before(x, list.last()) {
        let front = list.drop_last();
        let last = list.last();
        lemma_inserted_keeps_rank(front, x, y);
        assert(front.push(x).drop_last() =~= front);
        assert(inserted(list, x).drop_last() =~= inserted(front, x));
        lemma_rank_order(x, last, last);
        assert(!(same_rank(x, y) && same_rank(last, y))) by {
            if same_rank(x, y) && same_rank(last, y) {
                assert(same_rank(x, last));
            }
        }
        assert(inserted(list, x).last() == last);
        assert(of_rank(list.push(x), y) == if same_rank(x, y) {
            of_rank(list, y).push(x)
        } else {
            of_rank(list, y)
        });
        assert(of_rank(front.push(x), y) == if same_rank(x, y) {
            of_rank(front, y).push(x)
        } else {
            of_rank(front, y)
        });
    }
}

/// Items of the same rank keep the order in which they were found.
pub proof fn law_ordered_is_stable(list: Seq<Item>, y: Item)
    ensures
        of_rank(ordered(list), y) == of_rank(list, y),
    decreases list.len(),
{
    if list.len() > 0 {
        let front = list.drop_last();
        law_ordered_is_stable(front, y);
        lemma_inserted_keeps_rank(ordered(front), list.last(), y);
        assert(ordered(front).push(list.last()).drop_last() =~= ordered(front));
    }
}

/// Dropping repetitions leaves no two items with the same key, only items that
/// were there, and for every item that was there one with its key.
pub proof fn law_distinct(list: Seq<Item>)
    ensures
        forall|i: int, j: int|
            0 <= i < j < distinct(list).len() ==> item_key(#[trigger] distinct(list)[i])
                != item_key(#[trigger] distinct(list)[j]),
        forall|i: int|
            0 <= i < distinct(list).len() ==> list.contains(#[trigger] distinct(list)[i]),
        forall|i: int|
            0 <= i < list.len() ==> has_key(distinct(list), item_key(#[trigger] list[i])),
    decreases list.len(),
{
    if list.len() > 0 {
        let front = list.drop_last();
        let x = list.last();
        let kept = distinct(front);
        let new = distinct(list);
        law_distinct(front);
        assert forall|i: int| 0 <= i < kept.len() implies has_key(
            front,
            item_key(#[trigger] kept[i]),
        ) by {
            let m = choose|m: int| 0 <= m < front.len() && front[m] == kept[i];
            assert(front.contains(kept[i]));
            assert(item_key(front[m]) == item_key(kept[i]));
        }
        assert forall|i: int, j: int| 0 <= i < j < new.len() implies item_key(#[trigger] new[i])
            != item_key(#[trigger] new[j]) by {
            if j == kept.len() {
                assert(new[i] == kept[i]);
                assert(has_key(front, item_key(kept[i])));
            }
        }
        assert forall|i: int| 0 <= i < new.len() implies list.contains(#[trigger] new[i]) by {
            if i < kept.len() {
                assert(front.contains(kept[i]));
                let m = choose|m: int| 0 <= m < front.len() && front[m] == kept[i];
                assert(list[m] == new[i]);
            } else {
                assert(list[list.len() - 1] == new[i]);
            }
        }
        assert forall|i: int| 0 <= i < list.len() implies has_key(
            new,
            item_key(#[trigger] list[i]),
        ) by {
            if i < front.len() {
                assert(front[i] == list[i]);
                assert(has_key(kept, item_key(front[i])));
                let m = choose|m: int|
                    0 <= m < kept.len() && item_key(#[trigger] kept[m]) == item_key(front[i]);
                assert(new[m] == kept[m]);
            } else if has_key(front, item_key(x)) {
                let m = choose|m: int|
                    0 <= m < front.len() && item_key(#[trigger] front[m]) == item_key(x);
                assert(has_key(kept, item_key(front[m])));
            } else {
                assert(new[kept.len() as int] == x);
            }
        }
    }
}

/// No briefing shows the same worker twice as waiting in one workspace.
pub proof fn law_waiting_once(ws: Seq<char>, signals: Seq<Notice>)
    ensures
        forall|i: int, j: int|
            0 <= i < j < waiting_items(ws, signals).len() && (#[trigger] waiting_items(
                ws,
                signals,
            )[i]).source == (#[trigger] waiting_items(ws, signals)[j]).source ==> waiting_items(
                ws,
                signals,
            )[i].source == "swarm:"@,
        forall|i: int|
            0 <= i < waiting_items(ws, signals).len() && (#[trigger] waiting_items(
                ws,
                signals,
            )[i]).source != "swarm:"@ ==> exists|j: int|
                0 <= j < signals.len() && is_waiting(#[trigger] signals[j]) && waiting_items(
                    ws,
                    signals,
                )[i].source == "swarm:"@ + signals[j].worker_id,
    decreases signals.len(),
{
    if signals.len() > 0 {
        let earlier = signals.drop_last();
        let s = signals.last();
        let old_items = waiting_items(ws, earlier);
        let new = waiting_items(ws, signals);
        law_waiting_once(ws, earlier);
        assert forall|i: int|
            0 <= i < new.len() && (#[trigger] new[i]).source != "swarm:"@ implies exists|j: int|
            0 <= j < signals.len() && is_waiting(#[trigger] signals[j]) && new[i].source
                == "swarm:"@ + signals[j].worker_id by {
            if i < old_items.len() {
                assert(new[i] == old_items[i]);
                let m = choose|m: int|
                    0 <= m < earlier.len() && is_waiting(#[trigger] earlier[m])
                        && old_items[i].source == "swarm:"@ + earlier[m].worker_id;
                assert(signals[m] == earlier[m]);
            } else {
                assert(signals[signals.len() - 1] == s);
            }
        }
        assert forall|i: int, j: int|
            0 <= i < j < new.len() && (#[trigger] new[i]).source == (#[trigger] new[j]).source
            implies new[i].source == "swarm:"@ by {
            assert(new[i] == old_items[i]);
            if j < old_items.len() {
                assert(new[j] == old_items[j]);
            } else if new[i].source != "swarm:"@ {
                let m = choose|m: int|
                    0 <= m < earlier.len() && is_waiting(#[trigger] earlier[m])
                        && old_items[i].source == "swarm:"@ + earlier[m].worker_id;
                lemma_same_tail("swarm:"@, earlier[m].worker_id, s.worker_id);
                if s.worker_id.len() == 0 {
                    assert("swarm:"@ + s.worker_id =~= "swarm:"@);
                }
                assert(waits_in(earlier, s.worker_id));
            }
        }
    }
}

proof fn lemma_same_tail(head: Seq<char>, a: Seq<char>, b: Seq<char>)
    ensures
        head + a == head + b ==> a == b,
{
    if head + a == head + b {
        assert((head + a).skip(head.len() as int) =~= a);
        assert((head + b).skip(head.len() as int) =~= b);
    }
}

/// The briefing over all workspaces, or nothing where a title in it cannot be
/// cut.
pub fn briefing_that_fits(workspaces: &Vec<WorkspaceSignals>, now: &Moment) -> (r: Option<
    Vec<BriefingItem>,
>)
    ensures
        r is Some <==> forall|i: int|
            0 <= i < workspaces@.len() ==> sentry_title_fits(
                current_notices((#[trigger] workspaces@[i]).signals@, *now),
            ),
        r matches Some(items) ==> items_view(items@) == ordered(
            distinct(all_items(workspaces@, *now)),
        ),
{
    let n: usize = workspaces.len();
    let mut i: usize = 0;
    while i < n
        invariant
            n == workspaces@.len(),
            0 <= i <= n,
            forall|j: int|
                0 <= j < i ==> sentry_title_fits(
                    current_notices((#[trigger] workspaces@[j]).signals@, *now),
                ),
        decreases n - i,
    {
        let signals = current_signals(&workspaces[i].signals, now);
        if !title_can_be_cut(&signals) {
            proof {
                assert(!sentry_title_fits(current_notices(workspaces@[i as int].signals@, *now)));
            }
            return None;
        }
        i = i + 1;
    }
    Some(get_briefing(workspaces, now))
}

// ---------------------------------------------------------------------------
// Laws on what the briefing shows
// ---------------------------------------------------------------------------

/// A signal is shown for two days from when it came up, and while it is snoozed
/// it is not shown. What is shown are such signals and no others.
pub proof fn law_briefing_covers_two_days(signals: Seq<SignalRecord>, now: Moment)
    ensures
        forall|i: int|
            0 <= i < signals.len() && (#[trigger] signals[i]).created_at.total() > now.total() - 48
                * 3600 * 1_000_000_000 && (signals[i].snoozed_until is None
                || signals[i].snoozed_until->0.before(now)) ==> current_notices(
                signals,
                now,
            ).contains(notice_of(signals[i])),
        forall|k: int|
            0 <= k < current_notices(signals, now).len() ==> exists|i: int|
                0 <= i < signals.len() && #[trigger] current_notices(signals, now)[k] == notice_of(
                    #[trigger] signals[i],
                ) && signals[i].created_at.total() > now.total() - 48 * 3600 * 1_000_000_000 && (
                signals[i].snoozed_until is None || signals[i].snoozed_until->0.before(now)),
    decreases signals.len(),
{
    if signals.len() > 0 {
        let front = signals.drop_last();
        let rest = current_notices(front, now);
        let all = current_notices(signals, now);
        law_briefing_covers_two_days(front, now);
        assert forall|i: int|
            0 <= i < signals.len() && (#[trigger] signals[i]).created_at.total() > now.total() - 48
                * 3600 * 1_000_000_000 && (signals[i].snoozed_until is None
                || signals[i].snoozed_until->0.before(now)) implies all.contains(
            notice_of(signals[i]),
        ) by {
            if i < front.len() {
                assert(front[i] == signals[i]);
                assert(rest.contains(notice_of(front[i])));
                let k = choose|k: int| 0 <= k < rest.len() && rest[k] == notice_of(front[i]);
                assert(all[k] == rest[k]);
            } else {
                assert(all[all.len() - 1] == notice_of(signals[i]));
            }
        }
        assert forall|k: int| 0 <= k < all.len() implies exists|i: int|
            0 <= i < signals.len() && #[trigger] all[k] == notice_of(#[trigger] signals[i])
                && signals[i].created_at.total() > now.total() - 48 * 3600 * 1_000_000_000 && (
            signals[i].snoozed_until is None || signals[i].snoozed_until->0.before(now)) by {
            if k < rest.len() {
                let i = choose|i: int|
                    0 <= i < front.len() && rest[k] == notice_of(#[trigger] front[i])
                        && front[i].created_at.total() > now.total() - 48 * 3600 * 1_000_000_000
                        && (front[i].snoozed_until is None
                        || front[i].snoozed_until->0.before(now));
                assert(signals[i] == front[i]);
            } else {
                let i = signals.len() - 1;
                assert(all[k] == notice_of(signals[i]));
            }
        }
    }
}

/// What the briefing knows of a signal is what is stored of it; the worker and
/// the pull request are those that its metadata names.
pub proof fn law_notice_tells_the_signal(signal: SignalRecord)
    ensures
        notice_of(signal).id == signal.id,
        notice_of(signal).source == signal.source@,
        notice_of(signal).title == signal.title@,
        notice_of(signal).url == opt_text(signal.url),
        notice_of(signal).created_at == signal.created_at,
        notice_of(signal).stamp == rfc3339_of(signal.created_at.secs(), signal.created_at.nanos()),
        signal.metadata is Some && parsed(signal.metadata->0@) is Some ==> notice_of(signal).pr_url
            == text_field(parsed(signal.metadata->0@)->0, "pr_url"@) && (text_field(
            parsed(signal.metadata->0@)->0,
            "worker_id"@,
        ) matches Some(w) ==> notice_of(signal).worker_id == w),
        signal.metadata is None ==> notice_of(signal).pr_url is None && notice_of(
            signal,
        ).worker_id.len() == 0,
{
}

proof fn lemma_section_has(
    section: Section,
    ws: Seq<char>,
    all: Seq<Notice>,
    signals: Seq<Notice>,
)
    ensures
        forall|i: int|
            0 <= i < signals.len() && belongs(section, all, #[trigger] signals[i])
                ==> section_items(section, ws, all, signals).contains(
                section_item(section, ws, signals[i]),
            ),
        forall|k: int|
            0 <= k < section_items(section, ws, all, signals).len() ==> exists|i: int|
                0 <= i < signals.len() && belongs(section, all, #[trigger] signals[i])
                    && #[trigger] section_items(section, ws, all, signals)[k] == section_item(
                    section,
                    ws,
                    signals[i],
                ),
    decreases signals.len(),
{
    if signals.len() > 0 {
        let front = signals.drop_last();
        let rest = section_items(section, ws, all, front);
        let new = section_items(section, ws, all, signals);
        lemma_section_has(section, ws, all, front);
        assert forall|i: int|
            0 <= i < signals.len() && belongs(section, all, #[trigger] signals[i]) implies
            new.contains(section_item(section, ws, signals[i])) by {
            if i < front.len() {
                assert(front[i] == signals[i]);
                let x = section_item(section, ws, front[i]);
                assert(rest.contains(x));
                let k = choose|k: int| 0 <= k < rest.len() && rest[k] == x;
                assert(new[k] == x);
            } else {
                assert(new[new.len() - 1] == section_item(section, ws, signals[i]));
            }
        }
        assert forall|k: int| 0 <= k < new.len() implies exists|i: int|
            0 <= i < signals.len() && belongs(section, all, #[trigger] signals[i])
                && #[trigger] new[k] == section_item(section, ws, signals[i]) by {
            if k < rest.len() {
                assert(new[k] == rest[k]);
                let i = choose|i: int|
                    0 <= i < front.len() && belongs(section, all, #[trigger] front[i]) && rest[k]
                        == section_item(section, ws, front[i]);
                assert(signals[i] == front[i]);
            } else {
                let i = signals.len() - 1;
                assert(belongs(section, all, signals[i]));
            }
        }
    }
}

proof fn lemma_sections_shown(ws: Seq<char>, signals: Seq<Notice>)
    ensures
        forall|x: Item|
            #![trigger workspace_items(ws, signals).contains(x)]
            workspace_items(ws, signals).contains(x) <==> {
                ||| waiting_items(ws, signals).contains(x)
                ||| section_items(Section::Ready, ws, signals, signals).contains(x)
                ||| sentry_items(ws, signals).contains(x)
                ||| section_items(Section::Escalation, ws, signals, signals).contains(x)
                ||| bee_items(ws, signals, signals.len() as int).contains(x)
                ||| first_items(
                    section_items(Section::Merged, ws, signals, signals),
                    5,
                ).contains(x)
                ||| section_items(Section::Spawned, ws, signals, signals).contains(x)
            },
{
    let a = waiting_items(ws, signals);
    let b = section_items(Section::Ready, ws, signals, signals);
    let c = sentry_items(ws, signals);
    let d = section_items(Section::Escalation, ws, signals, signals);
    let e = bee_items(ws, signals, signals.len() as int);
    let f = first_items(section_items(Section::Merged, ws, signals, signals), 5);
    let g = section_items(Section::Spawned, ws, signals, signals);
    assert forall|x: Item| #![trigger workspace_items(ws, signals).contains(x)]
        workspace_items(ws, signals).contains(x) <==> {
        ||| a.contains(x)
        ||| b.contains(x)
        ||| c.contains(x)
        ||| d.contains(x)
        ||| e.contains(x)
        ||| f.contains(x)
        ||| g.contains(x)
    } by {
        lemma_in_either(a, b, x);
        lemma_in_either(a + b, c, x);
        lemma_in_either(a + b + c, d, x);
        lemma_in_either(a + b + c + d, e, x);
        lemma_in_either(a + b + c + d + e, f, x);
        lemma_in_either(a + b + c + d + e + f, g, x);
    }
}

proof fn lemma_in_either(a: Seq<Item>, b: Seq<Item>, x: Item)
    ensures
        (a + b).contains(x) <==> a.contains(x) || b.contains(x),
{
    let c = a + b;
    if a.contains(x) {
        let i = choose|i: int| 0 <= i < a.len() && a[i] == x;
        assert(c[i] == x);
    }
    if b.contains(x) {
        let i = choose|i: int| 0 <= i < b.len() && b[i] == x;
        assert(c[a.len() + i] == x);
    }
    if c.contains(x) {
        let i = choose|i: int| 0 <= i < c.len() && c[i] == x;
        if i < a.len() {
            assert(a[i] == x);
        } else {
            assert(b[i - a.len()] == x);
        }
    }
}

/// A pull request whose checks have passed and that a bot has reviewed asks for
/// action.
pub proof fn law_ready_pr_asks_for_action(ws: Seq<char>, signals: Seq<Notice>, i: int, j: int)
    requires
        0 <= i < signals.len(),
        0 <= j < signals.len(),
        signals[i].source == "github_ci_pass"@,
        signals[j].source == "github_bot_review"@,
        signals[i].url is Some,
        signals[j].url == signals[i].url,
    ensures
        exists|x: Item|
            {
                &&& #[trigger] workspace_items(ws, signals).contains(x)
                &&& x.priority == "action"@
                &&& x.url == signals[i].url
                &&& x.title == "PR ready: "@ + signals[i].title
                &&& x.workspace == ws
                &&& x.source == "github"@
                &&& x.timestamp == signals[i].stamp
                &&& x.actions == seq![("Review"@, "primary"@), ("Dismiss"@, "danger"@)]
            },
{
    lemma_sections_shown(ws, signals);
    lemma_section_has(Section::Ready, ws, signals, signals);
    assert(belongs(Section::Ready, signals, signals[i]));
    let x = section_item(Section::Ready, ws, signals[i]);
    assert(workspace_items(ws, signals).contains(x));
}

/// What a bee escalates asks for action; a worker that was started is merely
/// mentioned.
pub proof fn law_escalations_ask_for_action(ws: Seq<char>, signals: Seq<Notice>, i: int)
    requires
        0 <= i < signals.len(),
    ensures
        signals[i].source == "escalation"@ ==> exists|x: Item|
            {
                &&& #[trigger] workspace_items(ws, signals).contains(x)
                &&& x.priority == "action"@
                &&& x.title == signals[i].title
                &&& x.url == signals[i].url
                &&& x.workspace == ws
                &&& x.source == "escalation"@
                &&& x.timestamp == signals[i].stamp
                &&& x.actions == seq![("Acknowledge"@, "primary"@), ("Dismiss"@, "danger"@)]
            },
        signals[i].source == "swarm_worker_spawned"@ ==> exists|x: Item|
            {
                &&& #[trigger] workspace_items(ws, signals).contains(x)
                &&& x.priority == "quiet"@
                &&& x.title == signals[i].title
                &&& x.workspace == ws
                &&& x.source == "swarm"@
                &&& x.timestamp == signals[i].stamp
                &&& x.actions.len() == 0
            },
{
    lemma_sections_shown(ws, signals);
    lemma_section_has(Section::Escalation, ws, signals, signals);
    lemma_section_has(Section::Spawned, ws, signals, signals);
    let x = section_item(Section::Escalation, ws, signals[i]);
    let y = section_item(Section::Spawned, ws, signals[i]);
    if signals[i].source == "escalation"@ {
        assert(belongs(Section::Escalation, signals, signals[i]));
        assert(workspace_items(ws, signals).contains(x));
    }
    if signals[i].source == "swarm_worker_spawned"@ {
        assert(belongs(Section::Spawned, signals, signals[i]));
        assert(workspace_items(ws, signals).contains(y));
    }
}

/// How many of the signals come from the source.
pub open spec fn number_from(signals: Seq<Notice>, source: Seq<char>) -> nat
    decreases signals.len(),
{
    if signals.len() == 0 {
        0
    } else {
        number_from(signals.drop_last(), source) + if signals.last().source == source {
            1nat
        } else {
            0
        }
    }
}

proof fn lemma_counts(ws: Seq<char>, all: Seq<Notice>, signals: Seq<Notice>)
    ensures
        sentry_count(signals) == number_from(signals, "sentry"@),
        section_items(Section::Merged, ws, all, signals).len() == number_from(
            signals,
            "github_merged_pr"@,
        ),
    decreases signals.len(),
{
    if signals.len() > 0 {
        lemma_counts(ws, all, signals.drop_last());
    }
}

proof fn lemma_merged_place(ws: Seq<char>, all: Seq<Notice>, signals: Seq<Notice>, i: int)
    requires
        0 <= i < signals.len(),
        signals[i].source == "github_merged_pr"@,
    ensures
        ({
            let k = number_from(signals.take(i), "github_merged_pr"@) as int;
            let list = section_items(Section::Merged, ws, all, signals);
            k < list.len() && list[k] == section_item(Section::Merged, ws, signals[i])
        }),
    decreases signals.len(),
{
    let front = signals.drop_last();
    if i < front.len() {
        lemma_merged_place(ws, all, front, i);
        assert(front.take(i) =~= signals.take(i));
    } else {
        assert(signals.take(i) =~= front);
        lemma_counts(ws, all, front);
    }
}

/// The first five merged pull requests are mentioned, and no more than five
/// items speak of merged ones.
pub proof fn law_five_merges_are_mentioned(ws: Seq<char>, signals: Seq<Notice>, i: int)
    requires
        0 <= i < signals.len(),
        signals[i].source == "github_merged_pr"@,
    ensures
        number_from(signals.take(i), "github_merged_pr"@) < 5 ==> exists|x: Item|
            {
                &&& #[trigger] workspace_items(ws, signals).contains(x)
                &&& x.priority == "quiet"@
                &&& x.title == "Merged: "@ + signals[i].title
                &&& x.url == signals[i].url
                &&& x.workspace == ws
                &&& x.timestamp == signals[i].stamp
                &&& x.actions.len() == 0
            },
        first_items(section_items(Section::Merged, ws, signals, signals), 5).len() <= 5,
{
    lemma_sections_shown(ws, signals);
    lemma_merged_place(ws, signals, signals, i);
    let k = number_from(signals.take(i), "github_merged_pr"@) as int;
    let list = section_items(Section::Merged, ws, signals, signals);
    if k < 5 {
        let x = section_item(Section::Merged, ws, signals[i]);
        assert(first_items(list, 5)[k] == x);
        assert(workspace_items(ws, signals).contains(x));
    }
}

proof fn lemma_newest_sentry(signals: Seq<Notice>)
    ensures
        match newest_sentry(signals) {
            Some(x) => {
                &&& signals.contains(x)
                &&& x.source == "sentry"@
                &&& forall|j: int|
                    0 <= j < signals.len() && (#[trigger] signals[j]).source == "sentry"@
                        ==> !x.created_at.before(signals[j].created_at)
            },
            None => number_from(signals, "sentry"@) == 0,
        },
    decreases signals.len(),
{
    if signals.len() > 0 {
        let front = signals.drop_last();
        lemma_newest_sentry(front);
        match newest_sentry(front) {
            Some(x) => {
                let k = choose|k: int| 0 <= k < front.len() && front[k] == x;
                assert(signals[k] == x);
                assert forall|j: int|
                    0 <= j < signals.len() && (#[trigger] signals[j]).source == "sentry"@ implies
                    !newest_sentry(signals)->0.created_at.before(signals[j].created_at) by {
                    if j < front.len() {
                        assert(front[j] == signals[j]);
                    }
                }
                assert(signals[signals.len() - 1] == signals.last());
            },
            None => {
                assert(signals[signals.len() - 1] == signals.last());
                assert forall|j: int|
                    0 <= j < front.len() implies (#[trigger] signals[j]).source != "sentry"@ by {
                    lemma_none_from(front, "sentry"@);
                    assert(front[j] == signals[j]);
                }
            },
        }
    }
}

proof fn lemma_none_from(signals: Seq<Notice>, source: Seq<char>)
    ensures
        number_from(signals, source) == 0 <==> forall|j: int|
            0 <= j < signals.len() ==> (#[trigger] signals[j]).source != source,
    decreases signals.len(),
{
    if signals.len() > 0 {
        let front = signals.drop_last();
        lemma_none_from(front, source);
        if number_from(signals, source) == 0 {
            assert forall|j: int| 0 <= j < signals.len() implies (
            #[trigger] signals[j]).source != source by {
                if j < front.len() {
                    assert(front[j] == signals[j]);
                }
            }
        } else if number_from(front, source) == 0 {
            assert(signals[signals.len() - 1].source == source);
        } else {
            let j = choose|j: int| 0 <= j < front.len() && (#[trigger] front[j]).source == source;
            assert(signals[j].source == source);
        }
    }
}

/// Up to two Sentry errors are noticed each on its own; from three on there is
/// one item for all of them, which asks for action and shows how many there
/// are and the newest of them.
pub proof fn law_sentry_errors_pile_up(ws: Seq<char>, signals: Seq<Notice>, i: int)
    requires
        0 <= i < signals.len(),
        signals[i].source == "sentry"@,
    ensures
        number_from(signals, "sentry"@) < 3 ==> exists|x: Item|
            {
                &&& #[trigger] workspace_items(ws, signals).contains(x)
                &&& x.priority == "notice"@
                &&& x.title == signals[i].title
                &&& x.url == signals[i].url
                &&& x.workspace == ws
                &&& x.source == "sentry"@
                &&& x.timestamp == signals[i].stamp
            },
        number_from(signals, "sentry"@) >= 3 ==> exists|x: Item, k: int|
            {
                &&& sentry_items(ws, signals) == seq![x]
                &&& 0 <= k < signals.len()
                &&& (#[trigger] signals[k]).source == "sentry"@
                &&& !signals[k].created_at.before(signals[i].created_at)
                &&& #[trigger] workspace_items(ws, signals).contains(x)
                &&& x.priority == "action"@
                &&& x.title == decimal(number_from(signals, "sentry"@) as int) + " Sentry errors"@
                &&& x.body == Some("Latest: "@ + clip(signals[k].title, 80))
                &&& x.url == signals[k].url
                &&& x.workspace == ws
                &&& x.source == "sentry"@
                &&& x.timestamp == signals[k].stamp
            },
{
    lemma_sections_shown(ws, signals);
    lemma_section_has(Section::Sentry, ws, signals, signals);
    lemma_counts(ws, signals, signals);
    lemma_newest_sentry(signals);
    lemma_none_from(signals, "sentry"@);
    if number_from(signals, "sentry"@) < 3 {
        assert(belongs(Section::Sentry, signals, signals[i]));
        let x = section_item(Section::Sentry, ws, signals[i]);
        assert(sentry_items(ws, signals).contains(x));
        assert(workspace_items(ws, signals).contains(x));
    } else {
        let newest = newest_sentry(signals)->0;
        let k = choose|k: int| 0 <= k < signals.len() && signals[k] == newest;
        let x = sentry_items(ws, signals)[0];
        assert(sentry_items(ws, signals) =~= seq![x]);
        assert(workspace_items(ws, signals).contains(x));
        assert(signals[k].source == "sentry"@);
    }
}

proof fn lemma_bee_items_of(ws: Seq<char>, source: Seq<char>, signals: Seq<Notice>)
    ensures
        forall|i: int|
            0 <= i < signals.len() && (#[trigger] signals[i]).source == source ==> bee_items_of(
                ws,
                source,
                signals,
            ).contains(bee_item(ws, signals[i])),
        forall|k: int|
            0 <= k < bee_items_of(ws, source, signals).len() ==> exists|i: int|
                0 <= i < signals.len() && (#[trigger] signals[i]).source == source
                    && #[trigger] bee_items_of(ws, source, signals)[k] == bee_item(
                    ws,
                    signals[i],
                ),
    decreases signals.len(),
{
    if signals.len() > 0 {
        let front = signals.drop_last();
        let rest = bee_items_of(ws, source, front);
        let new = bee_items_of(ws, source, signals);
        lemma_bee_items_of(ws, source, front);
        assert forall|i: int|
            0 <= i < signals.len() && (#[trigger] signals[i]).source == source implies
            new.contains(bee_item(ws, signals[i])) by {
            if i < front.len() {
                assert(front[i] == signals[i]);
                let x = bee_item(ws, front[i]);
                assert(rest.contains(x));
                let k = choose|k: int| 0 <= k < rest.len() && rest[k] == x;
                assert(new[k] == x);
            } else {
                assert(new[new.len() - 1] == bee_item(ws, signals[i]));
            }
        }
        assert forall|k: int| 0 <= k < new.len() implies exists|i: int|
            0 <= i < signals.len() && (#[trigger] signals[i]).source == source && #[trigger] new[k]
                == bee_item(ws, signals[i]) by {
            if k < rest.len() {
                assert(new[k] == rest[k]);
                let i = choose|i: int|
                    0 <= i < front.len() && (#[trigger] front[i]).source == source && rest[k]
                        == bee_item(ws, front[i]);
                assert(signals[i] == front[i]);
            } else {
                let i = signals.len() - 1;
                assert(signals[i].source == source);
            }
        }
    }
}

proof fn lemma_bee_items(ws: Seq<char>, signals: Seq<Notice>, upto: int)
    requires
        0 <= upto <= signals.len(),
    ensures
        forall|i: int|
            0 <= i < upto && starts_with((#[trigger] signals[i]).source, "bee_"@) ==> bee_items(
                ws,
                signals,
                upto,
            ).contains(bee_item(ws, signals[i])),
        forall|k: int|
            0 <= k < bee_items(ws, signals, upto).len() ==> exists|i: int|
                0 <= i < signals.len() && starts_with((#[trigger] signals[i]).source, "bee_"@)
                    && #[trigger] bee_items(ws, signals, upto)[k] == bee_item(ws, signals[i]),
        forall|i: int, x: Item|
            0 <= i < upto && starts_with((#[trigger] signals[i]).source, "bee_"@)
                && #[trigger] bee_items_of(ws, signals[i].source, signals).contains(x)
                ==> bee_items(ws, signals, upto).contains(x),
    decreases upto,
{
    if upto > 0 {
        let s = signals[upto - 1];
        let rest = bee_items(ws, signals, upto - 1);
        let more = bee_items_of(ws, s.source, signals);
        let new = bee_items(ws, signals, upto);
        lemma_bee_items(ws, signals, upto - 1);
        lemma_bee_items_of(ws, s.source, signals);
        let fresh = starts_with(s.source, "bee_"@) && !comes_from(
            signals.take(upto - 1),
            s.source,
        );
        assert forall|i: int, x: Item|
            0 <= i < upto && starts_with((#[trigger] signals[i]).source, "bee_"@)
                && #[trigger] bee_items_of(ws, signals[i].source, signals).contains(x) implies
            new.contains(x) by {
            lemma_in_either(rest, more, x);
            if i == upto - 1 && !fresh {
                let t = signals.take(upto - 1);
                let j = choose|j: int| 0 <= j < t.len() && (#[trigger] t[j]).source == s.source;
                assert(signals[j].source == s.source);
                assert(bee_items_of(ws, signals[j].source, signals).contains(x));
            }
        }
        assert forall|i: int|
            0 <= i < upto && starts_with((#[trigger] signals[i]).source, "bee_"@) implies
            new.contains(bee_item(ws, signals[i])) by {
            lemma_bee_items_of(ws, signals[i].source, signals);
            assert(bee_items_of(ws, signals[i].source, signals).contains(
                bee_item(ws, signals[i]),
            ));
        }
        assert forall|k: int| 0 <= k < new.len() implies exists|i: int|
            0 <= i < signals.len() && starts_with((#[trigger] signals[i]).source, "bee_"@)
                && #[trigger] new[k] == bee_item(ws, signals[i]) by {
            if k < rest.len() {
                assert(new[k] == rest[k]);
            } else {
                assert(new[k] == more[k - rest.len()]);
                let i = choose|i: int|
                    0 <= i < signals.len() && (#[trigger] signals[i]).source == s.source && more[k
                        - rest.len()] == bee_item(ws, signals[i]);
                assert(starts_with(signals[i].source, "bee_"@));
            }
        }
    }
}

/// Each fix that a bee asked for is noticed, under the name of the bee.
pub proof fn law_bees_fixes_are_noticed(ws: Seq<char>, signals: Seq<Notice>, bee: Seq<char>, i: int)
    requires
        0 <= i < signals.len(),
        signals[i].source == "bee_"@ + bee,
    ensures
        exists|x: Item|
            {
                &&& #[trigger] workspace_items(ws, signals).contains(x)
                &&& x.priority == "notice"@
                &&& x.title == bee + " requested fix: "@ + signals[i].title
                &&& x.workspace == ws
                &&& x.source == signals[i].source
                &&& x.timestamp == signals[i].stamp
            },
{
    reveal_strlit("bee_");
    let s = signals[i].source;
    assert(s.subrange(0, 4) =~= "bee_"@);
    assert(s.skip(4) =~= bee);
    lemma_sections_shown(ws, signals);
    lemma_bee_items(ws, signals, signals.len() as int);
    let x = bee_item(ws, signals[i]);
    assert(workspace_items(ws, signals).contains(x));
}

proof fn lemma_waiting_items(ws: Seq<char>, signals: Seq<Notice>)
    ensures
        forall|i: int|
            0 <= i < signals.len() && is_waiting(#[trigger] signals[i]) && (
            signals[i].worker_id.len() == 0 || !waits_in(signals.take(i), signals[i].worker_id))
                ==> waiting_items(ws, signals).contains(waiting_item(ws, signals[i])),
        forall|k: int|
            0 <= k < waiting_items(ws, signals).len() ==> exists|i: int|
                0 <= i < signals.len() && is_waiting(#[trigger] signals[i])
                    && #[trigger] waiting_items(ws, signals)[k] == waiting_item(ws, signals[i]),
    decreases signals.len(),
{
    if signals.len() > 0 {
        let front = signals.drop_last();
        let rest = waiting_items(ws, front);
        let new = waiting_items(ws, signals);
        lemma_waiting_items(ws, front);
        assert forall|i: int|
            0 <= i < signals.len() && is_waiting(#[trigger] signals[i]) && (
            signals[i].worker_id.len() == 0 || !waits_in(
                signals.take(i),
                signals[i].worker_id,
            )) implies new.contains(waiting_item(ws, signals[i])) by {
            if i < front.len() {
                assert(front[i] == signals[i]);
                assert(front.take(i) =~= signals.take(i));
                let x = waiting_item(ws, front[i]);
                assert(rest.contains(x));
                let k = choose|k: int| 0 <= k < rest.len() && rest[k] == x;
                assert(new[k] == x);
            } else {
                assert(signals.take(i) =~= front);
                assert(new[new.len() - 1] == waiting_item(ws, signals[i]));
            }
        }
        assert forall|k: int| 0 <= k < new.len() implies exists|i: int|
            0 <= i < signals.len() && is_waiting(#[trigger] signals[i]) && #[trigger] new[k]
                == waiting_item(ws, signals[i]) by {
            if k < rest.len() {
                assert(new[k] == rest[k]);
                let i = choose|i: int|
                    0 <= i < front.len() && is_waiting(#[trigger] front[i]) && rest[k]
                        == waiting_item(ws, front[i]);
                assert(signals[i] == front[i]);
            } else {
                let i = signals.len() - 1;
                assert(is_waiting(signals[i]));
            }
        }
    }
}

/// A worker that waits asks for action: the first signal that says so of it is
/// shown, with its pull request where there is one.
pub proof fn law_waiting_worker_asks_for_action(ws: Seq<char>, signals: Seq<Notice>, i: int)
    requires
        0 <= i < signals.len(),
        signals[i].source == "swarm_worker_waiting"@,
        forall|j: int|
            0 <= j < i && (#[trigger] signals[j]).source == "swarm_worker_waiting"@
                ==> signals[j].worker_id != signals[i].worker_id,
    ensures
        exists|x: Item|
            {
                &&& #[trigger] workspace_items(ws, signals).contains(x)
                &&& x.priority == "action"@
                &&& x.title == signals[i].title
                &&& x.url == if signals[i].pr_url is Some {
                    signals[i].pr_url
                } else {
                    signals[i].url
                }
                &&& x.workspace == ws
                &&& x.source == "swarm:"@ + signals[i].worker_id
                &&& x.timestamp == signals[i].stamp
                &&& x.actions == seq![("View PR"@, "primary"@), ("Snooze"@, "default"@)]
            },
{
    lemma_sections_shown(ws, signals);
    lemma_waiting_items(ws, signals);
    assert(!waits_in(signals.take(i), signals[i].worker_id)) by {
        let t = signals.take(i);
        if waits_in(t, signals[i].worker_id) {
            let j = choose|j: int|
                0 <= j < t.len() && is_waiting(#[trigger] t[j]) && t[j].worker_id
                    == signals[i].worker_id;
            assert(t[j] == signals[j]);
        }
    }
    let x = waiting_item(ws, signals[i]);
    assert(workspace_items(ws, signals).contains(x));
}

/// Nothing is shown without a reason: every item of a workspace goes back to a
/// signal, whose source decides how urgent the item is.
pub proof fn law_every_item_has_its_signal(ws: Seq<char>, signals: Seq<Notice>, x: Item)
    requires
        workspace_items(ws, signals).contains(x),
    ensures
        x.workspace == ws,
        exists|i: int|
            {
                &&& 0 <= i < signals.len()
                &&& x.timestamp == (#[trigger] signals[i]).stamp
                &&& {
                    ||| signals[i].source == "swarm_worker_waiting"@ && x.priority == "action"@
                    ||| signals[i].source == "github_ci_pass"@ && x.priority == "action"@
                        && signals[i].url is Some && exists|j: int|
                        0 <= j < signals.len() && (#[trigger] signals[j]).source
                            == "github_bot_review"@ && signals[j].url == signals[i].url
                    ||| signals[i].source == "sentry"@ && x.priority == (if number_from(
                        signals,
                        "sentry"@,
                    ) >= 3 {
                        "action"@
                    } else {
                        "notice"@
                    })
                    ||| signals[i].source == "escalation"@ && x.priority == "action"@
                    ||| starts_with(signals[i].source, "bee_"@) && x.priority == "notice"@
                    ||| signals[i].source == "github_merged_pr"@ && x.priority == "quiet"@
                    ||| signals[i].source == "swarm_worker_spawned"@ && x.priority == "quiet"@
                }
            },
{
    lemma_sections_shown(ws, signals);
    lemma_section_has(Section::Ready, ws, signals, signals);
    lemma_section_has(Section::Sentry, ws, signals, signals);
    lemma_section_has(Section::Escalation, ws, signals, signals);
    lemma_section_has(Section::Merged, ws, signals, signals);
    lemma_section_has(Section::Spawned, ws, signals, signals);
    lemma_bee_items(ws, signals, signals.len() as int);
    lemma_waiting_items(ws, signals);
    lemma_counts(ws, signals, signals);
    lemma_newest_sentry(signals);
    let merged = section_items(Section::Merged, ws, signals, signals);
    if first_items(merged, 5).contains(x) {
        let k = choose|k: int| 0 <= k < first_items(merged, 5).len() && first_items(merged, 5)[k]
            == x;
        assert(merged[k] == x);
        assert(merged.contains(x));
    }
    if sentry_items(ws, signals).contains(x) {
        if newest_sentry(signals) is Some && sentry_count(signals) >= 3 {
            let newest = newest_sentry(signals)->0;
            let k = choose|k: int| 0 <= k < signals.len() && signals[k] == newest;
            assert(x == sentry_group(ws, sentry_count(signals), newest));
            assert(x.timestamp == signals[k].stamp);
        } else {
            assert(section_items(Section::Sentry, ws, signals, signals).contains(x));
        }
    }
}

/// In the briefing all that asks for action comes before all that is to be
/// noticed, and that before what is merely mentioned. Of items that are equally
/// urgent the newer comes first.
pub proof fn law_urgent_items_come_first(list: Seq<Item>, i: int, j: int)
    requires
        0 <= i < j < ordered(list).len(),
    ensures
        ordered(list)[j].priority == "action"@ ==> ordered(list)[i].priority == "action"@,
        ordered(list)[j].priority == "notice"@ ==> ordered(list)[i].priority == "action"@
            || ordered(list)[i].priority == "notice"@,
        ordered(list)[i].priority == ordered(list)[j].priority ==> !text_less(
            ordered(list)[i].timestamp,
            ordered(list)[j].timestamp,
        ),
{
    law_ordered_sorts(list);
    reveal_strlit("action");
    reveal_strlit("notice");
    assert("action"@[0] == 'a' && "notice"@[0] == 'n');
    assert(!goes_before(ordered(list)[j], ordered(list)[i]));
}

proof fn lemma_leading_digits(number: Seq<char>, rest: Seq<char>)
    requires
        forall|i: int| 0 <= i < number.len() ==> is_digit(#[trigger] number[i]),
        rest.len() > 0 ==> !is_digit(rest[0]),
    ensures
        leading_digits(number + rest) == number.len(),
    decreases number.len(),
{
    let s = number + rest;
    if number.len() == 0 {
        assert(s =~= rest);
    } else {
        let t = number.drop_first();
        assert forall|i: int| 0 <= i < t.len() implies is_digit(#[trigger] t[i]) by {
            assert(t[i] == number[i + 1]);
        }
        lemma_leading_digits(t, rest);
        assert(s.drop_first() =~= t + rest);
        assert(s[0] == number[0]);
    }
}

/// Titles that mention the same pull request first are taken for the same,
/// whatever else they say; titles that mention none are taken for the same
/// exactly where their first twenty-five characters agree.
pub proof fn law_titles_of_one_pr_are_alike(
    start: Seq<char>,
    number: Seq<char>,
    rest: Seq<char>,
    plain: Seq<char>,
)
    requires
        !start.contains('#'),
        number.len() > 0,
        forall|i: int| 0 <= i < number.len() ==> is_digit(#[trigger] number[i]),
        rest.len() > 0 ==> !is_digit(rest[0]),
        !plain.contains('#'),
    ensures
        title_key(start + seq!['#'] + number + rest) == "PR#"@ + number,
        title_key(plain) == if plain.len() <= 25 {
            plain
        } else {
            plain.take(25)
        },
{
    let title = start + seq!['#'] + number + rest;
    let k = start.len() as int;
    assert(title[k] == '#');
    assert forall|i: int| 0 <= i < k implies title[i] != '#' by {
        assert(start[i] == title[i]);
        if start[i] == '#' {
            assert(start.contains('#'));
        }
    }
    lemma_before_is(title, '#', k);
    assert(title.skip(k + 1) =~= number + rest);
    lemma_leading_digits(number, rest);
    assert((number + rest).take(number.len() as int) =~= number);
    assert forall|i: int| 0 <= i < plain.len() implies plain[i] != '#' by {
        if plain[i] == '#' {
            assert(plain.contains('#'));
        }
    }
    lemma_before_is(plain, '#', plain.len() as int);
}

/// Items of different workspaces or sources are never taken for the same where
/// neither name has a colon in it, nor are two of the same source whose titles
/// tell them apart.
pub proof fn law_workspaces_are_kept_apart(a: Item, b: Item)
    requires
        !a.workspace.contains(':') && !b.workspace.contains(':'),
        item_key(a) == item_key(b),
    ensures
        a.workspace == b.workspace,
        a.source == b.source ==> title_key(a.title) == title_key(b.title),
{
    reveal_strlit(":");
    let x = item_key(a);
    let m = a.workspace.len() as int;
    let n = b.workspace.len() as int;
    assert(x[m] == ':' && x[n] == ':');
    if m < n {
        assert(b.workspace[m] == x[m]);
        assert(b.workspace.contains(':'));
    }
    if n < m {
        assert(a.workspace[n] == x[n]);
        assert(a.workspace.contains(':'));
    }
    assert(a.workspace =~= x.take(m));
    assert(b.workspace =~= x.take(n));
    if a.source == b.source {
        let k = (a.workspace + ":"@ + a.source + ":"@).len() as int;
        assert(x.skip(k) =~= title_key(a.title));
        assert(x.skip(k) =~= title_key(b.title));
    }
}

} // verus!
