//! Signals: what the watchers of a workspace have noticed.

use crate::text::opt_text;
use crate::time::{representable, rfc3339_of, Moment};
use vstd::prelude::*;

verus! {

/// How much a signal matters.
#[derive(Debug, Clone, Copy, PartialEq, Eq, Structural)]
pub enum Severity {
    Critical,
    Error,
    Warning,
    Info,
}

/// Whether a signal still stands.
#[derive(Debug, Clone, Copy, PartialEq, Eq, Structural)]
pub enum SignalStatus {
    Open,
    Resolved,
}

/// A signal as it is stored.
pub struct SignalRecord {
    pub id: i64,
    pub source: String,
    pub external_id: String,
    pub title: String,
    pub body: Option<String>,
    pub severity: Severity,
    pub status: SignalStatus,
    pub url: Option<String>,
    pub created_at: Moment,
    pub updated_at: Moment,
    pub resolved_at: Option<Moment>,
    pub metadata: Option<String>,
    pub snoozed_until: Option<Moment>,
}

impl Severity {
    /// The severity in lower case, as messages write it.
    pub open spec fn word(self) -> Seq<char> {
        match self {
            Severity::Critical => "critical"@,
            Severity::Error => "error"@,
            Severity::Warning => "warning"@,
            Severity::Info => "info"@,
        }
    }

    /// The severity's name.
    pub open spec fn name(self) -> Seq<char> {
        match self {
            Severity::Critical => "Critical"@,
            Severity::Error => "Error"@,
            Severity::Warning => "Warning"@,
            Severity::Info => "Info"@,
        }
    }

    /// The severity in lower case, as messages write it.
    pub fn as_str(self) -> (r: &'static str)
        ensures
            r@ == self.word(),
    {
        match self {
            Severity::Critical => "critical",
            Severity::Error => "error",
            Severity::Warning => "warning",
            Severity::Info => "info",
        }
    }

    /// The severity's name.
    pub fn label(self) -> (r: &'static str)
        ensures
            r@ == self.name(),
    {
        match self {
            Severity::Critical => "Critical",
            Severity::Error => "Error",
            Severity::Warning => "Warning",
            Severity::Info => "Info",
        }
    }
}

impl SignalStatus {
    /// The status's name.
    pub open spec fn name(self) -> Seq<char> {
        match self {
            SignalStatus::Open => "Open"@,
            SignalStatus::Resolved => "Resolved"@,
        }
    }

    /// The status's name.
    pub fn label(self) -> (r: &'static str)
        ensures
            r@ == self.name(),
    {
        match self {
            SignalStatus::Open => "Open",
            SignalStatus::Resolved => "Resolved",
        }
    }
}

/// A signal as the signals feed shows it.
pub struct SignalView {
    pub id: i64,
    pub workspace: String,
    pub source: String,
    pub title: String,
    pub severity: String,
    pub status: String,
    pub url: Option<String>,
    pub created_at: String,
    pub updated_at: String,
    pub resolved_at: Option<String>,
}

/// Whether `view` shows `signal` of `workspace`.
pub open spec fn shows(view: SignalView, signal: SignalRecord, workspace: Seq<char>) -> bool {
    &&& view.id == signal.id
    &&& view.workspace@ == workspace
    &&& view.source@ == signal.source@
    &&& view.title@ == signal.title@
    &&& view.severity@ == signal.severity.name()
    &&& view.status@ == signal.status.name()
    &&& opt_text(view.url) == opt_text(signal.url)
    &&& view.created_at@ == rfc3339_of(signal.created_at.secs(), signal.created_at.nanos())
    &&& view.updated_at@ == rfc3339_of(signal.updated_at.secs(), signal.updated_at.nanos())
    &&& match signal.resolved_at {
        Some(t) => view.resolved_at is Some && view.resolved_at->0@ == rfc3339_of(
            t.secs(),
            t.nanos(),
        ),
        None => view.resolved_at is None,
    }
}

/// How many signals the feed shows at most: fifty unless asked, never more
/// than two hundred.
pub open spec fn feed_limit(asked: Option<usize>) -> int {
    match asked {
        Some(n) => if n <= 200 {
            n as int
        } else {
            200
        },
        None => 50,
    }
}

/// The limit on the signals feed.
pub fn signal_limit(asked: Option<usize>) -> (r: usize)
    ensures
        r == feed_limit(asked),
{
    match asked {
        Some(n) => if n <= 200 {
            n
        } else {
            200
        },
        None => 50,
    }
}

/// The signals feed of a workspace: the first `limit` signals in their order.
pub fn signal_views(signals: &Vec<SignalRecord>, workspace: &str, limit: usize) -> (r: Vec<
    SignalView,
>)
    ensures
        r@.len() == if signals@.len() <= limit {
            signals@.len() as int
        } else {
            limit as int
        },
        forall|i: int| 0 <= i < r@.len() ==> shows(#[trigger] r@[i], signals@[i], workspace@),
{
    let mut out: Vec<SignalView> = Vec::new();
    let mut i: usize = 0;
    while i < signals.len() && i < limit
        invariant
            0 <= i <= signals@.len(),
            i <= limit,
            out@.len() == i,
            forall|j: int| 0 <= j < i ==> shows(#[trigger] out@[j], signals@[j], workspace@),
        decreases signals@.len() - i,
    {
        let s = &signals[i];
        let resolved_at = match &s.resolved_at {
            Some(t) => Some(t.rfc3339()),
            None => None,
        };
        let view = SignalView {
            id: s.id,
            workspace: workspace.to_owned(),
            source: s.source.clone(),
            title: s.title.clone(),
            severity: s.severity.label().to_owned(),
            status: s.status.label().to_owned(),
            url: s.url.clone(),
            created_at: s.created_at.rfc3339(),
            updated_at: s.updated_at.rfc3339(),
            resolved_at,
        };
        out.push(view);
        i = i + 1;
    }
    out
}

// ---------------------------------------------------------------------------
// Snoozing
// ---------------------------------------------------------------------------

/// A number of hours as a signed number: numbers past the greatest signed one
/// wrap around.
pub open spec fn signed_hours(hours: u64) -> int {
    if hours <= i64::MAX {
        hours as int
    } else {
        hours - 0x1_0000_0000_0000_0000
    }
}

/// Until when a signal is snoozed for some hours.
pub fn snooze_until(now: &Moment, hours: u64) -> (r: Moment)
    requires
        representable(now.secs() + signed_hours(hours) * 3600, now.nanos()),
    ensures
        r.secs() == now.secs() + signed_hours(hours) * 3600,
        r.nanos() == now.nanos(),
{
    let signed: i64 = if hours <= i64::MAX as u64 {
        hours as i64
    } else {
        -((u64::MAX - hours) as i64) - 1
    };
    now.plus_hours(signed)
}

/// Each severity and each status has a word of its own, and the name that is
/// shown is that word with a capital.
pub proof fn law_severity_words(a: Severity, b: Severity)
    ensures
        a.word() == b.word() ==> a == b,
        a.name() == b.name() ==> a == b,
        a.word().len() == a.name().len() && a.word().skip(1) == a.name().skip(1),
        Severity::Critical.word() == "critical"@,
        Severity::Error.word() == "error"@,
        Severity::Warning.word() == "warning"@,
        Severity::Info.word() == "info"@,
        SignalStatus::Open.name() == "Open"@,
        SignalStatus::Resolved.name() == "Resolved"@,
{
    reveal_strlit("critical");
    reveal_strlit("error");
    reveal_strlit("warning");
    reveal_strlit("info");
    reveal_strlit("Critical");
    reveal_strlit("Error");
    reveal_strlit("Warning");
    reveal_strlit("Info");
    assert("critical"@[0] == 'c' && "error"@[0] == 'e' && "warning"@[0] == 'w' && "info"@[0]
        == 'i');
    assert("Critical"@[0] == 'C' && "Error"@[0] == 'E' && "Warning"@[0] == 'W' && "Info"@[0]
        == 'I');
    assert(a.word().skip(1) =~= a.name().skip(1));
}

/// A feed shows as many signals as were asked for, but never more than two
/// hundred, and fifty where nothing was asked.
pub proof fn law_feed_is_limited(asked: Option<usize>)
    ensures
        asked is None ==> feed_limit(asked) == 50,
        asked is Some && asked->0 <= 200 ==> feed_limit(asked) == asked->0,
        asked is Some && asked->0 >= 200 ==> feed_limit(asked) == 200,
{
}

/// A signal is shown under its workspace with its own source, title, severity,
/// status and address, and as resolved at a time exactly where it was.
pub proof fn law_shown_signal(view: SignalView, signal: SignalRecord, workspace: Seq<char>)
    requires
        shows(view, signal, workspace),
    ensures
        view.id == signal.id && view.workspace@ == workspace && view.source@ == signal.source@
            && view.title@ == signal.title@,
        signal.severity == Severity::Critical ==> view.severity@ == "Critical"@,
        signal.severity == Severity::Error ==> view.severity@ == "Error"@,
        signal.severity == Severity::Warning ==> view.severity@ == "Warning"@,
        signal.severity == Severity::Info ==> view.severity@ == "Info"@,
        signal.status == SignalStatus::Open ==> view.status@ == "Open"@,
        signal.status == SignalStatus::Resolved ==> view.status@ == "Resolved"@,
        opt_text(view.url) == opt_text(signal.url),
        view.resolved_at is Some <==> signal.resolved_at is Some,
        signal.resolved_at is Some ==> view.resolved_at->0@ == rfc3339_of(
            signal.resolved_at->0.secs(),
            signal.resolved_at->0.nanos(),
        ),
        view.created_at@ == rfc3339_of(signal.created_at.secs(), signal.created_at.nanos()),
        view.updated_at@ == rfc3339_of(signal.updated_at.secs(), signal.updated_at.nanos()),
{
}

/// A number of hours that fits counts as it is; a greater one wraps around.
pub proof fn law_hours_that_fit_count(hours: u64)
    ensures
        hours <= i64::MAX ==> signed_hours(hours) == hours,
        hours > i64::MAX ==> signed_hours(hours) == hours - u64::MAX - 1,
        i64::MIN <= signed_hours(hours) <= i64::MAX,
{
}

} // verus!
