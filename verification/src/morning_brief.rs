//! The morning brief: when it is due, what it is made from, and what is said
//! when it is there.

use crate::action::{activity, acts, only_if, plan, send, Act, Action, ChatTarget, Response};
use crate::signal::{Severity, SignalRecord};
use crate::text::{
    cat2, cat3, cat4, cat5, contains, decimal, ends_with, lemma_holds_part, number, occurs_at,
    same, starts_with,
};
use crate::time::{
    check_zone, clock_read, day_notation, day_read, day_text, local_clock, local_of, parse_clock,
    parse_day, zone_problem, Moment, DAY, FIRST_SECOND, LAST_SECOND,
};
use vstd::prelude::*;

verus! {

// ---------------------------------------------------------------------------
// When it is due
// ---------------------------------------------------------------------------

/// When a workspace wants its brief: a time of day in a time zone.
pub struct MorningBriefConfig {
    pub enabled: bool,
    pub time: String,
    pub timezone: String,
}

/// Keeps track of whether the brief is due.
pub struct MorningBriefScheduler {
    /// The time of day, in seconds since midnight.
    time: u32,
    timezone: String,
    /// The local day on which the brief was sent last.
    last_sent: Option<i32>,
}

/// Whether a brief is due on a day at a second of it, given the day on which
/// it was sent last and the second from which it is wanted.
pub open spec fn due(last_sent: Option<int>, day: int, second: int, wanted: int) -> bool {
    last_sent != Some(day) && second >= wanted
}

/// Whether a brief is due.
pub fn is_due(last_sent: Option<i32>, day: i32, second: u32, wanted: u32) -> (r: bool)
    ensures
        r == due(
            match last_sent {
                Some(d) => Some(d as int),
                None => None,
            },
            day as int,
            second as int,
            wanted as int,
        ),
{
    match last_sent {
        Some(sent) => sent != day && second >= wanted,
        None => second >= wanted,
    }
}

/// Whether an instant is at least a day away from the ends of what can be
/// represented, so that it has a local date everywhere.
pub open spec fn has_local_date(now: Moment) -> bool {
    FIRST_SECOND + DAY <= now.secs() <= LAST_SECOND - DAY
}

impl MorningBriefScheduler {
    /// The second of the day from which the brief is wanted.
    pub closed spec fn wanted(self) -> int {
        self.time as int
    }

    /// The name of the time zone.
    pub closed spec fn zone(self) -> Seq<char> {
        self.timezone@
    }

    /// The local day on which the brief was sent last.
    pub closed spec fn sent_on(self) -> Option<int> {
        match self.last_sent {
            Some(d) => Some(d as int),
            None => None,
        }
    }

    #[verifier::type_invariant]
    spec fn zone_exists(self) -> bool {
        zone_problem(self.timezone@) is None
    }

    /// A scheduler for a workspace. `last_sent` is the day on which the brief
    /// was sent last, as it was kept.
    pub fn new(config: &MorningBriefConfig, last_sent: &Option<String>) -> (r: Result<
        MorningBriefScheduler,
        String,
    >)
        ensures
            match clock_read(config.time@) {
                Err(e) => r is Err && r->Err_0@ == "invalid time '"@ + config.time@ + "': "@ + e,
                Ok(second) => match zone_problem(config.timezone@) {
                    Some(e) => r is Err && r->Err_0@ == "invalid timezone '"@ + config.timezone@
                        + "': "@ + e,
                    None => {
                        &&& r is Ok
                        &&& r->Ok_0.wanted() == second
                        &&& r->Ok_0.zone() == config.timezone@
                        &&& r->Ok_0.sent_on() == match *last_sent {
                            Some(s) => day_read(s@),
                            None => None,
                        }
                    },
                },
            },
    {
        let time = match parse_clock(config.time.as_str()) {
            Ok(t) => t,
            Err(e) => {
                return Err(cat4("invalid time '", config.time.as_str(), "': ", e.as_str()));
            },
        };
        if let Err(e) = check_zone(config.timezone.as_str()) {
            return Err(cat4("invalid timezone '", config.timezone.as_str(), "': ", e.as_str()));
        }
        let kept = match last_sent {
            Some(s) => parse_day(s.as_str()),
            None => None,
        };
        Ok(
            MorningBriefScheduler {
                time,
                timezone: config.timezone.clone(),
                last_sent: kept,
            },
        )
    }

    /// Whether the brief is due at `now`: not yet on the local day, and from
    /// the wanted time of day on.
    pub fn should_fire(&self, now: &Moment) -> (r: bool)
        requires
            has_local_date(*now),
        ensures
            ({
                let local = local_of(now.secs(), now.nanos(), self.zone());
                r == due(self.sent_on(), local.0, local.1, self.wanted())
            }),
    {
        proof {
            use_type_invariant(self);
        }
        let (day, second) = local_clock(
            now.unix_seconds(),
            now.subsec_nanos(),
            self.timezone.as_str(),
        );
        is_due(self.last_sent, day, second, self.time)
    }

    /// Notes that the brief has been sent at `now`. Returns the local day in
    /// the notation in which it is kept.
    pub fn mark_sent(&mut self, now: &Moment) -> (r: String)
        requires
            has_local_date(*now),
        ensures
            ({
                let day = local_of(now.secs(), now.nanos(), old(self).zone()).0;
                &&& final(self).sent_on() == Some(day)
                &&& final(self).wanted() == old(self).wanted()
                &&& final(self).zone() == old(self).zone()
                &&& r@ == day_notation(day)
                &&& day_read(r@) == Some(day)
            }),
    {
        proof {
            use_type_invariant(&*self);
        }
        let (day, _second) = local_clock(
            now.unix_seconds(),
            now.subsec_nanos(),
            self.timezone.as_str(),
        );
        self.last_sent = Some(day);
        day_text(day)
    }

    /// Looks at the clock: where the brief is due and there is a chat for it,
    /// it is generated and noted as sent. Returns what is to be done and the
    /// local day in the notation in which it is kept.
    pub fn tick(&mut self, now: &Moment, target: Option<ChatTarget>) -> (r: Option<
        (Action, String),
    >)
        requires
            has_local_date(*now),
        ensures
            final(self).wanted() == old(self).wanted(),
            final(self).zone() == old(self).zone(),
            ({
                let local = local_of(now.secs(), now.nanos(), old(self).zone());
                if due(old(self).sent_on(), local.0, local.1, old(self).wanted())
                    && target is Some {
                    &&& final(self).sent_on() == Some(local.0)
                    &&& match r {
                        Some((action, day)) => {
                            &&& action@ == Act::Brief(target->0)
                            &&& day@ == day_notation(local.0)
                            &&& day_read(day@) == Some(local.0)
                        },
                        None => false,
                    }
                } else {
                    r is None && final(self).sent_on() == old(self).sent_on()
                }
            }),
    {
        if !self.should_fire(now) {
            return None;
        }
        match target {
            Some(chat) => {
                let day = self.mark_sent(now);
                Some((Action::Brief { target: chat }, day))
            },
            None => None,
        }
    }
}

/// Once the brief has been sent it is not due again on the same local day,
/// however late; on another day it is due as soon as the wanted time has come.
pub proof fn law_one_brief_a_day(
    sent: MorningBriefScheduler,
    at: Moment,
    later: Moment,
)
    requires
        sent.sent_on() == Some(local_of(at.secs(), at.nanos(), sent.zone()).0),
    ensures
        ({
            let here = local_of(at.secs(), at.nanos(), sent.zone());
            let there = local_of(later.secs(), later.nanos(), sent.zone());
            &&& there.0 == here.0 ==> !due(sent.sent_on(), there.0, there.1, sent.wanted())
            &&& there.0 != here.0 ==> (due(sent.sent_on(), there.0, there.1, sent.wanted())
                <==> there.1 >= sent.wanted())
        }),
{
}

// ---------------------------------------------------------------------------
// What it is made from
// ---------------------------------------------------------------------------

/// A pull request of a worker.
pub struct PrInfo {
    pub url: Option<String>,
    pub title: Option<String>,
    pub state: Option<String>,
}

/// A worker as the state file lists it.
pub struct WorktreeEntry {
    pub id: String,
    pub branch: Option<String>,
    pub summary: Option<String>,
    pub pr: Option<PrInfo>,
    pub agent_kind: Option<String>,
    pub agent_session_status: Option<String>,
    pub phase: Option<String>,
}

/// An address in brackets behind a blank, where there is one.
pub open spec fn address(url: Option<String>) -> Seq<char> {
    match url {
        Some(u) => " ("@ + u@ + ")"@,
        None => seq![],
    }
}

/// How many signals have the severity.
pub open spec fn count_of(signals: Seq<SignalRecord>, severity: Severity) -> nat
    decreases signals.len(),
{
    if signals.len() == 0 {
        0
    } else {
        count_of(signals.drop_last(), severity) + if signals.last().severity == severity {
            1nat
        } else {
            0nat
        }
    }
}

/// The lines about the signals of a severity.
pub open spec fn severity_lines(signals: Seq<SignalRecord>, severity: Severity) -> Seq<char>
    decreases signals.len(),
{
    if signals.len() == 0 {
        seq![]
    } else {
        let s = signals.last();
        let rest = severity_lines(signals.drop_last(), severity);
        if s.severity == severity {
            rest + ("- ["@ + s.source@ + "] "@ + s.title@ + address(s.url) + "\n"@)
        } else {
            rest
        }
    }
}

/// The paragraph about the signals of a severity, where there are any.
pub open spec fn severity_part(signals: Seq<SignalRecord>, severity: Severity) -> Seq<char> {
    if count_of(signals, severity) == 0 {
        seq![]
    } else {
        "**"@ + severity.word() + "** ("@ + decimal(count_of(signals, severity) as int) + "):\n"@
            + severity_lines(signals, severity)
    }
}

/// The section about open signals.
pub open spec fn signals_section(signals: Seq<SignalRecord>) -> Seq<char> {
    "## Open Signals\n"@ + if signals.len() == 0 {
        "No open signals.\n\n"@
    } else {
        severity_part(signals, Severity::Critical) + severity_part(signals, Severity::Error)
            + severity_part(signals, Severity::Warning) + severity_part(signals, Severity::Info)
            + "\n"@
    }
}

/// The status of a worker.
pub open spec fn worker_word(w: WorktreeEntry) -> Seq<char> {
    match w.agent_session_status {
        Some(s) => s@,
        None => match w.phase {
            Some(p) => p@,
            None => "unknown"@,
        },
    }
}

/// The line about a worker.
pub open spec fn worker_line(w: WorktreeEntry) -> Seq<char> {
    "- "@ + w.id@ + " ["@ + worker_word(w) + "]"@ + (match w.branch {
        Some(b) => if b@.len() > 0 {
            " on "@ + b@
        } else {
            seq![]
        },
        None => seq![],
    }) + (match w.pr {
        Some(pr) => " (PR: "@ + (match pr.state {
            Some(s) => s@,
            None => "open"@,
        }) + ")"@,
        None => seq![],
    }) + (": "@ + match w.summary {
        Some(s) => s@,
        None => "(no summary)"@,
    }) + "\n"@
}

/// The lines about workers.
pub open spec fn worker_lines(workers: Seq<WorktreeEntry>) -> Seq<char>
    decreases workers.len(),
{
    if workers.len() == 0 {
        seq![]
    } else {
        worker_lines(workers.drop_last()) + worker_line(workers.last())
    }
}

/// The section about workers.
pub open spec fn workers_section(workers: Seq<WorktreeEntry>) -> Seq<char> {
    "## Swarm Workers\n"@ + if workers.len() == 0 {
        "No active workers.\n\n"@
    } else {
        worker_lines(workers) + "\n"@
    }
}

/// How many signals are about reviews.
pub open spec fn review_count(signals: Seq<SignalRecord>) -> nat
    decreases signals.len(),
{
    if signals.len() == 0 {
        0
    } else {
        review_count(signals.drop_last()) + if signals.last().source@ == "review_queue"@ {
            1nat
        } else {
            0nat
        }
    }
}

/// The lines about reviews.
pub open spec fn review_lines(signals: Seq<SignalRecord>) -> Seq<char>
    decreases signals.len(),
{
    if signals.len() == 0 {
        seq![]
    } else {
        let s = signals.last();
        let rest = review_lines(signals.drop_last());
        if s.source@ == "review_queue"@ {
            rest + ("- "@ + s.title@ + address(s.url) + "\n"@)
        } else {
            rest
        }
    }
}

/// The section about the review queue.
pub open spec fn review_section(signals: Seq<SignalRecord>) -> Seq<char> {
    "## Review Queue\n"@ + if review_count(signals) == 0 {
        "No review queue items.\n\n"@
    } else {
        decimal(review_count(signals) as int) + " item(s):\n"@ + review_lines(signals) + "\n"@
    }
}

/// What the coordinator is to make of it.
pub open spec fn brief_instructions() -> Seq<char> {
    "## Instructions\nBased on the data above, generate a concise morning brief (under 300 words):\n1. **Signal overview** — group by severity, summarize don't list every one\n2. **Workers** — who's running, who's waiting, any PRs ready for review\n3. **Review queue** — count + any urgent items\n4. **Focus suggestion** — one actionable recommendation for today\n\nBe direct and use bullet points.\n"@
}

/// The prompt that asks for a brief.
pub open spec fn brief_prompt_of(
    signals: Seq<SignalRecord>,
    workers: Seq<WorktreeEntry>,
    workspace: Seq<char>,
) -> Seq<char> {
    "You are generating the morning brief for workspace '"@ + workspace + "'.\n\n"@
        + signals_section(signals) + workers_section(workers) + review_section(signals)
        + brief_instructions()
}

fn address_text(url: &Option<String>) -> (r: String)
    ensures
        r@ == address(*url),
{
    match url {
        Some(u) => cat3(" (", u.as_str(), ")"),
        None => String::new(),
    }
}

fn is_severity(a: Severity, b: Severity) -> (r: bool)
    ensures
        r == (a == b),
{
    a == b
}

fn severity_text(signals: &Vec<SignalRecord>, severity: Severity) -> (r: String)
    ensures
        r@ == severity_part(signals@, severity),
{
    let n: usize = signals.len();
    let mut count: u64 = 0;
    let mut body = String::new();
    let mut i: usize = 0;
    proof {
        assert(body@ =~= severity_lines(signals@.take(0), severity));
    }
    while i < n
        invariant
            n == signals@.len(),
            0 <= i <= n,
            count <= i,
            count == count_of(signals@.take(i as int), severity),
            body@ == severity_lines(signals@.take(i as int), severity),
        decreases n - i,
    {
        let s = &signals[i];
        proof {
            assert(signals@.take(i + 1).drop_last() =~= signals@.take(i as int));
            assert(signals@.take(i + 1).last() == *s);
        }
        if is_severity(s.severity, severity) {
            let place = address_text(&s.url);
            let head = cat4("- [", s.source.as_str(), "] ", s.title.as_str());
            let line = cat3(head.as_str(), place.as_str(), "\n");
            body.push_str(line.as_str());
            count = count + 1;
        }
        i = i + 1;
    }
    proof {
        assert(signals@.take(n as int) =~= signals@);
    }
    if count == 0 {
        return String::new();
    }
    let total = number(count);
    let head = cat5("**", severity.as_str(), "** (", total.as_str(), "):\n");
    cat2(head.as_str(), body.as_str())
}

fn worker_text(w: &WorktreeEntry) -> (r: String)
    ensures
        r@ == worker_line(*w),
{
    let word = match &w.agent_session_status {
        Some(s) => s.as_str(),
        None => match &w.phase {
            Some(p) => p.as_str(),
            None => "unknown",
        },
    };
    let mut line = cat5("- ", w.id.as_str(), " [", word, "]");
    let branch = match &w.branch {
        Some(b) => if b.as_str().is_empty() {
            String::new()
        } else {
            cat2(" on ", b.as_str())
        },
        None => String::new(),
    };
    line.push_str(branch.as_str());
    let pr = match &w.pr {
        Some(p) => {
            let state = match &p.state {
                Some(s) => s.as_str(),
                None => "open",
            };
            cat3(" (PR: ", state, ")")
        },
        None => String::new(),
    };
    line.push_str(pr.as_str());
    let summary = match &w.summary {
        Some(s) => s.as_str(),
        None => "(no summary)",
    };
    let end = cat2(": ", summary);
    line.push_str(end.as_str());
    line.push_str("\n");
    line
}

fn workers_text(workers: &Vec<WorktreeEntry>) -> (r: String)
    ensures
        r@ == workers_section(workers@),
{
    let n: usize = workers.len();
    if n == 0 {
        return cat2("## Swarm Workers\n", "No active workers.\n\n");
    }
    let mut body = String::new();
    let mut i: usize = 0;
    proof {
        assert(body@ =~= worker_lines(workers@.take(0)));
    }
    while i < n
        invariant
            n == workers@.len(),
            0 <= i <= n,
            body@ == worker_lines(workers@.take(i as int)),
        decreases n - i,
    {
        let line = worker_text(&workers[i]);
        proof {
            assert(workers@.take(i + 1).drop_last() =~= workers@.take(i as int));
            assert(workers@.take(i + 1).last() == workers@[i as int]);
        }
        body.push_str(line.as_str());
        i = i + 1;
    }
    proof {
        assert(workers@.take(n as int) =~= workers@);
        assert("## Swarm Workers\n"@ + body@ + "\n"@ =~= "## Swarm Workers\n"@ + (body@ + "\n"@));
    }
    cat3("## Swarm Workers\n", body.as_str(), "\n")
}

fn reviews_text(signals: &Vec<SignalRecord>) -> (r: String)
    ensures
        r@ == review_section(signals@),
{
    let n: usize = signals.len();
    let mut count: u64 = 0;
    let mut body = String::new();
    let mut i: usize = 0;
    proof {
        assert(body@ =~= review_lines(signals@.take(0)));
    }
    while i < n
        invariant
            n == signals@.len(),
            0 <= i <= n,
            count <= i,
            count == review_count(signals@.take(i as int)),
            body@ == review_lines(signals@.take(i as int)),
        decreases n - i,
    {
        let s = &signals[i];
        proof {
            assert(signals@.take(i + 1).drop_last() =~= signals@.take(i as int));
            assert(signals@.take(i + 1).last() == *s);
        }
        if same(s.source.as_str(), "review_queue") {
            let place = address_text(&s.url);
            let line = cat4("- ", s.title.as_str(), place.as_str(), "\n");
            body.push_str(line.as_str());
            count = count + 1;
        }
        i = i + 1;
    }
    proof {
        assert(signals@.take(n as int) =~= signals@);
    }
    if count == 0 {
        return cat2("## Review Queue\n", "No review queue items.\n\n");
    }
    let total = number(count);
    let text = cat4(total.as_str(), " item(s):\n", body.as_str(), "\n");
    cat2("## Review Queue\n", text.as_str())
}

/// Builds the prompt that asks the coordinator for a brief.
pub fn build_brief_prompt(
    signals: &Vec<SignalRecord>,
    workers: &Vec<WorktreeEntry>,
    workspace: &str,
) -> (r: String)
    ensures
        r@ == brief_prompt_of(signals@, workers@, workspace@),
{
    let mut ctx = cat3(
        "You are generating the morning brief for workspace '",
        workspace,
        "'.\n\n",
    );
    let open = if signals.len() == 0 {
        cat2("## Open Signals\n", "No open signals.\n\n")
    } else {
        let critical = severity_text(signals, Severity::Critical);
        let error = severity_text(signals, Severity::Error);
        let warning = severity_text(signals, Severity::Warning);
        let info = severity_text(signals, Severity::Info);
        let all = cat5(critical.as_str(), error.as_str(), warning.as_str(), info.as_str(), "\n");
        cat2("## Open Signals\n", all.as_str())
    };
    ctx.push_str(open.as_str());
    let crew = workers_text(workers);
    ctx.push_str(crew.as_str());
    let reviews = reviews_text(signals);
    ctx.push_str(reviews.as_str());
    ctx.push_str(
        "## Instructions\nBased on the data above, generate a concise morning brief (under 300 words):\n1. **Signal overview** — group by severity, summarize don't list every one\n2. **Workers** — who's running, who's waiting, any PRs ready for review\n3. **Review queue** — count + any urgent items\n4. **Focus suggestion** — one actionable recommendation for today\n\nBe direct and use bullet points.\n",
    );
    ctx
}

// ---------------------------------------------------------------------------
// What is said
// ---------------------------------------------------------------------------

/// How many turns the coordinator may take for a brief.
pub const BRIEF_TURNS: u32 = 5;

/// What became of asking for a brief.
pub enum BriefOutcome {
    Brief(String),
    Failed(String),
}

/// What is said once a brief is there, or has failed.
pub open spec fn brief_acts(
    outcome: BriefOutcome,
    workspace: Seq<char>,
    target: ChatTarget,
    server: bool,
) -> Seq<Act> {
    match outcome {
        BriefOutcome::Brief(response) => {
            let text = "\u{1f305} Morning Brief\n\n"@ + response@;
            seq![Act::Send(target, text)] + only_if(
                server,
                Act::Reply(Response::Activity("system"@, workspace, "morning_brief"@, text)),
            )
        },
        BriefOutcome::Failed(e) => seq![
            Act::Send(target, "Morning brief generation failed: "@ + e@),
        ],
    }
}

/// Says that a brief is there, or has failed.
pub fn deliver_brief(outcome: &BriefOutcome, workspace: &str, target: ChatTarget, server: bool) -> (r:
    Vec<Action>)
    ensures
        acts(r@) == brief_acts(*outcome, workspace@, target, server),
{
    let mut out: Vec<Action> = Vec::new();
    match outcome {
        BriefOutcome::Brief(response) => {
            let text = cat2("\u{1f305} Morning Brief\n\n", response.as_str());
            plan(&mut out, send(target, text.as_str()));
            if server {
                plan(&mut out, activity("system", workspace, "morning_brief", text.as_str()));
            }
        },
        BriefOutcome::Failed(e) => {
            let text = cat2("Morning brief generation failed: ", e.as_str());
            plan(&mut out, send(target, text.as_str()));
        },
    }
    proof {
        assert(acts(out@) =~= brief_acts(*outcome, workspace@, target, server));
    }
    out
}

// ---------------------------------------------------------------------------
// Laws
// ---------------------------------------------------------------------------

/// A brief is due on a day on which none was sent, from the wanted time on and
/// not before; on a day on which one was sent it is not due again.
pub proof fn law_brief_is_due_from_its_time_on(last_sent: Option<int>, day: int, second: int, wanted: int)
    ensures
        last_sent is None ==> (due(last_sent, day, second, wanted) <==> second >= wanted),
        last_sent is Some && last_sent->0 != day ==> (due(last_sent, day, second, wanted)
            <==> second >= wanted),
        last_sent == Some(day) ==> !due(last_sent, day, second, wanted),
        due(last_sent, day, second, wanted) ==> due(last_sent, day, second + 1, wanted),
{
}

proof fn lemma_severity_lines(signals: Seq<SignalRecord>, severity: Severity, i: int)
    requires
        0 <= i < signals.len(),
        signals[i].severity == severity,
    ensures
        count_of(signals, severity) > 0,
        contains(
            severity_lines(signals, severity),
            "- ["@ + signals[i].source@ + "] "@ + signals[i].title@ + address(signals[i].url)
                + "\n"@,
        ),
    decreases signals.len(),
{
    let front = signals.drop_last();
    let line = "- ["@ + signals[i].source@ + "] "@ + signals[i].title@ + address(signals[i].url)
        + "\n"@;
    let all = severity_lines(signals, severity);
    let before = severity_lines(front, severity);
    if i < front.len() {
        lemma_severity_lines(front, severity, i);
        assert(front[i] == signals[i]);
        assert(all.take(before.len() as int) =~= before);
        lemma_contains_longer(before, line, all);
    } else {
        lemma_holds_part(before, line, seq![]);
        assert(before + line + seq![] =~= all);
    }
}

proof fn lemma_contains_longer(s: Seq<char>, part: Seq<char>, longer: Seq<char>)
    requires
        contains(s, part),
        s.len() <= longer.len(),
        longer.take(s.len() as int) == s,
    ensures
        contains(longer, part),
{
    let i = choose|i: int| occurs_at(s, part, i);
    assert(longer.subrange(i, i + part.len()) =~= s.subrange(i, i + part.len()));
    assert(occurs_at(longer, part, i));
}

proof fn lemma_contains_inside(before: Seq<char>, s: Seq<char>, after: Seq<char>, part: Seq<char>)
    requires
        contains(s, part),
    ensures
        contains(before + s + after, part),
{
    let all = before + s + after;
    let i = choose|i: int| occurs_at(s, part, i);
    let k = before.len() + i;
    assert(all.subrange(k, k + part.len()) =~= s.subrange(i, i + part.len()));
    assert(occurs_at(all, part, k));
}

proof fn lemma_severity_part(signals: Seq<SignalRecord>, i: int)
    requires
        0 <= i < signals.len(),
    ensures
        contains(
            severity_part(signals, signals[i].severity),
            "- ["@ + signals[i].source@ + "] "@ + signals[i].title@ + address(signals[i].url)
                + "\n"@,
        ),
        starts_with(
            severity_part(signals, signals[i].severity),
            "**"@ + signals[i].severity.word() + "** ("@,
        ),
{
    let severity = signals[i].severity;
    let line = "- ["@ + signals[i].source@ + "] "@ + signals[i].title@ + address(signals[i].url)
        + "\n"@;
    lemma_severity_lines(signals, severity, i);
    let head = "**"@ + severity.word() + "** ("@ + decimal(count_of(signals, severity) as int)
        + "):\n"@;
    let list = severity_lines(signals, severity);
    let part = severity_part(signals, severity);
    lemma_contains_inside(head, list, seq![], line);
    assert(head + list + seq![] =~= part);
    let title = "**"@ + severity.word() + "** ("@;
    assert(part.subrange(0, title.len() as int) =~= title);
}

proof fn lemma_one_of_four(
    a: Seq<char>,
    b: Seq<char>,
    c: Seq<char>,
    d: Seq<char>,
    end: Seq<char>,
    line: Seq<char>,
)
    requires
        contains(a, line) || contains(b, line) || contains(c, line) || contains(d, line),
    ensures
        contains(a + b + c + d + end, line),
{
    let all = a + b + c + d + end;
    if contains(a, line) {
        lemma_contains_inside(seq![], a, b + c + d + end, line);
        assert(seq![] + a + (b + c + d + end) =~= all);
    } else if contains(b, line) {
        lemma_contains_inside(a, b, c + d + end, line);
        assert(a + b + (c + d + end) =~= all);
    } else if contains(c, line) {
        lemma_contains_inside(a + b, c, d + end, line);
        assert(a + b + c + (d + end) =~= all);
    } else {
        lemma_contains_inside(a + b + c, d, end, line);
    }
}

/// The brief is made from every open signal, with its source and title, under
/// its severity.
pub proof fn law_brief_tells_every_signal(
    signals: Seq<SignalRecord>,
    workers: Seq<WorktreeEntry>,
    workspace: Seq<char>,
    i: int,
)
    requires
        0 <= i < signals.len(),
    ensures
        contains(
            severity_part(signals, signals[i].severity),
            "- ["@ + signals[i].source@ + "] "@ + signals[i].title@ + address(signals[i].url)
                + "\n"@,
        ),
        starts_with(
            severity_part(signals, signals[i].severity),
            "**"@ + signals[i].severity.word() + "** ("@,
        ),
        contains(
            brief_prompt_of(signals, workers, workspace),
            "- ["@ + signals[i].source@ + "] "@ + signals[i].title@ + address(signals[i].url)
                + "\n"@,
        ),
{
    let line = "- ["@ + signals[i].source@ + "] "@ + signals[i].title@ + address(signals[i].url)
        + "\n"@;
    lemma_severity_part(signals, i);
    let a = severity_part(signals, Severity::Critical);
    let b = severity_part(signals, Severity::Error);
    let c = severity_part(signals, Severity::Warning);
    let d = severity_part(signals, Severity::Info);
    lemma_one_of_four(a, b, c, d, "\n"@, line);
    let list = a + b + c + d + "\n"@;
    lemma_contains_inside("## Open Signals\n"@, list, seq![], line);
    let section = signals_section(signals);
    assert("## Open Signals\n"@ + list + seq![] =~= section);
    let start = "You are generating the morning brief for workspace '"@ + workspace + "'.\n\n"@;
    let rest = workers_section(workers) + review_section(signals) + brief_instructions();
    lemma_contains_inside(start, section, rest, line);
    assert(brief_prompt_of(signals, workers, workspace) =~= start + section + rest);
}

proof fn lemma_worker_lines(workers: Seq<WorktreeEntry>, i: int)
    requires
        0 <= i < workers.len(),
    ensures
        contains(worker_lines(workers), worker_line(workers[i])),
    decreases workers.len(),
{
    let front = workers.drop_last();
    let before = worker_lines(front);
    let all = worker_lines(workers);
    if i < front.len() {
        lemma_worker_lines(front, i);
        assert(front[i] == workers[i]);
        assert(all.take(before.len() as int) =~= before);
        lemma_contains_longer(before, worker_line(workers[i]), all);
    } else {
        lemma_holds_part(before, worker_line(workers[i]), seq![]);
        assert(before + worker_line(workers[i]) + seq![] =~= all);
    }
}

/// The brief is made from every worker, under its identifier, with the status
/// of its session, else its phase.
pub proof fn law_brief_tells_every_worker(
    signals: Seq<SignalRecord>,
    workers: Seq<WorktreeEntry>,
    workspace: Seq<char>,
    i: int,
)
    requires
        0 <= i < workers.len(),
    ensures
        contains(brief_prompt_of(signals, workers, workspace), worker_line(workers[i])),
        starts_with(
            worker_line(workers[i]),
            "- "@ + workers[i].id@ + " ["@ + (if workers[i].agent_session_status is Some {
                workers[i].agent_session_status->0@
            } else if workers[i].phase is Some {
                workers[i].phase->0@
            } else {
                "unknown"@
            }) + "]"@,
        ),
        workers[i].summary is Some ==> ends_with(
            worker_line(workers[i]),
            ": "@ + workers[i].summary->0@ + "\n"@,
        ),
{
    let w = workers[i];
    let line = worker_line(w);
    lemma_worker_lines(workers, i);
    let list = worker_lines(workers);
    let head = "You are generating the morning brief for workspace '"@ + workspace + "'.\n\n"@
        + signals_section(signals) + "## Swarm Workers\n"@;
    let rest = "\n"@ + review_section(signals) + brief_instructions();
    lemma_contains_inside(head, list, rest, line);
    assert(brief_prompt_of(signals, workers, workspace) =~= head + list + rest);
    let start = "- "@ + w.id@ + " ["@ + worker_word(w) + "]"@;
    assert(line.subrange(0, start.len() as int) =~= start);
    if w.summary is Some {
        let end = ": "@ + w.summary->0@ + "\n"@;
        assert(line.subrange(line.len() - end.len(), line.len() as int) =~= end);
    }
}

proof fn lemma_review_lines(signals: Seq<SignalRecord>, i: int)
    requires
        0 <= i < signals.len(),
        signals[i].source@ == "review_queue"@,
    ensures
        review_count(signals) > 0,
        contains(
            review_lines(signals),
            "- "@ + signals[i].title@ + address(signals[i].url) + "\n"@,
        ),
    decreases signals.len(),
{
    let front = signals.drop_last();
    let line = "- "@ + signals[i].title@ + address(signals[i].url) + "\n"@;
    let before = review_lines(front);
    let all = review_lines(signals);
    if i < front.len() {
        lemma_review_lines(front, i);
        assert(front[i] == signals[i]);
        assert(all.take(before.len() as int) =~= before);
        lemma_contains_longer(before, line, all);
    } else {
        lemma_holds_part(before, line, seq![]);
        assert(before + line + seq![] =~= all);
    }
}

/// The brief is made from every entry of the review queue.
pub proof fn law_brief_tells_the_review_queue(signals: Seq<SignalRecord>, i: int)
    requires
        0 <= i < signals.len(),
        signals[i].source@ == "review_queue"@,
    ensures
        contains(
            review_section(signals),
            "- "@ + signals[i].title@ + address(signals[i].url) + "\n"@,
        ),
        signals[i].url is Some ==> address(signals[i].url) == " ("@ + signals[i].url->0@ + ")"@,
        signals[i].url is None ==> address(signals[i].url).len() == 0,
{
    let line = "- "@ + signals[i].title@ + address(signals[i].url) + "\n"@;
    lemma_review_lines(signals, i);
    let head = "## Review Queue\n"@ + decimal(review_count(signals) as int) + " item(s):\n"@;
    lemma_contains_inside(head, review_lines(signals), "\n"@, line);
    assert(review_section(signals) =~= head + review_lines(signals) + "\n"@);
}

/// A brief goes to the chat that it is for, and so does the news that it could
/// not be made; clients are shown it exactly where clients are served.
pub proof fn law_brief_is_sent(
    outcome: BriefOutcome,
    workspace: Seq<char>,
    target: ChatTarget,
    server: bool,
)
    ensures
        outcome is Brief ==> {
            let text = "\u{1f305} Morning Brief\n\n"@ + outcome->Brief_0@;
            &&& brief_acts(outcome, workspace, target, server)[0] == Act::Send(target, text)
            &&& server ==> brief_acts(outcome, workspace, target, server)[1] == Act::Reply(
                Response::Activity("system"@, workspace, "morning_brief"@, text),
            )
            &&& brief_acts(outcome, workspace, target, server).len() == if server {
                2int
            } else {
                1
            }
        },
        outcome is Failed ==> brief_acts(outcome, workspace, target, server) == seq![
            Act::Send(target, "Morning brief generation failed: "@ + outcome->Failed_0@),
        ],
{
}

} // verus!
