//! The daemon as a process: whether it runs, what happens when its event loop
//! ends, what it watches, and what `status` prints.

use crate::poll::{first_line, first_line_of};
use crate::signal::SignalRecord;
use crate::text::{
    all_digits, cat2, cat3, cat5, contains, decimal, is_digit, is_white, lemma_contains_through,
    lemma_decimal_reads_back, lemma_digits_spell, lemma_holds_part, lemma_inside, lemma_trim_solid,
    number, number_up_to, opt_text, parse_number, same, starts_with, trim, trim_end, trim_start,
    trimmed,
};
use vstd::prelude::*;

verus! {

// ---------------------------------------------------------------------------
// The process
// ---------------------------------------------------------------------------

/// The number of a process that the file about it holds.
pub open spec fn pid_in(contents: Option<Seq<char>>) -> Option<nat> {
    match contents {
        Some(s) => number_up_to(trim(s), u32::MAX as nat),
        None => None,
    }
}

/// The number of the daemon's process, out of the file about it.
pub fn read_pid(contents: &Option<String>) -> (r: Option<u32>)
    ensures
        match r {
            Some(pid) => pid_in(opt_text(*contents)) == Some(pid as nat),
            None => pid_in(opt_text(*contents)) is None,
        },
{
    match contents {
        Some(s) => {
            let t = trimmed(s.as_str());
            match parse_number(t.as_str(), u32::MAX as u64) {
                Some(n) => Some(n as u32),
                None => None,
            }
        },
        None => None,
    }
}

/// Whether the daemon runs: there is a file about its process, and the process
/// is alive.
pub fn is_daemon_running(pid: Option<u32>, alive: bool) -> (r: bool)
    ensures
        r == (pid is Some && alive),
{
    pid.is_some() && alive
}

/// Why the event loop ended.
pub enum ExitReason {
    /// It was asked to.
    Shutdown,
    /// Something went wrong.
    Error(String),
    /// A new version is to take over.
    Restart,
}

/// What the daemon does when its event loop has ended.
#[derive(Debug, Clone, Copy, PartialEq, Eq, Structural)]
pub enum AfterExit {
    /// It ends.
    Quit,
    /// It waits and starts the event loop again.
    RetryAfterPause,
    /// The new program takes its place.
    Exec,
}

/// How many seconds the daemon waits before it starts its event loop again.
pub const RETRY_PAUSE_SECS: u64 = 5;

/// What the daemon does after it stopped for a reason.
pub open spec fn next_after(reason: ExitReason) -> AfterExit {
    match reason {
        ExitReason::Shutdown => AfterExit::Quit,
        ExitReason::Error(_) => AfterExit::RetryAfterPause,
        ExitReason::Restart => AfterExit::Exec,
    }
}

/// What the daemon does when its event loop has ended.
pub fn after_exit(reason: &ExitReason) -> (r: AfterExit)
    ensures
        r == next_after(*reason),
{
    match reason {
        ExitReason::Shutdown => AfterExit::Quit,
        ExitReason::Error(_) => AfterExit::RetryAfterPause,
        ExitReason::Restart => AfterExit::Exec,
    }
}

/// What is told of a daemon that was to be stopped.
pub open spec fn stop_text(pid: Option<u32>, alive: bool) -> Seq<char> {
    match pid {
        Some(p) => if alive {
            "daemon stopped (pid: "@ + decimal(p as int) + ")"@
        } else {
            "daemon not running (stale pid file)"@
        },
        None => "daemon not running"@,
    }
}

/// What is said when the daemon is told to stop.
pub fn stop_message(pid: Option<u32>, alive: bool) -> (r: String)
    ensures
        r@ == stop_text(pid, alive),
{
    match pid {
        Some(p) => if alive {
            let n = number(p as u64);
            cat3("daemon stopped (pid: ", n.as_str(), ")")
        } else {
            "daemon not running (stale pid file)".to_owned()
        },
        None => "daemon not running".to_owned(),
    }
}

// ---------------------------------------------------------------------------
// Starting a workspace
// ---------------------------------------------------------------------------

/// The watchers that a workspace configures.
pub struct WatcherSettings {
    /// The interval of the watcher of GitHub, where it is enabled.
    pub github: Option<u64>,
    /// Whether there are queries for a review queue.
    pub has_review_queue: bool,
    pub sentry: Option<u64>,
    pub swarm: Option<u64>,
    pub email: Vec<u64>,
    pub notion: Vec<u64>,
    pub linear: Vec<u64>,
}

/// A watcher: what it watches.
#[derive(Debug, Clone, Copy, PartialEq, Eq, Structural)]
pub enum WatcherKind {
    Github,
    ReviewQueue,
    Sentry,
    Swarm,
    /// The mailbox at this position of the configuration.
    Email(usize),
    Notion(usize),
    Linear(usize),
}

/// A watcher that is to run, and its interval in seconds.
#[derive(Debug, Clone, Copy, PartialEq, Eq, Structural)]
pub struct WatcherPlan {
    pub kind: WatcherKind,
    pub interval_secs: u64,
}

/// The kinds of watchers of which there can be several.
#[derive(Debug, Clone, Copy, PartialEq, Eq, Structural)]
pub enum ManyKind {
    Email,
    Notion,
    Linear,
}

/// The watcher at a position.
pub open spec fn many(kind: ManyKind, i: int) -> WatcherKind {
    match kind {
        ManyKind::Email => WatcherKind::Email(i as usize),
        ManyKind::Notion => WatcherKind::Notion(i as usize),
        ManyKind::Linear => WatcherKind::Linear(i as usize),
    }
}

/// Watchers of a kind, one for each interval.
pub open spec fn plans_of(kind: ManyKind, intervals: Seq<u64>) -> Seq<WatcherPlan> {
    Seq::new(
        intervals.len(),
        |i: int| WatcherPlan { kind: many(kind, i), interval_secs: intervals[i] },
    )
}

/// A watcher where there is an interval for it.
pub open spec fn plan_if(kind: WatcherKind, interval: Option<u64>) -> Seq<WatcherPlan> {
    match interval {
        Some(n) => seq![WatcherPlan { kind, interval_secs: n }],
        None => seq![],
    }
}

/// The watchers of a workspace. The review queue is watched as often as
/// GitHub, and only together with it.
pub open spec fn watchers_of(s: WatcherSettings) -> Seq<WatcherPlan> {
    plan_if(WatcherKind::Github, s.github) + (if s.has_review_queue {
        plan_if(WatcherKind::ReviewQueue, s.github)
    } else {
        seq![]
    }) + plan_if(WatcherKind::Sentry, s.sentry) + plan_if(WatcherKind::Swarm, s.swarm) + plans_of(
        ManyKind::Email,
        s.email@,
    ) + plans_of(ManyKind::Notion, s.notion@) + plans_of(ManyKind::Linear, s.linear@)
}

fn add_many(out: &mut Vec<WatcherPlan>, kind: ManyKind, intervals: &Vec<u64>)
    ensures
        final(out)@ == old(out)@ + plans_of(kind, intervals@),
{
    let ghost base = out@;
    let n: usize = intervals.len();
    let mut i: usize = 0;
    while i < n
        invariant
            n == intervals@.len(),
            0 <= i <= n,
            out@ =~= base + plans_of(kind, intervals@).take(i as int),
        decreases n - i,
    {
        let one = match kind {
            ManyKind::Email => WatcherKind::Email(i),
            ManyKind::Notion => WatcherKind::Notion(i),
            ManyKind::Linear => WatcherKind::Linear(i),
        };
        out.push(WatcherPlan { kind: one, interval_secs: intervals[i] });
        i = i + 1;
    }
    proof {
        assert(out@ =~= base + plans_of(kind, intervals@));
    }
}

/// The watchers of a workspace.
pub fn plan_watchers(s: &WatcherSettings) -> (r: Vec<WatcherPlan>)
    ensures
        r@ == watchers_of(*s),
{
    let mut out: Vec<WatcherPlan> = Vec::new();
    if let Some(n) = s.github {
        out.push(WatcherPlan { kind: WatcherKind::Github, interval_secs: n });
        if s.has_review_queue {
            out.push(WatcherPlan { kind: WatcherKind::ReviewQueue, interval_secs: n });
        }
    }
    if let Some(n) = s.sentry {
        out.push(WatcherPlan { kind: WatcherKind::Sentry, interval_secs: n });
    }
    if let Some(n) = s.swarm {
        out.push(WatcherPlan { kind: WatcherKind::Swarm, interval_secs: n });
    }
    add_many(&mut out, ManyKind::Email, &s.email);
    add_many(&mut out, ManyKind::Notion, &s.notion);
    add_many(&mut out, ManyKind::Linear, &s.linear);
    proof {
        assert(out@ =~= watchers_of(*s));
    }
    out
}

/// The message of a mailbox from which its watcher goes on, out of where it
/// stopped.
pub fn resume_uid(cursor: &Option<String>) -> (r: Option<u32>)
    ensures
        match r {
            Some(uid) => *cursor is Some && number_up_to(cursor->0@, u32::MAX as nat) == Some(
                uid as nat,
            ),
            None => *cursor is None || number_up_to(cursor->0@, u32::MAX as nat) is None,
        },
{
    match cursor {
        Some(s) => match parse_number(s.as_str(), u32::MAX as u64) {
            Some(n) => Some(n as u32),
            None => None,
        },
        None => None,
    }
}

/// Whether a session that was kept is taken up again: only one of the provider
/// that is used now.
pub fn restores_session(kept_provider: &Option<String>, provider: &str) -> (r: bool)
    ensures
        r == (opt_text(*kept_provider) == Some(provider@)),
{
    match kept_provider {
        Some(p) => same(p.as_str(), provider),
        None => false,
    }
}

// ---------------------------------------------------------------------------
// Status
// ---------------------------------------------------------------------------

/// What `status` prints about a signal.
pub open spec fn status_entry(s: SignalRecord) -> Seq<char> {
    "  ["@ + s.severity.word() + "] ["@ + s.source@ + "] "@ + (s.title@ + "\n"@) + (match s.url {
        Some(u) => "    "@ + u@ + "\n"@,
        None => seq![],
    }) + match s.body {
        Some(b) => if first_line(b@).len() > 0 {
            "    "@ + first_line(b@) + "\n"@
        } else {
            seq![]
        },
        None => seq![],
    }
}

/// What `status` prints about signals.
pub open spec fn status_entries(signals: Seq<SignalRecord>) -> Seq<char>
    decreases signals.len(),
{
    if signals.len() == 0 {
        seq![]
    } else {
        status_entries(signals.drop_last()) + status_entry(signals.last())
    }
}

/// What `status` prints about how many signals there are of each status.
pub open spec fn count_entries(counts: Seq<(String, u64)>) -> Seq<char>
    decreases counts.len(),
{
    if counts.len() == 0 {
        seq![]
    } else {
        let c = counts.last();
        count_entries(counts.drop_last()) + ("  "@ + c.0@ + ": "@ + decimal(c.1 as int) + "\n"@)
    }
}

/// What `status` prints about a workspace.
pub open spec fn status_of_workspace(
    name: Seq<char>,
    signals: Seq<SignalRecord>,
    counts: Seq<(String, u64)>,
) -> Seq<char> {
    "=== "@ + name + " ===\n"@ + (if signals.len() == 0 {
        "  No open signals.\n\n"@
    } else {
        "  "@ + decimal(signals.len() as int) + " open signal(s):\n\n"@ + status_entries(signals)
            + "\n"@
    }) + if counts.len() == 0 {
        seq![]
    } else {
        count_entries(counts) + "\n"@
    }
}

fn entry_text(s: &SignalRecord) -> (r: String)
    ensures
        r@ == status_entry(*s),
{
    let head = cat5("  [", s.severity.as_str(), "] [", s.source.as_str(), "] ");
    let title = cat2(s.title.as_str(), "\n");
    let mut out = cat2(head.as_str(), title.as_str());
    if let Some(u) = &s.url {
        let line = cat3("    ", u.as_str(), "\n");
        out.push_str(line.as_str());
    } else {
        proof {
            assert(out@ + Seq::<char>::empty() =~= out@);
        }
    }
    if let Some(b) = &s.body {
        let first = first_line_of(b.as_str());
        if !first.as_str().is_empty() {
            let line = cat3("    ", first.as_str(), "\n");
            out.push_str(line.as_str());
        }
    }
    proof {
        assert(out@ =~= status_entry(*s));
    }
    out
}

/// What `status` prints about a workspace.
pub fn status_text(name: &str, signals: &Vec<SignalRecord>, counts: &Vec<(String, u64)>) -> (r:
    String)
    ensures
        r@ == status_of_workspace(name@, signals@, counts@),
{
    let mut out = cat3("=== ", name, " ===\n");
    let n: usize = signals.len();
    if n == 0 {
        out.push_str("  No open signals.\n\n");
    } else {
        let total = number(n as u64);
        let mut body = cat3("  ", total.as_str(), " open signal(s):\n\n");
        let ghost head = body@;
        let mut i: usize = 0;
        proof {
            assert(head + status_entries(signals@.take(0)) =~= head);
        }
        while i < n
            invariant
                n == signals@.len(),
                0 <= i <= n,
                body@ == head + status_entries(signals@.take(i as int)),
            decreases n - i,
        {
            let one = entry_text(&signals[i]);
            proof {
                assert(signals@.take(i + 1).drop_last() =~= signals@.take(i as int));
                assert(signals@.take(i + 1).last() == signals@[i as int]);
                let done = status_entries(signals@.take(i as int));
                assert(head + done + one@ =~= head + (done + one@));
            }
            body.push_str(one.as_str());
            i = i + 1;
        }
        proof {
            assert(signals@.take(n as int) =~= signals@);
        }
        body.push_str("\n");
        out.push_str(body.as_str());
    }
    let m: usize = counts.len();
    if m > 0 {
        let mut body = String::new();
        let mut i: usize = 0;
        proof {
            assert(body@ =~= count_entries(counts@.take(0)));
        }
        while i < m
            invariant
                m == counts@.len(),
                0 <= i <= m,
                body@ == count_entries(counts@.take(i as int)),
            decreases m - i,
        {
            let count = number(counts[i].1);
            let one = cat5("  ", counts[i].0.as_str(), ": ", count.as_str(), "\n");
            proof {
                assert(counts@.take(i + 1).drop_last() =~= counts@.take(i as int));
                assert(counts@.take(i + 1).last() == counts@[i as int]);
            }
            body.push_str(one.as_str());
            i = i + 1;
        }
        proof {
            assert(counts@.take(m as int) =~= counts@);
        }
        body.push_str("\n");
        out.push_str(body.as_str());
    } else {
        proof {
            assert(out@ + Seq::<char>::empty() =~= out@);
        }
    }
    out
}

/// What a line typed into the chat asks for.
pub enum ChatInput {
    /// Nothing.
    Blank,
    /// To end the chat.
    Quit,
    /// This message.
    Message(String),
}

/// What a line typed into the chat asks for.
pub fn read_chat_line(line: &str) -> (r: ChatInput)
    ensures
        match r {
            ChatInput::Blank => trim(line@).len() == 0,
            ChatInput::Quit => trim(line@) == "quit"@ || trim(line@) == "exit"@,
            ChatInput::Message(m) => m@ == trim(line@) && m@.len() > 0 && m@ != "quit"@ && m@
                != "exit"@,
        },
{
    let t = trimmed(line);
    if t.as_str().is_empty() {
        ChatInput::Blank
    } else if same(t.as_str(), "quit") || same(t.as_str(), "exit") {
        ChatInput::Quit
    } else {
        ChatInput::Message(t)
    }
}

/// A pid is read from its file whatever white space stands around it; without a
/// file there is none.
pub proof fn law_pid_is_read_back(pid: u32)
    ensures
        pid_in(Some(decimal(pid as int))) == Some(pid as nat),
        pid_in(Some(decimal(pid as int) + "\n"@)) == Some(pid as nat),
        pid_in(None) is None,
{
    let d = decimal(pid as int);
    lemma_decimal_reads_back(pid as nat, u32::MAX as nat);
    lemma_digits_spell(pid as nat);
    assert(all_digits(d) && d.len() > 0);
    assert(!is_white(d[0]) && !is_white(d.last()));
    lemma_trim_solid(d);
    reveal_strlit("\n");
    let s = d + "\n"@;
    assert(s.drop_last() =~= d);
    assert(s.last() == '\n');
    assert(trim_start(s) == s) by {
        assert(s[0] == d[0]);
    }
    assert(trim_end(s) == trim_end(d));
    assert(trim_start(d) == d);
}

/// Each service that is set up is watched at its own interval, the queue of
/// reviews at that of GitHub, and nothing else is watched.
pub proof fn law_what_is_set_up_is_watched(s: WatcherSettings, k: int)
    requires
        s.email@.len() <= usize::MAX && s.notion@.len() <= usize::MAX && s.linear@.len()
            <= usize::MAX,
    ensures
        s.github is Some ==> watchers_of(s).contains(
            WatcherPlan { kind: WatcherKind::Github, interval_secs: s.github->0 },
        ),
        s.github is Some && s.has_review_queue ==> watchers_of(s).contains(
            WatcherPlan { kind: WatcherKind::ReviewQueue, interval_secs: s.github->0 },
        ),
        s.sentry is Some ==> watchers_of(s).contains(
            WatcherPlan { kind: WatcherKind::Sentry, interval_secs: s.sentry->0 },
        ),
        s.swarm is Some ==> watchers_of(s).contains(
            WatcherPlan { kind: WatcherKind::Swarm, interval_secs: s.swarm->0 },
        ),
        0 <= k < s.email@.len() ==> watchers_of(s).contains(
            WatcherPlan { kind: WatcherKind::Email(k as usize), interval_secs: s.email@[k] },
        ),
        0 <= k < s.notion@.len() ==> watchers_of(s).contains(
            WatcherPlan { kind: WatcherKind::Notion(k as usize), interval_secs: s.notion@[k] },
        ),
        0 <= k < s.linear@.len() ==> watchers_of(s).contains(
            WatcherPlan { kind: WatcherKind::Linear(k as usize), interval_secs: s.linear@[k] },
        ),
        watchers_of(s).len() == (if s.github is Some {
            1int
        } else {
            0
        }) + (if s.github is Some && s.has_review_queue {
            1int
        } else {
            0
        }) + (if s.sentry is Some {
            1int
        } else {
            0
        }) + (if s.swarm is Some {
            1int
        } else {
            0
        }) + s.email@.len() + s.notion@.len() + s.linear@.len(),
{
    let a = plan_if(WatcherKind::Github, s.github);
    let b = if s.has_review_queue {
        plan_if(WatcherKind::ReviewQueue, s.github)
    } else {
        seq![]
    };
    let c = plan_if(WatcherKind::Sentry, s.sentry);
    let d = plan_if(WatcherKind::Swarm, s.swarm);
    let e = plans_of(ManyKind::Email, s.email@);
    let f = plans_of(ManyKind::Notion, s.notion@);
    let g = plans_of(ManyKind::Linear, s.linear@);
    let all = watchers_of(s);
    assert(all == a + b + c + d + e + f + g);
    if s.github is Some {
        assert(all[0] == a[0]);
        if s.has_review_queue {
            assert(all[1] == b[0]);
        }
    }
    if s.sentry is Some {
        assert(all[(a + b).len() as int] == c[0]);
    }
    if s.swarm is Some {
        assert(all[(a + b + c).len() as int] == d[0]);
    }
    if 0 <= k < s.email@.len() {
        assert(all[(a + b + c + d).len() + k] == e[k]);
    }
    if 0 <= k < s.notion@.len() {
        assert(all[(a + b + c + d + e).len() + k] == f[k]);
    }
    if 0 <= k < s.linear@.len() {
        assert(all[(a + b + c + d + e + f).len() + k] == g[k]);
    }
}

proof fn lemma_entry_is_listed(signals: Seq<SignalRecord>, k: int)
    requires
        0 <= k < signals.len(),
    ensures
        contains(status_entries(signals), status_entry(signals[k])),
    decreases signals.len(),
{
    let front = signals.drop_last();
    let rest = status_entries(front);
    let last = status_entry(signals.last());
    if k < front.len() {
        lemma_entry_is_listed(front, k);
        assert(front[k] == signals[k]);
        lemma_inside(seq![], rest, last, status_entry(signals[k]));
        assert(seq![] + rest + last =~= rest + last);
    } else {
        lemma_holds_part(rest, last, seq![]);
        assert(rest + last + seq![] =~= rest + last);
    }
}

/// The status of a workspace names it and tells each open signal, with its
/// severity, source and title, and with its address where it has one; where
/// there is none it says so.
pub proof fn law_status_tells_every_signal(
    name: Seq<char>,
    signals: Seq<SignalRecord>,
    counts: Seq<(String, u64)>,
    k: int,
)
    ensures
        starts_with(status_of_workspace(name, signals, counts), "=== "@ + name + " ===\n"@),
        signals.len() == 0 ==> contains(
            status_of_workspace(name, signals, counts),
            "  No open signals.\n\n"@,
        ),
        signals.len() > 0 ==> contains(
            status_of_workspace(name, signals, counts),
            "  "@ + decimal(signals.len() as int) + " open signal(s):\n\n"@,
        ),
        0 <= k < signals.len() ==> contains(
            status_of_workspace(name, signals, counts),
            "  ["@ + signals[k].severity.word() + "] ["@ + signals[k].source@ + "] "@ + (
            signals[k].title@ + "\n"@),
        ),
        0 <= k < signals.len() && signals[k].url is Some ==> contains(
            status_of_workspace(name, signals, counts),
            "    "@ + signals[k].url->0@ + "\n"@,
        ),
{
    let all = status_of_workspace(name, signals, counts);
    let head = "=== "@ + name + " ===\n"@;
    let tail: Seq<char> = if counts.len() == 0 {
        seq![]
    } else {
        count_entries(counts) + "\n"@
    };
    assert(all.subrange(0, head.len() as int) =~= head);
    if signals.len() == 0 {
        lemma_holds_part(head, "  No open signals.\n\n"@, tail);
    } else {
        let number = "  "@ + decimal(signals.len() as int) + " open signal(s):\n\n"@;
        let entries = status_entries(signals);
        assert(all =~= head + number + (entries + "\n"@ + tail));
        lemma_holds_part(head, number, entries + "\n"@ + tail);
        if 0 <= k < signals.len() {
            let e = status_entry(signals[k]);
            lemma_entry_is_listed(signals, k);
            lemma_inside(head + number, entries, "\n"@ + tail, e);
            assert(all =~= (head + number) + entries + ("\n"@ + tail));
            let x = "  ["@ + signals[k].severity.word() + "] ["@ + signals[k].source@ + "] "@ + (
            signals[k].title@ + "\n"@);
            let y: Seq<char> = match signals[k].url {
                Some(u) => "    "@ + u@ + "\n"@,
                None => seq![],
            };
            let z: Seq<char> = match signals[k].body {
                Some(b) => if first_line(b@).len() > 0 {
                    "    "@ + first_line(b@) + "\n"@
                } else {
                    seq![]
                },
                None => seq![],
            };
            assert(e == x + y + z);
            lemma_holds_part(seq![], x, y + z);
            assert(seq![] + x + (y + z) =~= e);
            lemma_contains_through(all, e, x);
            if signals[k].url is Some {
                lemma_holds_part(x, y, z);
                lemma_contains_through(all, e, y);
            }
        }
    }
}

/// A daemon that was shut down stays down, one that failed is tried again after
/// a pause, and one that restarts takes its new binary.
pub proof fn law_only_a_shutdown_ends_the_daemon(reason: ExitReason)
    ensures
        reason is Shutdown <==> next_after(reason) == AfterExit::Quit,
        reason is Error <==> next_after(reason) == AfterExit::RetryAfterPause,
        reason is Restart <==> next_after(reason) == AfterExit::Exec,
{
}

/// A daemon that runs is told to be stopped by its pid; one that does not is
/// told not to run, and whether it left a file behind.
pub proof fn law_stop_tells_the_pid(pid: u32)
    ensures
        contains(stop_text(Some(pid), true), decimal(pid as int)),
        starts_with(stop_text(Some(pid), true), "daemon stopped"@),
        stop_text(Some(pid), false) == "daemon not running (stale pid file)"@,
        stop_text(None, true) == "daemon not running"@,
        stop_text(None, false) == "daemon not running"@,
{
    reveal_strlit("daemon stopped (pid: ");
    reveal_strlit("daemon stopped");
    let s = stop_text(Some(pid), true);
    lemma_holds_part("daemon stopped (pid: "@, decimal(pid as int), ")"@);
    assert(s.subrange(0, 14) =~= "daemon stopped"@);
}

} // verus!
