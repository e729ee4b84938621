//! What a round of polling makes of the signals that it finds: which of them
//! the coordinator is told about, which are announced, and in what words.

use crate::action::{acts, plan, send, Act, Action, ChatTarget, CoordinatorJob, Job};
use crate::config::SignalHookConfig;
use crate::signal::SignalRecord;
use crate::text::{
    cat2, cat3, cat4, contains, decimal, ends_with, has_prefix, join, joined, lemma_inside,
    lemma_join_holds, lemma_split_last, lines, lines_of, number, opt_text, same, split,
    split_at_char, starts_with, texts,
};
use vstd::prelude::*;

verus! {

// ---------------------------------------------------------------------------
// Hooks
// ---------------------------------------------------------------------------

/// Whether a hook asks for signals of a source: of its own, or of one that
/// its own is the first part of.
pub open spec fn hook_matches(hook: SignalHookConfig, source: Seq<char>) -> bool {
    source == hook.source@ || starts_with(source, hook.source@ + "_"@)
}

/// The first hook that asks for signals of a source.
pub open spec fn is_first_hook(hooks: Seq<SignalHookConfig>, source: Seq<char>, i: int) -> bool {
    &&& 0 <= i < hooks.len()
    &&& hook_matches(hooks[i], source)
    &&& forall|j: int| 0 <= j < i ==> !hook_matches(#[trigger] hooks[j], source)
}

/// The first hook that asks for signals of a source.
pub fn find_hook(hooks: &Vec<SignalHookConfig>, source: &str) -> (r: Option<usize>)
    ensures
        match r {
            Some(i) => is_first_hook(hooks@, source@, i as int),
            None => forall|i: int|
                0 <= i < hooks@.len() ==> !hook_matches(#[trigger] hooks@[i], source@),
        },
{
    let n: usize = hooks.len();
    let mut i: usize = 0;
    while i < n
        invariant
            n == hooks@.len(),
            0 <= i <= n,
            forall|j: int| 0 <= j < i ==> !hook_matches(#[trigger] hooks@[j], source@),
        decreases n - i,
    {
        let own = hooks[i].source.as_str();
        let stem = cat2(own, "_");
        if same(source, own) || has_prefix(source, stem.as_str()) {
            return Some(i);
        }
        i = i + 1;
    }
    None
}

/// The first line of a text, or nothing.
pub open spec fn first_line(s: Seq<char>) -> Seq<char> {
    if lines(s).len() > 0 {
        lines(s)[0]
    } else {
        seq![]
    }
}

/// The first line of a text, or nothing.
pub fn first_line_of(s: &str) -> (r: String)
    ensures
        r@ == first_line(s@),
{
    let list = lines_of(s);
    proof {
        assert(texts(list@).len() == list@.len());
    }
    if list.len() > 0 {
        proof {
            assert(texts(list@)[0] == list@[0]@);
        }
        list[0].clone()
    } else {
        String::new()
    }
}

/// How the coordinator is told about a signal.
pub open spec fn description(signal: SignalRecord) -> Seq<char> {
    match signal.url {
        Some(url) => signal.title@ + " ("@ + url@ + ")"@,
        None => match signal.body {
            Some(body) => signal.title@ + " — "@ + first_line(body@),
            None => signal.title@,
        },
    }
}

/// How the coordinator is told about a signal.
pub fn describe(signal: &SignalRecord) -> (r: String)
    ensures
        r@ == description(*signal),
{
    match &signal.url {
        Some(url) => cat4(signal.title.as_str(), " (", url.as_str(), ")"),
        None => match &signal.body {
            Some(body) => {
                let line = first_line_of(body.as_str());
                cat3(signal.title.as_str(), " — ", line.as_str())
            },
            None => signal.title.clone(),
        },
    }
}

/// The number of the pull request in the identifier of a passed check: the
/// part before the last dash, with a number sign.
pub open spec fn pr_reference(external_id: Seq<char>) -> Seq<char> {
    let parts = split(external_id, '-');
    if parts.len() >= 2 {
        "#"@ + parts[parts.len() - 2]
    } else {
        seq![]
    }
}

/// The number of the pull request in the identifier of a passed check.
pub fn pr_ref(external_id: &str) -> (r: String)
    ensures
        r@ == pr_reference(external_id@),
{
    let parts = split_at_char(external_id, '-');
    proof {
        assert(texts(parts@).len() == parts@.len());
    }
    if parts.len() >= 2 {
        proof {
            assert(texts(parts@)[parts@.len() - 2] == parts@[parts@.len() - 2]@);
        }
        cat2("#", parts[parts.len() - 2].as_str())
    } else {
        String::new()
    }
}

// ---------------------------------------------------------------------------
// A round of polling
// ---------------------------------------------------------------------------

/// The events that a hook has asked for.
pub struct HookEvents {
    pub source: String,
    pub events: Vec<String>,
    pub prompt: String,
    pub ttl_secs: u64,
}

/// What a hook has gathered.
pub struct Gathered {
    pub source: Seq<char>,
    pub events: Seq<Seq<char>>,
    pub prompt: Seq<char>,
    pub ttl_secs: u64,
}

impl View for HookEvents {
    type V = Gathered;

    open spec fn view(&self) -> Gathered {
        Gathered {
            source: self.source@,
            events: texts(self.events@),
            prompt: self.prompt@,
            ttl_secs: self.ttl_secs,
        }
    }
}

/// What a round of polling has gathered so far.
pub struct PollBatch {
    /// The events for the coordinator, hook by hook.
    pub hooks: Vec<HookEvents>,
    /// The passed checks: the pull request and the signal's title.
    pub ci_passed: Vec<(String, String)>,
}

/// What hooks have gathered.
pub open spec fn gathered(list: Seq<HookEvents>) -> Seq<Gathered> {
    list.map_values(|h: HookEvents| h@)
}

/// The references and titles of passed checks.
pub open spec fn pair_texts(list: Seq<(String, String)>) -> Seq<(Seq<char>, Seq<char>)> {
    list.map_values(|p: (String, String)| (p.0@, p.1@))
}

/// How a new signal is announced.
#[derive(Clone, Copy, PartialEq, Eq, Structural)]
pub enum Announcement {
    /// Not at all, or only together with others.
    Nothing,
    /// At once, whatever the rules say.
    Forced,
    /// As the rules for notifications say.
    ByRules,
}

/// The position of what has been gathered for a source, or the number of
/// sources where there is nothing.
pub open spec fn gathered_at(list: Seq<Gathered>, source: Seq<char>) -> int
    decreases list.len(),
{
    if list.len() == 0 || list[0].source == source {
        0
    } else {
        1 + gathered_at(list.drop_first(), source)
    }
}

proof fn lemma_gathered_at(list: Seq<Gathered>, source: Seq<char>, k: int)
    requires
        0 <= k <= list.len(),
        forall|i: int| 0 <= i < k ==> (#[trigger] list[i]).source != source,
        k < list.len() ==> list[k].source == source,
    ensures
        gathered_at(list, source) == k,
    decreases list.len(),
{
    if k > 0 {
        let t = list.drop_first();
        assert forall|i: int| 0 <= i < k - 1 implies (#[trigger] t[i]).source != source by {
            assert(t[i] == list[i + 1]);
        }
        lemma_gathered_at(t, source, k - 1);
        assert(list[0].source != source);
    }
}

/// What has been gathered, with one more event for a hook.
pub open spec fn with_event(
    list: Seq<Gathered>,
    hook: SignalHookConfig,
    event: Seq<char>,
) -> Seq<Gathered> {
    let k = gathered_at(list, hook.source@);
    if 0 <= k < list.len() {
        list.update(k, Gathered { events: list[k].events.push(event), ..list[k] })
    } else {
        list.push(
            Gathered {
                source: hook.source@,
                events: seq![event],
                prompt: hook.prompt@,
                ttl_secs: hook.ttl_secs,
            },
        )
    }
}

/// How a new signal of a source is announced.
pub open spec fn announcement(source: Seq<char>) -> Announcement {
    if source == "github_merged_pr"@ || source == "github_ci_pass"@ {
        Announcement::Nothing
    } else if source == "github_release"@ {
        Announcement::Forced
    } else {
        Announcement::ByRules
    }
}

impl PollBatch {
    /// A round of polling that has found nothing yet.
    pub fn new() -> (r: PollBatch)
        ensures
            gathered(r.hooks@) == Seq::<Gathered>::empty(),
            pair_texts(r.ci_passed@) == Seq::<(Seq<char>, Seq<char>)>::empty(),
    {
        let r = PollBatch { hooks: Vec::new(), ci_passed: Vec::new() };
        proof {
            assert(gathered(r.hooks@) =~= Seq::<Gathered>::empty());
            assert(pair_texts(r.ci_passed@) =~= Seq::<(Seq<char>, Seq<char>)>::empty());
        }
        r
    }

    fn add_event(&mut self, hook: &SignalHookConfig, event: String)
        ensures
            gathered(final(self).hooks@) == with_event(gathered(old(self).hooks@), *hook, event@),
            final(self).ci_passed == old(self).ci_passed,
    {
        let ghost list = gathered(self.hooks@);
        let ghost text = event@;
        let n: usize = self.hooks.len();
        let mut i: usize = 0;
        while i < n && !same(self.hooks[i].source.as_str(), hook.source.as_str())
            invariant
                n == self.hooks@.len(),
                0 <= i <= n,
                list == gathered(self.hooks@),
                forall|j: int| 0 <= j < i ==> (#[trigger] list[j]).source != hook.source@,
            decreases n - i,
        {
            i = i + 1;
        }
        proof {
            lemma_gathered_at(list, hook.source@, i as int);
        }
        if i < n {
            let ghost before = self.hooks@[i as int];
            let mut entry = self.hooks.remove(i);
            proof {
                assert(texts(entry.events@.push(event)) =~= texts(entry.events@).push(event@));
            }
            entry.events.push(event);
            self.hooks.insert(i, entry);
            proof {
                assert(gathered(self.hooks@) =~= with_event(list, *hook, text));
            }
        } else {
            let mut events: Vec<String> = Vec::new();
            events.push(event);
            proof {
                assert(texts(events@) =~= seq![text]);
            }
            self.hooks.push(
                HookEvents {
                    source: hook.source.clone(),
                    events,
                    prompt: hook.prompt.clone(),
                    ttl_secs: hook.ttl_secs,
                },
            );
            proof {
                assert(gathered(self.hooks@) =~= with_event(list, *hook, text));
            }
        }
    }

    /// Takes in a new signal as it was stored, and says how it is announced.
    pub fn note(&mut self, hooks: &Vec<SignalHookConfig>, signal: &SignalRecord) -> (r:
        Announcement)
        ensures
            r == announcement(signal.source@),
            (exists|i: int| is_first_hook(hooks@, signal.source@, i)) ==> (exists|i: int|
                is_first_hook(hooks@, signal.source@, i) && gathered(final(self).hooks@)
                    == with_event(
                    gathered(old(self).hooks@),
                    hooks@[i],
                    description(*signal),
                )),
            !(exists|i: int| is_first_hook(hooks@, signal.source@, i)) ==> final(self).hooks
                == old(self).hooks,
            pair_texts(final(self).ci_passed@) == if signal.source@ == "github_ci_pass"@ {
                pair_texts(old(self).ci_passed@).push(
                    (pr_reference(signal.external_id@), signal.title@),
                )
            } else {
                pair_texts(old(self).ci_passed@)
            },
    {
        let source = signal.source.as_str();
        if let Some(i) = find_hook(hooks, source) {
            let event = describe(signal);
            self.add_event(&hooks[i], event);
            proof {
                assert(is_first_hook(hooks@, signal.source@, i as int));
            }
        }
        proof {
            reveal_strlit("github_merged_pr");
            reveal_strlit("github_ci_pass");
            reveal_strlit("github_release");
        }
        if same(source, "github_merged_pr") {
            proof {
                assert("github_merged_pr"@.len() != "github_ci_pass"@.len());
            }
            Announcement::Nothing
        } else if same(source, "github_release") {
            proof {
                assert("github_release"@.len() != "github_merged_pr"@.len());
                assert("github_release"@[7] == 'r');
                assert("github_ci_pass"@[7] == 'c');
            }
            Announcement::Forced
        } else if same(source, "github_ci_pass") {
            let pair = (pr_ref(signal.external_id.as_str()), signal.title.clone());
            proof {
                assert(pair_texts(self.ci_passed@.push(pair)) =~= pair_texts(self.ci_passed@).push(
                    (pair.0@, pair.1@),
                ));
            }
            self.ci_passed.push(pair);
            Announcement::Nothing
        } else {
            Announcement::ByRules
        }
    }
}

impl PollBatch {
    /// Takes in what storing an update came to: whether the signal is new, and
    /// the signal as it was stored, where it could be read. One that is not new
    /// changes nothing and is not announced.
    pub fn note_stored(
        &mut self,
        hooks: &Vec<SignalHookConfig>,
        is_new: bool,
        stored: &Option<SignalRecord>,
    ) -> (r: Announcement)
        ensures
            !is_new || *stored is None ==> {
                &&& r == Announcement::Nothing
                &&& final(self).hooks == old(self).hooks
                &&& final(self).ci_passed == old(self).ci_passed
            },
            is_new && *stored is Some ==> {
                let signal = stored->0;
                &&& r == announcement(signal.source@)
                &&& (exists|i: int| is_first_hook(hooks@, signal.source@, i)) ==> (exists|i: int|
                    is_first_hook(hooks@, signal.source@, i) && gathered(final(self).hooks@)
                        == with_event(
                        gathered(old(self).hooks@),
                        hooks@[i],
                        description(signal),
                    ))
                &&& !(exists|i: int| is_first_hook(hooks@, signal.source@, i))
                    ==> final(self).hooks == old(self).hooks
                &&& pair_texts(final(self).ci_passed@) == if signal.source@
                    == "github_ci_pass"@ {
                    pair_texts(old(self).ci_passed@).push(
                        (pr_reference(signal.external_id@), signal.title@),
                    )
                } else {
                    pair_texts(old(self).ci_passed@)
                }
            },
    {
        if !is_new {
            return Announcement::Nothing;
        }
        match stored {
            Some(signal) => self.note(hooks, signal),
            None => Announcement::Nothing,
        }
    }
}

// ---------------------------------------------------------------------------
// The end of a round
// ---------------------------------------------------------------------------

/// The references of a list of passed checks.
pub open spec fn references(passed: Seq<(Seq<char>, Seq<char>)>) -> Seq<Seq<char>> {
    passed.map_values(|p: (Seq<char>, Seq<char>)| p.0)
}

/// The announcement of passed checks: of one its title, of more their number
/// and their pull requests.
pub open spec fn ci_message(passed: Seq<(Seq<char>, Seq<char>)>) -> Option<Seq<char>> {
    if passed.len() == 0 {
        None
    } else if passed.len() == 1 {
        Some(passed[0].1)
    } else {
        Some(
            "\u{2705} CI passed on "@ + decimal(passed.len() as int) + " PRs: "@ + join(
                references(passed),
                ", "@,
            ),
        )
    }
}

/// The announcement of passed checks.
pub fn ci_text(passed: &Vec<(String, String)>) -> (r: Option<String>)
    ensures
        opt_text(r) == ci_message(pair_texts(passed@)),
{
    let n: usize = passed.len();
    proof {
        assert(pair_texts(passed@).len() == passed@.len());
    }
    if n == 0 {
        return None;
    }
    if n == 1 {
        proof {
            assert(pair_texts(passed@)[0].1 == passed@[0].1@);
        }
        return Some(passed[0].1.clone());
    }
    let ghost all = references(pair_texts(passed@));
    let mut refs: Vec<String> = Vec::new();
    let mut i: usize = 0;
    proof {
        assert(texts(refs@) =~= all.take(0));
    }
    while i < n
        invariant
            n == passed@.len(),
            0 <= i <= n,
            all == references(pair_texts(passed@)),
            texts(refs@) == all.take(i as int),
        decreases n - i,
    {
        let one = passed[i].0.clone();
        proof {
            assert(texts(refs@.push(one)) =~= texts(refs@).push(one@));
            assert(all.take(i + 1) =~= all.take(i as int).push(one@));
        }
        refs.push(one);
        i = i + 1;
    }
    proof {
        assert(all.take(n as int) =~= all);
    }
    let count = number(n as u64);
    let list = joined(&refs, ", ");
    Some(cat4("\u{2705} CI passed on ", count.as_str(), " PRs: ", list.as_str()))
}

/// A text sent to a workspace's chat, where there are both.
pub open spec fn sent(target: Option<ChatTarget>, text: Option<Seq<char>>) -> Seq<Act> {
    match (target, text) {
        (Some(t), Some(s)) => seq![Act::Send(t, s)],
        _ => seq![],
    }
}

/// The job that tells the coordinator what a hook has gathered.
pub open spec fn follow_up(
    entry: Gathered,
    target: Option<ChatTarget>,
    slot: Seq<char>,
) -> Job {
    Job::SignalFollowThrough(
        entry.events,
        entry.source,
        if entry.prompt.len() == 0 {
            None
        } else {
            Some(entry.prompt)
        },
        entry.ttl_secs,
        target,
        slot,
    )
}

/// The jobs that tell the coordinator what hooks have gathered.
pub open spec fn follow_ups(
    list: Seq<Gathered>,
    target: Option<ChatTarget>,
    slot: Seq<char>,
) -> Seq<Act> {
    list.map_values(|g: Gathered| Act::Enqueue(follow_up(g, target, slot)))
}

/// Sends a notification to a workspace's chat, where it has one.
pub fn announce(target: Option<ChatTarget>, text: &Option<String>) -> (r: Vec<Action>)
    ensures
        acts(r@) == sent(target, opt_text(*text)),
{
    let mut out: Vec<Action> = Vec::new();
    if let Some(t) = target {
        if let Some(s) = text {
            plan(&mut out, send(t, s.as_str()));
        }
    }
    proof {
        assert(acts(out@) =~= sent(target, opt_text(*text)));
    }
    out
}

/// Ends a round of polling: announces the passed checks and the notifications
/// that the rules held back until now, and tells the coordinator what the
/// hooks have gathered.
pub fn finish_round(
    batch: PollBatch,
    held_back: &Option<String>,
    target: Option<ChatTarget>,
    slot: &str,
) -> (r: Vec<Action>)
    ensures
        acts(r@) == sent(target, ci_message(pair_texts(batch.ci_passed@))) + sent(
            target,
            opt_text(*held_back),
        ) + follow_ups(gathered(batch.hooks@), target, slot@),
{
    let PollBatch { hooks, ci_passed } = batch;
    let mut out: Vec<Action> = Vec::new();
    let ci = ci_text(&ci_passed);
    if let Some(t) = target {
        if let Some(s) = &ci {
            plan(&mut out, send(t, s.as_str()));
        }
        if let Some(s) = held_back {
            plan(&mut out, send(t, s.as_str()));
        }
    }
    let ghost head = sent(target, ci_message(pair_texts(ci_passed@))) + sent(
        target,
        opt_text(*held_back),
    );
    let ghost all = gathered(hooks@);
    proof {
        assert(acts(out@) =~= head);
        assert(all.skip(0) =~= all);
        assert(head + follow_ups(all.take(0), target, slot@) =~= head);
    }
    let mut rest = hooks;
    let ghost mut k: int = 0;
    while rest.len() > 0
        invariant
            0 <= k <= all.len(),
            gathered(rest@) == all.skip(k),
            acts(out@) == head + follow_ups(all.take(k), target, slot@),
        decreases rest@.len(),
    {
        proof {
            assert(gathered(rest@).len() == rest@.len());
            assert(k < all.len());
            assert(gathered(rest@)[0] == all.skip(k)[0]);
        }
        let ghost old_rest = rest@;
        let entry = rest.remove(0);
        let ghost one = entry@;
        let HookEvents { source, events, prompt, ttl_secs } = entry;
        let prompt_override = if prompt.as_str().is_empty() {
            None
        } else {
            Some(prompt)
        };
        plan(
            &mut out,
            Action::Enqueue(
                CoordinatorJob::SignalFollowThrough {
                    signals: events,
                    source,
                    prompt_override,
                    ttl_secs,
                    telegram: target,
                    slot_name: slot.to_owned(),
                },
            ),
        );
        proof {
            assert(one == all[k]);
            assert(gathered(rest@) =~= all.skip(k + 1)) by {
                assert forall|j: int| 0 <= j < rest@.len() implies gathered(rest@)[j] == all.skip(
                    k + 1,
                )[j] by {
                    assert(rest@[j] == old_rest[j + 1]);
                    assert(gathered(old_rest)[j + 1] == all.skip(k)[j + 1]);
                }
            }
            assert(follow_ups(all.take(k + 1), target, slot@) =~= follow_ups(
                all.take(k),
                target,
                slot@,
            ).push(Act::Enqueue(follow_up(one, target, slot@))));
            assert(acts(out@) =~= head + follow_ups(all.take(k + 1), target, slot@));
            k = k + 1;
        }
    }
    proof {
        assert(all.take(k) =~= all);
    }
    out
}

/// The coordinator is told of a source's events in one message: no two of the
/// jobs that end a round are for the same source.
pub open spec fn one_per_source(list: Seq<Gathered>) -> bool {
    forall|i: int, j: int|
        0 <= i < j < list.len() ==> (#[trigger] list[i]).source != (#[trigger] list[j]).source
}

/// Gathering an event keeps one entry per source, and no event is lost.
pub proof fn law_gathers_by_source(list: Seq<Gathered>, hook: SignalHookConfig, event: Seq<char>)
    requires
        one_per_source(list),
    ensures
        one_per_source(with_event(list, hook, event)),
        exists|k: int|
            0 <= k < with_event(list, hook, event).len() && (#[trigger] with_event(
                list,
                hook,
                event,
            )[k]).source == hook.source@ && with_event(list, hook, event)[k].events.last()
                == event,
        list.len() <= with_event(list, hook, event).len(),
        forall|i: int|
            0 <= i < list.len() && (#[trigger] list[i]).source != hook.source@ ==> with_event(
                list,
                hook,
                event,
            )[i] == list[i],
{
    lemma_gathered_at_found(list, hook.source@);
    let k = gathered_at(list, hook.source@);
    let new = with_event(list, hook, event);
    assert(new[k].source == hook.source@);
    assert(new[k].events.last() == event);
}

proof fn lemma_gathered_at_found(list: Seq<Gathered>, source: Seq<char>)
    ensures
        0 <= gathered_at(list, source) <= list.len(),
        forall|i: int| 0 <= i < gathered_at(list, source) ==> (#[trigger] list[i]).source != source,
        gathered_at(list, source) < list.len() ==> list[gathered_at(list, source)].source == source,
    decreases list.len(),
{
    if list.len() > 0 && list[0].source != source {
        let t = list.drop_first();
        lemma_gathered_at_found(t, source);
        assert forall|i: int| 0 <= i < gathered_at(list, source) implies (#[trigger] list[i]).source
            != source by {
            if i > 0 {
                assert(list[i] == t[i - 1]);
            }
        }
        if gathered_at(list, source) < list.len() {
            assert(list[gathered_at(list, source)] == t[gathered_at(t, source)]);
        }
    }
}

/// A hook is for the signals of its own source and of the sources that its name
/// and an underscore begin, and for no others.
pub proof fn law_hooks_go_by_source(hook: SignalHookConfig, source: Seq<char>, rest: Seq<char>)
    ensures
        hook_matches(hook, hook.source@),
        hook_matches(hook, hook.source@ + "_"@ + rest),
        hook_matches(hook, source) && source != hook.source@ ==> source.len() > hook.source@.len()
            && source[hook.source@.len() as int] == '_' && source.take(
            hook.source@.len() as int,
        ) == hook.source@,
{
    reveal_strlit("_");
    let head = hook.source@ + "_"@;
    let n = hook.source@.len() as int;
    assert((head + rest).subrange(0, head.len() as int) =~= head);
    if hook_matches(hook, source) && source != hook.source@ {
        assert(source.subrange(0, head.len() as int) == head);
        assert(source[n] == source.subrange(0, head.len() as int)[n]);
        assert(source.take(n) =~= source.subrange(0, head.len() as int).take(n));
        assert(head.take(n) =~= hook.source@);
    }
}

/// A signal is described by its title, with its address where it has one, else
/// with the first line of its text where it has one.
pub proof fn law_description_tells_the_signal(signal: SignalRecord)
    ensures
        starts_with(description(signal), signal.title@),
        signal.url is Some ==> description(signal) == signal.title@ + " ("@ + signal.url->0@
            + ")"@,
        signal.url is None && signal.body is Some ==> ends_with(
            description(signal),
            first_line(signal.body->0@),
        ),
        signal.url is None && signal.body is None ==> description(signal) == signal.title@,
{
    let d = description(signal);
    assert(d.subrange(0, signal.title@.len() as int) =~= signal.title@);
    if signal.url is None && signal.body is Some {
        let l = first_line(signal.body->0@);
        assert(d.subrange(d.len() - l.len(), d.len() as int) =~= l);
    }
}

/// The number of a pull request is the part of the identifier before the last
/// dash, whatever stands before it.
pub proof fn law_reference_names_the_pr(repo: Seq<char>, number: Seq<char>, rest: Seq<char>)
    requires
        !number.contains('-'),
        !rest.contains('-'),
    ensures
        pr_reference(repo + seq!['-'] + number + seq!['-'] + rest) == "#"@ + number,
        pr_reference(number + seq!['-'] + rest) == "#"@ + number,
        pr_reference(rest) == Seq::<char>::empty(),
{
    lemma_split_last(repo + seq!['-'] + number, '-', rest);
    lemma_split_last(repo, '-', number);
    lemma_split_last(number, '-', rest);
    lemma_split_last(repo, '-', rest);
}

/// Merges and passing checks are not announced one by one, a release always is,
/// and every other signal goes by the rules.
pub proof fn law_what_is_announced(source: Seq<char>)
    ensures
        announcement("github_merged_pr"@) == Announcement::Nothing,
        announcement("github_ci_pass"@) == Announcement::Nothing,
        announcement("github_release"@) == Announcement::Forced,
        source != "github_merged_pr"@ && source != "github_ci_pass"@ && source
            != "github_release"@ ==> announcement(source) == Announcement::ByRules,
{
    reveal_strlit("github_merged_pr");
    reveal_strlit("github_ci_pass");
    reveal_strlit("github_release");
    assert("github_merged_pr"@[7] == 'm' && "github_ci_pass"@[7] == 'c' && "github_release"@[7]
        == 'r');
}

/// Passing checks are told together: nothing where none passed, the title where
/// one did, else how many did and the reference of each.
pub proof fn law_passed_checks_are_told_together(passed: Seq<(Seq<char>, Seq<char>)>, k: int)
    ensures
        passed.len() == 0 <==> ci_message(passed) is None,
        passed.len() == 1 ==> ci_message(passed) == Some(passed[0].1),
        passed.len() > 1 ==> starts_with(
            ci_message(passed)->0,
            "\u{2705} CI passed on "@ + decimal(passed.len() as int) + " PRs: "@,
        ),
        passed.len() > 1 && 0 <= k < passed.len() ==> contains(ci_message(passed)->0, passed[k].0),
{
    if passed.len() > 1 {
        let head = "\u{2705} CI passed on "@ + decimal(passed.len() as int) + " PRs: "@;
        let all = join(references(passed), ", "@);
        let m = ci_message(passed)->0;
        assert(m.subrange(0, head.len() as int) =~= head);
        if 0 <= k < passed.len() {
            assert(references(passed)[k] == passed[k].0);
            lemma_join_holds(references(passed), ", "@, k);
            lemma_inside(head, all, seq![], passed[k].0);
            assert(head + all + seq![] =~= m);
        }
    }
}

/// A text is sent exactly where there is one and a chat to send it to.
pub proof fn law_text_goes_to_the_chat(target: Option<ChatTarget>, text: Option<Seq<char>>)
    ensures
        target is Some && text is Some ==> sent(target, text) == seq![
            Act::Send(target->0, text->0),
        ],
        target is None || text is None ==> sent(target, text).len() == 0,
{
}

/// Each hook that fired is followed up once, in order, with all that was
/// gathered for it, with its own prompt where it has one.
pub proof fn law_every_hook_is_followed_up(
    list: Seq<Gathered>,
    target: Option<ChatTarget>,
    slot: Seq<char>,
    k: int,
)
    requires
        0 <= k < list.len(),
    ensures
        follow_ups(list, target, slot).len() == list.len(),
        follow_ups(list, target, slot)[k] is Enqueue,
        list[k].prompt.len() > 0 ==> follow_ups(list, target, slot)[k] == Act::Enqueue(
            Job::SignalFollowThrough(
                list[k].events,
                list[k].source,
                Some(list[k].prompt),
                list[k].ttl_secs,
                target,
                slot,
            ),
        ),
        list[k].prompt.len() == 0 ==> follow_ups(list, target, slot)[k] == Act::Enqueue(
            Job::SignalFollowThrough(
                list[k].events,
                list[k].source,
                None,
                list[k].ttl_secs,
                target,
                slot,
            ),
        ),
{
}

/// An event is added behind those that its hook has gathered before; the first
/// one of a hook brings the hook's prompt and time limit.
pub proof fn law_event_is_added_last(
    list: Seq<Gathered>,
    hook: SignalHookConfig,
    event: Seq<char>,
    k: int,
)
    requires
        one_per_source(list),
    ensures
        0 <= k < list.len() && list[k].source == hook.source@ ==> with_event(list, hook, event)
            == list.update(k, Gathered { events: list[k].events.push(event), ..list[k] }),
        (forall|j: int| 0 <= j < list.len() ==> (#[trigger] list[j]).source != hook.source@)
            ==> with_event(list, hook, event) == list.push(
            Gathered {
                source: hook.source@,
                events: seq![event],
                prompt: hook.prompt@,
                ttl_secs: hook.ttl_secs,
            },
        ),
{
    lemma_gathered_at_found(list, hook.source@);
}

/// A signal goes to the first hook that is for its source.
pub proof fn law_first_matching_hook_is_taken(
    hooks: Seq<SignalHookConfig>,
    source: Seq<char>,
    i: int,
    j: int,
)
    ensures
        is_first_hook(hooks, source, i) && 0 <= j < hooks.len() && hook_matches(hooks[j], source)
            ==> i <= j,
        is_first_hook(hooks, source, i) ==> 0 <= i < hooks.len() && hook_matches(
            hooks[i],
            source,
        ),
        0 <= i < hooks.len() && hook_matches(hooks[i], source) && (forall|k: int|
            0 <= k < i ==> !hook_matches(#[trigger] hooks[k], source)) ==> is_first_hook(
            hooks,
            source,
            i,
        ),
{
}

} // verus!
