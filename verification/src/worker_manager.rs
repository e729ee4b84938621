//! The worker manager: which workers run, which messages wait for them, and
//! what the state file says about them. Git, agents and files are the
//! caller's.

use crate::json::{
    alike, array_field, compact, field, lemma_alike_items, lemma_alike_texts, lemma_array_tree,
    lemma_field_is, lemma_member_at, lemma_raw_token, lemma_set_keeps_others,
    lemma_set_stays_readable, lemma_set_then_get, member_at, members_of, object, parse,
    parse_or_problem, parsed, read, readable, reads_back, render, set_field, stored, text,
    text_field, trees, Json, NESTING, RAW_TOKEN, Tree,
};
use crate::text::{cat2, cat3, lines, opt_text, same, texts, trim};
use crate::textmap::TextMap;
use crate::worker::{
    first_filled, first_filled_line, law_first_filled_line_counts, Worker, WorkerState,
};
use crate::worker_events::AgentEventWire;
use vstd::prelude::*;

verus! {

// ---------------------------------------------------------------------------
// Running workers and waiting messages
// ---------------------------------------------------------------------------

/// The workers in flight.
pub struct WorkerManager {
    /// The workers that run an agent now.
    live: TextMap<()>,
    /// The messages that wait until an agent is done.
    pending: TextMap<Vec<String>>,
    /// The directory of each worker's workspace.
    work_dirs: TextMap<String>,
}

/// What the worker manager knows.
pub struct Fleet {
    pub live: Set<Seq<char>>,
    pub pending: Map<Seq<char>, Seq<Seq<char>>>,
    pub work_dirs: Map<Seq<char>, Seq<char>>,
}

impl WorkerManager {
    pub closed spec fn wf(self) -> bool {
        self.live.wf() && self.pending.wf() && self.work_dirs.wf()
    }

    /// What the worker manager knows.
    pub closed spec fn fleet(self) -> Fleet {
        Fleet {
            live: self.live.map().dom(),
            pending: self.pending.map().map_values(|q: Vec<String>| texts(q@)),
            work_dirs: self.work_dirs.map().map_values(|d: String| d@),
        }
    }
}

/// The messages that wait for a worker.
pub open spec fn waiting(fleet: Fleet, id: Seq<char>) -> Seq<Seq<char>> {
    if fleet.pending.contains_key(id) {
        fleet.pending[id]
    } else {
        seq![]
    }
}

/// A worker runs an agent.
pub open spec fn fleet_started(fleet: Fleet, id: Seq<char>) -> Fleet {
    Fleet { live: fleet.live.insert(id), ..fleet }
}

/// A worker has been created in a workspace.
pub open spec fn fleet_created(fleet: Fleet, id: Seq<char>, dir: Seq<char>) -> Fleet {
    Fleet {
        live: fleet.live.insert(id),
        work_dirs: fleet.work_dirs.insert(id, dir),
        ..fleet
    }
}

/// A message waits for a worker, behind those that wait already.
pub open spec fn fleet_queued(fleet: Fleet, id: Seq<char>, message: Seq<char>) -> Fleet {
    Fleet { pending: fleet.pending.insert(id, waiting(fleet, id).push(message)), ..fleet }
}

/// A worker's agent is done: the worker does not run any more, and the first
/// message that waited for it is taken up.
pub open spec fn fleet_ended(fleet: Fleet, id: Seq<char>) -> Fleet {
    Fleet {
        live: fleet.live.remove(id),
        pending: if waiting(fleet, id).len() > 0 {
            fleet.pending.insert(id, waiting(fleet, id).drop_first())
        } else {
            fleet.pending
        },
        ..fleet
    }
}

/// A worker is closed.
pub open spec fn fleet_closed(fleet: Fleet, id: Seq<char>) -> Fleet {
    Fleet {
        live: fleet.live.remove(id),
        pending: fleet.pending.remove(id),
        work_dirs: fleet.work_dirs.remove(id),
    }
}

/// A worker's work is over.
pub open spec fn fleet_finished(fleet: Fleet, id: Seq<char>) -> Fleet {
    Fleet { work_dirs: fleet.work_dirs.remove(id), ..fleet }
}

/// What is done with a message to a worker.
pub enum Delivery {
    /// It waits until the worker's agent is done.
    Queued,
    /// A new session is started with it, in the workspace of this directory.
    Resume { work_dir: String },
    /// The worker is not known.
    NotFound { error: String },
}

impl WorkerManager {
    /// A manager without workers.
    pub fn new() -> (r: WorkerManager)
        ensures
            r.wf(),
            r.fleet().live == Set::<Seq<char>>::empty(),
            r.fleet().pending == Map::<Seq<char>, Seq<Seq<char>>>::empty(),
            r.fleet().work_dirs == Map::<Seq<char>, Seq<char>>::empty(),
    {
        let r = WorkerManager {
            live: TextMap::new(),
            pending: TextMap::new(),
            work_dirs: TextMap::new(),
        };
        proof {
            assert(r.fleet().live =~= Set::<Seq<char>>::empty());
            assert(r.fleet().pending =~= Map::<Seq<char>, Seq<Seq<char>>>::empty());
            assert(r.fleet().work_dirs =~= Map::<Seq<char>, Seq<char>>::empty());
        }
        r
    }

    /// Whether a worker runs an agent now.
    pub fn is_live(&self, worker_id: &str) -> (r: bool)
        ensures
            r == self.fleet().live.contains(worker_id@),
    {
        self.live.contains(worker_id)
    }

    /// The messages that wait for a worker.
    pub fn pending_messages(&self, worker_id: &str) -> (r: Vec<String>)
        ensures
            texts(r@) == waiting(self.fleet(), worker_id@),
    {
        let mut out: Vec<String> = Vec::new();
        proof {
            assert(texts(out@) =~= seq![]);
        }
        if let Some(queue) = self.pending.get(worker_id) {
            let n: usize = queue.len();
            let mut i: usize = 0;
            let ghost all = texts(queue@);
            while i < n
                invariant
                    n == queue@.len(),
                    all == texts(queue@),
                    0 <= i <= n,
                    texts(out@) =~= all.take(i as int),
                decreases n - i,
            {
                let one = queue[i].clone();
                proof {
                    assert(texts(out@.push(one)) =~= texts(out@).push(one@));
                }
                out.push(one);
                i = i + 1;
            }
            proof {
                assert(all.take(n as int) =~= all);
            }
        }
        out
    }

    /// Notes that a worker runs an agent.
    pub fn note_started(&mut self, worker_id: &str)
        requires
            old(self).wf(),
        ensures
            final(self).wf(),
            final(self).fleet() == fleet_started(old(self).fleet(), worker_id@),
    {
        self.live.insert(worker_id, ());
        proof {
            assert(self.fleet().live =~= old(self).fleet().live.insert(worker_id@));
        }
    }

    /// Notes that a worker has been created in the workspace of a directory.
    pub fn note_created(&mut self, worker_id: &str, work_dir: &str)
        requires
            old(self).wf(),
        ensures
            final(self).wf(),
            final(self).fleet() == fleet_created(old(self).fleet(), worker_id@, work_dir@),
    {
        self.work_dirs.insert(worker_id, work_dir.to_owned());
        self.live.insert(worker_id, ());
        proof {
            assert(self.fleet().live =~= old(self).fleet().live.insert(worker_id@));
            assert(self.fleet().work_dirs =~= old(self).fleet().work_dirs.insert(
                worker_id@,
                work_dir@,
            ));
        }
    }

    fn queue_message(&mut self, worker_id: &str, message: &str)
        requires
            old(self).wf(),
        ensures
            final(self).wf(),
            final(self).fleet() == fleet_queued(old(self).fleet(), worker_id@, message@),
    {
        let ghost before = waiting(self.fleet(), worker_id@);
        let mut queue = match self.pending.remove(worker_id) {
            Some(q) => q,
            None => Vec::new(),
        };
        proof {
            assert(texts(queue@) =~= before);
        }
        let one = message.to_owned();
        proof {
            assert(texts(queue@.push(one)) =~= texts(queue@).push(one@));
        }
        queue.push(one);
        self.pending.insert(worker_id, queue);
        proof {
            assert(self.fleet().pending =~= old(self).fleet().pending.insert(
                worker_id@,
                before.push(message@),
            ));
        }
    }

    /// Takes in a message to a worker. While the worker's agent runs the
    /// message waits; else a new session is to be started with it.
    pub fn send_message(&mut self, worker_id: &str, message: &str) -> (r: Delivery)
        requires
            old(self).wf(),
        ensures
            final(self).wf(),
            is_delivery(r, old(self).fleet(), final(self).fleet(), worker_id@, message@),
    {
        if self.live.contains(worker_id) {
            self.queue_message(worker_id, message);
            Delivery::Queued
        } else {
            match self.work_dirs.get(worker_id) {
                Some(dir) => Delivery::Resume { work_dir: dir.clone() },
                None => Delivery::NotFound { error: cat3("worker ", worker_id, " not found") },
            }
        }
    }

    /// Closes a worker, and returns the directory of its workspace. Messages
    /// that waited for it are dropped.
    pub fn close_worker(&mut self, worker_id: &str) -> (r: Result<String, String>)
        requires
            old(self).wf(),
        ensures
            final(self).wf(),
            old(self).fleet().work_dirs.contains_key(worker_id@) ==> {
                &&& r is Ok
                &&& r->Ok_0@ == old(self).fleet().work_dirs[worker_id@]
                &&& final(self).fleet() == fleet_closed(old(self).fleet(), worker_id@)
            },
            !old(self).fleet().work_dirs.contains_key(worker_id@) ==> {
                &&& r is Err
                &&& r->Err_0@ == "worker "@ + worker_id@ + " not found or not running"@
                &&& final(self).fleet() == old(self).fleet()
            },
    {
        match self.work_dirs.remove(worker_id) {
            Some(dir) => {
                let _ = self.live.remove(worker_id);
                let _ = self.pending.remove(worker_id);
                proof {
                    assert(self.fleet().live =~= old(self).fleet().live.remove(worker_id@));
                    assert(self.fleet().pending =~= old(self).fleet().pending.remove(worker_id@));
                    assert(self.fleet().work_dirs =~= old(self).fleet().work_dirs.remove(
                        worker_id@,
                    ));
                }
                Ok(dir)
            },
            None => {
                proof {
                    assert(self.fleet().work_dirs =~= old(self).fleet().work_dirs);
                }
                Err(cat3("worker ", worker_id, " not found or not running"))
            },
        }
    }

    /// Notes that a worker's agent is done, and returns the message that the
    /// worker takes up next. The worker counts as not running before the
    /// messages are looked at, so a message that comes now is not left waiting.
    pub fn end_run(&mut self, worker_id: &str) -> (r: Option<String>)
        requires
            old(self).wf(),
        ensures
            final(self).wf(),
            final(self).fleet() == fleet_ended(old(self).fleet(), worker_id@),
            opt_text(r) == if waiting(old(self).fleet(), worker_id@).len() > 0 {
                Some(waiting(old(self).fleet(), worker_id@)[0])
            } else {
                None
            },
    {
        let ghost before = waiting(self.fleet(), worker_id@);
        let _ = self.live.remove(worker_id);
        proof {
            assert(self.fleet().live =~= old(self).fleet().live.remove(worker_id@));
        }
        match self.pending.remove(worker_id) {
            Some(q) => {
                let mut queue = q;
                proof {
                    assert(texts(queue@) == before);
                }
                if queue.len() > 0 {
                    let ghost full = queue@;
                    let message = queue.remove(0);
                    proof {
                        assert(texts(full)[0] == message@);
                        assert(texts(queue@) =~= before.drop_first());
                    }
                    self.pending.insert(worker_id, queue);
                    proof {
                        assert(self.fleet().pending =~= old(self).fleet().pending.insert(
                            worker_id@,
                            before.drop_first(),
                        ));
                    }
                    Some(message)
                } else {
                    self.pending.insert(worker_id, queue);
                    proof {
                        assert(self.fleet().pending =~= old(self).fleet().pending);
                    }
                    None
                }
            },
            None => {
                proof {
                    assert(self.fleet().pending =~= old(self).fleet().pending);
                }
                None
            },
        }
    }

    /// Notes that a worker's work is over.
    pub fn note_finished(&mut self, worker_id: &str)
        requires
            old(self).wf(),
        ensures
            final(self).wf(),
            final(self).fleet() == fleet_finished(old(self).fleet(), worker_id@),
    {
        let _ = self.work_dirs.remove(worker_id);
        proof {
            assert(self.fleet().work_dirs =~= old(self).fleet().work_dirs.remove(worker_id@));
        }
    }
}

// ---------------------------------------------------------------------------
// The run of an agent
// ---------------------------------------------------------------------------

/// What is done next for a worker.
pub enum RunAction {
    /// The state file gets another phase.
    SetPhase(String),
    /// The state file gets another session.
    SetSession(String),
    /// The log gets a message of the user.
    LogUser(String),
    /// The log gets an error.
    LogError(String),
    /// A new agent takes up the session with this prompt.
    Resume { prompt: String, session_id: Option<String> },
    /// The repository is brought up to date, and the worktree is removed.
    CleanUp,
    /// The worker manager forgets the worker.
    Forget,
}

/// What is done next for a worker, with texts for strings.
pub enum RunAct {
    SetPhase(Seq<char>),
    SetSession(Seq<char>),
    LogUser(Seq<char>),
    LogError(Seq<char>),
    Resume(Seq<char>, Option<Seq<char>>),
    CleanUp,
    Forget,
}

impl View for RunAction {
    type V = RunAct;

    open spec fn view(&self) -> RunAct {
        match *self {
            RunAction::SetPhase(p) => RunAct::SetPhase(p@),
            RunAction::SetSession(s) => RunAct::SetSession(s@),
            RunAction::LogUser(t) => RunAct::LogUser(t@),
            RunAction::LogError(t) => RunAct::LogError(t@),
            RunAction::Resume { prompt, session_id } => RunAct::Resume(
                prompt@,
                opt_text(session_id),
            ),
            RunAction::CleanUp => RunAct::CleanUp,
            RunAction::Forget => RunAct::Forget,
        }
    }
}

/// What a list of actions does.
pub open spec fn run_acts(list: Seq<RunAction>) -> Seq<RunAct> {
    list.map_values(|a: RunAction| a@)
}

/// The run of a worker's agent: the session that it has told of.
pub struct AgentRun {
    pub session_id: Option<String>,
}

/// The session that an event of an agent tells of.
pub open spec fn session_told(event: AgentEventWire) -> Option<Seq<char>> {
    match event {
        AgentEventWire::SessionResult { turns, cost_usd, session_id } => opt_text(session_id),
        _ => None,
    }
}

/// What is done when a run is over, given the message that the worker takes up
/// next.
pub open spec fn end_acts(next: Option<Seq<char>>, session: Option<Seq<char>>) -> Seq<RunAct> {
    match next {
        Some(message) => seq![
            RunAct::SetPhase("running"@),
            RunAct::LogUser(message),
            RunAct::Resume(message, session),
        ],
        None => seq![RunAct::SetPhase("completed"@), RunAct::CleanUp, RunAct::Forget],
    }
}

impl AgentRun {
    /// A run that has told of no session.
    pub fn new() -> (r: AgentRun)
        ensures
            r.session_id is None,
    {
        AgentRun { session_id: None }
    }

    /// Takes in an event: a session that it tells of is noted.
    pub fn take_event(&mut self, event: &AgentEventWire) -> (r: Option<RunAction>)
        ensures
            match session_told(*event) {
                Some(s) => {
                    &&& opt_text(final(self).session_id) == Some(s)
                    &&& r is Some
                    &&& r->0@ == RunAct::SetSession(s)
                },
                None => final(self).session_id == old(self).session_id && r is None,
            },
    {
        match event {
            AgentEventWire::SessionResult { turns, cost_usd, session_id } => match session_id {
                Some(s) => {
                    self.session_id = Some(s.clone());
                    Some(RunAction::SetSession(s.clone()))
                },
                None => None,
            },
            _ => None,
        }
    }

    /// The run is over: the worker takes up the message that has waited
    /// longest, in the same session, or its work is complete.
    pub fn end(self, manager: &mut WorkerManager, worker_id: &str) -> (r: Vec<RunAction>)
        requires
            old(manager).wf(),
        ensures
            final(manager).wf(),
            final(manager).fleet() == fleet_ended(old(manager).fleet(), worker_id@),
            run_acts(r@) == end_acts(
                if waiting(old(manager).fleet(), worker_id@).len() > 0 {
                    Some(waiting(old(manager).fleet(), worker_id@)[0])
                } else {
                    None
                },
                opt_text(self.session_id),
            ),
    {
        let next = manager.end_run(worker_id);
        let ghost told = opt_text(next);
        let ghost session = opt_text(self.session_id);
        let r = match next {
            Some(message) => vec![
                RunAction::SetPhase("running".to_owned()),
                RunAction::LogUser(message.clone()),
                RunAction::Resume { prompt: message, session_id: self.session_id },
            ],
            None => vec![
                RunAction::SetPhase("completed".to_owned()),
                RunAction::CleanUp,
                RunAction::Forget,
            ],
        };
        proof {
            assert(run_acts(r@) =~= end_acts(told, session));
        }
        r
    }
}

/// Whether `list` is what is done once a worker was to be resumed, and `after`
/// the fleet then.
pub open spec fn is_resumed(
    list: Seq<RunAct>,
    before: Fleet,
    after: Fleet,
    id: Seq<char>,
    outcome: Result<(), String>,
) -> bool {
    match outcome {
        Ok(_) => {
            &&& after == fleet_started(before, id)
            &&& list == Seq::<RunAct>::empty()
        },
        Err(e) => {
            &&& after == before
            &&& list == seq![
                RunAct::LogError(e@),
                RunAct::SetPhase("failed"@),
                RunAct::Forget,
            ]
        },
    }
}

/// A new agent was to take up a worker's session: where it did, the worker
/// runs again; where it could not, for the given reason, its work has failed.
pub fn resumed(manager: &mut WorkerManager, worker_id: &str, outcome: &Result<(), String>) -> (r:
    Vec<RunAction>)
    requires
        old(manager).wf(),
    ensures
        final(manager).wf(),
        is_resumed(
            run_acts(r@),
            old(manager).fleet(),
            final(manager).fleet(),
            worker_id@,
            *outcome,
        ),
{
    match outcome {
        Ok(_) => {
            manager.note_started(worker_id);
            let r: Vec<RunAction> = Vec::new();
            proof {
                assert(run_acts(r@) =~= Seq::<RunAct>::empty());
            }
            r
        },
        Err(e) => {
            let r = vec![
                RunAction::LogError(e.clone()),
                RunAction::SetPhase("failed".to_owned()),
                RunAction::Forget,
            ];
            proof {
                assert(run_acts(r@) =~= seq![
                    RunAct::LogError(e@),
                    RunAct::SetPhase("failed"@),
                    RunAct::Forget,
                ]);
            }
            r
        },
    }
}

/// The fleet after a list of messages was sent to a worker that runs.
pub open spec fn fleet_after(fleet: Fleet, id: Seq<char>, messages: Seq<Seq<char>>) -> Fleet
    decreases messages.len(),
{
    if messages.len() == 0 {
        fleet
    } else {
        fleet_queued(fleet_after(fleet, id, messages.drop_last()), id, messages.last())
    }
}

/// Messages to a running worker wait in the order in which they were sent, all
/// of them, behind those that waited already; other workers' messages stay as
/// they are.
pub proof fn law_messages_wait_in_order(fleet: Fleet, id: Seq<char>, messages: Seq<Seq<char>>)
    ensures
        waiting(fleet_after(fleet, id, messages), id) == waiting(fleet, id) + messages,
        forall|other: Seq<char>|
            other != id ==> #[trigger] waiting(fleet_after(fleet, id, messages), other) == waiting(
                fleet,
                other,
            ),
        fleet_after(fleet, id, messages).live == fleet.live,
    decreases messages.len(),
{
    if messages.len() == 0 {
        assert(waiting(fleet, id) + messages =~= waiting(fleet, id));
    } else {
        law_messages_wait_in_order(fleet, id, messages.drop_last());
        assert(waiting(fleet, id) + messages.drop_last().push(messages.last()) =~= (waiting(
            fleet,
            id,
        ) + messages.drop_last()).push(messages.last()));
        assert(messages.drop_last().push(messages.last()) =~= messages);
        let mid = fleet_after(fleet, id, messages.drop_last());
        assert forall|other: Seq<char>| other != id implies #[trigger] waiting(
            fleet_after(fleet, id, messages),
            other,
        ) == waiting(fleet, other) by {
            assert(waiting(mid, other) == waiting(fleet, other));
        }
    }
}

/// When a worker's agent is done the oldest message is taken up, the others
/// keep waiting in their order, and the worker can be resumed.
pub proof fn law_oldest_message_first(fleet: Fleet, id: Seq<char>, message: Seq<char>)
    requires
        waiting(fleet, id).len() > 0,
    ensures
        waiting(fleet_queued(fleet, id, message), id)[0] == waiting(fleet, id)[0],
        waiting(fleet_ended(fleet_queued(fleet, id, message), id), id) == waiting(
            fleet,
            id,
        ).drop_first().push(message),
        !fleet_ended(fleet, id).live.contains(id),
{
    let q = waiting(fleet, id);
    assert(q.push(message).drop_first() =~= q.drop_first().push(message));
}

// ---------------------------------------------------------------------------
// The state file
// ---------------------------------------------------------------------------

/// The position of the first entry for a worker, or the number of entries
/// where there is none.
pub open spec fn worker_at(items: Seq<Tree>, id: Seq<char>) -> int
    decreases items.len(),
{
    if items.len() == 0 || text_field(items[0], "id"@) == Some(id) {
        0
    } else {
        1 + worker_at(items.drop_first(), id)
    }
}

/// The entries of the state file.
pub open spec fn entries_of(state: Tree) -> Option<Seq<Tree>> {
    array_field(state, "worktrees"@)
}

/// The state with other entries.
pub open spec fn with_entries(state: Tree, items: Seq<Tree>) -> Tree {
    set_field(state, "worktrees"@, Tree::Array(items))
}

/// A state that has entries, or null in their place.
pub open spec fn with_place_for_entries(state: Tree) -> Tree {
    match state {
        Tree::Null => Tree::Object(seq![("worktrees"@, Tree::Null)]),
        Tree::Object(members) => if field(state, "worktrees"@) is Some {
            state
        } else {
            Tree::Object(members.push(("worktrees"@, Tree::Null)))
        },
        _ => state,
    }
}

/// The status of a worker in a phase.
pub open spec fn status_in(phase: Seq<char>) -> Seq<char> {
    if phase == "waiting"@ || phase == "running"@ {
        "running"@
    } else {
        "done"@
    }
}

/// An entry in another phase.
pub open spec fn entry_in_phase(entry: Tree, phase: Seq<char>) -> Tree {
    set_field(
        set_field(entry, "phase"@, Tree::Text(phase)),
        "status"@,
        Tree::Text(status_in(phase)),
    )
}

/// An entry with another session.
pub open spec fn entry_in_session(entry: Tree, session_id: Seq<char>) -> Tree {
    set_field(entry, "session_id"@, Tree::Text(session_id))
}

/// A change to an entry.
pub enum Edit {
    Phase(String),
    Session(String),
}

/// An entry after a change.
pub open spec fn edited(entry: Tree, edit: Edit) -> Tree {
    match edit {
        Edit::Phase(p) => entry_in_phase(entry, p@),
        Edit::Session(s) => entry_in_session(entry, s@),
    }
}

/// The state after a change to the first entry for a worker.
pub open spec fn state_edited(state: Tree, id: Seq<char>, edit: Edit) -> Tree {
    let s = with_place_for_entries(state);
    match entries_of(s) {
        Some(items) => {
            let k = worker_at(items, id);
            if 0 <= k < items.len() {
                with_entries(s, items.update(k, edited(items[k], edit)))
            } else {
                s
            }
        },
        None => s,
    }
}

/// Whether a state can be changed: it is an object, or nothing.
pub open spec fn is_editable(state: Tree) -> bool {
    state is Object || state is Null
}

proof fn lemma_worker_at(items: Seq<Tree>, id: Seq<char>)
    ensures
        0 <= worker_at(items, id) <= items.len(),
        forall|i: int|
            0 <= i < worker_at(items, id) ==> text_field(#[trigger] items[i], "id"@) != Some(id),
        worker_at(items, id) < items.len() ==> text_field(items[worker_at(items, id)], "id"@)
            == Some(id),
    decreases items.len(),
{
    if items.len() > 0 && text_field(items[0], "id"@) != Some(id) {
        let t = items.drop_first();
        lemma_worker_at(t, id);
        assert forall|i: int| 0 <= i < worker_at(items, id) implies text_field(
            #[trigger] items[i],
            "id"@,
        ) != Some(id) by {
            if i > 0 {
                assert(items[i] == t[i - 1]);
            }
        }
        if worker_at(items, id) < items.len() {
            assert(items[worker_at(items, id)] == t[worker_at(t, id)]);
        }
    }
}

fn find_worker(items: &Vec<Json>, id: &str) -> (r: usize)
    ensures
        r <= items@.len(),
        r == worker_at(trees(items@), id@),
{
    let n: usize = items.len();
    let ghost all = trees(items@);
    let mut i: usize = 0;
    while i < n
        invariant
            n == items@.len(),
            all == trees(items@),
            0 <= i <= n,
            forall|j: int| 0 <= j < i ==> text_field(#[trigger] all[j], "id"@) != Some(id@),
        decreases n - i,
    {
        let found = match items[i].text_field("id") {
            Some(own) => same(own.as_str(), id),
            None => false,
        };
        proof {
            assert(all[i as int] == items@[i as int].tree());
        }
        if found {
            proof {
                lemma_worker_at(all, id@);
            }
            return i;
        }
        i = i + 1;
    }
    proof {
        lemma_worker_at(all, id@);
    }
    n
}

fn make_place(state: Json) -> (r: Json)
    requires
        is_editable(state.tree()),
    ensures
        r.tree() == with_place_for_entries(state.tree()),
{
    match state {
        Json::Null => {
            let r = object().with("worktrees", Json::Null);
            proof {
                assert(members_of(r.tree()) =~= seq![("worktrees"@, Tree::Null)]);
            }
            r
        },
        other => {
            if other.get("worktrees").is_some() {
                other
            } else {
                other.with("worktrees", Json::Null)
            }
        },
    }
}

fn copy_items(items: &Vec<Json>) -> (r: Vec<Json>)
    ensures
        trees(r@) == trees(items@),
{
    let mut out: Vec<Json> = Vec::new();
    let n: usize = items.len();
    let mut i: usize = 0;
    while i < n
        invariant
            n == items@.len(),
            0 <= i <= n,
            out@.len() == i,
            forall|j: int| 0 <= j < i ==> (#[trigger] out@[j]).tree() == items@[j].tree(),
        decreases n - i,
    {
        out.push(items[i].copy());
        i = i + 1;
    }
    proof {
        assert(trees(out@) =~= trees(items@));
    }
    out
}

fn put_items(state: Json, items: Vec<Json>) -> (r: Json)
    ensures
        r.tree() == with_entries(state.tree(), trees(items@)),
{
    proof {
        lemma_array_tree(items);
    }
    state.set("worktrees", Json::Array(items))
}

fn edit_entry(entry: &Json, edit: &Edit) -> (r: Json)
    ensures
        r.tree() == edited(entry.tree(), *edit),
{
    match edit {
        Edit::Phase(p) => {
            let status = if same(p.as_str(), "waiting") || same(p.as_str(), "running") {
                "running"
            } else {
                "done"
            };
            entry.copy().set("phase", text(p.as_str())).set("status", text(status))
        },
        Edit::Session(s) => entry.copy().set("session_id", text(s.as_str())),
    }
}

/// Changes the first entry for a worker in the state.
pub fn edit_state(state: Json, worker_id: &str, edit: &Edit) -> (r: Json)
    requires
        is_editable(state.tree()),
    ensures
        r.tree() == state_edited(state.tree(), worker_id@, *edit),
{
    let placed = make_place(state);
    let changed = match placed.array_field("worktrees") {
        Some(items) => {
            let k = find_worker(items, worker_id);
            if k < items.len() {
                let mut list = copy_items(items);
                let ghost before = trees(items@);
                proof {
                    assert(trees(list@).len() == list@.len());
                    assert(before[k as int] == items@[k as int].tree());
                }
                list[k] = edit_entry(&items[k], edit);
                proof {
                    assert forall|j: int| 0 <= j < before.len() && j != k implies list@[j].tree()
                        == before[j] by {}
                    assert(trees(list@) =~= before.update(k as int, edited(before[k as int], *edit)));
                }
                Some(list)
            } else {
                None
            }
        },
        None => None,
    };
    match changed {
        Some(list) => put_items(placed, list),
        None => placed,
    }
}

/// The text of the state file after a change to the first entry for a worker.
/// Nothing is to be written where the file is not JSON, nor where it holds
/// something that cannot be changed.
pub fn edit_state_text(raw: &str, worker_id: &str, edit: &Edit) -> (r: Option<String>)
    ensures
        opt_text(r) == match parsed(raw@) {
            Some(state) => if is_editable(state) {
                Some(compact(stored(state_edited(state, worker_id@, *edit))))
            } else {
                None
            },
            None => None,
        },
        r matches Some(written) ==> reads_back(
            written@,
            state_edited(parsed(raw@)->0, worker_id@, *edit),
        ),
{
    match parse(raw) {
        Some(state) => {
            let editable = match &state {
                Json::Object(_) => true,
                Json::Null => true,
                _ => false,
            };
            if editable {
                let changed = edit_state(state, worker_id, edit);
                Some(render(&changed))
            } else {
                None
            }
        },
        None => None,
    }
}

/// The text of the state file with a worker in another phase.
pub fn update_state_phase(raw: &str, worker_id: &str, phase: &str) -> (r: Option<String>)
    ensures
        opt_text(r) == match parsed(raw@) {
            Some(state) => if is_editable(state) {
                Some(compact(stored(phase_updated(state, worker_id@, phase@))))
            } else {
                None
            },
            None => None,
        },
        r matches Some(written) ==> reads_back(
            written@,
            phase_updated(parsed(raw@)->0, worker_id@, phase@),
        ),
{
    edit_state_text(raw, worker_id, &Edit::Phase(phase.to_owned()))
}

/// The text of the state file with another session for a worker.
pub fn update_state_session_id(raw: &str, worker_id: &str, session_id: &str) -> (r: Option<String>)
    ensures
        opt_text(r) == match parsed(raw@) {
            Some(state) => if is_editable(state) {
                Some(compact(stored(session_updated(state, worker_id@, session_id@))))
            } else {
                None
            },
            None => None,
        },
        r matches Some(written) ==> reads_back(
            written@,
            session_updated(parsed(raw@)->0, worker_id@, session_id@),
        ),
{
    edit_state_text(raw, worker_id, &Edit::Session(session_id.to_owned()))
}

/// The state with a worker in another phase.
pub open spec fn phase_updated(state: Tree, id: Seq<char>, phase: Seq<char>) -> Tree {
    let s = with_place_for_entries(state);
    match entries_of(s) {
        Some(items) => {
            let k = worker_at(items, id);
            if 0 <= k < items.len() {
                with_entries(s, items.update(k, entry_in_phase(items[k], phase)))
            } else {
                s
            }
        },
        None => s,
    }
}

/// The state with another session for a worker.
pub open spec fn session_updated(state: Tree, id: Seq<char>, session_id: Seq<char>) -> Tree {
    let s = with_place_for_entries(state);
    match entries_of(s) {
        Some(items) => {
            let k = worker_at(items, id);
            if 0 <= k < items.len() {
                with_entries(s, items.update(k, entry_in_session(items[k], session_id)))
            } else {
                s
            }
        },
        None => s,
    }
}

/// A new worker, as the state file lists it.
pub struct StateEntry {
    pub id: String,
    pub branch: String,
    pub prompt: String,
    pub agent_kind: String,
    pub repo_path: String,
    pub worktree_path: String,
    pub created_at: String,
}

/// The entry for a new worker.
pub open spec fn new_entry(e: StateEntry) -> Tree {
    Tree::Object(
        seq![
            ("id"@, Tree::Text(e.id@)),
            ("branch"@, Tree::Text(e.branch@)),
            ("prompt"@, Tree::Text(e.prompt@)),
            ("agent_kind"@, Tree::Text(e.agent_kind@)),
            ("repo_path"@, Tree::Text(e.repo_path@)),
            ("worktree_path"@, Tree::Text(e.worktree_path@)),
            ("phase"@, Tree::Text("starting"@)),
            ("status"@, Tree::Text("running"@)),
            ("created_at"@, Tree::Text(e.created_at@)),
        ],
    )
}

/// The entry for a new worker.
pub fn build_entry(e: &StateEntry) -> (r: Json)
    ensures
        r.tree() == new_entry(*e),
{
    let r = object().with("id", text(e.id.as_str())).with("branch", text(e.branch.as_str())).with(
        "prompt",
        text(e.prompt.as_str()),
    ).with("agent_kind", text(e.agent_kind.as_str())).with(
        "repo_path",
        text(e.repo_path.as_str()),
    ).with("worktree_path", text(e.worktree_path.as_str())).with("phase", text("starting")).with(
        "status",
        text("running"),
    ).with("created_at", text(e.created_at.as_str()));
    proof {
        assert(members_of(r.tree()) =~= new_entry(*e)->Object_0);
    }
    r
}

/// The entries with one for a worker: in place of the first that it has, else
/// at the end.
pub open spec fn upserted(items: Seq<Tree>, id: Seq<char>, entry: Tree) -> Seq<Tree> {
    let k = worker_at(items, id);
    if 0 <= k < items.len() {
        items.update(k, entry)
    } else {
        items.push(entry)
    }
}

/// A state file of a workspace that has had no workers yet.
pub open spec fn fresh_state() -> Tree {
    Tree::Object(
        seq![
            ("session_name"@, Tree::Text("apiari"@)),
            ("worktrees"@, Tree::Array(seq![])),
            ("last_inbox_pos"@, Tree::Number(0)),
        ],
    )
}

/// A state file of a workspace that has had no workers yet.
pub fn new_state() -> (r: Json)
    ensures
        r.tree() == fresh_state(),
        entries_of(r.tree()) == Some(Seq::<Tree>::empty()),
{
    let r = object().with("session_name", text("apiari")).with(
        "worktrees",
        crate::json::array(),
    ).with("last_inbox_pos", Json::Number(0));
    proof {
        let members = fresh_state()->Object_0;
        assert(members_of(r.tree()) =~= members);
        reveal_strlit("session_name");
        reveal_strlit("worktrees");
        assert("session_name"@.len() != "worktrees"@.len());
        crate::json::lemma_member_at(members, "worktrees"@);
        let k = crate::json::member_at(members, "worktrees"@);
        assert(members[1].0 == "worktrees"@);
        assert(members[0].0 != "worktrees"@);
        assert(k == 1);
    }
    r
}

/// Lists a worker in the state.
pub fn upsert_entry(state: Json, entry: &StateEntry) -> (r: Json)
    requires
        entries_of(state.tree()) is Some,
    ensures
        r.tree() == with_entries(
            state.tree(),
            upserted(entries_of(state.tree())->0, entry.id@, new_entry(*entry)),
        ),
{
    let one = build_entry(entry);
    let list = match state.array_field("worktrees") {
        Some(items) => {
            let k = find_worker(items, entry.id.as_str());
            let mut list = copy_items(items);
            let ghost before = trees(items@);
            proof {
                assert(trees(list@).len() == list@.len());
                assert forall|j: int| 0 <= j < before.len() implies list@[j].tree()
                    == before[j] by {
                    assert(trees(list@)[j] == before[j]);
                }
            }
            if k < list.len() {
                list[k] = one;
            } else {
                list.push(one);
            }
            proof {
                assert(trees(list@) =~= upserted(before, entry.id@, new_entry(*entry)));
            }
            list
        },
        None => Vec::new(),
    };
    put_items(state, list)
}

/// The state that a file holds, or that of a workspace without workers where
/// there is no file that is JSON.
pub open spec fn state_in(raw: Option<Seq<char>>) -> Tree {
    match raw {
        Some(text) => match parsed(text) {
            Some(state) => state,
            None => fresh_state(),
        },
        None => fresh_state(),
    }
}

/// The text of the state file with a worker in it. Nothing where the file
/// holds something that has no list of workers.
pub fn upsert_state_entry(raw: &Option<String>, entry: &StateEntry) -> (r: Option<String>)
    ensures
        opt_text(r) == match entries_of(state_in(opt_text(*raw))) {
            Some(items) => Some(
                compact(
                    stored(
                        with_entries(
                            state_in(opt_text(*raw)),
                            upserted(items, entry.id@, new_entry(*entry)),
                        ),
                    ),
                ),
            ),
            None => None,
        },
        r matches Some(written) ==> reads_back(
            written@,
            with_entries(
                state_in(opt_text(*raw)),
                upserted(
                    entries_of(state_in(opt_text(*raw)))->0,
                    entry.id@,
                    new_entry(*entry),
                ),
            ),
        ),
{
    let state = match raw {
        Some(s) => match parse(s.as_str()) {
            Some(value) => value,
            None => new_state(),
        },
        None => new_state(),
    };
    if state.array_field("worktrees").is_some() {
        let changed = upsert_entry(state, entry);
        Some(render(&changed))
    } else {
        None
    }
}

/// A worker that has been listed is found as it was listed, and the entries of
/// other workers are as they were.
pub proof fn law_listed_worker_is_found(state: Tree, entry: StateEntry)
    requires
        entries_of(state) is Some,
    ensures
        ({
            let old_items = entries_of(state)->0;
            let items = upserted(old_items, entry.id@, new_entry(entry));
            let k = worker_at(items, entry.id@);
            &&& entries_of(with_entries(state, items)) == Some(items)
            &&& 0 <= k < items.len()
            &&& items[k] == new_entry(entry)
            &&& forall|i: int|
                0 <= i < old_items.len() && text_field(#[trigger] old_items[i], "id"@) != Some(
                    entry.id@,
                ) ==> items[i] == old_items[i]
            &&& items.len() <= old_items.len() + 1
        }),
{
    let old_items = entries_of(state)->0;
    let items = upserted(old_items, entry.id@, new_entry(entry));
    lemma_set_then_get(state, "worktrees"@, Tree::Array(items));
    lemma_worker_at(old_items, entry.id@);
    lemma_worker_at(items, entry.id@);
    lemma_new_entry_id(entry);
    let k0 = worker_at(old_items, entry.id@);
    let k = worker_at(items, entry.id@);
    assert(text_field(items[k0], "id"@) == Some(entry.id@));
    if k < k0 {
        assert(items[k] == old_items[k]);
    }
}

proof fn lemma_new_entry_id(entry: StateEntry)
    ensures
        text_field(new_entry(entry), "id"@) == Some(entry.id@),
{
    let members = new_entry(entry)->Object_0;
    assert(members[0].0 == "id"@);
    assert(crate::json::member_at(members, "id"@) == 0);
}

/// Putting a worker in another phase leaves its place, its other fields, the
/// entries of other workers and the rest of the state as they were.
pub proof fn law_phase_touches_one_entry(
    state: Tree,
    id: Seq<char>,
    phase: Seq<char>,
    other_key: Seq<char>,
)
    requires
        entries_of(state) is Some,
        other_key != "phase"@,
        other_key != "status"@,
    ensures
        ({
            let old_items = entries_of(state)->0;
            let k = worker_at(old_items, id);
            let new = phase_updated(state, id, phase);
            &&& entries_of(new) is Some
            &&& entries_of(new)->0.len() == old_items.len()
            &&& forall|i: int|
                0 <= i < old_items.len() && i != k ==> #[trigger] entries_of(new)->0[i]
                    == old_items[i]
            &&& (0 <= k < old_items.len() ==> {
                let entry = entries_of(new)->0[k];
                &&& text_field(entry, "phase"@) == Some(phase)
                &&& text_field(entry, "status"@) == Some(status_in(phase))
                &&& field(entry, other_key) == field(old_items[k], other_key)
            })
            &&& (other_key != "worktrees"@ ==> field(new, other_key) == field(state, other_key))
        }),
{
    let old_items = entries_of(state)->0;
    let k = worker_at(old_items, id);
    lemma_worker_at(old_items, id);
    if 0 <= k < old_items.len() {
        let entry = old_items[k];
        let once = set_field(entry, "phase"@, Tree::Text(phase));
        let twice = entry_in_phase(entry, phase);
        let items = old_items.update(k, twice);
        lemma_set_then_get(state, "worktrees"@, Tree::Array(items));
        lemma_set_then_get(entry, "phase"@, Tree::Text(phase));
        lemma_set_then_get(once, "status"@, Tree::Text(status_in(phase)));
        reveal_strlit("phase");
        reveal_strlit("status");
        assert("phase"@.len() != "status"@.len());
        lemma_set_keeps_others(once, "status"@, Tree::Text(status_in(phase)), "phase"@);
        lemma_set_keeps_others(entry, "phase"@, Tree::Text(phase), other_key);
        lemma_set_keeps_others(once, "status"@, Tree::Text(status_in(phase)), other_key);
        if other_key != "worktrees"@ {
            lemma_set_keeps_others(state, "worktrees"@, Tree::Array(items), other_key);
        }
    }
}

/// The names that the state file uses are none that `serde_json` keeps for
/// itself.
proof fn lemma_state_names()
    ensures
        "worktrees"@ != RAW_TOKEN@,
        "phase"@ != RAW_TOKEN@,
        "status"@ != RAW_TOKEN@,
        "session_id"@ != RAW_TOKEN@,
{
    lemma_raw_token();
    reveal_strlit("worktrees");
    reveal_strlit("phase");
    reveal_strlit("status");
    reveal_strlit("session_id");
}

/// The entry for a new worker can be read back.
proof fn lemma_new_entry_readable(e: StateEntry, room: nat)
    requires
        room > 0,
    ensures
        readable(new_entry(e), room),
{
    reveal_strlit("id");
    reveal_strlit("branch");
    reveal_strlit("prompt");
    reveal_strlit("agent_kind");
    reveal_strlit("repo_path");
    reveal_strlit("worktree_path");
    reveal_strlit("phase");
    reveal_strlit("status");
    reveal_strlit("created_at");
    let names = seq![
        "id"@,
        "branch"@,
        "prompt"@,
        "agent_kind"@,
        "repo_path"@,
        "worktree_path"@,
        "phase"@,
        "status"@,
        "created_at"@,
    ];
    let members = new_entry(e)->Object_0;
    assert(names[1][0] == 'b' && names[2][0] == 'p' && names[7][0] == 's');
    assert(names[1].len() == 6 && names[2].len() == 6 && names[7].len() == 6);
    assert(names[3][0] == 'a' && names[8][0] == 'c');
    assert(names[3].len() == 10 && names[8].len() == 10);
    assert(names[0].len() == 2 && names[4].len() == 9 && names[5].len() == 13);
    assert(names[6].len() == 5);
    assert forall|i: int, j: int| 0 <= i < j < members.len() implies (#[trigger] members[i]).0 != (
    #[trigger] members[j]).0 by {
        assert(members[i].0 == names[i] && members[j].0 == names[j]);
    }
    lemma_raw_token();
    assert forall|i: int| 0 <= i < members.len() implies (#[trigger] members[i]).0
        != RAW_TOKEN@ by {
        assert(members[i].0 == names[i]);
    }
    let less = (room - 1) as nat;
    assert forall|i: int| 0 <= i < members.len() implies readable(
        (#[trigger] members[i]).1,
        less,
    ) by {
        assert(members[i].1 is Text);
    }
}

/// The state that a workspace starts with can be read back.
pub proof fn law_fresh_state_is_readable()
    ensures
        readable(fresh_state(), NESTING as nat),
{
    reveal_strlit("session_name");
    reveal_strlit("worktrees");
    reveal_strlit("last_inbox_pos");
    let members = fresh_state()->Object_0;
    assert(members[0].0.len() == 12 && members[1].0.len() == 9 && members[2].0.len() == 14);
    lemma_raw_token();
    let less = (NESTING - 1) as nat;
    assert(readable(members[0].1, less));
    assert(readable(members[1].1, less));
    assert(readable(members[2].1, less));
}

/// Listing a worker keeps a state such that it can be read back.
pub proof fn law_listing_stays_readable(state: Tree, entry: StateEntry)
    requires
        readable(state, NESTING as nat),
        entries_of(state) is Some,
    ensures
        readable(
            with_entries(state, upserted(entries_of(state)->0, entry.id@, new_entry(entry))),
            NESTING as nat,
        ),
{
    let items = entries_of(state)->0;
    let new = upserted(items, entry.id@, new_entry(entry));
    let room = (NESTING - 1) as nat;
    lemma_state_names();
    lemma_entries_readable(state);
    lemma_new_entry_readable(entry, (room - 1) as nat);
    assert forall|i: int| 0 <= i < new.len() implies readable(
        #[trigger] new[i],
        (room - 1) as nat,
    ) by {
        if new[i] != new_entry(entry) {
            assert(new[i] == items[i]);
        }
    }
    lemma_set_stays_readable(
        state,
        "worktrees"@,
        Tree::Array(new),
        NESTING as nat,
    );
}

proof fn lemma_entries_readable(state: Tree)
    requires
        readable(state, NESTING as nat),
        entries_of(state) is Some,
    ensures
        forall|i: int|
            0 <= i < entries_of(state)->0.len() ==> readable(
                #[trigger] entries_of(state)->0[i],
                (NESTING - 2) as nat,
            ),
{
    let members = state->Object_0;
    lemma_member_at(members, "worktrees"@);
    let k = member_at(members, "worktrees"@);
    assert(readable(members[k].1, (NESTING - 1) as nat));
}

/// Putting a worker in another phase keeps a state such that it can be read
/// back.
pub proof fn law_phase_stays_readable(state: Tree, id: Seq<char>, phase: Seq<char>)
    requires
        readable(state, NESTING as nat),
        entries_of(state) is Some,
    ensures
        readable(phase_updated(state, id, phase), NESTING as nat),
{
    let items = entries_of(state)->0;
    let k = worker_at(items, id);
    lemma_worker_at(items, id);
    if k < items.len() {
        let room = (NESTING - 2) as nat;
        lemma_state_names();
        lemma_entries_readable(state);
        let entry = items[k];
        let once = set_field(entry, "phase"@, Tree::Text(phase));
        let twice = entry_in_phase(entry, phase);
        lemma_set_stays_readable(entry, "phase"@, Tree::Text(phase), room);
        lemma_set_stays_readable(
            once,
            "status"@,
            Tree::Text(status_in(phase)),
            room,
        );
        let new = items.update(k, twice);
        assert forall|i: int| 0 <= i < new.len() implies readable(#[trigger] new[i], room) by {
            if i != k {
                assert(new[i] == items[i]);
            }
        }
        lemma_set_stays_readable(
            state,
            "worktrees"@,
            Tree::Array(new),
            NESTING as nat,
        );
    }
}

/// Noting a worker's session leaves the entries of other workers and the
/// worker's other fields as they were, and keeps a state such that it can be
/// read back.
pub proof fn law_session_touches_one_field(
    state: Tree,
    id: Seq<char>,
    session_id: Seq<char>,
    other_key: Seq<char>,
)
    requires
        entries_of(state) is Some,
        other_key != "session_id"@,
    ensures
        ({
            let old_items = entries_of(state)->0;
            let k = worker_at(old_items, id);
            let new = session_updated(state, id, session_id);
            &&& entries_of(new) is Some
            &&& entries_of(new)->0.len() == old_items.len()
            &&& forall|i: int|
                0 <= i < old_items.len() && i != k ==> #[trigger] entries_of(new)->0[i]
                    == old_items[i]
            &&& (0 <= k < old_items.len() ==> {
                let entry = entries_of(new)->0[k];
                &&& text_field(entry, "session_id"@) == Some(session_id)
                &&& field(entry, other_key) == field(old_items[k], other_key)
            })
            &&& (readable(state, NESTING as nat) ==> readable(new, NESTING as nat))
        }),
{
    let items = entries_of(state)->0;
    let k = worker_at(items, id);
    lemma_worker_at(items, id);
    if k < items.len() {
        let room = (NESTING - 2) as nat;
        let entry = items[k];
        let value = Tree::Text(session_id);
        let changed = entry_in_session(entry, session_id);
        let new = items.update(k, changed);
        lemma_set_then_get(state, "worktrees"@, Tree::Array(new));
        lemma_set_then_get(entry, "session_id"@, value);
        lemma_set_keeps_others(entry, "session_id"@, value, other_key);
        if readable(state, NESTING as nat) {
            lemma_state_names();
            lemma_entries_readable(state);
            lemma_set_stays_readable(entry, "session_id"@, value, room);
            assert forall|i: int| 0 <= i < new.len() implies readable(#[trigger] new[i], room) by {
                if i != k {
                    assert(new[i] == items[i]);
                }
            }
            lemma_set_stays_readable(state, "worktrees"@, Tree::Array(new), NESTING as nat);
        }
    }
}

/// Lists of entries that are alike have a worker's entry in the same place.
proof fn lemma_same_place(a: Seq<Tree>, b: Seq<Tree>, id: Seq<char>, room: nat)
    requires
        a.len() == b.len(),
        forall|i: int| 0 <= i < b.len() ==> alike(#[trigger] a[i], b[i], room),
    ensures
        worker_at(a, id) == worker_at(b, id),
    decreases b.len(),
{
    if b.len() > 0 {
        assert(alike(a[0], b[0], room));
        lemma_alike_texts(a[0], b[0], "id"@, room);
        let x = a.drop_first();
        let y = b.drop_first();
        assert forall|i: int| 0 <= i < y.len() implies alike(#[trigger] x[i], y[i], room) by {
            assert(alike(a[i + 1], b[i + 1], room));
        }
        lemma_same_place(x, y, id, room);
    }
}

/// A state that is read back lists the same workers with the same texts as the
/// state that was written.
pub proof fn law_entries_read_back(back: Tree, written: Tree, id: Seq<char>, key: Seq<char>)
    requires
        alike(back, written, NESTING as nat),
        entries_of(written) is Some,
    ensures
        entries_of(back) is Some,
        entries_of(back)->0.len() == entries_of(written)->0.len(),
        entry_for(back, id) is Some <==> entry_for(written, id) is Some,
        entry_for(written, id) is Some ==> text_field(entry_for(back, id)->0, key) == text_field(
            entry_for(written, id)->0,
            key,
        ),
{
    lemma_alike_items(back, written, "worktrees"@, NESTING as nat);
    let a = entries_of(back)->0;
    let b = entries_of(written)->0;
    let room = (NESTING - 2) as nat;
    lemma_same_place(a, b, id, room);
    lemma_worker_at(b, id);
    let k = worker_at(b, id);
    if k < b.len() {
        assert(alike(a[k], b[k], room));
        lemma_alike_texts(a[k], b[k], key, room);
    }
}

// ---------------------------------------------------------------------------
// Resuming and cleaning up
// ---------------------------------------------------------------------------

/// What is needed to start a new session of a worker.
pub struct ResumePlan {
    pub session_id: Option<String>,
    pub worktree_path: String,
    pub repo_path: String,
    pub agent_kind: Option<String>,
}

/// The entry for a worker in the state.
pub open spec fn entry_for(state: Tree, id: Seq<char>) -> Option<Tree> {
    match entries_of(state) {
        Some(items) => {
            let k = worker_at(items, id);
            if 0 <= k < items.len() {
                Some(items[k])
            } else {
                None
            }
        },
        None => None,
    }
}

fn find_entry<'a>(state: &'a Json, worker_id: &str) -> (r: Option<&'a Json>)
    ensures
        match r {
            Some(entry) => entry_for(state.tree(), worker_id@) == Some(entry.tree()),
            None => entry_for(state.tree(), worker_id@) is None,
        },
{
    match state.array_field("worktrees") {
        Some(items) => {
            let k = find_worker(items, worker_id);
            if k < items.len() {
                proof {
                    assert(trees(items@)[k as int] == items@[k as int].tree());
                }
                Some(&items[k])
            } else {
                None
            }
        },
        None => None,
    }
}

/// Whether a result is what the state tells of starting a new session of a
/// worker.
pub open spec fn is_resume(
    r: Result<ResumePlan, String>,
    state: Tree,
    worker_id: Seq<char>,
) -> bool {
    match entry_for(state, worker_id) {
        None => r is Err && r->Err_0@ == "worker "@ + worker_id
            + " not found in state.json"@,
        Some(entry) => match text_field(entry, "worktree_path"@) {
            None => r is Err && r->Err_0@ == "worker "@ + worker_id
                + " has no worktree_path in state.json"@,
            Some(worktree) => match text_field(entry, "repo_path"@) {
                None => r is Err && r->Err_0@ == "worker "@ + worker_id
                    + " has no repo_path in state.json"@,
                Some(repo) => {
                    &&& r is Ok
                    &&& r->Ok_0.worktree_path@ == worktree
                    &&& r->Ok_0.repo_path@ == repo
                    &&& opt_text(r->Ok_0.session_id) == text_field(entry, "session_id"@)
                    &&& opt_text(r->Ok_0.agent_kind) == text_field(entry, "agent_kind"@)
                },
            },
        },
    }
}

/// What is needed to start a new session of a worker, out of the state.
pub fn resume_in(state: &Json, worker_id: &str) -> (r: Result<ResumePlan, String>)
    ensures
        is_resume(r, state.tree(), worker_id@),
{
    let entry = match find_entry(state, worker_id) {
        Some(e) => e,
        None => {
            return Err(cat3("worker ", worker_id, " not found in state.json"));
        },
    };
    let worktree_path = match entry.text_field("worktree_path") {
        Some(p) => p,
        None => {
            return Err(cat3("worker ", worker_id, " has no worktree_path in state.json"));
        },
    };
    let repo_path = match entry.text_field("repo_path") {
        Some(p) => p,
        None => {
            return Err(cat3("worker ", worker_id, " has no repo_path in state.json"));
        },
    };
    Ok(
        ResumePlan {
            session_id: entry.text_field("session_id"),
            worktree_path,
            repo_path,
            agent_kind: entry.text_field("agent_kind"),
        },
    )
}

/// What is removed when a worker is closed: its worktree and its branch, of
/// its repository.
pub struct Cleanup {
    pub repo_path: String,
    pub worktree_path: String,
    pub branch: String,
}

/// Whether a result is what the state tells of closing a worker.
pub open spec fn is_cleanup(r: Option<Cleanup>, state: Tree, worker_id: Seq<char>) -> bool {
    match entry_for(state, worker_id) {
        None => r is None,
        Some(entry) => {
            let repo = text_field(entry, "repo_path"@);
            let worktree = text_field(entry, "worktree_path"@);
            let branch = text_field(entry, "branch"@);
            if repo is Some && worktree is Some && branch is Some {
                &&& r is Some
                &&& r->0.repo_path@ == repo->0
                &&& r->0.worktree_path@ == worktree->0
                &&& r->0.branch@ == branch->0
            } else {
                r is None
            }
        },
    }
}

/// What is removed when a worker is closed, where the state tells all of it.
pub fn cleanup_in(state: &Json, worker_id: &str) -> (r: Option<Cleanup>)
    ensures
        is_cleanup(r, state.tree(), worker_id@),
{
    match find_entry(state, worker_id) {
        Some(entry) => match entry.text_field("repo_path") {
            Some(repo_path) => match entry.text_field("worktree_path") {
                Some(worktree_path) => match entry.text_field("branch") {
                    Some(branch) => Some(Cleanup { repo_path, worktree_path, branch }),
                    None => None,
                },
                None => None,
            },
            None => None,
        },
        None => None,
    }
}

/// What is needed to start a new session of a worker, out of the file that
/// keeps the state: its contents, or why it could not be read.
pub fn plan_resume(file: &Result<String, String>, worker_id: &str) -> (r: Result<
    ResumePlan,
    String,
>)
    ensures
        match *file {
            Err(e) => r is Err && r->Err_0@ == "failed to read state.json: "@ + e@,
            Ok(contents) => match read(contents@) {
                Err(e) => r is Err && r->Err_0@ == "failed to parse state.json: "@ + e,
                Ok(state) => is_resume(r, state, worker_id@),
            },
        },
{
    let contents = match file {
        Ok(c) => c,
        Err(e) => {
            return Err(cat2("failed to read state.json: ", e.as_str()));
        },
    };
    match parse_or_problem(contents.as_str()) {
        Ok(state) => resume_in(&state, worker_id),
        Err(e) => Err(cat2("failed to parse state.json: ", e.as_str())),
    }
}

/// What is removed when a worker is closed, where the file that keeps the
/// state could be read and tells all of it.
pub fn plan_cleanup(file: &Option<String>, worker_id: &str) -> (r: Option<Cleanup>)
    ensures
        match *file {
            None => r is None,
            Some(contents) => match parsed(contents@) {
                None => r is None,
                Some(state) => is_cleanup(r, state, worker_id@),
            },
        },
{
    match file {
        Some(contents) => match parse(contents.as_str()) {
            Some(state) => cleanup_in(&state, worker_id),
            None => None,
        },
        None => None,
    }
}

// ---------------------------------------------------------------------------
// Creating
// ---------------------------------------------------------------------------

/// A repository of a workspace.
pub struct RepoCandidate {
    pub path: String,
    pub name: String,
    /// Whether the path ends with what is asked for.
    pub ends_with: bool,
}

/// Whether a repository is the one that is asked for.
pub open spec fn is_repo(candidate: RepoCandidate, repo: Seq<char>) -> bool {
    candidate.name@ == repo || candidate.ends_with
}

/// Finds the repository that is asked for: the first of the workspace's that
/// it is, else a directory of that name. `fallback` is the path of that
/// directory, where there is one.
pub fn resolve_repo(
    candidates: &Vec<RepoCandidate>,
    repo: &str,
    fallback: &Option<String>,
) -> (r: Result<String, String>)
    ensures
        (exists|i: int| 0 <= i < candidates@.len() && is_repo(#[trigger] candidates@[i], repo@))
            ==> r is Ok && exists|i: int|
            {
                &&& 0 <= i < candidates@.len()
                &&& is_repo(#[trigger] candidates@[i], repo@)
                &&& r->Ok_0@ == candidates@[i].path@
                &&& forall|j: int| 0 <= j < i ==> !is_repo(#[trigger] candidates@[j], repo@)
            },
        !(exists|i: int| 0 <= i < candidates@.len() && is_repo(#[trigger] candidates@[i], repo@))
            ==> match *fallback {
            Some(path) => r is Ok && r->Ok_0@ == path@,
            None => r is Err && r->Err_0@ == "repo '"@ + repo@ + "' not found in workspace"@,
        },
{
    let n: usize = candidates.len();
    let mut i: usize = 0;
    while i < n
        invariant
            n == candidates@.len(),
            0 <= i <= n,
            forall|j: int| 0 <= j < i ==> !is_repo(#[trigger] candidates@[j], repo@),
        decreases n - i,
    {
        if same(candidates[i].name.as_str(), repo) || candidates[i].ends_with {
            proof {
                assert(is_repo(candidates@[i as int], repo@));
            }
            return Ok(candidates[i].path.clone());
        }
        i = i + 1;
    }
    match fallback {
        Some(path) => Ok(path.clone()),
        None => Err(cat3("repo '", repo, "' not found in workspace")),
    }
}

/// What a worker's task directory is to hold.
pub struct TaskDirPayload {
    pub task_md: Option<String>,
    pub context_md: Option<String>,
    pub plan_md: Option<String>,
    pub shaping_md: Option<String>,
}

/// A file with its content, where there is any.
pub open spec fn file_if(name: Seq<char>, content: Option<String>) -> Seq<(Seq<char>, Seq<char>)> {
    match content {
        Some(c) => seq![(name, c@)],
        None => seq![],
    }
}

/// The names and contents of files.
pub open spec fn file_texts(files: Seq<(String, String)>) -> Seq<(Seq<char>, Seq<char>)> {
    files.map_values(|f: (String, String)| (f.0@, f.1@))
}

fn add_file(files: &mut Vec<(String, String)>, name: &str, content: &Option<String>)
    ensures
        file_texts(final(files)@) == file_texts(old(files)@) + file_if(name@, *content),
{
    let ghost before = file_texts(files@);
    if let Some(c) = content {
        files.push((name.to_owned(), c.clone()));
    }
    proof {
        assert(file_texts(files@) =~= before + file_if(name@, *content));
    }
}

/// The files of a worker's task directory.
pub fn task_files(payload: &TaskDirPayload) -> (r: Vec<(String, String)>)
    ensures
        file_texts(r@) == file_if("TASK.md"@, payload.task_md) + file_if(
            "CONTEXT.md"@,
            payload.context_md,
        ) + file_if("PLAN.md"@, payload.plan_md) + file_if("SHAPING.md"@, payload.shaping_md),
{
    let mut files: Vec<(String, String)> = Vec::new();
    add_file(&mut files, "TASK.md", &payload.task_md);
    add_file(&mut files, "CONTEXT.md", &payload.context_md);
    add_file(&mut files, "PLAN.md", &payload.plan_md);
    add_file(&mut files, "SHAPING.md", &payload.shaping_md);
    proof {
        assert(file_texts(files@) =~= file_if("TASK.md"@, payload.task_md) + file_if(
            "CONTEXT.md"@,
            payload.context_md,
        ) + file_if("PLAN.md"@, payload.plan_md) + file_if("SHAPING.md"@, payload.shaping_md));
    }
    files
}

/// The identifier of a new worker: its repository's name and a short mark.
pub fn worker_id_for(repo_name: &str, mark: &str) -> (r: String)
    ensures
        r@ == repo_name@ + "-"@ + mark@,
{
    cat3(repo_name, "-", mark)
}

/// The goal of a worker that is started with a prompt: the prompt's first line
/// that is not blank, or all of it.
pub open spec fn goal_of(prompt: Seq<char>) -> Seq<char> {
    match first_filled(lines(prompt)) {
        Some(line) => line,
        None => prompt,
    }
}

/// Whether a record is that of a worker that was just started with a prompt.
pub open spec fn running_record(
    w: Worker,
    workspace: Seq<char>,
    id: Seq<char>,
    repo: Seq<char>,
    prompt: Seq<char>,
    now: Seq<char>,
) -> bool {
    &&& w.id@ == id
    &&& w.workspace@ == workspace
    &&& w.state == WorkerState::Running
    &&& crate::json::opt_tree(w.brief) == Some(
        Tree::Object(seq![("goal"@, Tree::Text(goal_of(prompt)))]),
    )
    &&& opt_text(w.repo) == Some(repo)
    &&& w.branch is None
    &&& opt_text(w.goal) == Some(goal_of(prompt))
    &&& !w.tests_passing
    &&& !w.branch_ready
    &&& w.pr_url is None
    &&& !w.pr_approved
    &&& w.ci_passing is None
    &&& !w.is_stalled
    &&& w.revision_count == 0
    &&& w.review_mode@ == "local_first"@
    &&& w.blocked_reason is None
    &&& w.display_title is None
    &&& w.last_output_at is None
    &&& w.state_entered_at@ == now
    &&& w.created_at@ == now
    &&& w.updated_at@ == now
    &&& w.worktree_path is None
    &&& w.isolation_mode is None
    &&& w.agent_kind is None
    &&& w.model is None
    &&& w.repo_path is None
    &&& w.label@ == Seq::<char>::empty()
}

/// The record of a worker that was just started with a prompt.
pub fn worker_db_record(workspace: &str, worker_id: &str, repo: &str, prompt: &str, now: &str) -> (r:
    Worker)
    ensures
        running_record(r, workspace@, worker_id@, repo@, prompt@, now@),
{
    let goal = match first_filled_line(prompt) {
        Some(line) => line,
        None => prompt.to_owned(),
    };
    let brief = object().with("goal", text(goal.as_str()));
    proof {
        assert(members_of(brief.tree()) =~= seq![("goal"@, Tree::Text(goal@))]);
    }
    Worker {
        id: worker_id.to_owned(),
        workspace: workspace.to_owned(),
        state: WorkerState::Running,
        brief: Some(brief),
        repo: Some(repo.to_owned()),
        branch: None,
        goal: Some(goal),
        tests_passing: false,
        branch_ready: false,
        pr_url: None,
        pr_approved: false,
        ci_passing: None,
        is_stalled: false,
        revision_count: 0,
        review_mode: "local_first".to_owned(),
        blocked_reason: None,
        display_title: None,
        last_output_at: None,
        state_entered_at: now.to_owned(),
        created_at: now.to_owned(),
        updated_at: now.to_owned(),
        worktree_path: None,
        isolation_mode: None,
        agent_kind: None,
        model: None,
        repo_path: None,
        label: String::new(),
    }
}

/// Whether `r` is what becomes of a message to a worker, and `after` the fleet
/// then.
pub open spec fn is_delivery(
    r: Delivery,
    before: Fleet,
    after: Fleet,
    id: Seq<char>,
    message: Seq<char>,
) -> bool {
    if before.live.contains(id) {
        r is Queued && after == fleet_queued(before, id, message)
    } else {
        &&& after == before
        &&& if before.work_dirs.contains_key(id) {
            r is Resume && r->work_dir@ == before.work_dirs[id]
        } else {
            r is NotFound && r->error@ == "worker "@ + id + " not found"@
        }
    }
}

/// A message to a worker that runs waits as its last; one to a worker that does
/// not run resumes it in its directory; one to an unknown worker is refused, and
/// nothing changes then.
pub proof fn law_message_waits_or_resumes(
    r: Delivery,
    before: Fleet,
    after: Fleet,
    id: Seq<char>,
    message: Seq<char>,
)
    requires
        is_delivery(r, before, after, id, message),
    ensures
        r is Queued <==> before.live.contains(id),
        r is Queued ==> waiting(after, id) == waiting(before, id).push(message) && after.live
            == before.live && after.work_dirs == before.work_dirs,
        r is Resume <==> !before.live.contains(id) && before.work_dirs.contains_key(id),
        r is Resume ==> r->work_dir@ == before.work_dirs[id] && after == before,
        r is NotFound ==> after == before,
{
}

/// A worker whose run has ended takes up the message that waited longest, in the
/// same session; where none waits it is done and its tree is cleared away.
pub proof fn law_ended_run_takes_up_what_waits(message: Seq<char>, session: Option<Seq<char>>)
    ensures
        end_acts(Some(message), session).contains(RunAct::SetPhase("running"@)),
        end_acts(Some(message), session).last() == RunAct::Resume(message, session),
        end_acts(Some(message), session).contains(RunAct::LogUser(message)),
        !end_acts(Some(message), session).contains(RunAct::CleanUp),
        !end_acts(Some(message), session).contains(RunAct::Forget),
        end_acts(None, session).contains(RunAct::SetPhase("completed"@)),
        end_acts(None, session).contains(RunAct::CleanUp),
        end_acts(None, session).last() == RunAct::Forget,
        end_acts(None, session).len() == 3 && end_acts(Some(message), session).len() == 3,
{
    let a = end_acts(Some(message), session);
    let b = end_acts(None, session);
    assert(a[0] == RunAct::SetPhase("running"@));
    assert(a[1] == RunAct::LogUser(message));
    assert(b[0] == RunAct::SetPhase("completed"@));
    assert(b[1] == RunAct::CleanUp);
}

/// A worker that waits or runs counts as running; in any other phase it is done.
pub proof fn law_status_goes_by_the_phase(phase: Seq<char>)
    ensures
        status_in("waiting"@) == "running"@,
        status_in("running"@) == "running"@,
        phase != "waiting"@ && phase != "running"@ ==> status_in(phase) == "done"@,
{
}

/// A worker that was created runs in its directory; one that was started runs;
/// one whose run ended does not; of one that was closed nothing is left; and
/// none of this touches another worker.
pub proof fn law_fleet_follows_the_workers(
    fleet: Fleet,
    id: Seq<char>,
    dir: Seq<char>,
    other: Seq<char>,
)
    ensures
        fleet_created(fleet, id, dir).live.contains(id),
        fleet_created(fleet, id, dir).work_dirs.contains_key(id) && fleet_created(
            fleet,
            id,
            dir,
        ).work_dirs[id] == dir,
        fleet_started(fleet, id).live.contains(id),
        fleet_started(fleet, id).work_dirs == fleet.work_dirs,
        !fleet_ended(fleet, id).live.contains(id),
        fleet_ended(fleet, id).work_dirs == fleet.work_dirs,
        waiting(fleet, id).len() > 0 ==> waiting(fleet_ended(fleet, id), id) == waiting(
            fleet,
            id,
        ).drop_first(),
        !fleet_closed(fleet, id).live.contains(id),
        !fleet_closed(fleet, id).work_dirs.contains_key(id),
        waiting(fleet_closed(fleet, id), id).len() == 0,
        !fleet_finished(fleet, id).work_dirs.contains_key(id),
        fleet_finished(fleet, id).live == fleet.live,
        fleet_finished(fleet, id).pending == fleet.pending,
        other != id ==> {
            &&& fleet_created(fleet, id, dir).live.contains(other) == fleet.live.contains(other)
            &&& fleet_started(fleet, id).live.contains(other) == fleet.live.contains(other)
            &&& fleet_ended(fleet, id).live.contains(other) == fleet.live.contains(other)
            &&& fleet_closed(fleet, id).live.contains(other) == fleet.live.contains(other)
            &&& fleet_closed(fleet, id).work_dirs.contains_key(other)
                == fleet.work_dirs.contains_key(other)
            &&& waiting(fleet_ended(fleet, id), other) == waiting(fleet, other)
            &&& waiting(fleet_closed(fleet, id), other) == waiting(fleet, other)
        },
{
}

/// A new worker is listed as starting, with its branch, prompt, agent and paths.
pub proof fn law_new_worker_is_listed_as_starting(e: StateEntry)
    ensures
        text_field(new_entry(e), "id"@) == Some(e.id@),
        text_field(new_entry(e), "branch"@) == Some(e.branch@),
        text_field(new_entry(e), "prompt"@) == Some(e.prompt@),
        text_field(new_entry(e), "agent_kind"@) == Some(e.agent_kind@),
        text_field(new_entry(e), "repo_path"@) == Some(e.repo_path@),
        text_field(new_entry(e), "worktree_path"@) == Some(e.worktree_path@),
        text_field(new_entry(e), "phase"@) == Some("starting"@),
        text_field(new_entry(e), "status"@) == Some("running"@),
        text_field(new_entry(e), "created_at"@) == Some(e.created_at@),
{
    reveal_strlit("id");
    reveal_strlit("branch");
    reveal_strlit("prompt");
    reveal_strlit("agent_kind");
    reveal_strlit("repo_path");
    reveal_strlit("worktree_path");
    reveal_strlit("phase");
    reveal_strlit("status");
    reveal_strlit("created_at");
    assert("id"@.len() == 2 && "branch"@.len() == 6 && "prompt"@.len() == 6 && "agent_kind"@.len()
        == 10 && "repo_path"@.len() == 9 && "worktree_path"@.len() == 13 && "phase"@.len() == 5
        && "status"@.len() == 6 && "created_at"@.len() == 10);
    assert("branch"@[0] == 'b' && "prompt"@[0] == 'p' && "status"@[0] == 's' && "agent_kind"@[0]
        == 'a' && "created_at"@[0] == 'c');
    let t = new_entry(e);
    lemma_field_is(t, "id"@, 0);
    lemma_field_is(t, "branch"@, 1);
    lemma_field_is(t, "prompt"@, 2);
    lemma_field_is(t, "agent_kind"@, 3);
    lemma_field_is(t, "repo_path"@, 4);
    lemma_field_is(t, "worktree_path"@, 5);
    lemma_field_is(t, "phase"@, 6);
    lemma_field_is(t, "status"@, 7);
    lemma_field_is(t, "created_at"@, 8);
}

/// A worker is resumed exactly where it is listed with its tree and its
/// repository, in them, and in its session with its agent where these are known.
pub proof fn law_listed_worker_is_resumed(
    r: Result<ResumePlan, String>,
    state: Tree,
    worker_id: Seq<char>,
)
    requires
        is_resume(r, state, worker_id),
    ensures
        r is Ok <==> entry_for(state, worker_id) is Some && text_field(
            entry_for(state, worker_id)->0,
            "worktree_path"@,
        ) is Some && text_field(entry_for(state, worker_id)->0, "repo_path"@) is Some,
        r is Ok ==> {
            let entry = entry_for(state, worker_id)->0;
            &&& Some(r->Ok_0.worktree_path@) == text_field(entry, "worktree_path"@)
            &&& Some(r->Ok_0.repo_path@) == text_field(entry, "repo_path"@)
            &&& opt_text(r->Ok_0.session_id) == text_field(entry, "session_id"@)
            &&& opt_text(r->Ok_0.agent_kind) == text_field(entry, "agent_kind"@)
        },
{
}

/// The tree of a worker is cleared away where it is listed with its repository,
/// tree and branch: that tree and that branch.
pub proof fn law_own_tree_is_cleared_away(r: Option<Cleanup>, state: Tree, worker_id: Seq<char>)
    requires
        is_cleanup(r, state, worker_id),
    ensures
        r is Some <==> entry_for(state, worker_id) is Some && text_field(
            entry_for(state, worker_id)->0,
            "worktree_path"@,
        ) is Some && text_field(entry_for(state, worker_id)->0, "repo_path"@) is Some
            && text_field(entry_for(state, worker_id)->0, "branch"@) is Some,
        r is Some ==> {
            let entry = entry_for(state, worker_id)->0;
            &&& Some(r->0.worktree_path@) == text_field(entry, "worktree_path"@)
            &&& Some(r->0.repo_path@) == text_field(entry, "repo_path"@)
            &&& Some(r->0.branch@) == text_field(entry, "branch"@)
        },
{
}

/// The goal of a worker is the first line of its prompt that says anything, and
/// the whole prompt where none does.
pub proof fn law_goal_is_the_first_filled_line(prompt: Seq<char>, k: int)
    ensures
        0 <= k < lines(prompt).len() && trim(lines(prompt)[k]).len() > 0 && (forall|j: int|
            0 <= j < k ==> trim(#[trigger] lines(prompt)[j]).len() == 0) ==> goal_of(prompt)
            == lines(prompt)[k],
        (forall|j: int|
            0 <= j < lines(prompt).len() ==> trim(#[trigger] lines(prompt)[j]).len() == 0)
            ==> goal_of(prompt) == prompt,
{
    law_first_filled_line_counts(lines(prompt), k);
}

/// A worker that was started from a prompt runs on its goal, with nothing to
/// show for it yet.
pub proof fn law_started_worker_runs(
    w: Worker,
    workspace: Seq<char>,
    id: Seq<char>,
    repo: Seq<char>,
    prompt: Seq<char>,
    now: Seq<char>,
)
    requires
        running_record(w, workspace, id, repo, prompt, now),
    ensures
        w.state == WorkerState::Running,
        w.id@ == id && w.workspace@ == workspace,
        w.repo is Some && w.repo->0@ == repo,
        w.goal is Some && w.goal->0@ == goal_of(prompt),
        !w.branch_ready && !w.tests_passing && !w.pr_approved && !w.is_stalled && w.pr_url is None
            && w.revision_count == 0,
        w.review_mode@ == "local_first"@,
        w.created_at@ == now && w.updated_at@ == now && w.state_entered_at@ == now,
{
}

/// Only the end of a session tells its identifier.
pub proof fn law_end_of_session_tells_it(event: AgentEventWire)
    ensures
        event is SessionResult ==> session_told(event) == opt_text(event->SessionResult_session_id),
        !(event is SessionResult) ==> session_told(event) is None,
{
}

/// A repository goes by its name, or by the end of its path.
pub proof fn law_repository_goes_by_name(candidate: RepoCandidate, repo: Seq<char>)
    ensures
        candidate.name@ == repo ==> is_repo(candidate, repo),
        candidate.ends_with ==> is_repo(candidate, repo),
        candidate.name@ != repo && !candidate.ends_with ==> !is_repo(candidate, repo),
{
}

/// An entry that is edited takes the phase or the session of the edit, and the
/// others stay; a state without a place for entries gets one.
pub proof fn law_edit_touches_the_entry(state: Tree, id: Seq<char>, edit: Edit)
    ensures
        edit is Phase ==> state_edited(state, id, edit) == phase_updated(
            state,
            id,
            edit->Phase_0@,
        ),
        edit is Session ==> state_edited(state, id, edit) == session_updated(
            state,
            id,
            edit->Session_0@,
        ),
        state is Object && field(state, "worktrees"@) is Some ==> with_place_for_entries(state)
            == state,
        state is Null ==> field(with_place_for_entries(state), "worktrees"@) == Some(Tree::Null),
        state is Object && field(state, "worktrees"@) is None ==> field(
            with_place_for_entries(state),
            "worktrees"@,
        ) == Some(Tree::Null),
{
    let s = with_place_for_entries(state);
    if state is Null {
        lemma_field_is(s, "worktrees"@, 0);
    }
    if state is Object && field(state, "worktrees"@) is None {
        let members = state->Object_0;
        lemma_member_at(members, "worktrees"@);
        let n = members.len() as int;
        assert forall|i: int| 0 <= i < n implies (#[trigger] s->Object_0[i]).0 != "worktrees"@ by {
            assert(s->Object_0[i] == members[i]);
        }
        lemma_field_is(s, "worktrees"@, n);
    }
}

/// A state that cannot be read counts as a fresh one, which has no workers yet.
pub proof fn law_unreadable_state_starts_afresh(raw: Seq<char>)
    ensures
        parsed(raw) is Some ==> state_in(Some(raw)) == parsed(raw)->0,
        parsed(raw) is None ==> entries_of(state_in(Some(raw))) == Some(Seq::<Tree>::empty()),
        entries_of(state_in(None)) == Some(Seq::<Tree>::empty()),
{
    reveal_strlit("session_name");
    reveal_strlit("worktrees");
    assert("session_name"@[0] == 's' && "worktrees"@[0] == 'w');
    lemma_field_is(fresh_state(), "worktrees"@, 1);
}

/// A worker that could be resumed runs; one that could not has failed, its error
/// is logged, and it is forgotten.
pub proof fn law_failed_resumption_is_logged(
    list: Seq<RunAct>,
    before: Fleet,
    after: Fleet,
    id: Seq<char>,
    outcome: Result<(), String>,
)
    requires
        is_resumed(list, before, after, id, outcome),
    ensures
        outcome is Ok ==> after.live.contains(id) && list.len() == 0,
        outcome is Err ==> after == before && list.len() == 3 && list[0] == RunAct::LogError(
            outcome->Err_0@,
        ) && list[1] == RunAct::SetPhase("failed"@) && list[2] == RunAct::Forget,
{
}

} // verus!
