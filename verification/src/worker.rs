//! Workers: their records, the prompts that they are started with, and what
//! happens to a record when a worker is created, written to, queued again or
//! reviewed.

use crate::json::{
    array_field, compact, field, members_of, object, opt_tree, render, stored, text_field, trees,
    Json, Tree,
};
use crate::text::{
    blank, cat2, cat3, cat4, contains, ends_with, join, joined, lemma_contains_through,
    lemma_holds_part, lemma_inside, lemma_join_holds, lemma_starts_with_first, occurs_at, opt_text,
    same, starts_with, texts, trim, trimmed,
};
use vstd::prelude::*;

verus! {

// ---------------------------------------------------------------------------
// Records
// ---------------------------------------------------------------------------

/// Where a worker stands.
#[derive(Debug, Clone, Copy, PartialEq, Eq, Structural)]
pub enum WorkerState {
    Briefed,
    Queued,
    Running,
    Waiting,
    Stalled,
    Done,
    Abandoned,
}

impl WorkerState {
    /// The word for a state.
    pub open spec fn word(self) -> Seq<char> {
        match self {
            WorkerState::Briefed => "briefed"@,
            WorkerState::Queued => "queued"@,
            WorkerState::Running => "running"@,
            WorkerState::Waiting => "waiting"@,
            WorkerState::Stalled => "stalled"@,
            WorkerState::Done => "done"@,
            WorkerState::Abandoned => "abandoned"@,
        }
    }

    /// The word for a state.
    pub fn as_str(self) -> (r: &'static str)
        ensures
            r@ == self.word(),
    {
        match self {
            WorkerState::Briefed => "briefed",
            WorkerState::Queued => "queued",
            WorkerState::Running => "running",
            WorkerState::Waiting => "waiting",
            WorkerState::Stalled => "stalled",
            WorkerState::Done => "done",
            WorkerState::Abandoned => "abandoned",
        }
    }
}

/// The record of a worker.
pub struct Worker {
    pub id: String,
    pub workspace: String,
    pub state: WorkerState,
    pub brief: Option<Json>,
    pub repo: Option<String>,
    pub branch: Option<String>,
    pub goal: Option<String>,
    pub tests_passing: bool,
    pub branch_ready: bool,
    pub pr_url: Option<String>,
    pub pr_approved: bool,
    pub ci_passing: Option<bool>,
    pub is_stalled: bool,
    pub revision_count: i64,
    pub review_mode: String,
    pub blocked_reason: Option<String>,
    pub display_title: Option<String>,
    pub last_output_at: Option<String>,
    pub state_entered_at: String,
    pub created_at: String,
    pub updated_at: String,
    pub worktree_path: Option<String>,
    pub isolation_mode: Option<String>,
    pub agent_kind: Option<String>,
    pub model: Option<String>,
    pub repo_path: Option<String>,
    pub label: String,
}

/// Why a request is refused: the status of the answer, and what it says.
pub struct Refusal {
    pub status: u16,
    pub error: String,
}

/// Whether a refusal has the status and says the text.
pub open spec fn refuses(r: Refusal, status: u16, error: Seq<char>) -> bool {
    r.status == status && r.error@ == error
}

fn refuse(status: u16, error: &str) -> (r: Refusal)
    ensures
        refuses(r, status, error@),
{
    Refusal { status, error: error.to_owned() }
}

/// What is answered about a workspace that does not exist.
pub open spec fn no_workspace(workspace: Seq<char>) -> Seq<char> {
    "workspace '"@ + workspace + "' not found"@
}

fn refuse_workspace(workspace: &str) -> (r: Refusal)
    ensures
        refuses(r, 404, no_workspace(workspace@)),
{
    Refusal { status: 404, error: cat3("workspace '", workspace, "' not found") }
}

/// News about a worker for the web interface.
pub struct WorkerUpdate {
    pub workspace: String,
    pub worker_id: String,
    pub state: String,
    pub label: String,
    pub properties: Json,
}

// ---------------------------------------------------------------------------
// Briefs
// ---------------------------------------------------------------------------

/// The texts among a list of values, with dashes in front.
pub open spec fn bulleted(items: Seq<Tree>) -> Seq<Seq<char>>
    decreases items.len(),
{
    if items.len() == 0 {
        seq![]
    } else {
        let rest = bulleted(items.drop_last());
        match items.last() {
            Tree::Text(s) => rest.push("- "@ + s),
            _ => rest,
        }
    }
}

/// A section with a list, where the brief has one that is not empty.
pub open spec fn list_section(brief: Tree, key: Seq<char>, heading: Seq<char>) -> Seq<Seq<char>> {
    match array_field(brief, key) {
        Some(items) => if bulleted(items).len() > 0 {
            seq![heading + join(bulleted(items), "\n"@)]
        } else {
            seq![]
        },
        None => seq![],
    }
}

/// The text under a key of a brief, or another where there is none.
pub open spec fn brief_text(brief: Tree, key: Seq<char>, otherwise: Seq<char>) -> Seq<char> {
    match text_field(brief, key) {
        Some(s) => s,
        None => otherwise,
    }
}

/// What a worker does when it is done. `review_role` is the role of those who
/// inspect its work.
pub open spec fn when_done(review_mode: Seq<char>, review_role: Seq<char>) -> Seq<char> {
    if review_mode == "pr_first"@ {
        "# When Done\n\nCommit your changes, push the branch, and open a PR with `gh pr create`."@
    } else {
        "# When Done\n\nCommit your changes and push the branch. Do NOT open a PR — the "@ + review_role
            + " will inspect the branch locally first."@
    }
}

/// How a worker reports.
pub open spec fn reporting() -> Seq<char> {
    "# Reporting\n\nAfter running tests, write a status report to `.swarm/agents/$WORKER_ID/report.json` (where `$WORKER_ID` is the id of this worktree, e.g. `apiari-df40`). Use this exact format:\n\n```json\n{\"tests_passing\": true, \"branch_ready\": true}\n```\n\nSet `tests_passing` to `true` only if all tests pass. Set `branch_ready` to `true` once the branch is pushed and ready for review. The file path is relative to the workspace root: `/path/to/workspace/.swarm/agents/<worker-id>/report.json`. You can find the worker id from the worktree path or the `id` field in `.swarm/state.json`."@
}

/// The prompt that a brief makes, with the text that its context is printed
/// as.
pub open spec fn brief_prompt(
    brief: Tree,
    context: Option<Seq<char>>,
    review_role: Seq<char>,
) -> Seq<char> {
    join(
        seq!["# Goal\n\n"@ + brief_text(brief, "goal"@, "(no goal specified)"@)] + (match context {
            Some(c) => seq!["# Context\n\n"@ + c],
            None => seq![],
        }) + list_section(brief, "constraints"@, "# Constraints\n\n"@) + list_section(
            brief,
            "acceptance_criteria"@,
            "# Acceptance Criteria\n\n"@,
        ) + seq![
            when_done(brief_text(brief, "review_mode"@, "local_first"@), review_role),
            reporting(),
        ],
        "\n\n"@,
    )
}

/// The text that the context of a brief is printed as.
pub open spec fn context_text(brief: Tree) -> Option<Seq<char>> {
    match field(brief, "context"@) {
        Some(c) => Some(compact(stored(c))),
        None => None,
    }
}

/// The prompt that a brief makes.
pub open spec fn prompt_of_brief(brief: Tree, review_role: Seq<char>) -> Seq<char> {
    brief_prompt(brief, context_text(brief), review_role)
}

fn bullets_of(items: &Vec<Json>) -> (r: Vec<String>)
    ensures
        texts(r@) == bulleted(trees(items@)),
{
    let ghost all = trees(items@);
    let mut out: Vec<String> = Vec::new();
    let n: usize = items.len();
    let mut i: usize = 0;
    proof {
        assert(texts(out@) =~= bulleted(all.take(0)));
    }
    while i < n
        invariant
            n == items@.len(),
            0 <= i <= n,
            all == trees(items@),
            texts(out@) == bulleted(all.take(i as int)),
        decreases n - i,
    {
        proof {
            assert(all.take(i + 1).drop_last() =~= all.take(i as int));
            assert(all.take(i + 1).last() == items@[i as int].tree());
        }
        if let Json::Text(s) = &items[i] {
            let line = cat2("- ", s.as_str());
            proof {
                assert(texts(out@.push(line)) =~= texts(out@).push(line@));
            }
            out.push(line);
        }
        i = i + 1;
    }
    proof {
        assert(all.take(n as int) =~= all);
    }
    out
}

fn add_part(parts: &mut Vec<String>, part: String)
    ensures
        texts(final(parts)@) == texts(old(parts)@).push(part@),
{
    proof {
        assert(texts(parts@.push(part)) =~= texts(parts@).push(part@));
    }
    parts.push(part);
}

fn add_list(parts: &mut Vec<String>, brief: &Json, key: &str, heading: &str)
    ensures
        texts(final(parts)@) == texts(old(parts)@) + list_section(brief.tree(), key@, heading@),
{
    let ghost before = texts(parts@);
    if let Some(items) = brief.array_field(key) {
        let list = bullets_of(items);
        proof {
            assert(texts(list@).len() == list@.len());
        }
        if list.len() > 0 {
            let body = joined(&list, "\n");
            add_part(parts, cat2(heading, body.as_str()));
        }
    }
    proof {
        assert(texts(parts@) =~= before + list_section(brief.tree(), key@, heading@));
    }
}

/// The text under a key of a brief, or another where there is none.
pub fn brief_text_or(brief: &Json, key: &str, otherwise: &str) -> (r: String)
    ensures
        r@ == brief_text(brief.tree(), key@, otherwise@),
{
    match brief.text_field(key) {
        Some(s) => s,
        None => otherwise.to_owned(),
    }
}

/// The prompt that a brief makes, with the text that its context is printed
/// as.
pub fn brief_prompt_with(brief: &Json, context: &Option<String>, review_role: &str) -> (r: String)
    ensures
        r@ == brief_prompt(brief.tree(), opt_text(*context), review_role@),
{
    let mut parts: Vec<String> = Vec::new();
    proof {
        assert(texts(parts@) =~= seq![]);
    }
    let goal = brief_text_or(brief, "goal", "(no goal specified)");
    add_part(&mut parts, cat2("# Goal\n\n", goal.as_str()));
    if let Some(c) = context {
        add_part(&mut parts, cat2("# Context\n\n", c.as_str()));
    }
    let ghost head = texts(parts@);
    add_list(&mut parts, brief, "constraints", "# Constraints\n\n");
    add_list(&mut parts, brief, "acceptance_criteria", "# Acceptance Criteria\n\n");
    let review_mode = brief_text_or(brief, "review_mode", "local_first");
    let done = if same(review_mode.as_str(), "pr_first") {
        "# When Done\n\nCommit your changes, push the branch, and open a PR with `gh pr create`.".to_owned()
    } else {
        cat3(
            "# When Done\n\nCommit your changes and push the branch. Do NOT open a PR — the ",
            review_role,
            " will inspect the branch locally first.",
        )
    };
    add_part(&mut parts, done);
    add_part(
        &mut parts,
        "# Reporting\n\nAfter running tests, write a status report to `.swarm/agents/$WORKER_ID/report.json` (where `$WORKER_ID` is the id of this worktree, e.g. `apiari-df40`). Use this exact format:\n\n```json\n{\"tests_passing\": true, \"branch_ready\": true}\n```\n\nSet `tests_passing` to `true` only if all tests pass. Set `branch_ready` to `true` once the branch is pushed and ready for review. The file path is relative to the workspace root: `/path/to/workspace/.swarm/agents/<worker-id>/report.json`. You can find the worker id from the worktree path or the `id` field in `.swarm/state.json`.".to_owned(),
    );
    proof {
        let expected = seq!["# Goal\n\n"@ + brief_text(
            brief.tree(),
            "goal"@,
            "(no goal specified)"@,
        )] + (match opt_text(*context) {
            Some(c) => seq!["# Context\n\n"@ + c],
            None => seq![],
        }) + list_section(brief.tree(), "constraints"@, "# Constraints\n\n"@) + list_section(
            brief.tree(),
            "acceptance_criteria"@,
            "# Acceptance Criteria\n\n"@,
        ) + seq![
            when_done(brief_text(brief.tree(), "review_mode"@, "local_first"@), review_role@),
            reporting(),
        ];
        assert(texts(parts@) =~= expected);
    }
    joined(&parts, "\n\n")
}

/// The prompt that a brief makes.
pub fn format_brief_as_prompt(brief: &Json, review_role: &str) -> (r: String)
    ensures
        r@ == prompt_of_brief(brief.tree(), review_role@),
{
    let context = match brief.get("context") {
        Some(c) => Some(render(c)),
        None => None,
    };
    brief_prompt_with(brief, &context, review_role)
}

// ---------------------------------------------------------------------------
// Creating a worker
// ---------------------------------------------------------------------------

/// What a text says once it is trimmed, where that is not nothing.
pub open spec fn given(text: Option<Seq<char>>) -> Option<Seq<char>> {
    match text {
        Some(s) => if trim(s).len() > 0 {
            Some(trim(s))
        } else {
            None
        },
        None => None,
    }
}

/// What a text says once it is trimmed, where that is not nothing.
pub fn given_text(text: &Option<String>) -> (r: Option<String>)
    ensures
        opt_text(r) == given(opt_text(*text)),
{
    match text {
        Some(s) => {
            let t = trimmed(s.as_str());
            if t.as_str().is_empty() {
                None
            } else {
                Some(t)
            }
        },
        None => None,
    }
}

/// The agent that a new worker runs: the one that is asked for where it is
/// known, else the workspace's own.
pub open spec fn agent_for(
    asked: Option<Seq<char>>,
    known: bool,
    default_agent: Seq<char>,
) -> Seq<char> {
    match given(asked) {
        Some(a) => if known {
            a
        } else {
            default_agent
        },
        None => default_agent,
    }
}

/// A request for a new worker.
pub struct CreateWorkerRequest {
    pub brief: Json,
    pub repo: String,
    pub agent: Option<String>,
    pub model: Option<String>,
}

/// The record of a worker that has been briefed and nothing more.
pub open spec fn briefed_record(
    w: Worker,
    id: Seq<char>,
    workspace: Seq<char>,
    now: Seq<char>,
    brief: Tree,
    repo: Seq<char>,
    goal: Option<Seq<char>>,
    review_mode: Seq<char>,
    agent: Seq<char>,
    model: Option<Seq<char>>,
) -> bool {
    &&& w.id@ == id
    &&& w.workspace@ == workspace
    &&& w.state == WorkerState::Briefed
    &&& opt_tree(w.brief) == Some(brief)
    &&& opt_text(w.repo) == Some(repo)
    &&& w.branch is None
    &&& opt_text(w.goal) == goal
    &&& !w.tests_passing
    &&& !w.branch_ready
    &&& w.pr_url is None
    &&& !w.pr_approved
    &&& w.ci_passing is None
    &&& !w.is_stalled
    &&& w.revision_count == 0
    &&& w.review_mode@ == review_mode
    &&& w.blocked_reason is None
    &&& w.display_title is None
    &&& w.last_output_at is None
    &&& w.state_entered_at@ == now
    &&& w.created_at@ == now
    &&& w.updated_at@ == now
    &&& w.worktree_path is None
    &&& w.isolation_mode is None
    &&& opt_text(w.agent_kind) == Some(agent)
    &&& opt_text(w.model) == model
    &&& w.repo_path is None
    &&& w.label@ == Seq::<char>::empty()
}

/// The record of a new worker, before it is handed out. `agent_known` tells
/// whether the agent that is asked for is one that can be run.
pub fn new_record(
    id: &str,
    workspace: &str,
    now: &str,
    request: &CreateWorkerRequest,
    agent_known: bool,
    default_agent: &str,
) -> (r: Worker)
    ensures
        briefed_record(
            r,
            id@,
            workspace@,
            now@,
            request.brief.tree(),
            request.repo@,
            text_field(request.brief.tree(), "goal"@),
            brief_text(request.brief.tree(), "review_mode"@, "local_first"@),
            agent_for(opt_text(request.agent), agent_known, default_agent@),
            given(opt_text(request.model)),
        ),
{
    let agent = match given_text(&request.agent) {
        Some(a) => if agent_known {
            a
        } else {
            default_agent.to_owned()
        },
        None => default_agent.to_owned(),
    };
    Worker {
        id: id.to_owned(),
        workspace: workspace.to_owned(),
        state: WorkerState::Briefed,
        brief: Some(request.brief.copy()),
        repo: Some(request.repo.clone()),
        branch: None,
        goal: request.brief.text_field("goal"),
        tests_passing: false,
        branch_ready: false,
        pr_url: None,
        pr_approved: false,
        ci_passing: None,
        is_stalled: false,
        revision_count: 0,
        review_mode: brief_text_or(&request.brief, "review_mode", "local_first"),
        blocked_reason: None,
        display_title: None,
        last_output_at: None,
        state_entered_at: now.to_owned(),
        created_at: now.to_owned(),
        updated_at: now.to_owned(),
        worktree_path: None,
        isolation_mode: None,
        agent_kind: Some(agent),
        model: given_text(&request.model),
        repo_path: None,
        label: String::new(),
    }
}

/// Decides on a request for a new worker in a workspace that may not exist.
pub fn check_create(workspace: &str, workspace_exists: bool) -> (r: Result<(), Refusal>)
    ensures
        r is Ok <==> workspace_exists,
        r matches Err(e) ==> refuses(e, 404, no_workspace(workspace@)),
{
    if workspace_exists {
        Ok(())
    } else {
        Err(refuse_workspace(workspace))
    }
}

/// What becomes of a record once its worker has been started under an
/// identifier of the worker manager's choice.
pub enum Started {
    /// The record moves to the new identifier.
    Rekey { record: Worker },
    /// The record stays and is queued.
    Queue,
}

/// Whether a started worker goes by another identifier than its record.
pub open spec fn is_rekeyed(record_id: Seq<char>, worker_id: Seq<char>) -> bool {
    worker_id.len() > 0 && worker_id != record_id
}

/// The identifier that a worker goes by once it has been started.
pub open spec fn final_id(record_id: Seq<char>, worker_id: Seq<char>) -> Seq<char> {
    if is_rekeyed(record_id, worker_id) {
        worker_id
    } else {
        record_id
    }
}

/// The record of a new worker once it has been started as `worker_id`.
pub fn started(record: Worker, worker_id: &str) -> (r: Started)
    ensures
        is_rekeyed(record.id@, worker_id@) ==> r is Rekey && ({
            let w = r->record;
            &&& w.id@ == worker_id@
            &&& w.state == WorkerState::Queued
            &&& w == Worker { id: w.id, state: WorkerState::Queued, ..record }
        }),
        !is_rekeyed(record.id@, worker_id@) ==> r is Queue,
{
    if worker_id.is_empty() || same(worker_id, record.id.as_str()) {
        Started::Queue
    } else {
        let mut w = record;
        w.id = worker_id.to_owned();
        w.state = WorkerState::Queued;
        Started::Rekey { record: w }
    }
}

/// The record of a worker that the context bot sent out, once it has been
/// started as `worker_id`: under another identifier it stays as it was.
pub fn sent_out(record: Worker, worker_id: &str) -> (r: Started)
    ensures
        is_rekeyed(record.id@, worker_id@) ==> r is Rekey && ({
            let w = r->record;
            &&& w.id@ == worker_id@
            &&& w == Worker { id: w.id, ..record }
        }),
        !is_rekeyed(record.id@, worker_id@) ==> r is Queue,
{
    if worker_id.is_empty() || same(worker_id, record.id.as_str()) {
        Started::Queue
    } else {
        let mut w = record;
        w.id = worker_id.to_owned();
        Started::Rekey { record: w }
    }
}

/// The identifier that a worker goes by once it has been started.
pub fn started_id(record_id: &str, worker_id: &str) -> (r: String)
    ensures
        r@ == final_id(record_id@, worker_id@),
{
    if worker_id.is_empty() {
        record_id.to_owned()
    } else {
        worker_id.to_owned()
    }
}

/// Whether a worker gets a title: where its brief has a goal.
pub open spec fn wants_title(goal: Option<Seq<char>>) -> bool {
    goal is Some && goal->0.len() > 0
}

/// Whether a worker gets a title.
pub fn should_title(worker: &Worker) -> (r: bool)
    ensures
        r == wants_title(opt_text(worker.goal)),
{
    match &worker.goal {
        Some(g) => !g.as_str().is_empty(),
        None => false,
    }
}

// ---------------------------------------------------------------------------
// Starting a worker anew
// ---------------------------------------------------------------------------

/// What a review comes to.
#[derive(Debug, Clone, Copy, PartialEq, Eq, Structural)]
pub enum Verdict {
    Approve,
    RequestChanges,
    /// Anything else: a mere comment.
    Comment,
}

/// What the word of a review comes to. `changes` is the word that asks for
/// changes.
pub open spec fn verdict_of(word: Seq<char>, changes: Seq<char>) -> Verdict {
    if word == "approve"@ {
        Verdict::Approve
    } else if word == changes {
        Verdict::RequestChanges
    } else {
        Verdict::Comment
    }
}

/// What the word of a review comes to. `changes` is the word that asks for
/// changes.
pub fn read_verdict(word: &str, changes: &str) -> (r: Verdict)
    ensures
        r == verdict_of(word@, changes@),
{
    if same(word, "approve") {
        Verdict::Approve
    } else if same(word, changes) {
        Verdict::RequestChanges
    } else {
        Verdict::Comment
    }
}

/// A review of a worker's work, as far as it is handed on to the worker.
pub struct WorkerReview {
    pub verdict: Verdict,
    pub worker_message: Option<String>,
}

/// Whether a review asks for changes and says which.
pub open spec fn asks_for_changes(review: WorkerReview) -> bool {
    review.verdict is RequestChanges && review.worker_message is Some
}

/// The feedback of the first review that asks for changes and says which.
pub open spec fn feedback_of(reviews: Seq<WorkerReview>) -> Option<Seq<char>>
    decreases reviews.len(),
{
    if reviews.len() == 0 {
        None
    } else if asks_for_changes(reviews[0]) {
        opt_text(reviews[0].worker_message)
    } else {
        feedback_of(reviews.drop_first())
    }
}

/// The feedback of the first review that asks for changes and says which.
pub fn review_feedback(reviews: &Vec<WorkerReview>) -> (r: Option<String>)
    ensures
        opt_text(r) == feedback_of(reviews@),
{
    let n: usize = reviews.len();
    let mut i: usize = 0;
    proof {
        assert(reviews@.skip(0) =~= reviews@);
    }
    while i < n
        invariant
            n == reviews@.len(),
            0 <= i <= n,
            feedback_of(reviews@) == feedback_of(reviews@.skip(i as int)),
        decreases n - i,
    {
        if reviews[i].verdict == Verdict::RequestChanges && reviews[i].worker_message.is_some() {
            return reviews[i].worker_message.clone();
        }
        proof {
            assert(reviews@.skip(i as int).drop_first() =~= reviews@.skip(i + 1));
        }
        i = i + 1;
    }
    None
}

/// The section of a prompt about a review of the previous attempt.
pub open spec fn feedback_section(feedback: Option<Seq<char>>, review_role: Seq<char>) -> Seq<char> {
    match feedback {
        Some(f) =>
            "\n\n# Review Feedback (Previous Attempt)\n\nA "@ + review_role
                + " inspected your last attempt and requested changes. Address all of the following before marking the work done:\n\n"@
                + f,
        None => seq![],
    }
}

/// The prompt of a worker that is queued again.
pub open spec fn requeue_prompt(
    brief: Tree,
    feedback: Option<Seq<char>>,
    review_role: Seq<char>,
) -> Seq<char> {
    prompt_of_brief(brief, review_role) + feedback_section(feedback, review_role)
}

/// The section of a revision's prompt about an earlier review.
pub open spec fn prior_feedback(feedback: Option<Seq<char>>) -> Seq<char> {
    match feedback {
        Some(f) => "\n\n# Prior Review Feedback\n\n"@ + f,
        None => seq![],
    }
}

/// The prompt of a worker that is started anew for a message to it.
pub open spec fn revision_prompt(
    message: Seq<char>,
    brief: Tree,
    feedback: Option<Seq<char>>,
    review_role: Seq<char>,
) -> Seq<char> {
    "# Revision Instructions\n\n"@ + message + "\n\n"@ + prompt_of_brief(brief, review_role)
        + prior_feedback(feedback)
}

/// Starting a worker anew: in which repository, with what prompt, which agent
/// and which model.
pub struct Respawn {
    pub repo: String,
    pub prompt: String,
    pub agent: String,
    pub model: Option<String>,
}

/// The agent that a worker is started with anew: its own, or a default.
pub open spec fn agent_again(worker: Worker, default_agent: Seq<char>) -> Seq<char> {
    match worker.agent_kind {
        Some(a) => a@,
        None => default_agent,
    }
}

fn own_agent(worker: &Worker, default_agent: &str) -> (r: String)
    ensures
        r@ == agent_again(*worker, default_agent@),
{
    match &worker.agent_kind {
        Some(a) => a.clone(),
        None => default_agent.to_owned(),
    }
}

/// The prompt of a worker that is queued again.
pub fn build_requeue_prompt(brief: &Json, feedback: &Option<String>, review_role: &str) -> (r:
    String)
    ensures
        r@ == requeue_prompt(brief.tree(), opt_text(*feedback), review_role@),
{
    let head = format_brief_as_prompt(brief, review_role);
    let tail = match feedback {
        Some(f) => cat4(
            "\n\n# Review Feedback (Previous Attempt)\n\nA ",
            review_role,
            " inspected your last attempt and requested changes. Address all of the following before marking the work done:\n\n",
            f.as_str(),
        ),
        None => String::new(),
    };
    cat2(head.as_str(), tail.as_str())
}

/// The prompt of a worker that is started anew for a message to it.
pub fn build_revision_prompt(
    message: &str,
    brief: &Json,
    feedback: &Option<String>,
    review_role: &str,
) -> (r: String)
    ensures
        r@ == revision_prompt(message@, brief.tree(), opt_text(*feedback), review_role@),
{
    let base = format_brief_as_prompt(brief, review_role);
    let head = cat4("# Revision Instructions\n\n", message, "\n\n", base.as_str());
    let tail = match feedback {
        Some(f) => cat2("\n\n# Prior Review Feedback\n\n", f.as_str()),
        None => String::new(),
    };
    cat2(head.as_str(), tail.as_str())
}

/// Why a worker cannot be queued again, in the order in which it is found out.
pub open spec fn requeue_refusal(
    worker: Option<Worker>,
    workspace: Seq<char>,
    workspace_exists: bool,
) -> Option<(u16, Seq<char>)> {
    match worker {
        None => Some((404u16, "worker not found"@)),
        Some(w) => if w.brief is None {
            Some((400u16, "worker has no brief — cannot requeue"@))
        } else if w.repo is None {
            Some((400u16, "worker has no repo — cannot requeue"@))
        } else if !workspace_exists {
            Some((404u16, no_workspace(workspace)))
        } else {
            None
        },
    }
}

/// Whether `r` is how a worker is queued again.
pub open spec fn plans_requeue(
    r: Result<Respawn, Refusal>,
    worker: Option<Worker>,
    workspace: Seq<char>,
    workspace_exists: bool,
    reviews: Seq<WorkerReview>,
    default_agent: Seq<char>,
    review_role: Seq<char>,
) -> bool {
    match requeue_refusal(worker, workspace, workspace_exists) {
        Some((status, error)) => r is Err && refuses(r->Err_0, status, error),
        None => {
            &&& r is Ok
            &&& r->Ok_0.repo@ == worker->0.repo->0@
            &&& r->Ok_0.prompt@ == requeue_prompt(
                worker->0.brief->0.tree(),
                feedback_of(reviews),
                review_role,
            )
            &&& r->Ok_0.agent@ == agent_again(worker->0, default_agent)
            &&& opt_text(r->Ok_0.model) == opt_text(worker->0.model)
        },
    }
}

/// Decides on a wish to queue a worker again.
pub fn plan_requeue(
    worker: &Option<Worker>,
    workspace: &str,
    workspace_exists: bool,
    reviews: &Vec<WorkerReview>,
    default_agent: &str,
    review_role: &str,
) -> (r: Result<Respawn, Refusal>)
    ensures
        plans_requeue(
            r,
            *worker,
            workspace@,
            workspace_exists,
            reviews@,
            default_agent@,
            review_role@,
        ),
{
    let w = match worker {
        Some(w) => w,
        None => {
            return Err(refuse(404, "worker not found"));
        },
    };
    let brief = match &w.brief {
        Some(b) => b,
        None => {
            return Err(refuse(400, "worker has no brief — cannot requeue"));
        },
    };
    let repo = match &w.repo {
        Some(p) => p,
        None => {
            return Err(refuse(400, "worker has no repo — cannot requeue"));
        },
    };
    if !workspace_exists {
        return Err(refuse_workspace(workspace));
    }
    let feedback = review_feedback(reviews);
    Ok(
        Respawn {
            repo: repo.clone(),
            prompt: build_requeue_prompt(brief, &feedback, review_role),
            agent: own_agent(w, default_agent),
            model: w.model.clone(),
        },
    )
}

/// Decides whether a worker that could not be given the feedback of a review
/// is queued again by itself.
pub fn plan_auto_requeue(worker: &Worker, feedback: &str, review_role: &str) -> (r: Option<Respawn>)
    ensures
        r is Some <==> worker.brief is Some && worker.repo is Some,
        r matches Some(s) ==> {
            &&& s.repo@ == worker.repo->0@
            &&& s.prompt@ == requeue_prompt(
                worker.brief->0.tree(),
                Some(feedback@),
                review_role@,
            )
            &&& s.agent@ == agent_again(*worker, "codex"@)
            &&& opt_text(s.model) == opt_text(worker.model)
        },
{
    match &worker.brief {
        Some(brief) => match &worker.repo {
            Some(repo) => Some(
                Respawn {
                    repo: repo.clone(),
                    prompt: build_requeue_prompt(
                        brief,
                        &Some(feedback.to_owned()),
                        review_role,
                    ),
                    agent: own_agent(worker, "codex"),
                    model: worker.model.clone(),
                },
            ),
            None => None,
        },
        None => None,
    }
}

/// What is done with a message to a worker.
pub enum SendPlan {
    /// The worker has no record: the worker manager gets the message as it is.
    PassOn,
    /// The worker's branch is ready: it is started anew for the message.
    Revise(Respawn),
    /// The worker gets the message.
    Deliver,
}

/// The brief of a worker, empty where it has none.
pub open spec fn brief_or_empty(worker: Worker) -> Tree {
    match worker.brief {
        Some(b) => b.tree(),
        None => Tree::Object(seq![]),
    }
}

/// Whether `r` is what is done with a message to a worker.
pub open spec fn plans_send(
    r: Result<SendPlan, Refusal>,
    worker: Option<Worker>,
    message: Seq<char>,
    workspace: Seq<char>,
    workspace_exists: bool,
    reviews: Seq<WorkerReview>,
    default_agent: Seq<char>,
    review_role: Seq<char>,
) -> bool {
    match worker {
        None => r is Ok && r->Ok_0 is PassOn,
        Some(w) => if !workspace_exists {
            r is Err && refuses(r->Err_0, 404, no_workspace(workspace))
        } else if !w.branch_ready {
            r is Ok && r->Ok_0 is Deliver
        } else {
            match w.repo {
                None => r is Err && refuses(r->Err_0, 400, "worker has no repo"@),
                Some(repo) => {
                    &&& r is Ok
                    &&& r->Ok_0 is Revise
                    &&& r->Ok_0->Revise_0.repo@ == repo@
                    &&& r->Ok_0->Revise_0.prompt@ == revision_prompt(
                        message,
                        brief_or_empty(w),
                        feedback_of(reviews),
                        review_role,
                    )
                    &&& r->Ok_0->Revise_0.agent@ == agent_again(w, default_agent)
                    &&& opt_text(r->Ok_0->Revise_0.model) == opt_text(w.model)
                },
            }
        },
    }
}

/// Decides what is done with a message to a worker.
pub fn plan_send(
    worker: &Option<Worker>,
    message: &str,
    workspace: &str,
    workspace_exists: bool,
    reviews: &Vec<WorkerReview>,
    default_agent: &str,
    review_role: &str,
) -> (r: Result<SendPlan, Refusal>)
    ensures
        plans_send(
            r,
            *worker,
            message@,
            workspace@,
            workspace_exists,
            reviews@,
            default_agent@,
            review_role@,
        ),
{
    let w = match worker {
        Some(w) => w,
        None => {
            return Ok(SendPlan::PassOn);
        },
    };
    if !workspace_exists {
        return Err(refuse_workspace(workspace));
    }
    if !w.branch_ready {
        return Ok(SendPlan::Deliver);
    }
    let brief = match &w.brief {
        Some(b) => b.copy(),
        None => object(),
    };
    let repo = match &w.repo {
        Some(p) => p,
        None => {
            return Err(refuse(400, "worker has no repo"));
        },
    };
    let feedback = review_feedback(reviews);
    Ok(
        SendPlan::Revise(
            Respawn {
                repo: repo.clone(),
                prompt: build_revision_prompt(message, &brief, &feedback, review_role),
                agent: own_agent(w, default_agent),
                model: w.model.clone(),
            },
        ),
    )
}

/// The record of a worker that was started anew as `id`: what it has achieved
/// is kept, and it is one revision further.
pub open spec fn restarted_record(
    r: Worker,
    worker: Worker,
    id: Seq<char>,
    workspace: Seq<char>,
    now: Seq<char>,
) -> bool {
    &&& r.id@ == id
    &&& r.workspace@ == workspace
    &&& r.state == WorkerState::Queued
    &&& opt_tree(r.brief) == Some(brief_or_empty(worker))
    &&& r.repo == worker.repo
    &&& r.branch == worker.branch
    &&& r.goal == worker.goal
    &&& r.tests_passing == worker.tests_passing
    &&& !r.branch_ready
    &&& r.pr_url == worker.pr_url
    &&& r.pr_approved == worker.pr_approved
    &&& r.ci_passing == worker.ci_passing
    &&& !r.is_stalled
    &&& r.revision_count == worker.revision_count + 1
    &&& r.review_mode@ == brief_text(brief_or_empty(worker), "review_mode"@, "local_first"@)
    &&& r.blocked_reason is None
    &&& r.display_title == worker.display_title
    &&& r.last_output_at == worker.last_output_at
    &&& r.state_entered_at@ == now
    &&& r.created_at == worker.created_at
    &&& r.updated_at@ == now
    &&& r.worktree_path is None
    &&& r.isolation_mode is None
    &&& r.agent_kind == worker.agent_kind
    &&& r.model == worker.model
    &&& r.repo_path is None
    &&& r.label@ == Seq::<char>::empty()
}

/// The record of a worker that was started anew as `new_id`.
pub fn restarted(worker: &Worker, new_id: &str, workspace: &str, now: &str) -> (r: Result<
    Worker,
    Refusal,
>)
    requires
        worker.revision_count < i64::MAX,
    ensures
        new_id@.len() == 0 ==> r is Err && refuses(
            r->Err_0,
            500,
            "swarm create did not return a worker ID"@,
        ),
        new_id@.len() > 0 ==> r is Ok && restarted_record(
            r->Ok_0,
            *worker,
            new_id@,
            workspace@,
            now@,
        ),
{
    if new_id.is_empty() {
        return Err(refuse(500, "swarm create did not return a worker ID"));
    }
    let brief = match &worker.brief {
        Some(b) => b.copy(),
        None => object(),
    };
    let review_mode = brief_text_or(&brief, "review_mode", "local_first");
    Ok(
        Worker {
            id: new_id.to_owned(),
            workspace: workspace.to_owned(),
            state: WorkerState::Queued,
            brief: Some(brief),
            repo: worker.repo.clone(),
            branch: worker.branch.clone(),
            goal: worker.goal.clone(),
            tests_passing: worker.tests_passing,
            branch_ready: false,
            pr_url: worker.pr_url.clone(),
            pr_approved: worker.pr_approved,
            ci_passing: worker.ci_passing,
            is_stalled: false,
            revision_count: worker.revision_count + 1,
            review_mode,
            blocked_reason: None,
            display_title: worker.display_title.clone(),
            last_output_at: worker.last_output_at.clone(),
            state_entered_at: now.to_owned(),
            created_at: worker.created_at.clone(),
            updated_at: now.to_owned(),
            worktree_path: None,
            isolation_mode: None,
            agent_kind: worker.agent_kind.clone(),
            model: worker.model.clone(),
            repo_path: None,
            label: String::new(),
        },
    )
}

/// A worker that was given a message: one that waited runs again, on a further
/// revision.
pub open spec fn after_delivery(worker: Worker) -> Worker {
    if worker.state == WorkerState::Waiting {
        Worker {
            state: WorkerState::Running,
            revision_count: (worker.revision_count + 1) as i64,
            ..worker
        }
    } else {
        worker
    }
}

/// The record of a worker after a message was delivered to it: one that waited
/// runs again and is one revision further.
pub fn delivered(worker: Worker) -> (r: Worker)
    requires
        worker.state == WorkerState::Waiting ==> worker.revision_count < i64::MAX,
    ensures
        r == after_delivery(worker),
{
    match worker.state {
        WorkerState::Waiting => {
            let mut w = worker;
            w.state = WorkerState::Running;
            w.revision_count = w.revision_count + 1;
            w
        },
        _ => worker,
    }
}

/// Whatever is done to start a worker anew, and however often, nothing that it
/// has achieved is lost and its revisions are counted.
pub proof fn law_restarts_keep_the_work(
    worker: Worker,
    once: Worker,
    twice: Worker,
    first_id: Seq<char>,
    second_id: Seq<char>,
    workspace: Seq<char>,
    now: Seq<char>,
    later: Seq<char>,
)
    requires
        restarted_record(once, worker, first_id, workspace, now),
        restarted_record(twice, once, second_id, workspace, later),
    ensures
        twice.branch == worker.branch,
        twice.pr_url == worker.pr_url,
        twice.pr_approved == worker.pr_approved,
        twice.tests_passing == worker.tests_passing,
        twice.last_output_at == worker.last_output_at,
        twice.display_title == worker.display_title,
        twice.created_at == worker.created_at,
        twice.review_mode@ == once.review_mode@,
        twice.revision_count == worker.revision_count + 2,
        !twice.branch_ready,
{
}

// ---------------------------------------------------------------------------
// News and answers
// ---------------------------------------------------------------------------

/// Whether `news` tells how a worker stands.
pub open spec fn tells(
    news: WorkerUpdate,
    workspace: Seq<char>,
    worker_id: Seq<char>,
    state: Seq<char>,
    label: Seq<char>,
    properties: Seq<(Seq<char>, Tree)>,
) -> bool {
    &&& news.workspace@ == workspace
    &&& news.worker_id@ == worker_id
    &&& news.state@ == state
    &&& news.label@ == label
    &&& news.properties.tree() == Tree::Object(properties)
}

/// The news that a worker has been queued; one that was started anew is told
/// with its revision.
pub fn queued_news(workspace: &str, worker_id: &str, revision: Option<i64>) -> (r: WorkerUpdate)
    ensures
        tells(
            r,
            workspace@,
            worker_id@,
            "queued"@,
            "Queued"@,
            match revision {
                Some(n) => seq![("revision_count"@, Tree::Number(n as int))],
                None => seq![],
            },
        ),
{
    let properties = match revision {
        Some(n) => object().with("revision_count", Json::Number(n as i128)),
        None => object(),
    };
    proof {
        match revision {
            Some(n) => {
                assert(members_of(properties.tree()) =~= seq![
                    ("revision_count"@, Tree::Number(n as int)),
                ]);
            },
            None => {
                assert(members_of(properties.tree()) =~= seq![]);
            },
        }
    }
    WorkerUpdate {
        workspace: workspace.to_owned(),
        worker_id: worker_id.to_owned(),
        state: "queued".to_owned(),
        label: "Queued".to_owned(),
        properties,
    }
}

/// The news about a worker that a message was delivered to.
pub fn delivered_news(worker: &Worker) -> (r: WorkerUpdate)
    ensures
        tells(
            r,
            worker.workspace@,
            worker.id@,
            worker.state.word(),
            worker.label@,
            seq![
                ("revision_count"@, Tree::Number(worker.revision_count as int)),
                ("is_stalled"@, Tree::Bool(worker.is_stalled)),
            ],
        ),
{
    let properties = object().with(
        "revision_count",
        Json::Number(worker.revision_count as i128),
    ).with("is_stalled", Json::Bool(worker.is_stalled));
    proof {
        assert(members_of(properties.tree()) =~= seq![
            ("revision_count"@, Tree::Number(worker.revision_count as int)),
            ("is_stalled"@, Tree::Bool(worker.is_stalled)),
        ]);
    }
    WorkerUpdate {
        workspace: worker.workspace.clone(),
        worker_id: worker.id.clone(),
        state: worker.state.as_str().to_owned(),
        label: worker.label.clone(),
        properties,
    }
}

/// The state that cancelling a worker leaves it in.
pub fn cancelled_state() -> (r: WorkerState)
    ensures
        r == WorkerState::Abandoned,
{
    WorkerState::Abandoned
}

/// The news about a worker that was cancelled.
pub fn cancelled_news(worker: &Worker) -> (r: WorkerUpdate)
    ensures
        tells(r, worker.workspace@, worker.id@, worker.state.word(), worker.label@, seq![]),
{
    let properties = object();
    proof {
        assert(members_of(properties.tree()) =~= seq![]);
    }
    WorkerUpdate {
        workspace: worker.workspace.clone(),
        worker_id: worker.id.clone(),
        state: worker.state.as_str().to_owned(),
        label: worker.label.clone(),
        properties,
    }
}

/// The answer to a request that succeeded: which worker it came to, under
/// `key`.
pub fn worker_answer(key: &str, worker_id: &str) -> (r: Json)
    ensures
        r.tree() == Tree::Object(seq![("ok"@, Tree::Bool(true)), (key@, Tree::Text(worker_id@))]),
{
    let r = object().with("ok", Json::Bool(true)).with(key, crate::json::text(worker_id));
    proof {
        assert(members_of(r.tree()) =~= seq![
            ("ok"@, Tree::Bool(true)),
            (key@, Tree::Text(worker_id@)),
        ]);
    }
    r
}

/// The answer to a wish to queue a worker again that succeeded.
pub fn requeue_answer(worker_id: &str, with_feedback: bool) -> (r: Json)
    ensures
        r.tree() == Tree::Object(
            seq![
                ("ok"@, Tree::Bool(true)),
                ("new_worker_id"@, Tree::Text(worker_id@)),
                ("with_review_feedback"@, Tree::Bool(with_feedback)),
            ],
        ),
{
    let r = worker_answer("new_worker_id", worker_id).with(
        "with_review_feedback",
        Json::Bool(with_feedback),
    );
    proof {
        assert(members_of(r.tree()) =~= seq![
            ("ok"@, Tree::Bool(true)),
            ("new_worker_id"@, Tree::Text(worker_id@)),
            ("with_review_feedback"@, Tree::Bool(with_feedback)),
        ]);
    }
    r
}

// ---------------------------------------------------------------------------
// Reviews
// ---------------------------------------------------------------------------

/// Why a worker cannot be reviewed, where it cannot.
pub open spec fn review_refusal(worker: Option<Worker>) -> Option<(u16, Seq<char>)> {
    match worker {
        None => Some((404u16, "worker not found"@)),
        Some(w) => if w.state == WorkerState::Waiting && w.branch_ready {
            None
        } else {
            Some(
                (
                    400u16,
                    "review only available when worker is waiting and branch_ready=true"@,
                ),
            )
        },
    }
}

/// Decides whether a worker can be reviewed: it waits, and its branch is
/// ready.
pub fn check_review(worker: &Option<Worker>) -> (r: Result<(), Refusal>)
    ensures
        match review_refusal(*worker) {
            Some((status, error)) => r is Err && refuses(r->Err_0, status, error),
            None => r is Ok,
        },
{
    match worker {
        None => Err(refuse(404, "worker not found")),
        Some(w) => {
            let waiting = match w.state {
                WorkerState::Waiting => true,
                _ => false,
            };
            if waiting && w.branch_ready {
                Ok(())
            } else {
                Err(
                    refuse(
                        400,
                        "review only available when worker is waiting and branch_ready=true",
                    ),
                )
            }
        },
    }
}

/// What a worker's timeline says about a review.
pub open spec fn review_note(
    verdict: Verdict,
    summary: Seq<char>,
    delivered: bool,
) -> Seq<char> {
    match verdict {
        Verdict::Approve => "✓ Review approved — "@ + summary,
        Verdict::RequestChanges => "✗ Review requested changes — "@ + summary + "\n\n"@
            + if delivered {
            "Feedback sent to worker."@
        } else {
            "Worker auto-requeued with feedback."@
        },
        Verdict::Comment => "💬 Review comment — "@ + summary,
    }
}

/// What a worker's timeline says about a review.
pub fn review_timeline_text(verdict: Verdict, summary: &str, delivered: bool) -> (r: String)
    ensures
        r@ == review_note(verdict, summary@, delivered),
{
    match verdict {
        Verdict::Approve => cat2("✓ Review approved — ", summary),
        Verdict::RequestChanges => {
            let suffix = if delivered {
                "Feedback sent to worker."
            } else {
                "Worker auto-requeued with feedback."
            };
            cat4("✗ Review requested changes — ", summary, "\n\n", suffix)
        },
        Verdict::Comment => cat2("💬 Review comment — ", summary),
    }
}

/// The line of a worker's timeline about a review.
pub fn review_timeline_event(verdict: Verdict, summary: &str, delivered: bool, now: &str) -> (r:
    Json)
    ensures
        r.tree() == Tree::Object(
            seq![
                ("type"@, Tree::Text("system"@)),
                ("timestamp"@, Tree::Text(now@)),
                ("text"@, Tree::Text(review_note(verdict, summary@, delivered))),
            ],
        ),
{
    let note = review_timeline_text(verdict, summary, delivered);
    let r = object().with("type", crate::json::text("system")).with(
        "timestamp",
        crate::json::text(now),
    ).with("text", Json::Text(note));
    proof {
        assert(members_of(r.tree()) =~= seq![
            ("type"@, Tree::Text("system"@)),
            ("timestamp"@, Tree::Text(now@)),
            ("text"@, Tree::Text(review_note(verdict, summary@, delivered))),
        ]);
    }
    r
}

/// News of a review.
pub struct ReviewNews {
    pub verdict: String,
    /// Who gave it.
    pub given_by: String,
}

/// The news that an event of a review holds, if it holds a verdict. An event
/// names who gave it under the key `giver`.
pub fn review_news(event: &Json, giver: &str) -> (r: Option<ReviewNews>)
    ensures
        match text_field(event.tree(), "verdict"@) {
            Some(v) => r is Some && r->0.verdict@ == v && r->0.given_by@ == brief_text(
                event.tree(),
                giver@,
                "General"@,
            ),
            None => r is None,
        },
{
    match event.text_field("verdict") {
        Some(verdict) => Some(
            ReviewNews { verdict, given_by: brief_text_or(event, giver, "General") },
        ),
        None => None,
    }
}

// ---------------------------------------------------------------------------
// Titles
// ---------------------------------------------------------------------------

/// The wish for a title. `subject` is the word for what the title is of.
pub fn title_prompt(goal: &str, subject: &str) -> (r: String)
    ensures
        r@ == "Generate a short display title (4-8 words) for this "@ + subject@
            + ". Output only the title, no punctuation, no markdown, no explanation.\n\nTask: "@
            + goal@,
{
    cat4(
        "Generate a short display title (4-8 words) for this ",
        subject,
        ". Output only the title, no punctuation, no markdown, no explanation.\n\nTask: ",
        goal,
    )
}

/// The first line of a list that is not blank.
pub open spec fn first_filled(list: Seq<Seq<char>>) -> Option<Seq<char>>
    decreases list.len(),
{
    if list.len() == 0 {
        None
    } else if trim(list[0]).len() > 0 {
        Some(list[0])
    } else {
        first_filled(list.drop_first())
    }
}

/// The first line of a text that is not blank.
pub fn first_filled_line(s: &str) -> (r: Option<String>)
    ensures
        opt_text(r) == first_filled(crate::text::lines(s@)),
{
    let list = crate::text::lines_of(s);
    let ghost all = texts(list@);
    let n: usize = list.len();
    let mut i: usize = 0;
    proof {
        assert(all.skip(0) =~= all);
    }
    while i < n
        invariant
            n == list@.len(),
            all == texts(list@),
            all == crate::text::lines(s@),
            0 <= i <= n,
            first_filled(all) == first_filled(all.skip(i as int)),
        decreases n - i,
    {
        proof {
            assert(all.skip(i as int)[0] == list@[i as int]@);
            assert(all.skip(i as int).drop_first() =~= all.skip(i + 1));
        }
        if !blank(list[i].as_str()) {
            return Some(list[i].clone());
        }
        i = i + 1;
    }
    None
}

/// The title in what the model answered: its first line that is not blank,
/// trimmed and cut to eighty characters.
pub fn title_from_output(output: &str) -> (r: Option<String>)
    ensures
        opt_text(r) == match first_filled(crate::text::lines(output@)) {
            Some(line) => Some(crate::text::first_chars(trim(line), 80)),
            None => None,
        },
{
    match first_filled_line(output) {
        Some(line) => {
            let t = trimmed(line.as_str());
            Some(crate::text::start_of(t.as_str(), 80))
        },
        None => None,
    }
}

// ---------------------------------------------------------------------------
// Laws
// ---------------------------------------------------------------------------

/// A message to a worker whose branch is not ready is delivered to it. One to a
/// worker whose branch is ready starts the worker anew, in its repository, with
/// its own agent and model, on what the message says. A worker that no record
/// tells of is given the message as it is.
pub proof fn law_message_reaches_the_worker(
    r: Result<SendPlan, Refusal>,
    worker: Option<Worker>,
    message: Seq<char>,
    workspace: Seq<char>,
    workspace_exists: bool,
    reviews: Seq<WorkerReview>,
    default_agent: Seq<char>,
    review_role: Seq<char>,
)
    requires
        plans_send(
            r,
            worker,
            message,
            workspace,
            workspace_exists,
            reviews,
            default_agent,
            review_role,
        ),
    ensures
        worker is None ==> r is Ok && r->Ok_0 is PassOn,
        worker is Some && !workspace_exists ==> r is Err && r->Err_0.status == 404,
        worker is Some && workspace_exists && !worker->0.branch_ready ==> r is Ok
            && r->Ok_0 is Deliver,
        worker is Some && workspace_exists && worker->0.branch_ready && worker->0.repo is None ==> r
            is Err && r->Err_0.status == 400,
        worker is Some && workspace_exists && worker->0.branch_ready && worker->0.repo is Some
            ==> r is Ok && r->Ok_0 is Revise && ({
            let plan = r->Ok_0->Revise_0;
            &&& plan.repo@ == worker->0.repo->0@
            &&& starts_with(plan.prompt@, "# Revision Instructions\n\n"@ + message + "\n\n"@)
            &&& worker->0.brief is Some ==> contains(
                plan.prompt@,
                prompt_of_brief(worker->0.brief->0.tree(), review_role),
            )
            &&& worker->0.agent_kind is Some ==> plan.agent@ == worker->0.agent_kind->0@
            &&& worker->0.agent_kind is None ==> plan.agent@ == default_agent
            &&& opt_text(plan.model) == opt_text(worker->0.model)
            &&& feedback_of(reviews) is Some ==> ends_with(
                plan.prompt@,
                feedback_of(reviews)->0,
            )
        }),
{
    if worker is Some && workspace_exists && worker->0.branch_ready && worker->0.repo is Some {
        let p = r->Ok_0->Revise_0.prompt@;
        let head = "# Revision Instructions\n\n"@ + message + "\n\n"@;
        let brief = prompt_of_brief(brief_or_empty(worker->0), review_role);
        let end = prior_feedback(feedback_of(reviews));
        assert(p == head + brief + end);
        assert(p.subrange(0, head.len() as int) =~= head);
        lemma_holds_part(head, brief, end);
        if feedback_of(reviews) is Some {
            let f = feedback_of(reviews)->0;
            assert(p.subrange(p.len() - f.len(), p.len() as int) =~= f);
        }
    }
}

/// A worker is queued again exactly where there is one with a brief and a
/// repository in a workspace that exists: on its brief, in its repository, with
/// its own agent and model, and with the feedback of the last review that asked
/// for changes, where there is one.
pub proof fn law_requeued_worker_keeps_its_work(
    r: Result<Respawn, Refusal>,
    worker: Option<Worker>,
    workspace: Seq<char>,
    workspace_exists: bool,
    reviews: Seq<WorkerReview>,
    default_agent: Seq<char>,
    review_role: Seq<char>,
)
    requires
        plans_requeue(
            r,
            worker,
            workspace,
            workspace_exists,
            reviews,
            default_agent,
            review_role,
        ),
    ensures
        r is Ok <==> worker is Some && worker->0.brief is Some && worker->0.repo is Some
            && workspace_exists,
        worker is None ==> r->Err_0.status == 404,
        worker is Some && (worker->0.brief is None || worker->0.repo is None) ==> r->Err_0.status
            == 400,
        worker is Some && worker->0.brief is Some && worker->0.repo is Some && !workspace_exists
            ==> r->Err_0.status == 404,
        r is Ok ==> {
            &&& r->Ok_0.repo@ == worker->0.repo->0@
            &&& starts_with(
                r->Ok_0.prompt@,
                prompt_of_brief(worker->0.brief->0.tree(), review_role),
            )
            &&& feedback_of(reviews) is Some ==> ends_with(
                r->Ok_0.prompt@,
                feedback_of(reviews)->0,
            )
            &&& feedback_of(reviews) is None ==> r->Ok_0.prompt@ == prompt_of_brief(
                worker->0.brief->0.tree(),
                review_role,
            )
            &&& worker->0.agent_kind is Some ==> r->Ok_0.agent@ == worker->0.agent_kind->0@
            &&& worker->0.agent_kind is None ==> r->Ok_0.agent@ == default_agent
            &&& opt_text(r->Ok_0.model) == opt_text(worker->0.model)
        },
{
    if r is Ok {
        let p = r->Ok_0.prompt@;
        let brief = prompt_of_brief(worker->0.brief->0.tree(), review_role);
        assert(p.subrange(0, brief.len() as int) =~= brief);
        if feedback_of(reviews) is Some {
            let f = feedback_of(reviews)->0;
            assert(p.subrange(p.len() - f.len(), p.len() as int) =~= f);
        } else {
            assert(brief + seq![] =~= brief);
        }
    }
}

/// The feedback that a worker gets is that of the first review of the list that
/// asks for changes and has a message; there is none exactly where no review
/// does.
pub proof fn law_latest_wish_for_changes_counts(reviews: Seq<WorkerReview>, k: int)
    ensures
        0 <= k < reviews.len() && reviews[k].verdict is RequestChanges
            && reviews[k].worker_message is Some && (forall|j: int|
            0 <= j < k ==> !((#[trigger] reviews[j]).verdict is RequestChanges)
                || reviews[j].worker_message is None) ==> feedback_of(reviews) == Some(
            reviews[k].worker_message->0@,
        ),
        (forall|j: int|
            0 <= j < reviews.len() ==> !((#[trigger] reviews[j]).verdict is RequestChanges)
                || reviews[j].worker_message is None) ==> feedback_of(reviews) is None,
    decreases reviews.len(),
{
    if reviews.len() > 0 {
        let t = reviews.drop_first();
        law_latest_wish_for_changes_counts(t, k - 1);
        assert forall|j: int| 0 <= j < t.len() implies #[trigger] t[j] == reviews[j + 1] by {}
        if !asks_for_changes(reviews[0]) {
            if 0 < k < reviews.len() && (forall|j: int|
                0 <= j < k ==> !((#[trigger] reviews[j]).verdict is RequestChanges)
                    || reviews[j].worker_message is None) {
                assert forall|j: int| 0 <= j < k - 1 implies !((#[trigger] t[j]).verdict is RequestChanges)
                    || t[j].worker_message is None by {
                    assert(t[j] == reviews[j + 1]);
                }
            }
            if forall|j: int|
                0 <= j < reviews.len() ==> !((#[trigger] reviews[j]).verdict is RequestChanges)
                    || reviews[j].worker_message is None {
                assert forall|j: int| 0 <= j < t.len() implies !((#[trigger] t[j]).verdict is RequestChanges)
                    || t[j].worker_message is None by {
                    assert(t[j] == reviews[j + 1]);
                }
            }
        } else if k > 0 {
            assert(reviews[0].verdict is RequestChanges);
        }
    }
}

/// Approving approves, the word for changes asks for them, and whatever else a
/// review says is a comment.
pub proof fn law_verdicts(word: Seq<char>, changes: Seq<char>)
    ensures
        verdict_of("approve"@, changes) == Verdict::Approve,
        changes != "approve"@ ==> verdict_of(changes, changes) == Verdict::RequestChanges,
        word != "approve"@ && word != changes ==> verdict_of(word, changes) == Verdict::Comment,
{
}

/// A worker is reviewed while it waits with a branch that is ready, and never
/// else.
pub proof fn law_only_ready_workers_are_reviewed(worker: Option<Worker>)
    ensures
        review_refusal(worker) is None <==> worker is Some && worker->0.state
            == WorkerState::Waiting && worker->0.branch_ready,
        worker is None ==> (review_refusal(worker)->0).0 == 404,
        worker is Some && review_refusal(worker) is Some ==> (review_refusal(worker)->0).0 == 400,
{
}

/// What a review comes to is noted in the worker's timeline, with its summary;
/// where it asks for changes, the note tells what became of the feedback.
pub proof fn law_timeline_tells_the_verdict(summary: Seq<char>, sent: bool)
    ensures
        review_note(Verdict::Approve, summary, sent) == "✓ Review approved — "@ + summary,
        review_note(Verdict::Comment, summary, sent) == "💬 Review comment — "@ + summary,
        starts_with(
            review_note(Verdict::RequestChanges, summary, sent),
            "✗ Review requested changes — "@ + summary,
        ),
        ends_with(
            review_note(Verdict::RequestChanges, summary, true),
            "Feedback sent to worker."@,
        ),
        ends_with(
            review_note(Verdict::RequestChanges, summary, false),
            "Worker auto-requeued with feedback."@,
        ),
{
    let a = review_note(Verdict::RequestChanges, summary, true);
    let b = review_note(Verdict::RequestChanges, summary, false);
    let c = review_note(Verdict::RequestChanges, summary, sent);
    let head = "✗ Review requested changes — "@ + summary;
    let x = "Feedback sent to worker."@;
    let y = "Worker auto-requeued with feedback."@;
    assert(c.subrange(0, head.len() as int) =~= head);
    assert(a.subrange(a.len() - x.len(), a.len() as int) =~= x);
    assert(b.subrange(b.len() - y.len(), b.len() as int) =~= y);
}

/// A worker that waited runs again once a message has reached it, and this is a
/// further revision; no other worker changes by a message.
pub proof fn law_delivery_wakes_a_waiting_worker(worker: Worker)
    requires
        worker.revision_count < i64::MAX,
    ensures
        worker.state == WorkerState::Waiting ==> after_delivery(worker).state
            == WorkerState::Running && after_delivery(worker).revision_count
            == worker.revision_count + 1 && after_delivery(worker).id == worker.id
            && after_delivery(worker).branch == worker.branch && after_delivery(worker).brief
            == worker.brief,
        worker.state != WorkerState::Waiting ==> after_delivery(worker) == worker,
{
}

/// A record is kept under the identifier of the worker that was started, where
/// it has one; else it stays under its own.
pub proof fn law_record_takes_the_worker_id(record_id: Seq<char>, worker_id: Seq<char>)
    ensures
        worker_id.len() > 0 ==> final_id(record_id, worker_id) == worker_id,
        worker_id.len() == 0 ==> final_id(record_id, worker_id) == record_id,
        is_rekeyed(record_id, worker_id) <==> final_id(record_id, worker_id) != record_id,
{
    if worker_id.len() == 0 && worker_id != record_id {
        assert(final_id(record_id, worker_id) == record_id);
    }
}

/// The agent that a request names is taken where it is known; else the default
/// one is.
pub proof fn law_known_agents_are_taken(asked: Seq<char>, default_agent: Seq<char>, known: bool)
    ensures
        trim(asked).len() > 0 ==> agent_for(Some(asked), true, default_agent) == trim(asked),
        agent_for(Some(asked), false, default_agent) == default_agent,
        trim(asked).len() == 0 ==> agent_for(Some(asked), known, default_agent) == default_agent,
        agent_for(None, known, default_agent) == default_agent,
{
}

/// A worker starts out briefed, with nothing to show for it: no branch, no pull
/// request, no tests that pass, on its first revision.
pub proof fn law_new_worker_has_nothing_to_show(
    w: Worker,
    id: Seq<char>,
    workspace: Seq<char>,
    now: Seq<char>,
    brief: Tree,
    repo: Seq<char>,
    goal: Option<Seq<char>>,
    review_mode: Seq<char>,
    agent: Seq<char>,
    model: Option<Seq<char>>,
)
    requires
        briefed_record(w, id, workspace, now, brief, repo, goal, review_mode, agent, model),
    ensures
        w.state == WorkerState::Briefed,
        w.id@ == id && w.workspace@ == workspace,
        w.brief is Some && w.brief->0.tree() == brief,
        w.repo is Some && w.repo->0@ == repo,
        w.agent_kind is Some && w.agent_kind->0@ == agent,
        opt_text(w.goal) == goal,
        opt_text(w.model) == model,
        w.branch is None && w.pr_url is None && !w.tests_passing && !w.branch_ready
            && !w.pr_approved && !w.is_stalled && w.revision_count == 0,
        w.created_at@ == now && w.state_entered_at@ == now && w.updated_at@ == now,
        w.review_mode@ == review_mode,
        w.ci_passing is None && w.blocked_reason is None && w.display_title is None
            && w.last_output_at is None && w.worktree_path is None && w.isolation_mode is None
            && w.repo_path is None && w.label@.len() == 0,
{
}

/// Starting a worker anew queues it under its new identifier, on a further
/// revision, with a branch that is not ready yet, and forgets what held it up.
pub proof fn law_restart_queues_the_worker(
    r: Worker,
    worker: Worker,
    id: Seq<char>,
    workspace: Seq<char>,
    now: Seq<char>,
)
    requires
        restarted_record(r, worker, id, workspace, now),
    ensures
        r.id@ == id,
        r.workspace@ == workspace,
        r.state == WorkerState::Queued,
        r.revision_count == worker.revision_count + 1,
        !r.branch_ready && !r.is_stalled && r.blocked_reason is None,
        r.repo == worker.repo && r.goal == worker.goal && r.branch == worker.branch && r.pr_url
            == worker.pr_url && r.agent_kind == worker.agent_kind && r.model == worker.model,
        r.created_at@ == worker.created_at@,
        r.state_entered_at@ == now && r.updated_at@ == now,
        worker.brief is Some ==> r.brief is Some && r.brief->0.tree() == worker.brief->0.tree(),
        worker.brief is Some && text_field(worker.brief->0.tree(), "review_mode"@) is Some
            ==> r.review_mode@ == text_field(worker.brief->0.tree(), "review_mode"@)->0,
        worker.brief is Some && text_field(worker.brief->0.tree(), "review_mode"@) is None
            ==> r.review_mode@ == "local_first"@,
        r.tests_passing == worker.tests_passing && r.pr_approved == worker.pr_approved
            && r.ci_passing == worker.ci_passing && r.display_title == worker.display_title
            && r.last_output_at == worker.last_output_at,
        r.worktree_path is None && r.isolation_mode is None && r.repo_path is None
            && r.label@.len() == 0,
{
}

/// News about a worker name it, its workspace, its state and how that is shown.
pub proof fn law_news_name_the_worker(
    news: WorkerUpdate,
    workspace: Seq<char>,
    worker_id: Seq<char>,
    state: Seq<char>,
    label: Seq<char>,
    properties: Seq<(Seq<char>, Tree)>,
)
    requires
        tells(news, workspace, worker_id, state, label, properties),
    ensures
        news.workspace@ == workspace,
        news.worker_id@ == worker_id,
        news.state@ == state,
        news.label@ == label,
        forall|key: Seq<char>|
            #[trigger] field(news.properties.tree(), key) == field(Tree::Object(properties), key),
{
}

/// Each state of a worker has a word of its own.
pub proof fn law_state_words(a: WorkerState, b: WorkerState)
    ensures
        a.word() == b.word() ==> a == b,
        WorkerState::Queued.word() == "queued"@,
        WorkerState::Running.word() == "running"@,
        WorkerState::Waiting.word() == "waiting"@,
        WorkerState::Done.word() == "done"@,
        WorkerState::Abandoned.word() == "abandoned"@,
        WorkerState::Stalled.word() == "stalled"@,
        WorkerState::Briefed.word() == "briefed"@,
{
    reveal_strlit("briefed");
    reveal_strlit("queued");
    reveal_strlit("running");
    reveal_strlit("waiting");
    reveal_strlit("stalled");
    reveal_strlit("done");
    reveal_strlit("abandoned");
    assert("briefed"@[0] == 'b' && "queued"@[0] == 'q' && "running"@[0] == 'r');
    assert("waiting"@[0] == 'w' && "stalled"@[0] == 's' && "done"@[0] == 'd');
    assert("abandoned"@[0] == 'a');
}

proof fn lemma_bulleted(items: Seq<Tree>, k: int)
    requires
        0 <= k < items.len(),
        items[k] is Text,
    ensures
        bulleted(items).contains("- "@ + items[k]->Text_0),
    decreases items.len(),
{
    let front = items.drop_last();
    let rest = bulleted(front);
    let all = bulleted(items);
    let x = "- "@ + items[k]->Text_0;
    if k < front.len() {
        lemma_bulleted(front, k);
        assert(front[k] == items[k]);
        let i = choose|i: int| 0 <= i < rest.len() && rest[i] == x;
        assert(all[i] == x);
    } else {
        assert(all[rest.len() as int] == x);
    }
}

/// The parts that the prompt of a brief is put together from.
pub open spec fn prompt_parts(brief: Tree, review_role: Seq<char>) -> Seq<Seq<char>> {
    seq!["# Goal\n\n"@ + brief_text(brief, "goal"@, "(no goal specified)"@)] + (match context_text(
        brief,
    ) {
        Some(c) => seq!["# Context\n\n"@ + c],
        None => seq![],
    }) + list_section(brief, "constraints"@, "# Constraints\n\n"@) + list_section(
        brief,
        "acceptance_criteria"@,
        "# Acceptance Criteria\n\n"@,
    ) + seq![
        when_done(brief_text(brief, "review_mode"@, "local_first"@), review_role),
        reporting(),
    ]
}

/// A worker is told the goal of its brief; each constraint and each criterion
/// of acceptance; whether to open a pull request, which it does exactly where
/// the brief asks for that first; and how to report.
pub proof fn law_prompt_tells_the_brief(brief: Tree, review_role: Seq<char>, k: int)
    ensures
        text_field(brief, "goal"@) is Some ==> starts_with(
            prompt_of_brief(brief, review_role),
            "# Goal\n\n"@ + text_field(brief, "goal"@)->0,
        ),
        text_field(brief, "review_mode"@) == Some("pr_first"@) ==> contains(
            prompt_of_brief(brief, review_role),
            "# When Done\n\nCommit your changes, push the branch, and open a PR with `gh pr create`."@,
        ),
        text_field(brief, "review_mode"@) != Some("pr_first"@) ==> contains(
            prompt_of_brief(brief, review_role),
            "# When Done\n\nCommit your changes and push the branch. Do NOT open a PR — the "@
                + review_role + " will inspect the branch locally first."@,
        ),
        array_field(brief, "constraints"@) is Some && 0 <= k < array_field(
            brief,
            "constraints"@,
        )->0.len() && array_field(brief, "constraints"@)->0[k] is Text ==> contains(
            prompt_of_brief(brief, review_role),
            "- "@ + array_field(brief, "constraints"@)->0[k]->Text_0,
        ),
        array_field(brief, "acceptance_criteria"@) is Some && 0 <= k < array_field(
            brief,
            "acceptance_criteria"@,
        )->0.len() && array_field(brief, "acceptance_criteria"@)->0[k] is Text ==> contains(
            prompt_of_brief(brief, review_role),
            "- "@ + array_field(brief, "acceptance_criteria"@)->0[k]->Text_0,
        ),
        field(brief, "context"@) is Some ==> contains(
            prompt_of_brief(brief, review_role),
            "# Context\n\n"@ + compact(stored(field(brief, "context"@)->0)),
        ),
{
    let parts = prompt_parts(brief, review_role);
    let all = prompt_of_brief(brief, review_role);
    assert(all == join(parts, "\n\n"@));
    reveal_strlit("pr_first");
    reveal_strlit("local_first");
    assert("pr_first"@[0] == 'p' && "local_first"@[0] == 'l');
    lemma_starts_with_first(parts, "\n\n"@);
    lemma_join_holds(parts, "\n\n"@, parts.len() - 2);
    let a = seq!["# Goal\n\n"@ + brief_text(brief, "goal"@, "(no goal specified)"@)];
    let b = match context_text(brief) {
        Some(c) => seq!["# Context\n\n"@ + c],
        None => seq![],
    };
    let c = list_section(brief, "constraints"@, "# Constraints\n\n"@);
    let d = list_section(brief, "acceptance_criteria"@, "# Acceptance Criteria\n\n"@);
    if field(brief, "context"@) is Some {
        assert(parts[1] == b[0]);
        lemma_join_holds(parts, "\n\n"@, 1);
    }
    if array_field(brief, "constraints"@) is Some && 0 <= k < array_field(
        brief,
        "constraints"@,
    )->0.len() && array_field(brief, "constraints"@)->0[k] is Text {
        lemma_list_section(brief, "constraints"@, "# Constraints\n\n"@, k);
        let at = (a + b).len() as int;
        assert(parts[at] == c[0]);
        lemma_join_holds(parts, "\n\n"@, at);
        lemma_contains_through(
            all,
            c[0],
            "- "@ + array_field(brief, "constraints"@)->0[k]->Text_0,
        );
    }
    if array_field(brief, "acceptance_criteria"@) is Some && 0 <= k < array_field(
        brief,
        "acceptance_criteria"@,
    )->0.len() && array_field(brief, "acceptance_criteria"@)->0[k] is Text {
        lemma_list_section(brief, "acceptance_criteria"@, "# Acceptance Criteria\n\n"@, k);
        let at = (a + b + c).len() as int;
        assert(parts[at] == d[0]);
        lemma_join_holds(parts, "\n\n"@, at);
        lemma_contains_through(
            all,
            d[0],
            "- "@ + array_field(brief, "acceptance_criteria"@)->0[k]->Text_0,
        );
    }
}

proof fn lemma_list_section(brief: Tree, key: Seq<char>, heading: Seq<char>, k: int)
    requires
        array_field(brief, key) is Some,
        0 <= k < array_field(brief, key)->0.len(),
        array_field(brief, key)->0[k] is Text,
    ensures
        list_section(brief, key, heading).len() == 1,
        contains(
            list_section(brief, key, heading)[0],
            "- "@ + array_field(brief, key)->0[k]->Text_0,
        ),
{
    let items = array_field(brief, key)->0;
    let x = "- "@ + items[k]->Text_0;
    lemma_bulleted(items, k);
    let list = bulleted(items);
    let i = choose|i: int| 0 <= i < list.len() && list[i] == x;
    lemma_join_holds(list, "\n"@, i);
    lemma_inside(heading, join(list, "\n"@), seq![], x);
    assert(heading + join(list, "\n"@) + seq![] =~= list_section(brief, key, heading)[0]);
}

/// The title of a worker is the first line of what the model printed that says
/// anything.
pub proof fn law_first_filled_line_counts(list: Seq<Seq<char>>, k: int)
    ensures
        0 <= k < list.len() && trim(list[k]).len() > 0 && (forall|j: int|
            0 <= j < k ==> trim(#[trigger] list[j]).len() == 0) ==> first_filled(list) == Some(
            list[k],
        ),
        (forall|j: int| 0 <= j < list.len() ==> trim(#[trigger] list[j]).len() == 0)
            ==> first_filled(list) is None,
    decreases list.len(),
{
    if list.len() > 0 {
        let t = list.drop_first();
        law_first_filled_line_counts(t, k - 1);
        if trim(list[0]).len() == 0 {
            if 0 < k < list.len() && (forall|j: int|
                0 <= j < k ==> trim(#[trigger] list[j]).len() == 0) {
                assert forall|j: int| 0 <= j < k - 1 implies trim(#[trigger] t[j]).len() == 0 by {
                    assert(t[j] == list[j + 1]);
                }
                assert(t[k - 1] == list[k]);
            }
            if forall|j: int| 0 <= j < list.len() ==> trim(#[trigger] list[j]).len() == 0 {
                assert forall|j: int| 0 <= j < t.len() implies trim(#[trigger] t[j]).len() == 0 by {
                    assert(t[j] == list[j + 1]);
                }
            }
        }
    }
}

/// A title is wanted for a goal that says anything.
pub proof fn law_goals_get_titles(goal: Seq<char>)
    ensures
        wants_title(Some(goal)) <==> goal.len() > 0,
        !wants_title(None),
{
}

/// Feedback is given under a heading of its own, and no feedback has none.
pub proof fn law_feedback_has_a_heading(feedback: Seq<char>, brief: Tree, review_role: Seq<char>)
    ensures
        prior_feedback(Some(feedback)) == "\n\n# Prior Review Feedback\n\n"@ + feedback,
        prior_feedback(None) == Seq::<char>::empty(),
        contains(
            requeue_prompt(brief, Some(feedback), review_role),
            "\n\n# Review Feedback (Previous Attempt)\n\nA "@ + review_role
                + " inspected your last attempt and requested changes. Address all of the following before marking the work done:\n\n"@,
        ),
{
    let head = "\n\n# Review Feedback (Previous Attempt)\n\nA "@ + review_role
        + " inspected your last attempt and requested changes. Address all of the following before marking the work done:\n\n"@;
    let all = requeue_prompt(brief, Some(feedback), review_role);
    let p = prompt_of_brief(brief, review_role);
    assert(all =~= p + head + feedback);
    lemma_holds_part(p, head, feedback);
}

/// What is refused is refused in words: an unknown workspace by its name, a
/// review before its time by what it waits for.
pub proof fn law_refusals_say_why(workspace: Seq<char>, worker: Option<Worker>)
    ensures
        no_workspace(workspace) == "workspace '"@ + workspace + "' not found"@,
        worker is None ==> review_refusal(worker) == Some((404u16, "worker not found"@)),
        worker is Some && review_refusal(worker) is Some ==> review_refusal(worker) == Some(
            (
                400u16,
                "review only available when worker is waiting and branch_ready=true"@,
            ),
        ),
{
}

} // verus!
