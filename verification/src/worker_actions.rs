//! What a user does with a worker: opening a pull request for its work,
//! replacing it, closing it.

use crate::json::{
    field, lemma_set_keeps_others, lemma_set_then_get, members_of, object, set_field, text, Json,
    Tree,
};
use crate::task::{Task, TaskStage};
use crate::text::{
    blank, cat2, cat3, cat4, lemma_split_last, lines, lines_of, opt_text, same, split,
    split_at_char, texts, trim, trimmed,
};
use crate::time::Moment;
use crate::widgets::as_object;
use crate::worker::{no_workspace, refuses, Refusal};
use crate::worker_view::{is_terminal, stage_is_terminal, SwarmWorktreeState};
use vstd::prelude::*;

verus! {

/// The result of what a user did with a worker.
pub struct WorkerActionView {
    pub ok: bool,
    pub worker_id: Option<String>,
    pub pr_url: Option<String>,
    pub detail: String,
}

/// The title that a worker's work goes by: its summary, else the first line of
/// its prompt, else its identifier.
pub open spec fn title_of_worker(w: SwarmWorktreeState) -> Seq<char> {
    match w.summary {
        Some(s) => s@,
        None => if lines(w.prompt@).len() > 0 && trim(lines(w.prompt@)[0]).len() > 0 {
            trim(lines(w.prompt@)[0])
        } else {
            "Worker "@ + w.id@
        },
    }
}

/// The title that a worker's work goes by.
pub fn worker_task_title(w: &SwarmWorktreeState) -> (r: String)
    ensures
        r@ == title_of_worker(*w),
{
    if let Some(s) = &w.summary {
        return s.clone();
    }
    let list = lines_of(w.prompt.as_str());
    proof {
        assert(texts(list@).len() == list@.len());
    }
    if list.len() > 0 {
        proof {
            assert(texts(list@)[0] == list@[0]@);
        }
        let first = trimmed(list[0].as_str());
        if !first.as_str().is_empty() {
            return first;
        }
    }
    cat2("Worker ", w.id.as_str())
}

/// What is answered about a worker that does not exist.
pub open spec fn no_worker(id: Seq<char>) -> Seq<char> {
    "worker '"@ + id + "' not found"@
}

/// Opening a pull request for a worker's work.
pub struct PromotePlan {
    pub worktree_path: String,
    pub repo_path: String,
    pub branch: String,
    pub title: String,
    pub body: String,
    /// The message of the commit that is made first, where there are changes
    /// that are not committed.
    pub commit: Option<String>,
}

/// Whether `r` is how a worker's output becomes a pull request.
pub open spec fn plans_promotion(
    r: Result<PromotePlan, Refusal>,
    workspace: Seq<char>,
    worker_id: Seq<char>,
    root: Option<String>,
    worker: Option<SwarmWorktreeState>,
    dirty: bool,
    task_title: Option<String>,
) -> bool {
    match (root, worker) {
        (None, _) => r is Err && refuses(r->Err_0, 404, no_workspace(workspace)),
        (Some(_), None) => r is Err && refuses(r->Err_0, 404, no_worker(worker_id)),
        (Some(dir), Some(w)) => match w.worktree_path {
            None => r is Err && refuses(
                r->Err_0,
                409,
                "worker '"@ + worker_id + "' has no worktree path"@,
            ),
            Some(path) => {
                &&& r is Ok
                &&& r->Ok_0.worktree_path@ == path@
                &&& r->Ok_0.repo_path@ == match w.repo_path {
                    Some(p) => p@,
                    None => dir@,
                }
                &&& r->Ok_0.branch@ == match w.ready_branch {
                    Some(b) => b@,
                    None => w.branch@,
                }
                &&& r->Ok_0.title@ == match task_title {
                    Some(t) => t@,
                    None => title_of_worker(w),
                }
                &&& r->Ok_0.body@ == "Promoted from worker output by apiari"@
                &&& opt_text(r->Ok_0.commit) == if dirty {
                    Some("promote worker "@ + w.id@)
                } else {
                    None
                }
            },
        },
    }
}

/// Decides on a wish to open a pull request for a worker's work.
pub fn plan_promote(
    workspace: &str,
    worker_id: &str,
    root: &Option<String>,
    worker: &Option<SwarmWorktreeState>,
    dirty: bool,
    task_title: &Option<String>,
) -> (r: Result<PromotePlan, Refusal>)
    ensures
        plans_promotion(r, workspace@, worker_id@, *root, *worker, dirty, *task_title),
{
    let dir = match root {
        Some(d) => d,
        None => {
            return Err(
                Refusal { status: 404, error: cat3("workspace '", workspace, "' not found") },
            );
        },
    };
    let w = match worker {
        Some(w) => w,
        None => {
            return Err(Refusal { status: 404, error: cat3("worker '", worker_id, "' not found") });
        },
    };
    let worktree_path = match &w.worktree_path {
        Some(p) => p.clone(),
        None => {
            return Err(
                Refusal {
                    status: 409,
                    error: cat3("worker '", worker_id, "' has no worktree path"),
                },
            );
        },
    };
    let repo_path = match &w.repo_path {
        Some(p) => p.clone(),
        None => dir.clone(),
    };
    let branch = match &w.ready_branch {
        Some(b) => b.clone(),
        None => w.branch.clone(),
    };
    let title = match task_title {
        Some(t) => t.clone(),
        None => worker_task_title(w),
    };
    let commit = if dirty {
        Some(cat2("promote worker ", w.id.as_str()))
    } else {
        None
    };
    Ok(
        PromotePlan {
            worktree_path,
            repo_path,
            branch,
            title,
            body: "Promoted from worker output by apiari".to_owned(),
            commit,
        },
    )
}

/// What is answered once a pull request has been opened.
pub fn promoted(worker_id: &str, pr_url: &str, branch: &str) -> (r: WorkerActionView)
    ensures
        r.ok,
        opt_text(r.worker_id) == Some(worker_id@),
        opt_text(r.pr_url) == Some(pr_url@),
        r.detail@ == "Created PR for branch `"@ + branch@ + "`."@,
{
    WorkerActionView {
        ok: true,
        worker_id: Some(worker_id.to_owned()),
        pr_url: Some(pr_url.to_owned()),
        detail: cat3("Created PR for branch `", branch, "`."),
    }
}

/// Whether `r` is the task that is made for a worker that was promoted without
/// one.
pub open spec fn is_task_of_promotion(
    r: Task,
    id: Seq<char>,
    workspace: Seq<char>,
    worker_id: Seq<char>,
    title: Seq<char>,
    pr_url: Seq<char>,
    pr_number: Option<i64>,
    repo: Option<String>,
    now: Moment,
) -> bool {
    &&& r.id@ == id
    &&& r.workspace@ == workspace
    &&& r.title@ == title
    &&& r.stage == TaskStage::HumanReview
    &&& opt_text(r.source) == Some("manual"@)
    &&& r.source_url is None
    &&& opt_text(r.worker_id) == Some(worker_id)
    &&& opt_text(r.pr_url) == Some(pr_url)
    &&& r.pr_number == pr_number
    &&& opt_text(r.repo) == opt_text(repo)
    &&& r.created_at == now
    &&& r.updated_at == now
    &&& r.resolved_at is None
    &&& r.cursor is None
}

/// The task of a worker whose work had none when a pull request was opened
/// for it.
pub fn promoted_task(
    id: &str,
    workspace: &str,
    worker_id: &str,
    title: &str,
    pr_url: &str,
    pr_number: Option<i64>,
    repo: &Option<String>,
    now: Moment,
) -> (r: Task)
    ensures
        is_task_of_promotion(
            r,
            id@,
            workspace@,
            worker_id@,
            title@,
            pr_url@,
            pr_number,
            *repo,
            now,
        ),
{
    Task {
        id: id.to_owned(),
        workspace: workspace.to_owned(),
        title: title.to_owned(),
        stage: TaskStage::HumanReview,
        source: Some("manual".to_owned()),
        source_url: None,
        worker_id: Some(worker_id.to_owned()),
        pr_url: Some(pr_url.to_owned()),
        pr_number,
        repo: repo.clone(),
        created_at: now,
        updated_at: now,
        resolved_at: None,
        cursor: None,
    }
}

/// Whether `r` is a task whose worker's output became a pull request.
pub open spec fn is_promoted_task(
    r: Task,
    task: Task,
    pr_url: Seq<char>,
    pr_number: Option<i64>,
    repo: Option<String>,
) -> bool {
    &&& r == (Task {
        stage: TaskStage::HumanReview,
        pr_url: r.pr_url,
        pr_number: r.pr_number,
        repo: r.repo,
        ..task
    })
    &&& opt_text(r.pr_url) == if pr_number is Some {
        Some(pr_url)
    } else {
        opt_text(task.pr_url)
    }
    &&& r.pr_number == if pr_number is Some {
        pr_number
    } else {
        task.pr_number
    }
    &&& opt_text(r.repo) == match repo {
        Some(name) => Some(name@),
        None => opt_text(task.repo),
    }
}

/// A task after a pull request was opened for its worker's work. A pull
/// request without a number, and a repository without a name, are not noted.
pub fn task_after_promotion(
    task: Task,
    pr_url: &str,
    pr_number: Option<i64>,
    repo: &Option<String>,
) -> (r: Task)
    ensures
        is_promoted_task(r, task, pr_url@, pr_number, *repo),
{
    let mut t = task;
    if pr_number.is_some() {
        t.pr_url = Some(pr_url.to_owned());
        t.pr_number = pr_number;
    }
    if let Some(name) = repo {
        t.repo = Some(name.clone());
    }
    t.stage = TaskStage::HumanReview;
    t
}

/// A step of an action on a worker that another program takes.
#[derive(Debug, Clone, Copy, PartialEq, Eq, Structural)]
pub enum ActionStep {
    Commit,
    OpenPr,
    CreateReplacement,
}

impl ActionStep {
    /// What could not be done where the step fails.
    pub open spec fn failing(self) -> Seq<char> {
        match self {
            ActionStep::Commit => "failed to commit worker changes: "@,
            ActionStep::OpenPr => "failed to create PR: "@,
            ActionStep::CreateReplacement => "failed to create replacement worker: "@,
        }
    }
}

/// What is answered where a step of an action on a worker fails.
pub fn step_failed(step: ActionStep, error: &str) -> (r: Refusal)
    ensures
        refuses(r, 500, step.failing() + error@),
{
    let what = match step {
        ActionStep::Commit => "failed to commit worker changes: ",
        ActionStep::OpenPr => "failed to create PR: ",
        ActionStep::CreateReplacement => "failed to create replacement worker: ",
    };
    Refusal { status: 500, error: cat2(what, error) }
}

/// The metadata of a task that was made for a promoted worker.
pub fn promotion_metadata() -> (r: Json)
    ensures
        r.tree() == Tree::Object(seq![("promoted_manually"@, Tree::Bool(true))]),
{
    let r = object().with("promoted_manually", Json::Bool(true));
    proof {
        assert(members_of(r.tree()) =~= seq![("promoted_manually"@, Tree::Bool(true))]);
    }
    r
}

/// Replacing a worker: in which repository and with what prompt.
pub struct RedispatchPlan {
    pub repo: String,
    pub prompt: String,
}

/// The last of the parts of a path that names anything: neither nothing nor
/// the directory itself.
pub open spec fn last_part(parts: Seq<Seq<char>>) -> Option<Seq<char>>
    decreases parts.len(),
{
    if parts.len() == 0 {
        None
    } else if parts.last().len() == 0 || parts.last() == "."@ {
        last_part(parts.drop_last())
    } else {
        Some(parts.last())
    }
}

/// The name of what a path leads to: nothing for the root, the directory
/// itself and the one above.
pub open spec fn path_name(path: Seq<char>) -> Option<Seq<char>> {
    match last_part(split(path, '/')) {
        Some(name) => if name == ".."@ {
            None
        } else {
            Some(name)
        },
        None => None,
    }
}

/// The name of what a path leads to.
pub fn name_of_path(path: &str) -> (r: Option<String>)
    ensures
        opt_text(r) == path_name(path@),
{
    let parts = split_at_char(path, '/');
    let ghost all = texts(parts@);
    let mut n: usize = parts.len();
    proof {
        assert(all.take(n as int) =~= all);
    }
    while n > 0
        invariant
            all == texts(parts@),
            all == split(path@, '/'),
            n <= parts@.len(),
            last_part(all) == last_part(all.take(n as int)),
        decreases n,
    {
        let part = &parts[n - 1];
        proof {
            assert(all.take(n as int).last() == part@);
            assert(all.take(n as int).drop_last() =~= all.take(n - 1));
        }
        if !part.as_str().is_empty() && !same(part.as_str(), ".") {
            return if same(part.as_str(), "..") {
                None
            } else {
                Some(part.clone())
            };
        }
        n = n - 1;
    }
    None
}

/// The name of a worker's repository: that of its path, or of the workspace's
/// root where the worker tells none.
pub open spec fn repo_of_worker(worker: SwarmWorktreeState, root: Seq<char>) -> Option<Seq<char>> {
    match worker.repo_path {
        Some(path) => path_name(path@),
        None => path_name(root),
    }
}

/// The name of a worker's repository.
pub fn worker_repo_name(worker: &SwarmWorktreeState, root: &str) -> (r: Option<String>)
    ensures
        opt_text(r) == repo_of_worker(*worker, root@),
{
    match &worker.repo_path {
        Some(path) => name_of_path(path.as_str()),
        None => name_of_path(root),
    }
}

/// Whether `r` is how a replacement for a worker is started.
pub open spec fn plans_redispatch(
    r: Result<RedispatchPlan, Refusal>,
    workspace: Seq<char>,
    worker_id: Seq<char>,
    root: Option<String>,
    worker: Option<SwarmWorktreeState>,
) -> bool {
    match (root, worker) {
        (None, _) => r is Err && refuses(r->Err_0, 404, no_workspace(workspace)),
        (Some(_), None) => r is Err && refuses(r->Err_0, 404, no_worker(worker_id)),
        (Some(path), Some(w)) => match repo_of_worker(w, path@) {
            None => r is Err && refuses(
                r->Err_0,
                409,
                "worker '"@ + worker_id + "' has no repo context"@,
            ),
            Some(repo) => {
                &&& r is Ok
                &&& r->Ok_0.repo@ == repo
                &&& r->Ok_0.prompt@ == if trim(w.prompt@).len() > 0 {
                    w.prompt@
                } else {
                    title_of_worker(w)
                }
            },
        },
    }
}

/// Decides on a wish to replace a worker. `root` is that of the workspace.
pub fn plan_redispatch(
    workspace: &str,
    worker_id: &str,
    root: &Option<String>,
    worker: &Option<SwarmWorktreeState>,
) -> (r: Result<RedispatchPlan, Refusal>)
    ensures
        plans_redispatch(r, workspace@, worker_id@, *root, *worker),
{
    let path = match root {
        Some(p) => p,
        None => {
            return Err(
                Refusal { status: 404, error: cat3("workspace '", workspace, "' not found") },
            );
        },
    };
    let w = match worker {
        Some(w) => w,
        None => {
            return Err(Refusal { status: 404, error: cat3("worker '", worker_id, "' not found") });
        },
    };
    let repo = match worker_repo_name(w, path.as_str()) {
        Some(p) => p,
        None => {
            return Err(
                Refusal {
                    status: 409,
                    error: cat3("worker '", worker_id, "' has no repo context"),
                },
            );
        },
    };
    let prompt = if blank(w.prompt.as_str()) {
        worker_task_title(w)
    } else {
        w.prompt.clone()
    };
    Ok(RedispatchPlan { repo, prompt })
}

/// What is answered once a worker has been replaced.
pub fn redispatched(replacement_id: &str, mode: &str, repo: &str) -> (r: WorkerActionView)
    ensures
        r.ok,
        opt_text(r.worker_id) == Some(replacement_id@),
        r.pr_url is None,
        r.detail@ == "Spawned replacement "@ + mode@ + " worker `"@ + replacement_id@ + (
        "` in repo `"@ + repo@ + "`. Original worktree was left intact."@),
{
    let head = cat4("Spawned replacement ", mode, " worker `", replacement_id);
    let tail = cat3("` in repo `", repo, "`. Original worktree was left intact.");
    WorkerActionView {
        ok: true,
        worker_id: Some(replacement_id.to_owned()),
        pr_url: None,
        detail: cat2(head.as_str(), tail.as_str()),
    }
}

/// Whether `r` is a task whose worker was replaced.
pub open spec fn is_redispatched_task(r: Task, task: Task, replacement_id: Seq<char>) -> bool {
    &&& opt_text(r.worker_id) == Some(replacement_id)
    &&& r == (Task { stage: TaskStage::InProgress, worker_id: r.worker_id, ..task })
}

/// A task after its worker has been replaced.
pub fn task_after_redispatch(task: Task, replacement_id: &str) -> (r: Task)
    ensures
        is_redispatched_task(r, task, replacement_id@),
{
    let mut t = task;
    t.worker_id = Some(replacement_id.to_owned());
    t.stage = TaskStage::InProgress;
    t
}

/// The metadata of a task whose worker has been replaced.
pub open spec fn metadata_after_redispatch(
    metadata: Tree,
    worker_id: Seq<char>,
    replacement_id: Seq<char>,
) -> Tree {
    set_field(
        set_field(
            as_object(metadata),
            "redispatched_from_worker_id"@,
            Tree::Text(worker_id),
        ),
        "replacement_worker_id"@,
        Tree::Text(replacement_id),
    )
}

/// The metadata of a task whose worker has been replaced.
pub fn redispatch_metadata(metadata: Json, worker_id: &str, replacement_id: &str) -> (r: Json)
    requires
        metadata is Object || metadata is Null,
    ensures
        r.tree() == metadata_after_redispatch(metadata.tree(), worker_id@, replacement_id@),
{
    let base = match metadata {
        Json::Null => object(),
        other => other,
    };
    base.set("redispatched_from_worker_id", text(worker_id)).set(
        "replacement_worker_id",
        text(replacement_id),
    )
}

/// Whether a task is dismissed with its worker.
pub open spec fn is_dismissed(asked: bool, stage: Option<TaskStage>) -> bool {
    asked && match stage {
        Some(s) => !is_terminal(s),
        None => false,
    }
}

/// Whether closing a worker dismisses its task: where that is asked for and
/// the task is not over.
pub fn dismisses_task(asked: bool, stage: &Option<TaskStage>) -> (r: bool)
    ensures
        r == is_dismissed(asked, *stage),
{
    match stage {
        Some(s) => asked && !stage_is_terminal(*s),
        None => false,
    }
}

/// What is answered once a worker has been closed; `dismiss_task` tells
/// whether that was to dismiss its task as well.
pub fn closed(worker_id: &str, dismiss_task: bool) -> (r: WorkerActionView)
    ensures
        r.ok,
        opt_text(r.worker_id) == Some(worker_id@),
        r.pr_url is None,
        r.detail@ == if dismiss_task {
            "Closed worker and dismissed its task."@
        } else {
            "Closed worker."@
        },
{
    let detail = if dismiss_task {
        "Closed worker and dismissed its task."
    } else {
        "Closed worker."
    };
    WorkerActionView {
        ok: true,
        worker_id: Some(worker_id.to_owned()),
        pr_url: None,
        detail: detail.to_owned(),
    }
}

/// What the difference of a worktree shows: nothing where it is blank or could
/// not be taken.
pub fn shown_diff(output: &Option<String>) -> (r: Option<String>)
    ensures
        opt_text(r) == match *output {
            Some(s) => if trim(s@).len() > 0 {
                Some(s@)
            } else {
                None
            },
            None => None,
        },
{
    match output {
        Some(s) => if blank(s.as_str()) {
            None
        } else {
            Some(s.clone())
        },
        None => None,
    }
}

/// A worker goes by its summary where it has one, else by the first line of its
/// prompt where that says anything, else by its identifier.
pub proof fn law_worker_has_a_title(w: SwarmWorktreeState)
    ensures
        w.summary is Some ==> title_of_worker(w) == w.summary->0@,
        w.summary is None && lines(w.prompt@).len() > 0 && trim(lines(w.prompt@)[0]).len() > 0
            ==> title_of_worker(w) == trim(lines(w.prompt@)[0]),
        w.summary is None && (lines(w.prompt@).len() == 0 || trim(lines(w.prompt@)[0]).len() == 0)
            ==> title_of_worker(w) == "Worker "@ + w.id@,
{
}

/// A worker with a tree of its own is promoted from it, on the branch that it
/// declared ready where it did, under the title of its task where there is one;
/// what it left uncommitted is committed first, and nothing else is.
pub proof fn law_promotion_takes_the_workers_branch(
    r: Result<PromotePlan, Refusal>,
    workspace: Seq<char>,
    worker_id: Seq<char>,
    root: Option<String>,
    worker: Option<SwarmWorktreeState>,
    dirty: bool,
    task_title: Option<String>,
)
    requires
        plans_promotion(r, workspace, worker_id, root, worker, dirty, task_title),
    ensures
        r is Ok <==> root is Some && worker is Some && worker->0.worktree_path is Some,
        root is None || worker is None ==> r->Err_0.status == 404,
        root is Some && worker is Some && worker->0.worktree_path is None ==> r->Err_0.status
            == 409,
        r is Ok ==> {
            &&& r->Ok_0.worktree_path@ == worker->0.worktree_path->0@
            &&& worker->0.ready_branch is Some ==> r->Ok_0.branch@ == worker->0.ready_branch->0@
            &&& worker->0.ready_branch is None ==> r->Ok_0.branch@ == worker->0.branch@
            &&& worker->0.repo_path is Some ==> r->Ok_0.repo_path@ == worker->0.repo_path->0@
            &&& worker->0.repo_path is None ==> r->Ok_0.repo_path@ == root->0@
            &&& task_title is Some ==> r->Ok_0.title@ == task_title->0@
            &&& task_title is None ==> r->Ok_0.title@ == title_of_worker(worker->0)
            &&& r->Ok_0.commit is Some <==> dirty
            &&& dirty ==> r->Ok_0.commit->0@ == "promote worker "@ + worker->0.id@
        },
{
}

/// A replacement works in the repository of the worker that it replaces, on the
/// same prompt where that says anything.
pub proof fn law_replacement_gets_the_same_prompt(
    r: Result<RedispatchPlan, Refusal>,
    workspace: Seq<char>,
    worker_id: Seq<char>,
    root: Option<String>,
    worker: Option<SwarmWorktreeState>,
)
    requires
        plans_redispatch(r, workspace, worker_id, root, worker),
    ensures
        r is Ok <==> root is Some && worker is Some && repo_of_worker(worker->0, root->0@) is Some,
        root is None || worker is None ==> r->Err_0.status == 404,
        root is Some && worker is Some && repo_of_worker(worker->0, root->0@) is None
            ==> r->Err_0.status == 409,
        r is Ok ==> {
            &&& worker->0.repo_path is Some ==> Some(r->Ok_0.repo@) == path_name(
                worker->0.repo_path->0@,
            )
            &&& worker->0.repo_path is None ==> Some(r->Ok_0.repo@) == path_name(root->0@)
            &&& trim(worker->0.prompt@).len() > 0 ==> r->Ok_0.prompt@ == worker->0.prompt@
            &&& trim(worker->0.prompt@).len() == 0 ==> r->Ok_0.prompt@ == title_of_worker(
                worker->0,
            )
        },
{
}

/// Once its worker was promoted a task waits for a person, and knows the number
/// and address of the pull request; where no number is known it keeps its own.
pub proof fn law_promoted_task_waits_for_a_person(
    r: Task,
    task: Task,
    pr_url: Seq<char>,
    pr_number: Option<i64>,
    repo: Option<String>,
)
    requires
        is_promoted_task(r, task, pr_url, pr_number, repo),
    ensures
        r.stage == TaskStage::HumanReview,
        r.id == task.id && r.title == task.title && r.worker_id == task.worker_id,
        pr_number is Some ==> r.pr_number == pr_number && opt_text(r.pr_url) == Some(pr_url),
        pr_number is None ==> r.pr_number == task.pr_number && opt_text(r.pr_url) == opt_text(
            task.pr_url,
        ),
        repo is Some ==> opt_text(r.repo) == Some(repo->0@),
        repo is None ==> opt_text(r.repo) == opt_text(task.repo),
{
}

/// Each step that can fail says which it was.
pub proof fn law_failing_steps_are_named(a: ActionStep, b: ActionStep)
    ensures
        a.failing() == b.failing() ==> a == b,
        ActionStep::Commit.failing() == "failed to commit worker changes: "@,
        ActionStep::OpenPr.failing() == "failed to create PR: "@,
        ActionStep::CreateReplacement.failing() == "failed to create replacement worker: "@,
{
    reveal_strlit("failed to commit worker changes: ");
    reveal_strlit("failed to create PR: ");
    reveal_strlit("failed to create replacement worker: ");
    assert("failed to commit worker changes: "@.len() == 33);
    assert("failed to create PR: "@.len() == 21);
    assert("failed to create replacement worker: "@.len() == 37);
}

/// The name of a path is what follows its last slash, whether or not another
/// slash ends it.
pub proof fn law_path_is_named_by_its_end(dir: Seq<char>, name: Seq<char>)
    requires
        !name.contains('/'),
        name.len() > 0,
        name != "."@,
        name != ".."@,
    ensures
        path_name(dir + seq!['/'] + name) == Some(name),
        path_name(dir + seq!['/'] + name + seq!['/']) == Some(name),
        path_name(name) == Some(name),
        path_name(Seq::<char>::empty()) is None,
{
    let e = Seq::<char>::empty();
    let s = dir + seq!['/'] + name;
    lemma_split_last(dir, '/', name);
    lemma_split_last(s, '/', e);
    assert(s + seq!['/'] + e =~= s + seq!['/']);
    let parts = split(dir, '/').push(name);
    assert(parts.push(e).drop_last() =~= parts);
    assert(last_part(parts) == Some(name));
    assert(last_part(parts.push(e)) == Some(name));
    assert(last_part(seq![name]) == Some(name));
    assert(seq![e].drop_last() =~= Seq::<Seq<char>>::empty());
    assert(last_part(seq![e]) == last_part(Seq::<Seq<char>>::empty()));
}

/// A task that went to a replacement remembers both workers, and what else was
/// noted of it stays.
pub proof fn law_both_workers_are_remembered(
    metadata: Tree,
    worker_id: Seq<char>,
    replacement_id: Seq<char>,
    key: Seq<char>,
)
    requires
        metadata is Object || metadata is Null,
    ensures
        field(
            metadata_after_redispatch(metadata, worker_id, replacement_id),
            "redispatched_from_worker_id"@,
        ) == Some(Tree::Text(worker_id)),
        field(
            metadata_after_redispatch(metadata, worker_id, replacement_id),
            "replacement_worker_id"@,
        ) == Some(Tree::Text(replacement_id)),
        key != "redispatched_from_worker_id"@ && key != "replacement_worker_id"@ ==> field(
            metadata_after_redispatch(metadata, worker_id, replacement_id),
            key,
        ) == field(metadata, key),
{
    reveal_strlit("redispatched_from_worker_id");
    reveal_strlit("replacement_worker_id");
    let f = "redispatched_from_worker_id"@;
    let t = "replacement_worker_id"@;
    assert(f.len() == 27 && t.len() == 21);
    let o = as_object(metadata);
    let a = set_field(o, f, Tree::Text(worker_id));
    lemma_set_then_get(o, f, Tree::Text(worker_id));
    lemma_set_then_get(a, t, Tree::Text(replacement_id));
    lemma_set_keeps_others(a, t, Tree::Text(replacement_id), f);
    if key != f && key != t {
        lemma_set_keeps_others(o, f, Tree::Text(worker_id), key);
        lemma_set_keeps_others(a, t, Tree::Text(replacement_id), key);
    }
}

/// A task whose worker was replaced is in progress again, with the replacement,
/// and stays the same task.
pub proof fn law_replaced_worker_gets_the_task(r: Task, task: Task, replacement_id: Seq<char>)
    requires
        is_redispatched_task(r, task, replacement_id),
    ensures
        r.stage == TaskStage::InProgress,
        r.worker_id is Some && r.worker_id->0@ == replacement_id,
        r.id == task.id && r.title == task.title && r.pr_url == task.pr_url && r.pr_number
            == task.pr_number && r.repo == task.repo,
{
}

/// A task that is made for a promoted worker waits for a person, with the
/// worker's pull request.
pub proof fn law_task_of_promotion(
    r: Task,
    id: Seq<char>,
    workspace: Seq<char>,
    worker_id: Seq<char>,
    title: Seq<char>,
    pr_url: Seq<char>,
    pr_number: Option<i64>,
    repo: Option<String>,
    now: Moment,
)
    requires
        is_task_of_promotion(
            r,
            id,
            workspace,
            worker_id,
            title,
            pr_url,
            pr_number,
            repo,
            now,
        ),
    ensures
        r.stage == TaskStage::HumanReview,
        r.id@ == id && r.workspace@ == workspace && r.title@ == title,
        r.worker_id is Some && r.worker_id->0@ == worker_id,
        r.pr_url is Some && r.pr_url->0@ == pr_url && r.pr_number == pr_number,
        opt_text(r.repo) == opt_text(repo),
        r.source is Some && r.source->0@ == "manual"@ && r.source_url is None,
        r.created_at == now && r.updated_at == now && r.resolved_at is None && r.cursor is None,
{
}

/// A task is dismissed with its worker where this was asked and it is neither
/// merged nor dismissed yet.
pub proof fn law_open_tasks_are_dismissed(stage: TaskStage)
    ensures
        !is_dismissed(false, Some(stage)),
        !is_dismissed(true, None),
        is_dismissed(true, Some(stage)) <==> stage != TaskStage::Merged && stage
            != TaskStage::Dismissed,
{
}

} // verus!
