//! Workflows: the graph, its form in the editor, and running one lane of it
//! step by step.

use crate::json::{opt_tree, Json};
use crate::task::{CursorStep, GraphCursor, Task, TaskStage};
use crate::text::{
    cat2, cat3, cat4, cat5, contains, ends_with, has_part, join, joined, lemma_holds_part,
    lemma_inside, lemma_join_holds, lowercase, lowered, opt_text, same, starts_with, texts,
};
use crate::time::Moment;
use crate::web::WebChatEvent;
use vstd::prelude::*;

verus! {

/// What a node of a workflow is.
#[derive(Debug, Clone, Copy, PartialEq, Eq, Structural)]
pub enum NodeType {
    Entry,
    Action,
    Wait,
    Terminal,
}

/// What an action node does: its kind by name, who does it, and the whole
/// configuration.
pub struct NodeAction {
    pub kind: String,
    pub role: Option<String>,
    pub json: Json,
}

/// A node of a workflow.
pub struct Node {
    pub node_type: NodeType,
    pub label: String,
    pub stage: Option<String>,
    pub action: Option<NodeAction>,
}

/// When an edge is taken.
pub enum Condition {
    Signal { source: String },
    AgentOutput { source: String, match_fields: Vec<(String, String)> },
    StateCheck { check: String, expect: String },
}

/// When an edge is taken, with the whole configuration.
pub struct EdgeCondition {
    pub condition: Condition,
    pub json: Json,
}

/// An edge of a workflow.
pub struct Edge {
    pub from: String,
    pub to: String,
    pub condition: Option<EdgeCondition>,
    pub guard: Option<Json>,
    pub priority: i32,
}

/// A workflow: its nodes with their identifiers, and its edges.
pub struct WorkflowGraph {
    pub name: String,
    pub nodes: Vec<(String, Node)>,
    pub edges: Vec<Edge>,
}

// ---------------------------------------------------------------------------
// Walking a lane
// ---------------------------------------------------------------------------

/// A step of a workflow run.
pub struct WorkflowStep {
    pub node_id: String,
    pub label: String,
    pub prompt: String,
}

/// What a step of a workflow run is.
pub struct Step {
    pub node_id: Seq<char>,
    pub label: Seq<char>,
    pub prompt: Seq<char>,
}

impl View for WorkflowStep {
    type V = Step;

    open spec fn view(&self) -> Step {
        Step { node_id: self.node_id@, label: self.label@, prompt: self.prompt@ }
    }
}

/// What the steps of a list are.
pub open spec fn steps_view(list: Seq<WorkflowStep>) -> Seq<Step> {
    list.map_values(|s: WorkflowStep| s@)
}

/// A node's label and the kind of its action in lower case.
pub struct LowerNode {
    pub label: String,
    pub kind: String,
}

/// A lane: its name, as it is and in lower case.
pub struct Lane {
    pub name: String,
    pub lower: String,
}

/// The position of the first node with the identifier, or the number of nodes
/// where there is none.
pub open spec fn node_at(nodes: Seq<(String, Node)>, id: Seq<char>) -> int
    decreases nodes.len(),
{
    if nodes.len() == 0 || nodes[0].0@ == id {
        0
    } else {
        1 + node_at(nodes.drop_first(), id)
    }
}

/// Whether a node's action is done by the role.
pub open spec fn has_role(node: Node, role: Seq<char>) -> bool {
    match node.action {
        Some(action) => opt_text(action.role) == Some(role),
        None => false,
    }
}

/// Whether an action node lies in a lane: any does where no lane is asked for;
/// else the lane is its role, or part of its label whatever the case.
pub open spec fn in_lane(node: Node, lower: LowerNode, lane: Option<Lane>) -> bool {
    match lane {
        Some(l) => has_role(node, l.name@) || contains(lower.label@, l.lower@),
        None => true,
    }
}

/// In which way an edge may be followed.
#[derive(Clone, Copy, PartialEq, Eq, Structural)]
pub enum EdgeRule {
    /// To a node of the lane.
    IntoLane,
    /// Without a condition.
    Unconditional,
    /// In any case.
    Any,
}

/// Whether an edge leads from a node and may be followed.
pub open spec fn may_follow(
    graph: WorkflowGraph,
    rule: EdgeRule,
    lane: Option<Lane>,
    from: Seq<char>,
    edge: Edge,
) -> bool {
    edge.from@ == from && match rule {
        EdgeRule::IntoLane => match lane {
            Some(l) => {
                let i = node_at(graph.nodes@, edge.to@);
                0 <= i < graph.nodes@.len() && has_role(graph.nodes@[i].1, l.name@)
            },
            None => false,
        },
        EdgeRule::Unconditional => edge.condition is None,
        EdgeRule::Any => true,
    }
}

/// The edge to follow among the first `upto`: of those that may be followed
/// the one with the lowest priority, the first of several such.
pub open spec fn best_edge(
    graph: WorkflowGraph,
    rule: EdgeRule,
    lane: Option<Lane>,
    from: Seq<char>,
    upto: int,
) -> Option<int>
    decreases upto,
{
    if upto <= 0 || upto > graph.edges@.len() {
        None
    } else {
        let i = upto - 1;
        let best = best_edge(graph, rule, lane, from, i);
        if may_follow(graph, rule, lane, from, graph.edges@[i]) {
            match best {
                Some(b) => if graph.edges@[i].priority < graph.edges@[b].priority {
                    Some(i)
                } else {
                    Some(b)
                },
                None => Some(i),
            }
        } else {
            best
        }
    }
}

/// The edge to follow from a node: one into the lane, else one without a
/// condition, else any.
pub open spec fn next_edge(graph: WorkflowGraph, lane: Option<Lane>, from: Seq<char>) -> Option<
    int,
> {
    let n = graph.edges@.len() as int;
    match best_edge(graph, EdgeRule::IntoLane, lane, from, n) {
        Some(i) => Some(i),
        None => match best_edge(graph, EdgeRule::Unconditional, lane, from, n) {
            Some(i) => Some(i),
            None => best_edge(graph, EdgeRule::Any, lane, from, n),
        },
    }
}

/// How many nodes have not been visited.
pub open spec fn unvisited(nodes: Seq<(String, Node)>, visited: Seq<Seq<char>>) -> nat
    decreases nodes.len(),
{
    if nodes.len() == 0 {
        0
    } else {
        unvisited(nodes.drop_last(), visited) + if visited.contains(nodes.last().0@) {
            0nat
        } else {
            1nat
        }
    }
}

/// The step that a node contributes, where it lies in the lane.
pub open spec fn step_here(
    id: Seq<char>,
    node: Node,
    lower: LowerNode,
    lane: Option<Lane>,
) -> Seq<Step> {
    if node.action is Some && in_lane(node, lower, lane) {
        seq![Step { node_id: id, label: node.label@, prompt: lower.kind@ }]
    } else {
        seq![]
    }
}

/// The steps of the lane from a node on: edges are followed until a node has
/// no way out, ends the workflow, does not exist or was visited before.
pub open spec fn walk(
    graph: WorkflowGraph,
    lower: Seq<LowerNode>,
    lane: Option<Lane>,
    current: Seq<char>,
    visited: Seq<Seq<char>>,
) -> Seq<Step>
    decreases unvisited(graph.nodes@, visited),
{
    let i = node_at(graph.nodes@, current);
    let seen = visited.push(current);
    if visited.contains(current) || i < 0 || i >= graph.nodes@.len() || unvisited(
        graph.nodes@,
        seen,
    ) >= unvisited(graph.nodes@, visited) {
        seq![]
    } else {
        let node = graph.nodes@[i].1;
        let here = step_here(current, node, lower[i], lane);
        if node.node_type == NodeType::Terminal {
            here
        } else {
            match next_edge(graph, lane, current) {
                Some(e) => here + walk(graph, lower, lane, graph.edges@[e].to@, seen),
                None => here,
            }
        }
    }
}

/// The position of the first entry node, or the number of nodes where there
/// is none.
pub open spec fn entry_at(nodes: Seq<(String, Node)>) -> int
    decreases nodes.len(),
{
    if nodes.len() == 0 || nodes[0].1.node_type == NodeType::Entry {
        0
    } else {
        1 + entry_at(nodes.drop_first())
    }
}

/// Why a workflow cannot be run.
#[derive(Debug, Clone, Copy, PartialEq, Eq, Structural)]
pub enum RunError {
    NoEntry,
    NoSteps,
    Unavailable,
}

impl RunError {
    /// What the user is told.
    pub open spec fn message(self) -> Seq<char> {
        match self {
            RunError::NoEntry => "no entry node in workflow"@,
            RunError::NoSteps => "no action steps found in workflow lane"@,
            RunError::Unavailable => "coordinator unavailable"@,
        }
    }

    /// What the user is told.
    pub fn text(self) -> (r: &'static str)
        ensures
            r@ == self.message(),
    {
        match self {
            RunError::NoEntry => "no entry node in workflow",
            RunError::NoSteps => "no action steps found in workflow lane",
            RunError::Unavailable => "coordinator unavailable",
        }
    }
}

proof fn lemma_node_at(nodes: Seq<(String, Node)>, id: Seq<char>, k: int)
    requires
        0 <= k <= nodes.len(),
        forall|i: int| 0 <= i < k ==> (#[trigger] nodes[i]).0@ != id,
        k < nodes.len() ==> nodes[k].0@ == id,
    ensures
        node_at(nodes, id) == k,
    decreases nodes.len(),
{
    if k > 0 {
        let t = nodes.drop_first();
        assert forall|i: int| 0 <= i < k - 1 implies (#[trigger] t[i]).0@ != id by {
            assert(t[i] == nodes[i + 1]);
        }
        lemma_node_at(t, id, k - 1);
        assert(nodes[0].0@ != id);
    }
}

proof fn lemma_entry_at(nodes: Seq<(String, Node)>, k: int)
    requires
        0 <= k <= nodes.len(),
        forall|i: int| 0 <= i < k ==> (#[trigger] nodes[i]).1.node_type != NodeType::Entry,
        k < nodes.len() ==> nodes[k].1.node_type == NodeType::Entry,
    ensures
        entry_at(nodes) == k,
    decreases nodes.len(),
{
    if k > 0 {
        let t = nodes.drop_first();
        assert forall|i: int| 0 <= i < k - 1 implies (#[trigger] t[i]).1.node_type
            != NodeType::Entry by {
            assert(t[i] == nodes[i + 1]);
        }
        lemma_entry_at(t, k - 1);
        assert(nodes[0].1.node_type != NodeType::Entry);
    }
}

proof fn lemma_visit(nodes: Seq<(String, Node)>, visited: Seq<Seq<char>>, id: Seq<char>)
    ensures
        unvisited(nodes, visited.push(id)) <= unvisited(nodes, visited),
        !visited.contains(id) && (exists|i: int| 0 <= i < nodes.len() && nodes[i].0@ == id)
            ==> unvisited(nodes, visited.push(id)) < unvisited(nodes, visited),
    decreases nodes.len(),
{
    if nodes.len() > 0 {
        let front = nodes.drop_last();
        let seen = visited.push(id);
        let x = nodes.last().0@;
        lemma_visit(front, visited, id);
        assert(seen.contains(x) == (visited.contains(x) || x == id)) by {
            if visited.contains(x) {
                let k = choose|k: int| 0 <= k < visited.len() && visited[k] == x;
                assert(seen[k] == x);
            }
            if x == id {
                assert(seen[visited.len() as int] == x);
            }
            if seen.contains(x) {
                let k = choose|k: int| 0 <= k < seen.len() && seen[k] == x;
                if k < visited.len() {
                    assert(visited[k] == x);
                }
            }
        }
        if !visited.contains(id) && (exists|i: int| 0 <= i < nodes.len() && nodes[i].0@ == id) {
            let i = choose|i: int| 0 <= i < nodes.len() && nodes[i].0@ == id;
            if i < front.len() {
                assert(front[i].0@ == id);
            }
        }
    }
}

fn find_node(nodes: &Vec<(String, Node)>, id: &str) -> (r: usize)
    ensures
        r <= nodes@.len(),
        r == node_at(nodes@, id@),
        r < nodes@.len() ==> nodes@[r as int].0@ == id@,
{
    let n: usize = nodes.len();
    let mut i: usize = 0;
    while i < n && !same(nodes[i].0.as_str(), id)
        invariant
            n == nodes@.len(),
            0 <= i <= n,
            forall|j: int| 0 <= j < i ==> (#[trigger] nodes@[j]).0@ != id@,
        decreases n - i,
    {
        i = i + 1;
    }
    proof {
        lemma_node_at(nodes@, id@, i as int);
    }
    i
}

fn node_has_role(node: &Node, role: &str) -> (r: bool)
    ensures
        r == has_role(*node, role@),
{
    match &node.action {
        Some(action) => match &action.role {
            Some(own) => same(own.as_str(), role),
            None => false,
        },
        None => false,
    }
}

fn edge_may_follow(
    graph: &WorkflowGraph,
    rule: EdgeRule,
    lane: &Option<Lane>,
    from: &str,
    edge: &Edge,
) -> (r: bool)
    ensures
        r == may_follow(*graph, rule, *lane, from@, *edge),
{
    same(edge.from.as_str(), from) && match rule {
        EdgeRule::IntoLane => match lane {
            Some(l) => {
                let i = find_node(&graph.nodes, edge.to.as_str());
                i < graph.nodes.len() && node_has_role(&graph.nodes[i].1, l.name.as_str())
            },
            None => false,
        },
        EdgeRule::Unconditional => edge.condition.is_none(),
        EdgeRule::Any => true,
    }
}

fn find_edge(graph: &WorkflowGraph, rule: EdgeRule, lane: &Option<Lane>, from: &str) -> (r: Option<
    usize,
>)
    ensures
        match r {
            Some(i) => i < graph.edges@.len() && best_edge(
                *graph,
                rule,
                *lane,
                from@,
                graph.edges@.len() as int,
            ) == Some(i as int),
            None => best_edge(*graph, rule, *lane, from@, graph.edges@.len() as int) is None,
        },
{
    let n: usize = graph.edges.len();
    let mut best: Option<usize> = None;
    let mut i: usize = 0;
    while i < n
        invariant
            n == graph.edges@.len(),
            0 <= i <= n,
            match best {
                Some(b) => b < i && best_edge(*graph, rule, *lane, from@, i as int) == Some(
                    b as int,
                ),
                None => best_edge(*graph, rule, *lane, from@, i as int) is None,
            },
        decreases n - i,
    {
        if edge_may_follow(graph, rule, lane, from, &graph.edges[i]) {
            match best {
                Some(b) => {
                    if graph.edges[i].priority < graph.edges[b].priority {
                        best = Some(i);
                    }
                },
                None => {
                    best = Some(i);
                },
            }
        }
        i = i + 1;
    }
    best
}

fn find_next(graph: &WorkflowGraph, lane: &Option<Lane>, from: &str) -> (r: Option<usize>)
    ensures
        match r {
            Some(i) => i < graph.edges@.len() && next_edge(*graph, *lane, from@) == Some(
                i as int,
            ),
            None => next_edge(*graph, *lane, from@) is None,
        },
{
    match find_edge(graph, EdgeRule::IntoLane, lane, from) {
        Some(i) => Some(i),
        None => match find_edge(graph, EdgeRule::Unconditional, lane, from) {
            Some(i) => Some(i),
            None => find_edge(graph, EdgeRule::Any, lane, from),
        },
    }
}

fn was_visited(visited: &Vec<String>, id: &str) -> (r: bool)
    ensures
        r == texts(visited@).contains(id@),
{
    let n: usize = visited.len();
    let mut i: usize = 0;
    while i < n
        invariant
            n == visited@.len(),
            0 <= i <= n,
            forall|j: int| 0 <= j < i ==> texts(visited@)[j] != id@,
        decreases n - i,
    {
        if same(visited[i].as_str(), id) {
            proof {
                assert(texts(visited@)[i as int] == id@);
            }
            return true;
        }
        i = i + 1;
    }
    false
}

/// The steps of a lane from the node with the identifier `start` on. `lower`
/// holds the nodes' labels and kinds in lower case.
pub fn lane_steps(
    graph: &WorkflowGraph,
    lower: &Vec<LowerNode>,
    lane: &Option<Lane>,
    start: &str,
) -> (r: Vec<WorkflowStep>)
    requires
        lower@.len() == graph.nodes@.len(),
    ensures
        steps_view(r@) == walk(*graph, lower@, *lane, start@, seq![]),
{
    let mut out: Vec<WorkflowStep> = Vec::new();
    let mut visited: Vec<String> = Vec::new();
    let mut current = start.to_owned();
    proof {
        assert(texts(visited@) =~= seq![]);
        assert(steps_view(out@) + walk(*graph, lower@, *lane, start@, seq![]) =~= walk(
            *graph,
            lower@,
            *lane,
            start@,
            seq![],
        ));
    }
    loop
        invariant
            lower@.len() == graph.nodes@.len(),
            walk(*graph, lower@, *lane, start@, seq![]) == steps_view(out@) + walk(
                *graph,
                lower@,
                *lane,
                current@,
                texts(visited@),
            ),
        decreases unvisited(graph.nodes@, texts(visited@)),
    {
        let ghost before = texts(visited@);
        let ghost here_id = current@;
        let ghost done = steps_view(out@);
        if was_visited(&visited, current.as_str()) {
            proof {
                assert(done + Seq::<Step>::empty() =~= done);
            }
            return out;
        }
        let i = find_node(&graph.nodes, current.as_str());
        if i >= graph.nodes.len() {
            proof {
                assert(done + Seq::<Step>::empty() =~= done);
            }
            return out;
        }
        let node = &graph.nodes[i].1;
        proof {
            lemma_visit(graph.nodes@, before, here_id);
            assert(graph.nodes@[i as int].0@ == here_id);
        }
        let in_lane_here = match lane {
            Some(l) => node_has_role(node, l.name.as_str()) || has_part(
                lower[i].label.as_str(),
                l.lower.as_str(),
            ),
            None => true,
        };
        let ghost here = step_here(here_id, *node, lower@[i as int], *lane);
        if node.action.is_some() && in_lane_here {
            let step = WorkflowStep {
                node_id: current.clone(),
                label: node.label.clone(),
                prompt: lower[i].kind.clone(),
            };
            proof {
                assert(steps_view(out@.push(step)) =~= done + here);
            }
            out.push(step);
        } else {
            proof {
                assert(done + here =~= done);
            }
        }
        let ghost now = steps_view(out@);
        if let NodeType::Terminal = node.node_type {
            return out;
        }
        match find_next(graph, lane, current.as_str()) {
            Some(e) => {
                let next = graph.edges[e].to.clone();
                proof {
                    assert(texts(visited@.push(current)) =~= before.push(here_id));
                    let rest = walk(*graph, lower@, *lane, next@, before.push(here_id));
                    assert(done + (here + rest) =~= (done + here) + rest);
                }
                visited.push(current);
                current = next;
            },
            None => {
                return out;
            },
        }
    }
}

/// The nodes' labels and kinds in lower case, as `str::to_lowercase` gives
/// them.
pub open spec fn lowered_nodes(nodes: Seq<(String, Node)>, lower: Seq<LowerNode>) -> bool {
    &&& lower.len() == nodes.len()
    &&& forall|i: int|
        0 <= i < nodes.len() ==> {
            &&& (#[trigger] lower[i]).label@ == lowercase(nodes[i].1.label@)
            &&& lower[i].kind@ == match nodes[i].1.action {
                Some(action) => lowercase(action.kind@),
                None => seq![],
            }
        }
}

/// The nodes' labels and kinds in lower case.
pub fn lower_nodes(nodes: &Vec<(String, Node)>) -> (r: Vec<LowerNode>)
    ensures
        lowered_nodes(nodes@, r@),
{
    let mut out: Vec<LowerNode> = Vec::new();
    let n: usize = nodes.len();
    let mut i: usize = 0;
    while i < n
        invariant
            n == nodes@.len(),
            0 <= i <= n,
            out@.len() == i,
            forall|j: int|
                0 <= j < i ==> {
                    &&& (#[trigger] out@[j]).label@ == lowercase(nodes@[j].1.label@)
                    &&& out@[j].kind@ == match nodes@[j].1.action {
                        Some(action) => lowercase(action.kind@),
                        None => seq![],
                    }
                },
        decreases n - i,
    {
        let kind = match &nodes[i].1.action {
            Some(action) => lowered(action.kind.as_str()),
            None => String::new(),
        };
        out.push(LowerNode { label: lowered(nodes[i].1.label.as_str()), kind });
        i = i + 1;
    }
    out
}

/// The steps of a run from the workflow's entry node. `lower` holds the nodes'
/// labels and kinds in lower case.
pub fn entry_steps(
    graph: &WorkflowGraph,
    lower: &Vec<LowerNode>,
    lane: &Option<Lane>,
) -> (r: Result<Vec<WorkflowStep>, RunError>)
    requires
        lower@.len() == graph.nodes@.len(),
    ensures
        ({
            let e = entry_at(graph.nodes@);
            if e >= graph.nodes@.len() {
                r is Err && r->Err_0 == RunError::NoEntry
            } else {
                let steps = walk(*graph, lower@, *lane, graph.nodes@[e].0@, seq![]);
                if steps.len() == 0 {
                    r is Err && r->Err_0 == RunError::NoSteps
                } else {
                    r is Ok && steps_view(r->Ok_0@) == steps
                }
            }
        }),
{
    let n: usize = graph.nodes.len();
    let mut e: usize = 0;
    while e < n && !is_entry(&graph.nodes[e].1)
        invariant
            n == graph.nodes@.len(),
            0 <= e <= n,
            forall|j: int|
                0 <= j < e ==> (#[trigger] graph.nodes@[j]).1.node_type != NodeType::Entry,
        decreases n - e,
    {
        e = e + 1;
    }
    proof {
        lemma_entry_at(graph.nodes@, e as int);
    }
    if e >= n {
        return Err(RunError::NoEntry);
    }
    let steps = lane_steps(graph, lower, lane, graph.nodes[e].0.as_str());
    proof {
        assert(steps_view(steps@).len() == steps@.len());
    }
    if steps.len() == 0 {
        Err(RunError::NoSteps)
    } else {
        Ok(steps)
    }
}

fn is_entry(node: &Node) -> (r: bool)
    ensures
        r == (node.node_type == NodeType::Entry),
{
    match node.node_type {
        NodeType::Entry => true,
        _ => false,
    }
}

/// The steps of a run of a lane, or of the whole workflow.
pub fn workflow_steps(graph: &WorkflowGraph, lane: &Option<String>) -> (r: Result<
    Vec<WorkflowStep>,
    RunError,
>)
    ensures
        exists|lower: Seq<LowerNode>, l: Option<Lane>|
            #![trigger lowered_nodes(graph.nodes@, lower), lane_of(*lane, l)]
            {
                &&& lowered_nodes(graph.nodes@, lower)
                &&& lane_of(*lane, l)
                &&& {
                    let e = entry_at(graph.nodes@);
                    if e >= graph.nodes@.len() {
                        r is Err && r->Err_0 == RunError::NoEntry
                    } else {
                        let steps = walk(*graph, lower, l, graph.nodes@[e].0@, seq![]);
                        if steps.len() == 0 {
                            r is Err && r->Err_0 == RunError::NoSteps
                        } else {
                            r is Ok && steps_view(r->Ok_0@) == steps
                        }
                    }
                }
            },
{
    let lower = lower_nodes(&graph.nodes);
    let l = match lane {
        Some(name) => Some(Lane { name: name.clone(), lower: lowered(name.as_str()) }),
        None => None,
    };
    proof {
        assert(lane_of(*lane, l));
    }
    entry_steps(graph, &lower, &l)
}

/// Whether `l` is the lane that is asked for, with its name in lower case.
pub open spec fn lane_of(asked: Option<String>, l: Option<Lane>) -> bool {
    match (asked, l) {
        (Some(name), Some(lane)) => lane.name@ == name@ && lane.lower@ == lowercase(name@),
        (None, None) => true,
        _ => false,
    }
}

proof fn lemma_walk(
    graph: WorkflowGraph,
    lower: Seq<LowerNode>,
    lane: Option<Lane>,
    current: Seq<char>,
    visited: Seq<Seq<char>>,
)
    ensures
        forall|i: int|
            0 <= i < walk(graph, lower, lane, current, visited).len() ==> {
                let id = (#[trigger] walk(graph, lower, lane, current, visited)[i]).node_id;
                let k = node_at(graph.nodes@, id);
                &&& !visited.contains(id)
                &&& 0 <= k < graph.nodes@.len()
                &&& graph.nodes@[k].1.action is Some
                &&& in_lane(graph.nodes@[k].1, lower[k], lane)
            },
        forall|i: int, j: int|
            0 <= i < j < walk(graph, lower, lane, current, visited).len() ==> (#[trigger] walk(
                graph,
                lower,
                lane,
                current,
                visited,
            )[i]).node_id != (#[trigger] walk(graph, lower, lane, current, visited)[j]).node_id,
    decreases unvisited(graph.nodes@, visited),
{
    let i = node_at(graph.nodes@, current);
    let seen = visited.push(current);
    let all = walk(graph, lower, lane, current, visited);
    if !(visited.contains(current) || i < 0 || i >= graph.nodes@.len() || unvisited(
        graph.nodes@,
        seen,
    ) >= unvisited(graph.nodes@, visited)) {
        let node = graph.nodes@[i].1;
        let here = step_here(current, node, lower[i], lane);
        if node.node_type != NodeType::Terminal && next_edge(graph, lane, current) is Some {
            let to = graph.edges@[next_edge(graph, lane, current)->0].to@;
            let rest = walk(graph, lower, lane, to, seen);
            lemma_walk(graph, lower, lane, to, seen);
            assert(all == here + rest);
            assert(seen[visited.len() as int] == current);
            assert forall|j: int| 0 <= j < all.len() implies {
                let id = (#[trigger] all[j]).node_id;
                let k = node_at(graph.nodes@, id);
                &&& !visited.contains(id)
                &&& 0 <= k < graph.nodes@.len()
                &&& graph.nodes@[k].1.action is Some
                &&& in_lane(graph.nodes@[k].1, lower[k], lane)
            } by {
                if j >= here.len() {
                    let id = all[j].node_id;
                    assert(all[j] == rest[j - here.len()]);
                    if visited.contains(id) {
                        let m = choose|m: int| 0 <= m < visited.len() && visited[m] == id;
                        assert(seen[m] == id);
                    }
                }
            }
            assert forall|a: int, b: int| 0 <= a < b < all.len() implies (#[trigger] all[a]).node_id
                != (#[trigger] all[b]).node_id by {
                assert(all[b] == rest[b - here.len()]);
                if a < here.len() {
                    assert(all[a].node_id == current);
                    assert(!seen.contains(rest[b - here.len()].node_id));
                } else {
                    assert(all[a] == rest[a - here.len()]);
                }
            }
        }
    }
}

/// A run takes each node at most once, and only action nodes of its lane.
pub proof fn law_each_step_once(
    graph: WorkflowGraph,
    lower: Seq<LowerNode>,
    lane: Option<Lane>,
    start: Seq<char>,
)
    ensures
        forall|i: int, j: int|
            0 <= i < j < walk(graph, lower, lane, start, seq![]).len() ==> (#[trigger] walk(
                graph,
                lower,
                lane,
                start,
                seq![],
            )[i]).node_id != (#[trigger] walk(graph, lower, lane, start, seq![])[j]).node_id,
        forall|i: int|
            0 <= i < walk(graph, lower, lane, start, seq![]).len() ==> {
                let k = node_at(
                    graph.nodes@,
                    (#[trigger] walk(graph, lower, lane, start, seq![])[i]).node_id,
                );
                &&& 0 <= k < graph.nodes@.len()
                &&& graph.nodes@[k].1.action is Some
                &&& in_lane(graph.nodes@[k].1, lower[k], lane)
            },
{
    lemma_walk(graph, lower, lane, start, seq![]);
}

// ---------------------------------------------------------------------------
// Running the steps
// ---------------------------------------------------------------------------

/// The message that a step gives the bee: the topic, and what earlier steps
/// have found.
pub open spec fn message_for(
    label: Seq<char>,
    prompt: Seq<char>,
    topic: Seq<char>,
    found: Seq<char>,
) -> Seq<char> {
    if found.len() == 0 {
        "[Step: "@ + label + "]\n"@ + prompt + ("\n\nTopic: "@ + topic)
    } else {
        "[Step: "@ + label + "]\n"@ + prompt + ("\n\nOriginal topic: "@ + topic
            + "\n\nFindings so far:\n"@ + found)
    }
}

/// What has been found after a step has answered.
pub open spec fn found_after(found: Seq<char>, label: Seq<char>, answer: Seq<char>) -> Seq<char> {
    found + ("\n## "@ + label + "\n"@ + answer + "\n"@)
}

/// The wish for a summary once all steps are done.
pub open spec fn canvas_request(found: Seq<char>) -> Seq<char> {
    "You just completed a workflow. Here are your accumulated findings:\n\n"@ + found
        + "\n\nWrite a clean, well-organized summary of these findings for your canvas. Put your summary inside [CANVAS] and [/CANVAS] tags. Make it useful — something the user can reference later. Use markdown headers, bullet points, and links. Be concise but thorough."@
}

/// A canvas with a new section in front of what it held.
pub open spec fn canvas_with(
    date: Seq<char>,
    topic: Seq<char>,
    content: Seq<char>,
    existing: Seq<char>,
) -> Seq<char> {
    "## "@ + date + " — "@ + topic + ("\n\n"@ + content + "\n\n---\n\n"@) + existing
}

/// The message that a step gives the bee.
pub fn step_message(label: &str, prompt: &str, topic: &str, found: &str) -> (r: String)
    ensures
        r@ == message_for(label@, prompt@, topic@, found@),
{
    let head = cat4("[Step: ", label, "]\n", prompt);
    let tail = if found.is_empty() {
        cat2("\n\nTopic: ", topic)
    } else {
        cat4("\n\nOriginal topic: ", topic, "\n\nFindings so far:\n", found)
    };
    cat2(head.as_str(), tail.as_str())
}

/// What has been found after a step has answered.
pub fn accumulate(found: &str, label: &str, answer: &str) -> (r: String)
    ensures
        r@ == found_after(found@, label@, answer@),
{
    let section = cat5("\n## ", label, "\n", answer, "\n");
    cat2(found, section.as_str())
}

/// The wish for a summary once all steps are done.
pub fn canvas_prompt(found: &str) -> (r: String)
    ensures
        r@ == canvas_request(found@),
{
    cat3(
        "You just completed a workflow. Here are your accumulated findings:\n\n",
        found,
        "\n\nWrite a clean, well-organized summary of these findings for your canvas. Put your summary inside [CANVAS] and [/CANVAS] tags. Make it useful — something the user can reference later. Use markdown headers, bullet points, and links. Be concise but thorough.",
    )
}

/// A canvas with a new section in front of what it held.
pub fn update_canvas(date: &str, topic: &str, content: &str, existing: &str) -> (r: String)
    ensures
        r@ == canvas_with(date@, topic@, content@, existing@),
{
    let head = cat4("## ", date, " — ", topic);
    let body = cat3("\n\n", content, "\n\n---\n\n");
    cat3(head.as_str(), body.as_str(), existing)
}

/// What is done with an event of a step's streamed answer.
#[derive(Debug, Clone, Copy, PartialEq, Eq, Structural)]
pub enum StreamStep {
    /// It is passed on, and more is to come.
    Forward,
    /// The answer is complete.
    Complete,
    /// It is passed on, and the run ends.
    Abort,
    /// It is passed over.
    Skip,
}

/// A run of a workflow: its steps, the step that it is at, what has been found
/// and what the current step has answered.
pub struct WorkflowRun {
    pub topic: String,
    pub steps: Vec<WorkflowStep>,
    pub at: usize,
    pub found: String,
    pub answer: String,
}

/// What a run has found once the first `upto` steps have given the answers.
pub open spec fn findings(steps: Seq<Step>, answers: Seq<Seq<char>>, upto: int) -> Seq<char>
    decreases upto,
{
    if upto <= 0 {
        seq![]
    } else {
        found_after(findings(steps, answers, upto - 1), steps[upto - 1].label, answers[upto - 1])
    }
}

impl WorkflowRun {
    /// The run is at one of its steps, or has done them all.
    pub open spec fn wf(self) -> bool {
        self.at <= self.steps@.len()
    }

    /// A run at its first step.
    pub fn new(topic: String, steps: Vec<WorkflowStep>) -> (r: WorkflowRun)
        ensures
            r.wf(),
            r.topic == topic,
            r.steps == steps,
            r.at == 0,
            r.found@ == Seq::<char>::empty(),
            r.answer@ == Seq::<char>::empty(),
    {
        WorkflowRun { topic, steps, at: 0, found: String::new(), answer: String::new() }
    }

    /// The message for the current step, where there is one left.
    pub fn message(&self) -> (r: Option<String>)
        requires
            self.wf(),
        ensures
            opt_text(r) == if self.at < self.steps@.len() {
                let s = self.steps@[self.at as int];
                Some(message_for(s.label@, s.prompt@, self.topic@, self.found@))
            } else {
                None
            },
    {
        if self.at < self.steps.len() {
            let s = &self.steps[self.at];
            Some(
                step_message(
                    s.label.as_str(),
                    s.prompt.as_str(),
                    self.topic.as_str(),
                    self.found.as_str(),
                ),
            )
        } else {
            None
        }
    }

    /// Takes in an event of the current step's answer.
    pub fn take_event(&mut self, event: &WebChatEvent) -> (r: StreamStep)
        requires
            old(self).wf(),
        ensures
            final(self).wf(),
            final(self).topic == old(self).topic,
            final(self).steps == old(self).steps,
            final(self).at == old(self).at,
            final(self).found == old(self).found,
            final(self).answer@ == match *event {
                WebChatEvent::Token { text } => old(self).answer@ + text@,
                _ => old(self).answer@,
            },
            r == match *event {
                WebChatEvent::Token { text } => StreamStep::Forward,
                WebChatEvent::Done => StreamStep::Complete,
                WebChatEvent::Error { text } => StreamStep::Abort,
                _ => StreamStep::Skip,
            },
    {
        match event {
            WebChatEvent::Token { text } => {
                let longer = cat2(self.answer.as_str(), text.as_str());
                self.answer = longer;
                StreamStep::Forward
            },
            WebChatEvent::Done => StreamStep::Complete,
            WebChatEvent::Error { text } => StreamStep::Abort,
            _ => StreamStep::Skip,
        }
    }

    /// Ends the current step and goes on to the next.
    pub fn end_step(&mut self)
        requires
            old(self).at < old(self).steps@.len(),
        ensures
            final(self).wf(),
            final(self).topic == old(self).topic,
            final(self).steps == old(self).steps,
            final(self).at == old(self).at + 1,
            final(self).found@ == found_after(
                old(self).found@,
                old(self).steps@[old(self).at as int].label@,
                old(self).answer@,
            ),
            final(self).answer@ == Seq::<char>::empty(),
    {
        let more = accumulate(
            self.found.as_str(),
            self.steps[self.at].label.as_str(),
            self.answer.as_str(),
        );
        self.found = more;
        self.answer = String::new();
        let n: usize = self.steps.len();
        proof {
            assert(self.at < n);
        }
        self.at = self.at + 1;
    }
}

/// Every step gets everything that the steps before it have found: what a run
/// has found before a step is how what it has found after it starts.
pub proof fn law_findings_grow(steps: Seq<Step>, answers: Seq<Seq<char>>, upto: int)
    requires
        0 <= upto,
    ensures
        crate::text::starts_with(
            findings(steps, answers, upto + 1),
            findings(steps, answers, upto),
        ),
{
    let old_text = findings(steps, answers, upto);
    let new = findings(steps, answers, upto + 1);
    assert(new.subrange(0, old_text.len() as int) =~= old_text);
}

// ---------------------------------------------------------------------------
// The editor's form of a workflow
// ---------------------------------------------------------------------------

/// A node as the editor shows it.
pub struct NodeView {
    pub id: String,
    pub label: String,
    pub node_type: String,
    pub stage: Option<String>,
    pub action: Option<Json>,
    pub wait_for: Option<Json>,
    pub notify: Option<String>,
    /// What the node does, in words.
    pub description: Option<String>,
}

/// An edge as the editor shows it.
pub struct EdgeView {
    pub from: String,
    pub to: String,
    pub label: Option<String>,
    pub has_condition: bool,
    pub condition: Option<Json>,
    pub guard: Option<Json>,
    pub priority: u32,
}

/// A workflow as the editor shows it.
pub struct GraphView {
    pub name: String,
    pub nodes: Vec<NodeView>,
    pub edges: Vec<EdgeView>,
}

impl NodeType {
    /// The word for a kind of node.
    pub open spec fn word(self) -> Seq<char> {
        match self {
            NodeType::Entry => "entry"@,
            NodeType::Action => "action"@,
            NodeType::Wait => "wait"@,
            NodeType::Terminal => "terminal"@,
        }
    }

    /// The word for a kind of node.
    pub fn as_str(self) -> (r: &'static str)
        ensures
            r@ == self.word(),
    {
        match self {
            NodeType::Entry => "entry",
            NodeType::Action => "action",
            NodeType::Wait => "wait",
            NodeType::Terminal => "terminal",
        }
    }
}

/// The kind of node that a word stands for.
pub open spec fn node_type_of(word: Seq<char>) -> Option<NodeType> {
    if word == "entry"@ {
        Some(NodeType::Entry)
    } else if word == "action"@ {
        Some(NodeType::Action)
    } else if word == "wait"@ {
        Some(NodeType::Wait)
    } else if word == "terminal"@ {
        Some(NodeType::Terminal)
    } else {
        None
    }
}

/// The kind of node that a word stands for.
pub fn parse_node_type(word: &str) -> (r: Option<NodeType>)
    ensures
        r == node_type_of(word@),
{
    if same(word, "entry") {
        Some(NodeType::Entry)
    } else if same(word, "action") {
        Some(NodeType::Action)
    } else if same(word, "wait") {
        Some(NodeType::Wait)
    } else if same(word, "terminal") {
        Some(NodeType::Terminal)
    } else {
        None
    }
}

/// The word for a kind of node stands for that kind.
pub proof fn law_node_type_round_trip(t: NodeType)
    ensures
        node_type_of(t.word()) == Some(t),
{
    reveal_strlit("entry");
    reveal_strlit("action");
    reveal_strlit("wait");
    reveal_strlit("terminal");
    assert("entry"@.len() == 5 && "action"@.len() == 6 && "wait"@.len() == 4 && "terminal"@.len()
        == 8);
}

/// The names and values that a condition asks for.
pub open spec fn field_texts(fields: Seq<(String, String)>) -> Seq<Seq<char>> {
    fields.map_values(|f: (String, String)| f.0@ + "="@ + f.1@)
}

/// A condition in words.
pub open spec fn condition_label(condition: Condition) -> Seq<char> {
    match condition {
        Condition::Signal { source } => "signal: "@ + source@,
        Condition::AgentOutput { source, match_fields } => if match_fields@.len() == 0 {
            "agent: "@ + source@
        } else {
            "agent: "@ + source@ + " ("@ + join(field_texts(match_fields@), ", "@) + ")"@
        },
        Condition::StateCheck { check, expect } => "check: "@ + check@ + "="@ + expect@,
    }
}

/// A condition in words.
pub fn describe_condition(condition: &Condition) -> (r: String)
    ensures
        r@ == condition_label(*condition),
{
    match condition {
        Condition::Signal { source } => cat2("signal: ", source.as_str()),
        Condition::AgentOutput { source, match_fields } => {
            let n: usize = match_fields.len();
            if n == 0 {
                return cat2("agent: ", source.as_str());
            }
            let mut fields: Vec<String> = Vec::new();
            let ghost all = field_texts(match_fields@);
            let mut i: usize = 0;
            proof {
                assert(texts(fields@) =~= all.take(0));
            }
            while i < n
                invariant
                    n == match_fields@.len(),
                    0 <= i <= n,
                    all == field_texts(match_fields@),
                    texts(fields@) == all.take(i as int),
                decreases n - i,
            {
                let one = cat3(match_fields[i].0.as_str(), "=", match_fields[i].1.as_str());
                proof {
                    assert(texts(fields@.push(one)) =~= texts(fields@).push(one@));
                    assert(all.take(i + 1) =~= all.take(i as int).push(one@));
                }
                fields.push(one);
                i = i + 1;
            }
            proof {
                assert(all.take(n as int) =~= all);
            }
            let list = joined(&fields, ", ");
            cat5("agent: ", source.as_str(), " (", list.as_str(), ")")
        },
        Condition::StateCheck { check, expect } => cat4(
            "check: ",
            check.as_str(),
            "=",
            expect.as_str(),
        ),
    }
}

/// Whether the editor's form of a node shows it.
pub open spec fn shows_node(view: NodeView, id: Seq<char>, node: Node) -> bool {
    &&& view.id@ == id
    &&& view.label@ == node.label@
    &&& view.node_type@ == node.node_type.word()
    &&& opt_text(view.stage) == opt_text(node.stage)
    &&& opt_tree(view.action) == match node.action {
        Some(action) => Some(action.json.tree()),
        None => None,
    }
    &&& view.wait_for is None
    &&& view.notify is None
    &&& opt_text(view.description) == match node.action {
        Some(action) => Some(lowercase(action.kind@)),
        None => None,
    }
}

/// A priority as the editor shows it: the same bits without a sign.
pub open spec fn shown_priority(priority: i32) -> u32 {
    priority as u32
}

/// Whether the editor's form of an edge shows it.
pub open spec fn shows_edge(view: EdgeView, edge: Edge) -> bool {
    &&& view.from@ == edge.from@
    &&& view.to@ == edge.to@
    &&& opt_text(view.label) == match edge.condition {
        Some(c) => Some(condition_label(c.condition)),
        None => None,
    }
    &&& view.has_condition == edge.condition is Some
    &&& opt_tree(view.condition) == match edge.condition {
        Some(c) => Some(c.json.tree()),
        None => None,
    }
    &&& opt_tree(view.guard) == opt_tree(edge.guard)
    &&& view.priority == shown_priority(edge.priority)
}

fn copy_json(value: &Option<Json>) -> (r: Option<Json>)
    ensures
        opt_tree(r) == opt_tree(*value),
{
    match value {
        Some(v) => Some(v.copy()),
        None => None,
    }
}

/// Whether the editor's form of a workflow shows it.
pub open spec fn shows_graph(view: GraphView, graph: WorkflowGraph) -> bool {
    &&& view.name@ == "workflow"@
    &&& view.nodes@.len() == graph.nodes@.len()
    &&& forall|i: int|
        0 <= i < view.nodes@.len() ==> shows_node(
            #[trigger] view.nodes@[i],
            graph.nodes@[i].0@,
            graph.nodes@[i].1,
        )
    &&& view.edges@.len() == graph.edges@.len()
    &&& forall|i: int|
        0 <= i < view.edges@.len() ==> shows_edge(#[trigger] view.edges@[i], graph.edges@[i])
}

/// The editor's form of a workflow.
pub fn graph_to_view(graph: &WorkflowGraph) -> (r: GraphView)
    ensures
        shows_graph(r, *graph),
{
    let mut nodes: Vec<NodeView> = Vec::new();
    let mut i: usize = 0;
    while i < graph.nodes.len()
        invariant
            0 <= i <= graph.nodes@.len(),
            nodes@.len() == i,
            forall|j: int|
                0 <= j < i ==> shows_node(
                    #[trigger] nodes@[j],
                    graph.nodes@[j].0@,
                    graph.nodes@[j].1,
                ),
        decreases graph.nodes@.len() - i,
    {
        let node = &graph.nodes[i].1;
        let (action, description) = match &node.action {
            Some(a) => (Some(a.json.copy()), Some(lowered(a.kind.as_str()))),
            None => (None, None),
        };
        nodes.push(
            NodeView {
                id: graph.nodes[i].0.clone(),
                label: node.label.clone(),
                node_type: node.node_type.as_str().to_owned(),
                stage: node.stage.clone(),
                action,
                wait_for: None,
                notify: None,
                description,
            },
        );
        i = i + 1;
    }
    let mut edges: Vec<EdgeView> = Vec::new();
    let mut k: usize = 0;
    while k < graph.edges.len()
        invariant
            0 <= k <= graph.edges@.len(),
            edges@.len() == k,
            forall|j: int|
                0 <= j < k ==> shows_edge(#[trigger] edges@[j], graph.edges@[j]),
        decreases graph.edges@.len() - k,
    {
        let one = edge_to_view(&graph.edges[k]);
        edges.push(one);
        k = k + 1;
    }
    GraphView { name: "workflow".to_owned(), nodes, edges }
}

#[verifier::truncate]
fn unsigned_priority(priority: i32) -> (r: u32)
    ensures
        r == shown_priority(priority),
{
    priority as u32
}

/// A priority read back from the editor: the same bits with a sign.
pub open spec fn read_priority(priority: u32) -> i32 {
    priority as i32
}

#[verifier::truncate]
fn signed_priority(priority: u32) -> (r: i32)
    ensures
        r == read_priority(priority),
{
    priority as i32
}

/// A priority survives the way to the editor and back.
pub proof fn law_priority_round_trip(priority: i32)
    ensures
        read_priority(shown_priority(priority)) == priority,
{
    assert((priority as u32) as i32 == priority) by (bit_vector);
}

fn edge_to_view(edge: &Edge) -> (r: EdgeView)
    ensures
        shows_edge(r, *edge),
{
    let (label, condition) = match &edge.condition {
        Some(c) => (Some(describe_condition(&c.condition)), Some(c.json.copy())),
        None => (None, None),
    };
    EdgeView {
        from: edge.from.clone(),
        to: edge.to.clone(),
        label,
        has_condition: edge.condition.is_some(),
        condition,
        guard: copy_json(&edge.guard),
        priority: unsigned_priority(edge.priority),
    }
}

/// A part of the editor's form as it was read.
pub enum Parsed<T> {
    Absent,
    Value(T),
    /// It could not be read, for this reason.
    Invalid(String),
}

/// Why the editor's form is not a workflow.
pub enum GraphError {
    UnknownNodeType(String),
    InvalidAction(String),
    InvalidCondition(String),
    InvalidGuard(String),
}

impl GraphError {
    /// What the user is told.
    pub open spec fn message(self) -> Seq<char> {
        match self {
            GraphError::UnknownNodeType(t) => "unknown node type: "@ + t@,
            GraphError::InvalidAction(e) => "invalid action: "@ + e@,
            GraphError::InvalidCondition(e) => "invalid condition: "@ + e@,
            GraphError::InvalidGuard(e) => "invalid guard: "@ + e@,
        }
    }

    /// What the user is told.
    pub fn text(&self) -> (r: String)
        ensures
            r@ == self.message(),
    {
        match self {
            GraphError::UnknownNodeType(t) => cat2("unknown node type: ", t.as_str()),
            GraphError::InvalidAction(e) => cat2("invalid action: ", e.as_str()),
            GraphError::InvalidCondition(e) => cat2("invalid condition: ", e.as_str()),
            GraphError::InvalidGuard(e) => cat2("invalid guard: ", e.as_str()),
        }
    }
}

/// What was read of an optional part.
pub open spec fn value_of<T>(parsed: Parsed<T>) -> Option<T> {
    match parsed {
        Parsed::Value(v) => Some(v),
        _ => None,
    }
}

/// What is wrong with a node of the editor's form.
pub open spec fn node_problem(view: NodeView, action: Parsed<NodeAction>) -> Option<GraphError> {
    if node_type_of(view.node_type@) is None {
        Some(GraphError::UnknownNodeType(view.node_type))
    } else {
        match action {
            Parsed::Invalid(e) => Some(GraphError::InvalidAction(e)),
            _ => None,
        }
    }
}

/// What is wrong with an edge of the editor's form.
pub open spec fn edge_problem(
    condition: Parsed<EdgeCondition>,
    guard: Parsed<Json>,
) -> Option<GraphError> {
    match condition {
        Parsed::Invalid(e) => Some(GraphError::InvalidCondition(e)),
        _ => match guard {
            Parsed::Invalid(e) => Some(GraphError::InvalidGuard(e)),
            _ => None,
        },
    }
}

/// A list of nodes with one more, in place of one with the same identifier
/// where there is one.
pub open spec fn with_node(
    nodes: Seq<(String, Node)>,
    id: String,
    node: Node,
) -> Seq<(String, Node)> {
    let k = node_at(nodes, id@);
    if 0 <= k < nodes.len() {
        nodes.update(k, (id, node))
    } else {
        nodes.push((id, node))
    }
}

/// The nodes that the first `upto` nodes of the editor's form make.
pub open spec fn nodes_made(
    views: Seq<NodeView>,
    actions: Seq<Parsed<NodeAction>>,
    upto: int,
) -> Seq<(String, Node)>
    decreases upto,
{
    if upto <= 0 {
        seq![]
    } else {
        let v = views[upto - 1];
        with_node(
            nodes_made(views, actions, upto - 1),
            v.id,
            Node {
                node_type: node_type_of(v.node_type@)->0,
                label: v.label,
                stage: v.stage,
                action: value_of(actions[upto - 1]),
            },
        )
    }
}

/// Whether an edge is what the editor's form of it says.
pub open spec fn edge_made(
    edge: Edge,
    view: EdgeView,
    condition: Parsed<EdgeCondition>,
    guard: Parsed<Json>,
) -> bool {
    &&& edge.from == view.from
    &&& edge.to == view.to
    &&& edge.condition == value_of(condition)
    &&& edge.guard == value_of(guard)
    &&& edge.priority == read_priority(view.priority)
}

/// The first problem of the nodes, as far as there is one.
pub open spec fn first_node_problem(
    views: Seq<NodeView>,
    actions: Seq<Parsed<NodeAction>>,
    upto: int,
) -> Option<GraphError>
    decreases upto,
{
    if upto <= 0 {
        None
    } else {
        match first_node_problem(views, actions, upto - 1) {
            Some(e) => Some(e),
            None => node_problem(views[upto - 1], actions[upto - 1]),
        }
    }
}

/// The first problem of the edges, as far as there is one.
pub open spec fn first_edge_problem(
    conditions: Seq<Parsed<EdgeCondition>>,
    guards: Seq<Parsed<Json>>,
    upto: int,
) -> Option<GraphError>
    decreases upto,
{
    if upto <= 0 {
        None
    } else {
        match first_edge_problem(conditions, guards, upto - 1) {
            Some(e) => Some(e),
            None => edge_problem(conditions[upto - 1], guards[upto - 1]),
        }
    }
}

fn put_node(nodes: &mut Vec<(String, Node)>, id: String, node: Node)
    ensures
        final(nodes)@ == with_node(old(nodes)@, id, node),
{
    let k = find_node(nodes, id.as_str());
    if k < nodes.len() {
        nodes[k] = (id, node);
    } else {
        nodes.push((id, node));
    }
}

proof fn lemma_node_problem_stays(
    views: Seq<NodeView>,
    actions: Seq<Parsed<NodeAction>>,
    upto: int,
    all: int,
)
    requires
        0 <= upto <= all,
        first_node_problem(views, actions, upto) is Some,
    ensures
        first_node_problem(views, actions, all) == first_node_problem(views, actions, upto),
    decreases all,
{
    if upto < all {
        lemma_node_problem_stays(views, actions, upto, all - 1);
    }
}

proof fn lemma_edge_problem_stays(
    conditions: Seq<Parsed<EdgeCondition>>,
    guards: Seq<Parsed<Json>>,
    upto: int,
    all: int,
)
    requires
        0 <= upto <= all,
        first_edge_problem(conditions, guards, upto) is Some,
    ensures
        first_edge_problem(conditions, guards, all) == first_edge_problem(
            conditions,
            guards,
            upto,
        ),
    decreases all,
{
    if upto < all {
        lemma_edge_problem_stays(conditions, guards, upto, all - 1);
    }
}

/// Whether a result is what reading the editor's form of a workflow comes to:
/// its first problem, or the workflow.
pub open spec fn is_graph_of(
    r: Result<WorkflowGraph, GraphError>,
    view: GraphView,
    actions: Seq<Parsed<NodeAction>>,
    conditions: Seq<Parsed<EdgeCondition>>,
    guards: Seq<Parsed<Json>>,
) -> bool {
    match first_node_problem(view.nodes@, actions, view.nodes@.len() as int) {
        Some(e) => r is Err && r->Err_0 == e,
        None => match first_edge_problem(conditions, guards, view.edges@.len() as int) {
            Some(e) => r is Err && r->Err_0 == e,
            None => {
                &&& r is Ok
                &&& r->Ok_0.name == view.name
                &&& r->Ok_0.nodes@ == nodes_made(
                    view.nodes@,
                    actions,
                    view.nodes@.len() as int,
                )
                &&& r->Ok_0.edges@.len() == view.edges@.len()
                &&& forall|i: int|
                    0 <= i < view.edges@.len() ==> edge_made(
                        #[trigger] r->Ok_0.edges@[i],
                        view.edges@[i],
                        conditions[i],
                        guards[i],
                    )
            },
        },
    }
}

/// What is read of something that is there as it was, or not there.
pub open spec fn read_as<T>(value: Option<T>) -> Parsed<T> {
    match value {
        Some(v) => Parsed::Value(v),
        None => Parsed::Absent,
    }
}

/// Whether two nodes have the same identifier and are the same.
pub open spec fn same_node(a: (String, Node), b: (String, Node)) -> bool {
    &&& a.0@ == b.0@
    &&& a.1.node_type == b.1.node_type
    &&& a.1.label@ == b.1.label@
    &&& opt_text(a.1.stage) == opt_text(b.1.stage)
    &&& a.1.action == b.1.action
}

/// Whether two edges are the same.
pub open spec fn same_edge(a: Edge, b: Edge) -> bool {
    &&& a.from@ == b.from@
    &&& a.to@ == b.to@
    &&& a.condition == b.condition
    &&& a.guard == b.guard
    &&& a.priority == b.priority
}

proof fn lemma_nodes_made(
    graph: WorkflowGraph,
    view: GraphView,
    actions: Seq<Parsed<NodeAction>>,
    k: int,
)
    requires
        shows_graph(view, graph),
        0 <= k <= graph.nodes@.len(),
        actions.len() == graph.nodes@.len(),
        forall|i: int, j: int|
            0 <= i < j < graph.nodes@.len() ==> (#[trigger] graph.nodes@[i]).0@ != (
            #[trigger] graph.nodes@[j]).0@,
        forall|i: int|
            0 <= i < graph.nodes@.len() ==> #[trigger] actions[i] == read_as(
                graph.nodes@[i].1.action,
            ),
    ensures
        first_node_problem(view.nodes@, actions, k) is None,
        nodes_made(view.nodes@, actions, k).len() == k,
        forall|i: int|
            0 <= i < k ==> same_node(
                #[trigger] nodes_made(view.nodes@, actions, k)[i],
                graph.nodes@[i],
            ),
    decreases k,
{
    if k > 0 {
        lemma_nodes_made(graph, view, actions, k - 1);
        let before = nodes_made(view.nodes@, actions, k - 1);
        let v = view.nodes@[k - 1];
        assert(shows_node(v, graph.nodes@[k - 1].0@, graph.nodes@[k - 1].1));
        law_node_type_round_trip(graph.nodes@[k - 1].1.node_type);
        assert(actions[k - 1] == read_as(graph.nodes@[k - 1].1.action));
        assert forall|i: int| 0 <= i < k - 1 implies (#[trigger] before[i]).0@ != v.id@ by {
            assert(same_node(before[i], graph.nodes@[i]));
            assert(graph.nodes@[i].0@ != graph.nodes@[k - 1].0@);
        }
        lemma_node_at(before, v.id@, k - 1);
        let now = nodes_made(view.nodes@, actions, k);
        assert forall|i: int| 0 <= i < k implies same_node(
            #[trigger] now[i],
            graph.nodes@[i],
        ) by {
            if i < k - 1 {
                assert(now[i] == before[i]);
            }
        }
    }
}

proof fn lemma_no_edge_problem(
    graph: WorkflowGraph,
    conditions: Seq<Parsed<EdgeCondition>>,
    guards: Seq<Parsed<Json>>,
    k: int,
)
    requires
        0 <= k <= graph.edges@.len(),
        forall|i: int|
            0 <= i < graph.edges@.len() ==> #[trigger] conditions[i] == read_as(
                graph.edges@[i].condition,
            ),
        forall|i: int|
            0 <= i < graph.edges@.len() ==> #[trigger] guards[i] == read_as(graph.edges@[i].guard),
    ensures
        first_edge_problem(conditions, guards, k) is None,
    decreases k,
{
    if k > 0 {
        lemma_no_edge_problem(graph, conditions, guards, k - 1);
        assert(conditions[k - 1] == read_as(graph.edges@[k - 1].condition));
        assert(guards[k - 1] == read_as(graph.edges@[k - 1].guard));
    }
}

/// Reading the editor's form of a workflow gives its nodes and edges back, in
/// their order, where its actions, conditions and guards are read as they
/// were; the name is that of the form. Identifiers of nodes are distinct.
pub proof fn law_editor_gives_the_graph_back(
    graph: WorkflowGraph,
    view: GraphView,
    actions: Seq<Parsed<NodeAction>>,
    conditions: Seq<Parsed<EdgeCondition>>,
    guards: Seq<Parsed<Json>>,
    r: Result<WorkflowGraph, GraphError>,
)
    requires
        shows_graph(view, graph),
        forall|i: int, j: int|
            0 <= i < j < graph.nodes@.len() ==> (#[trigger] graph.nodes@[i]).0@ != (
            #[trigger] graph.nodes@[j]).0@,
        actions.len() == graph.nodes@.len(),
        forall|i: int|
            0 <= i < graph.nodes@.len() ==> #[trigger] actions[i] == read_as(
                graph.nodes@[i].1.action,
            ),
        forall|i: int|
            0 <= i < graph.edges@.len() ==> #[trigger] conditions[i] == read_as(
                graph.edges@[i].condition,
            ),
        forall|i: int|
            0 <= i < graph.edges@.len() ==> #[trigger] guards[i] == read_as(graph.edges@[i].guard),
        is_graph_of(r, view, actions, conditions, guards),
    ensures
        r is Ok,
        r->Ok_0.name@ == "workflow"@,
        r->Ok_0.nodes@.len() == graph.nodes@.len(),
        forall|i: int|
            0 <= i < graph.nodes@.len() ==> same_node(
                #[trigger] r->Ok_0.nodes@[i],
                graph.nodes@[i],
            ),
        r->Ok_0.edges@.len() == graph.edges@.len(),
        forall|i: int|
            0 <= i < graph.edges@.len() ==> same_edge(
                #[trigger] r->Ok_0.edges@[i],
                graph.edges@[i],
            ),
{
    lemma_nodes_made(graph, view, actions, graph.nodes@.len() as int);
    lemma_no_edge_problem(graph, conditions, guards, graph.edges@.len() as int);
    assert forall|i: int| 0 <= i < graph.edges@.len() implies same_edge(
        #[trigger] r->Ok_0.edges@[i],
        graph.edges@[i],
    ) by {
        assert(edge_made(r->Ok_0.edges@[i], view.edges@[i], conditions[i], guards[i]));
        assert(shows_edge(view.edges@[i], graph.edges@[i]));
        assert(conditions[i] == read_as(graph.edges@[i].condition));
        assert(guards[i] == read_as(graph.edges@[i].guard));
        law_priority_round_trip(graph.edges@[i].priority);
    }
}

/// The workflow that the editor's form describes. `actions` holds what was
/// read of the nodes' actions, `conditions` and `guards` what was read of the
/// edges' conditions and guards. The first problem is reported, those of nodes
/// before those of edges.
#[verifier::loop_isolation(false)]
pub fn view_to_graph(
    view: &GraphView,
    actions: Vec<Parsed<NodeAction>>,
    conditions: Vec<Parsed<EdgeCondition>>,
    guards: Vec<Parsed<Json>>,
) -> (r: Result<WorkflowGraph, GraphError>)
    requires
        actions@.len() == view.nodes@.len(),
        conditions@.len() == view.edges@.len(),
        guards@.len() == view.edges@.len(),
    ensures
        is_graph_of(r, *view, actions@, conditions@, guards@),
{
    let n: usize = view.nodes.len();
    let ghost given = actions@;
    let mut left = actions;
    let mut nodes: Vec<(String, Node)> = Vec::new();
    let mut i: usize = 0;
    while i < n
        invariant
            n == view.nodes@.len(),
            0 <= i <= n,
            given.len() == n,
            left@ == given.skip(i as int),
            first_node_problem(view.nodes@, given, i as int) is None,
            nodes@ == nodes_made(view.nodes@, given, i as int),
        decreases n - i,
    {
        let nv = &view.nodes[i];
        let ghost before = left@;
        let parsed = left.remove(0);
        proof {
            assert(parsed == given[i as int]);
            assert(left@ =~= given.skip(i + 1));
        }
        let node_type = match parse_node_type(nv.node_type.as_str()) {
            Some(t) => t,
            None => {
                proof {
                    lemma_node_problem_stays(view.nodes@, given, i + 1, n as int);
                }
                return Err(GraphError::UnknownNodeType(nv.node_type.clone()));
            },
        };
        let action = match parsed {
            Parsed::Absent => None,
            Parsed::Value(a) => Some(a),
            Parsed::Invalid(e) => {
                proof {
                    lemma_node_problem_stays(view.nodes@, given, i + 1, n as int);
                }
                return Err(GraphError::InvalidAction(e));
            },
        };
        put_node(
            &mut nodes,
            nv.id.clone(),
            Node { node_type, label: nv.label.clone(), stage: nv.stage.clone(), action },
        );
        i = i + 1;
    }
    let m: usize = view.edges.len();
    let ghost given_conditions = conditions@;
    let ghost given_guards = guards@;
    let mut left_conditions = conditions;
    let mut left_guards = guards;
    let mut edges: Vec<Edge> = Vec::new();
    let mut k: usize = 0;
    while k < m
        invariant
            m == view.edges@.len(),
            0 <= k <= m,
            given.len() == view.nodes@.len(),
            first_node_problem(view.nodes@, given, view.nodes@.len() as int) is None,
            given_conditions.len() == m,
            given_guards.len() == m,
            left_conditions@ == given_conditions.skip(k as int),
            left_guards@ == given_guards.skip(k as int),
            first_edge_problem(given_conditions, given_guards, k as int) is None,
            edges@.len() == k,
            forall|j: int|
                0 <= j < k ==> edge_made(
                    #[trigger] edges@[j],
                    view.edges@[j],
                    given_conditions[j],
                    given_guards[j],
                ),
        decreases m - k,
    {
        let ev = &view.edges[k];
        let parsed_condition = left_conditions.remove(0);
        let parsed_guard = left_guards.remove(0);
        proof {
            assert(parsed_condition == given_conditions[k as int]);
            assert(parsed_guard == given_guards[k as int]);
            assert(left_conditions@ =~= given_conditions.skip(k + 1));
            assert(left_guards@ =~= given_guards.skip(k + 1));
        }
        let condition = match parsed_condition {
            Parsed::Absent => None,
            Parsed::Value(c) => Some(c),
            Parsed::Invalid(e) => {
                proof {
                    lemma_edge_problem_stays(given_conditions, given_guards, k + 1, m as int);
                }
                return Err(GraphError::InvalidCondition(e));
            },
        };
        let guard = match parsed_guard {
            Parsed::Absent => None,
            Parsed::Value(g) => Some(g),
            Parsed::Invalid(e) => {
                proof {
                    lemma_edge_problem_stays(given_conditions, given_guards, k + 1, m as int);
                }
                return Err(GraphError::InvalidGuard(e));
            },
        };
        edges.push(
            Edge {
                from: ev.from.clone(),
                to: ev.to.clone(),
                condition,
                guard,
                priority: signed_priority(ev.priority),
            },
        );
        k = k + 1;
    }
    Ok(WorkflowGraph { name: view.name.clone(), nodes, edges })
}

// ---------------------------------------------------------------------------
// The task that tracks a run
// ---------------------------------------------------------------------------

/// Whether `cursor` shows a run at its step `i`.
pub open spec fn tracks(cursor: GraphCursor, steps: Seq<WorkflowStep>, i: int, now: Moment) -> bool {
    &&& cursor.current_node@ == steps[i].node_id@
    &&& cursor.counters@.len() == 0
    &&& cursor.history@.len() == i
    &&& forall|j: int|
        0 <= j < i ==> {
            &&& (#[trigger] cursor.history@[j]).from_node@ == steps[i - 1].node_id@
            &&& cursor.history@[j].to_node@ == steps[j + 1].node_id@
            &&& cursor.history@[j].timestamp == now
            &&& cursor.history@[j].trigger@ == "workflow_run"@
        }
}

/// Where a run stands when it is at its step `i`: its history has one move to
/// each step after the first, all from the step before the current one.
pub fn run_cursor(steps: &Vec<WorkflowStep>, i: usize, now: &Moment) -> (r: GraphCursor)
    requires
        i < steps@.len(),
    ensures
        tracks(r, steps@, i as int, *now),
{
    let mut history: Vec<CursorStep> = Vec::new();
    let mut j: usize = 0;
    while j < i
        invariant
            i < steps@.len(),
            0 <= j <= i,
            history@.len() == j,
            forall|k: int|
                0 <= k < j ==> {
                    &&& (#[trigger] history@[k]).from_node@ == steps@[i - 1].node_id@
                    &&& history@[k].to_node@ == steps@[k + 1].node_id@
                    &&& history@[k].timestamp == *now
                    &&& history@[k].trigger@ == "workflow_run"@
                },
        decreases i - j,
    {
        history.push(
            CursorStep {
                from_node: steps[i - 1].node_id.clone(),
                to_node: steps[j + 1].node_id.clone(),
                timestamp: *now,
                trigger: "workflow_run".to_owned(),
            },
        );
        j = j + 1;
    }
    GraphCursor { current_node: steps[i].node_id.clone(), counters: Vec::new(), history }
}

/// Whether `r` is the task of a run.
pub open spec fn is_task_of_run(
    r: Task,
    id: Seq<char>,
    workspace: Seq<char>,
    topic: Seq<char>,
    bee: Option<String>,
    cursor: GraphCursor,
    now: Moment,
) -> bool {
    &&& r.id@ == id
    &&& r.workspace@ == workspace
    &&& r.title@ == topic
    &&& r.stage == TaskStage::InProgress
    &&& opt_text(r.source) == Some("workflow"@)
    &&& r.source_url is None
    &&& r.worker_id == bee
    &&& r.pr_url is None
    &&& r.pr_number is None
    &&& r.repo is None
    &&& r.created_at == now
    &&& r.updated_at == now
    &&& r.resolved_at is None
    &&& r.cursor == Some(cursor)
}

/// The task that tracks a run of a workflow.
pub fn run_task(
    id: &str,
    workspace: &str,
    topic: &str,
    bee: &Option<String>,
    cursor: GraphCursor,
    now: Moment,
) -> (r: Task)
    ensures
        is_task_of_run(r, id@, workspace@, topic@, *bee, cursor, now),
{
    Task {
        id: id.to_owned(),
        workspace: workspace.to_owned(),
        title: topic.to_owned(),
        stage: TaskStage::InProgress,
        source: Some("workflow".to_owned()),
        source_url: None,
        worker_id: bee.clone(),
        pr_url: None,
        pr_number: None,
        repo: None,
        created_at: now,
        updated_at: now,
        resolved_at: None,
        cursor: Some(cursor),
    }
}

/// The name of the file that holds a bee's canvas.
pub fn canvas_file(bee: &Option<String>) -> (r: String)
    ensures
        r@ == match *bee {
            Some(name) => name@ + ".md"@,
            None => "Bee.md"@,
        },
{
    match bee {
        Some(name) => cat2(name.as_str(), ".md"),
        None => "Bee.md".to_owned(),
    }
}

// ---------------------------------------------------------------------------
// Laws of a run
// ---------------------------------------------------------------------------

proof fn lemma_node_at_holds(nodes: Seq<(String, Node)>, id: Seq<char>)
    ensures
        0 <= node_at(nodes, id) <= nodes.len(),
        node_at(nodes, id) < nodes.len() ==> nodes[node_at(nodes, id)].0@ == id,
        forall|m: int| 0 <= m < node_at(nodes, id) ==> (#[trigger] nodes[m]).0@ != id,
    decreases nodes.len(),
{
    if nodes.len() > 0 && nodes[0].0@ != id {
        let t = nodes.drop_first();
        lemma_node_at_holds(t, id);
        assert forall|m: int| 0 <= m < node_at(nodes, id) implies (#[trigger] nodes[m]).0@ != id by {
            if m > 0 {
                assert(t[m - 1] == nodes[m]);
            }
        }
    }
}

proof fn lemma_best_edge(
    graph: WorkflowGraph,
    rule: EdgeRule,
    lane: Option<Lane>,
    from: Seq<char>,
    upto: int,
)
    requires
        0 <= upto <= graph.edges@.len(),
    ensures
        match best_edge(graph, rule, lane, from, upto) {
            Some(i) => {
                &&& 0 <= i < upto
                &&& may_follow(graph, rule, lane, from, graph.edges@[i])
                &&& forall|j: int|
                    0 <= j < upto && may_follow(graph, rule, lane, from, #[trigger] graph.edges@[j])
                        ==> {
                        ||| graph.edges@[i].priority < graph.edges@[j].priority
                        ||| graph.edges@[i].priority == graph.edges@[j].priority && i <= j
                    }
            },
            None => forall|j: int|
                0 <= j < upto ==> !may_follow(graph, rule, lane, from, #[trigger] graph.edges@[j]),
        },
    decreases upto,
{
    if upto > 0 {
        lemma_best_edge(graph, rule, lane, from, upto - 1);
    }
}

/// How far an edge is preferred over others from the same node: first come
/// those whose target is done by the role that the lane names, then those
/// without a condition, then the rest.
pub open spec fn preference(graph: WorkflowGraph, lane: Option<Lane>, edge: Edge) -> int {
    if lane is Some && exists|k: int|
        {
            &&& 0 <= k < graph.nodes@.len()
            &&& (#[trigger] graph.nodes@[k]).0@ == edge.to@
            &&& forall|m: int| 0 <= m < k ==> (#[trigger] graph.nodes@[m]).0@ != edge.to@
            &&& graph.nodes@[k].1.action is Some
            &&& graph.nodes@[k].1.action->0.role is Some
            &&& graph.nodes@[k].1.action->0.role->0@ == lane->0.name@
        } {
        0
    } else if edge.condition is None {
        1
    } else {
        2
    }
}

proof fn lemma_preference(graph: WorkflowGraph, lane: Option<Lane>, from: Seq<char>, edge: Edge)
    requires
        edge.from@ == from,
    ensures
        may_follow(graph, EdgeRule::IntoLane, lane, from, edge) == (preference(graph, lane, edge)
            == 0),
{
    lemma_node_at_holds(graph.nodes@, edge.to@);
    let i = node_at(graph.nodes@, edge.to@);
    if may_follow(graph, EdgeRule::IntoLane, lane, from, edge) {
        assert(graph.nodes@[i].0@ == edge.to@);
    }
    if preference(graph, lane, edge) == 0 {
        let k = choose|k: int|
            {
                &&& 0 <= k < graph.nodes@.len()
                &&& (#[trigger] graph.nodes@[k]).0@ == edge.to@
                &&& forall|m: int| 0 <= m < k ==> (#[trigger] graph.nodes@[m]).0@ != edge.to@
                &&& graph.nodes@[k].1.action is Some
                &&& graph.nodes@[k].1.action->0.role is Some
                &&& graph.nodes@[k].1.action->0.role->0@ == lane->0.name@
            };
        assert(i == k) by {
            if i < k {
                assert(graph.nodes@[i].0@ != edge.to@);
            }
            if k < i {
                assert(graph.nodes@[k].0@ != edge.to@);
            }
        }
    }
}

/// A run gets stuck at a node only where no edge leaves it. The edge that it
/// follows leaves the node, and of all that do it is the most preferred one;
/// among those that are preferred alike it has the lowest priority, and among
/// those of the same priority it is the first.
pub proof fn law_lowest_priority_is_followed(
    graph: WorkflowGraph,
    lane: Option<Lane>,
    from: Seq<char>,
)
    ensures
        match next_edge(graph, lane, from) {
            Some(i) => {
                &&& 0 <= i < graph.edges@.len()
                &&& graph.edges@[i].from@ == from
                &&& forall|j: int|
                    0 <= j < graph.edges@.len() && (#[trigger] graph.edges@[j]).from@ == from ==> {
                        let p = preference(graph, lane, graph.edges@[i]);
                        let q = preference(graph, lane, graph.edges@[j]);
                        ||| p < q
                        ||| p == q && graph.edges@[i].priority < graph.edges@[j].priority
                        ||| p == q && graph.edges@[i].priority == graph.edges@[j].priority && i
                            <= j
                    }
            },
            None => forall|j: int|
                0 <= j < graph.edges@.len() ==> (#[trigger] graph.edges@[j]).from@ != from,
        },
{
    let n = graph.edges@.len() as int;
    lemma_best_edge(graph, EdgeRule::IntoLane, lane, from, n);
    lemma_best_edge(graph, EdgeRule::Unconditional, lane, from, n);
    lemma_best_edge(graph, EdgeRule::Any, lane, from, n);
    assert forall|j: int| 0 <= j < n && (#[trigger] graph.edges@[j]).from@ == from implies
        may_follow(graph, EdgeRule::IntoLane, lane, from, graph.edges@[j]) == (preference(
        graph,
        lane,
        graph.edges@[j],
    ) == 0) && may_follow(graph, EdgeRule::Any, lane, from, graph.edges@[j]) && may_follow(
        graph,
        EdgeRule::Unconditional,
        lane,
        from,
        graph.edges@[j],
    ) == (graph.edges@[j].condition is None) by {
        lemma_preference(graph, lane, from, graph.edges@[j]);
    }
}

/// The steps that the nodes of a route contribute: each node with an action,
/// where no lane is asked for, where its role is the lane or where its label
/// has the lane in it whatever the case.
pub open spec fn told_on(
    graph: WorkflowGraph,
    lower: Seq<LowerNode>,
    lane: Option<Lane>,
    route: Seq<int>,
) -> Seq<Step>
    decreases route.len(),
{
    if route.len() == 0 {
        seq![]
    } else {
        let k = route[0];
        let node = graph.nodes@[k].1;
        let rest = told_on(graph, lower, lane, route.drop_first());
        if node.action is Some && (lane is None || (node.action->0.role is Some
            && node.action->0.role->0@ == lane->0.name@) || contains(
            lower[k].label@,
            lane->0.lower@,
        )) {
            seq![
                Step {
                    node_id: graph.nodes@[k].0@,
                    label: node.label@,
                    prompt: lower[k].kind@,
                },
            ] + rest
        } else {
            rest
        }
    }
}

/// Whether a node of a workflow is among the visited ones.
pub open spec fn met(graph: WorkflowGraph, visited: Seq<Seq<char>>, route: Seq<int>, id: Seq<char>) -> bool {
    visited.contains(id) || exists|k: int|
        0 <= k < route.len() && graph.nodes@[#[trigger] route[k]].0@ == id
}

proof fn lemma_route(
    graph: WorkflowGraph,
    lower: Seq<LowerNode>,
    lane: Option<Lane>,
    current: Seq<char>,
    visited: Seq<Seq<char>>,
) -> (route: Seq<int>)
    ensures
        forall|k: int| 0 <= k < route.len() ==> 0 <= #[trigger] route[k] < graph.nodes@.len(),
        forall|k: int|
            0 <= k < route.len() ==> !visited.contains(graph.nodes@[#[trigger] route[k]].0@),
        forall|a: int, b: int|
            0 <= a < b < route.len() ==> graph.nodes@[#[trigger] route[a]].0@
                != graph.nodes@[#[trigger] route[b]].0@,
        route.len() == 0 <==> visited.contains(current) || (forall|m: int|
            0 <= m < graph.nodes@.len() ==> (#[trigger] graph.nodes@[m]).0@ != current),
        route.len() > 0 ==> graph.nodes@[route[0]].0@ == current,
        forall|k: int|
            #![trigger route[k]]
            0 <= k < route.len() - 1 ==> {
                let here = graph.nodes@[route[k]];
                let e = next_edge(graph, lane, here.0@);
                &&& here.1.node_type != NodeType::Terminal
                &&& e is Some
                &&& graph.edges@[e->0].to@ == graph.nodes@[route[k + 1]].0@
            },
        route.len() > 0 ==> {
            let last = graph.nodes@[route.last()];
            let e = next_edge(graph, lane, last.0@);
            ||| last.1.node_type == NodeType::Terminal
            ||| e is None
            ||| met(graph, visited, route, graph.edges@[e->0].to@)
            ||| forall|m: int|
                0 <= m < graph.nodes@.len() ==> (#[trigger] graph.nodes@[m]).0@
                    != graph.edges@[e->0].to@
        },
        walk(graph, lower, lane, current, visited) == told_on(graph, lower, lane, route),
    decreases unvisited(graph.nodes@, visited),
{
    let i = node_at(graph.nodes@, current);
    let seen = visited.push(current);
    lemma_node_at_holds(graph.nodes@, current);
    lemma_visit(graph.nodes@, visited, current);
    if visited.contains(current) || i >= graph.nodes@.len() {
        if i >= graph.nodes@.len() {
            assert forall|m: int| 0 <= m < graph.nodes@.len() implies (
            #[trigger] graph.nodes@[m]).0@ != current by {}
        }
        seq![]
    } else {
        assert(graph.nodes@[i].0@ == current);
        let node = graph.nodes@[i].1;
        let e = next_edge(graph, lane, current);
        if node.node_type == NodeType::Terminal || e is None {
            let route = seq![i];
            assert(route.drop_first() =~= Seq::<int>::empty());
            assert(told_on(graph, lower, lane, Seq::<int>::empty()) =~= Seq::<Step>::empty());
            assert(told_on(graph, lower, lane, route) =~= step_here(
                current,
                node,
                lower[i],
                lane,
            ));
            route
        } else {
            let to = graph.edges@[e->0].to@;
            let rest = lemma_route(graph, lower, lane, to, seen);
            let route = seq![i] + rest;
            assert(route.drop_first() =~= rest);
            assert(told_on(graph, lower, lane, route) =~= step_here(current, node, lower[i], lane)
                + told_on(graph, lower, lane, rest));
            assert(seen[visited.len() as int] == current);
            assert forall|k: int| 0 <= k < rest.len() implies {
                &&& !visited.contains(graph.nodes@[#[trigger] rest[k]].0@)
                &&& graph.nodes@[rest[k]].0@ != current
            } by {
                let id = graph.nodes@[rest[k]].0@;
                assert(!seen.contains(id));
                if visited.contains(id) {
                    let m = choose|m: int| 0 <= m < visited.len() && visited[m] == id;
                    assert(seen[m] == id);
                }
            }
            assert forall|k: int| 0 <= k < route.len() implies {
                &&& 0 <= #[trigger] route[k] < graph.nodes@.len()
                &&& !visited.contains(graph.nodes@[route[k]].0@)
            } by {
                if k > 0 {
                    assert(route[k] == rest[k - 1]);
                }
            }
            assert forall|a: int, b: int| 0 <= a < b < route.len() implies
                graph.nodes@[#[trigger] route[a]].0@ != graph.nodes@[#[trigger] route[b]].0@ by {
                assert(route[b] == rest[b - 1]);
                if a > 0 {
                    assert(route[a] == rest[a - 1]);
                }
            }
            assert forall|k: int| #![trigger route[k]] 0 <= k < route.len() - 1 implies {
                let here = graph.nodes@[route[k]];
                let e = next_edge(graph, lane, here.0@);
                &&& here.1.node_type != NodeType::Terminal
                &&& e is Some
                &&& graph.edges@[e->0].to@ == graph.nodes@[route[k + 1]].0@
            } by {
                assert(route[k + 1] == rest[k]);
                if k > 0 {
                    assert(route[k] == rest[k - 1]);
                }
            }
            if rest.len() == 0 {
                assert(route.last() == i);
                assert(route[0] == i);
                if seen.contains(to) {
                    let m = choose|m: int| 0 <= m < seen.len() && seen[m] == to;
                    if m < visited.len() {
                        assert(visited[m] == to);
                        assert(visited.contains(to));
                    } else {
                        assert(graph.nodes@[route[0]].0@ == to);
                    }
                    assert(met(graph, visited, route, to));
                }
            } else {
                assert(route.last() == rest.last());
                let last = graph.nodes@[rest.last()];
                let f = next_edge(graph, lane, last.0@);
                if f is Some {
                    let aim = graph.edges@[f->0].to@;
                    if met(graph, seen, rest, aim) {
                        if seen.contains(aim) {
                            let m = choose|m: int| 0 <= m < seen.len() && seen[m] == aim;
                            if m < visited.len() {
                                assert(visited[m] == aim);
                                assert(visited.contains(aim));
                            } else {
                                assert(graph.nodes@[route[0]].0@ == aim);
                            }
                        } else {
                            let k = choose|k: int|
                                0 <= k < rest.len() && graph.nodes@[#[trigger] rest[k]].0@ == aim;
                            assert(route[k + 1] == rest[k]);
                            assert(graph.nodes@[route[k + 1]].0@ == aim);
                        }
                        assert(met(graph, visited, route, aim));
                    }
                }
            }
            route
        }
    }
}

/// A run goes from node to node along the edges that are to be followed, meets
/// none twice, and goes on until a node ends the workflow, has no way out, or
/// leads back or nowhere. Its steps are those that the nodes on the way
/// contribute, in the order in which they are met. The route is what is
/// returned: the positions of its nodes.
pub proof fn law_run_goes_to_the_end(
    graph: WorkflowGraph,
    lower: Seq<LowerNode>,
    lane: Option<Lane>,
    start: Seq<char>,
) -> (route: Seq<int>)
    ensures
        forall|k: int| 0 <= k < route.len() ==> 0 <= #[trigger] route[k] < graph.nodes@.len(),
        forall|a: int, b: int|
            0 <= a < b < route.len() ==> graph.nodes@[#[trigger] route[a]].0@
                != graph.nodes@[#[trigger] route[b]].0@,
        route.len() > 0 <==> exists|m: int|
            0 <= m < graph.nodes@.len() && (#[trigger] graph.nodes@[m]).0@ == start,
        route.len() > 0 ==> graph.nodes@[route[0]].0@ == start,
        forall|k: int|
            #![trigger route[k]]
            0 <= k < route.len() - 1 ==> {
                let here = graph.nodes@[route[k]];
                let e = next_edge(graph, lane, here.0@);
                &&& here.1.node_type != NodeType::Terminal
                &&& e is Some
                &&& graph.edges@[e->0].to@ == graph.nodes@[route[k + 1]].0@
            },
        route.len() > 0 ==> {
            let last = graph.nodes@[route.last()];
            let e = next_edge(graph, lane, last.0@);
            ||| last.1.node_type == NodeType::Terminal
            ||| e is None
            ||| exists|k: int|
                0 <= k < route.len() && graph.nodes@[#[trigger] route[k]].0@
                    == graph.edges@[e->0].to@
            ||| forall|m: int|
                0 <= m < graph.nodes@.len() ==> (#[trigger] graph.nodes@[m]).0@
                    != graph.edges@[e->0].to@
        },
        walk(graph, lower, lane, start, seq![]) == told_on(graph, lower, lane, route),
{
    lemma_route(graph, lower, lane, start, seq![])
}

/// A workflow starts at its first entry node, and there is a start exactly
/// where it has one.
pub proof fn law_starts_at_the_first_entry(nodes: Seq<(String, Node)>)
    ensures
        0 <= entry_at(nodes) <= nodes.len(),
        entry_at(nodes) < nodes.len() ==> nodes[entry_at(nodes)].1.node_type == NodeType::Entry,
        forall|m: int|
            0 <= m < entry_at(nodes) ==> (#[trigger] nodes[m]).1.node_type != NodeType::Entry,
    decreases nodes.len(),
{
    if nodes.len() > 0 && nodes[0].1.node_type != NodeType::Entry {
        let t = nodes.drop_first();
        law_starts_at_the_first_entry(t);
        assert forall|m: int| 0 <= m < entry_at(nodes) implies (
        #[trigger] nodes[m]).1.node_type != NodeType::Entry by {
            if m > 0 {
                assert(t[m - 1] == nodes[m]);
            }
        }
    }
}

/// The message for a step names it, gives its prompt and the topic, and ends
/// with what was found before where anything was.
pub proof fn law_step_is_told_what_was_found(
    label: Seq<char>,
    prompt: Seq<char>,
    topic: Seq<char>,
    found: Seq<char>,
)
    ensures
        starts_with(
            message_for(label, prompt, topic, found),
            "[Step: "@ + label + "]\n"@ + prompt,
        ),
        contains(message_for(label, prompt, topic, found), topic),
        found.len() == 0 ==> ends_with(message_for(label, prompt, topic, found), topic),
        found.len() > 0 ==> ends_with(message_for(label, prompt, topic, found), found),
{
    let m = message_for(label, prompt, topic, found);
    let head = "[Step: "@ + label + "]\n"@ + prompt;
    assert(m.subrange(0, head.len() as int) =~= head);
    if found.len() == 0 {
        let x = "\n\nTopic: "@;
        assert(m =~= head + x + topic + seq![]);
        lemma_holds_part(head + x, topic, seq![]);
        assert(m.subrange(m.len() - topic.len(), m.len() as int) =~= topic);
    } else {
        let x = "\n\nOriginal topic: "@;
        let y = "\n\nFindings so far:\n"@ + found;
        assert(m =~= head + x + topic + y);
        lemma_holds_part(head + x, topic, y);
        assert(m.subrange(m.len() - found.len(), m.len() as int) =~= found);
    }
}

/// The answer to a step joins the findings behind the earlier ones, under the
/// step's label.
pub proof fn law_findings_keep_every_answer(
    found: Seq<char>,
    label: Seq<char>,
    answer: Seq<char>,
)
    ensures
        starts_with(found_after(found, label, answer), found),
        contains(found_after(found, label, answer), "\n## "@ + label + "\n"@ + answer),
        ends_with(found_after(found, label, answer), answer + "\n"@),
{
    let all = found_after(found, label, answer);
    let x = "\n## "@ + label + "\n"@ + answer;
    assert(all =~= found + x + "\n"@);
    lemma_holds_part(found, x, "\n"@);
    assert(all.subrange(0, found.len() as int) =~= found);
    let y = answer + "\n"@;
    assert(all.subrange(all.len() - y.len(), all.len() as int) =~= y);
}

/// The newest part of a canvas stands first, under its date and topic, and what
/// was there before follows whole; the canvas is asked for with all findings.
pub proof fn law_newest_part_of_the_canvas_is_first(
    date: Seq<char>,
    topic: Seq<char>,
    content: Seq<char>,
    existing: Seq<char>,
)
    ensures
        starts_with(
            canvas_with(date, topic, content, existing),
            "## "@ + date + " — "@ + topic,
        ),
        contains(canvas_with(date, topic, content, existing), content),
        ends_with(canvas_with(date, topic, content, existing), existing),
        contains(canvas_request(content), content),
{
    let all = canvas_with(date, topic, content, existing);
    let head = "## "@ + date + " — "@ + topic;
    assert(all.subrange(0, head.len() as int) =~= head);
    assert(all =~= head + "\n\n"@ + content + ("\n\n---\n\n"@ + existing));
    lemma_holds_part(head + "\n\n"@, content, "\n\n---\n\n"@ + existing);
    assert(all.subrange(all.len() - existing.len(), all.len() as int) =~= existing);
    lemma_holds_part(
        "You just completed a workflow. Here are your accumulated findings:\n\n"@,
        content,
        "\n\nWrite a clean, well-organized summary of these findings for your canvas. Put your summary inside [CANVAS] and [/CANVAS] tags. Make it useful — something the user can reference later. Use markdown headers, bullet points, and links. Be concise but thorough."@,
    );
}

/// A node is in the lane where its role is the lane's name or its label holds
/// it, whatever its capitals; without a lane every node is.
pub proof fn law_lane_goes_by_role_or_label(node: Node, lower: LowerNode, lane: Lane)
    ensures
        in_lane(node, lower, None),
        node.action is Some && node.action->0.role is Some && node.action->0.role->0@
            == lane.name@ ==> in_lane(node, lower, Some(lane)),
        contains(lower.label@, lane.lower@) ==> in_lane(node, lower, Some(lane)),
        !contains(lower.label@, lane.lower@) && (node.action is None || node.action->0.role is None
            || node.action->0.role->0@ != lane.name@) ==> !in_lane(node, lower, Some(lane)),
{
}

/// A node that acts in the lane is one step, with its own label; another is
/// none.
pub proof fn law_acting_nodes_are_steps(
    id: Seq<char>,
    node: Node,
    lower: LowerNode,
    lane: Option<Lane>,
)
    ensures
        node.action is Some && in_lane(node, lower, lane) ==> step_here(id, node, lower, lane)
            == seq![Step { node_id: id, label: node.label@, prompt: lower.kind@ }],
        node.action is None || !in_lane(node, lower, lane) ==> step_here(
            id,
            node,
            lower,
            lane,
        ).len() == 0,
{
}

/// What an edge waits for is told by its label: the signal, the agent and each
/// field that must match, or the check and what it must give.
pub proof fn law_condition_is_told(condition: Condition, k: int)
    ensures
        condition is Signal ==> condition_label(condition) == "signal: "@
            + condition->Signal_source@,
        condition is AgentOutput ==> starts_with(
            condition_label(condition),
            "agent: "@ + condition->AgentOutput_source@,
        ),
        condition is AgentOutput && 0 <= k < condition->AgentOutput_match_fields@.len()
            ==> contains(
            condition_label(condition),
            (condition->AgentOutput_match_fields@[k]).0@ + "="@ + (
            condition->AgentOutput_match_fields@[k]).1@,
        ),
        condition is StateCheck ==> condition_label(condition) == "check: "@
            + condition->StateCheck_check@ + "="@ + condition->StateCheck_expect@,
{
    if condition is AgentOutput {
        let all = condition_label(condition);
        let head = "agent: "@ + condition->AgentOutput_source@;
        let fields = condition->AgentOutput_match_fields@;
        assert(all.subrange(0, head.len() as int) =~= head);
        if 0 <= k < fields.len() {
            let list = field_texts(fields);
            let x = fields[k].0@ + "="@ + fields[k].1@;
            assert(list[k] == x);
            lemma_join_holds(list, ", "@, k);
            lemma_inside(head + " ("@, join(list, ", "@), ")"@, x);
            assert(all =~= (head + " ("@) + join(list, ", "@) + ")"@);
        }
    }
}

/// The editor is shown a graph node by node and edge by edge: each node with its
/// own label, kind and stage, each edge between its own nodes, and with a
/// condition exactly where it has one.
pub proof fn law_graph_is_shown_as_it_is(view: GraphView, graph: WorkflowGraph, i: int)
    requires
        shows_graph(view, graph),
    ensures
        view.nodes@.len() == graph.nodes@.len(),
        view.edges@.len() == graph.edges@.len(),
        0 <= i < graph.nodes@.len() ==> {
            let v = view.nodes@[i];
            let n = graph.nodes@[i].1;
            &&& v.id@ == graph.nodes@[i].0@
            &&& v.label@ == n.label@
            &&& opt_text(v.stage) == opt_text(n.stage)
            &&& n.node_type == NodeType::Entry ==> v.node_type@ == "entry"@
            &&& n.node_type == NodeType::Action ==> v.node_type@ == "action"@
            &&& n.node_type == NodeType::Wait ==> v.node_type@ == "wait"@
            &&& n.node_type == NodeType::Terminal ==> v.node_type@ == "terminal"@
            &&& v.action is Some <==> n.action is Some
            &&& n.action is Some ==> v.action->0.tree() == n.action->0.json.tree()
        },
        0 <= i < graph.edges@.len() ==> {
            let v = view.edges@[i];
            let e = graph.edges@[i];
            &&& v.from@ == e.from@ && v.to@ == e.to@
            &&& v.has_condition <==> e.condition is Some
            &&& v.label is Some <==> e.condition is Some
            &&& e.condition is Some ==> v.label->0@ == condition_label(e.condition->0.condition)
            &&& v.guard is Some <==> e.guard is Some
        },
{
    if 0 <= i < graph.nodes@.len() {
        assert(shows_node(view.nodes@[i], graph.nodes@[i].0@, graph.nodes@[i].1));
    }
    if 0 <= i < graph.edges@.len() {
        assert(shows_edge(view.edges@[i], graph.edges@[i]));
    }
}

/// A graph is refused for the first node that is wrong, for its kind before its
/// action, and only then for an edge, for its condition before its guard.
pub proof fn law_problems_of_a_graph(
    view: NodeView,
    action: Parsed<NodeAction>,
    condition: Parsed<EdgeCondition>,
    guard: Parsed<Json>,
)
    ensures
        node_type_of(view.node_type@) is None ==> node_problem(view, action) == Some(
            GraphError::UnknownNodeType(view.node_type),
        ),
        node_type_of(view.node_type@) is Some && action is Invalid ==> node_problem(view, action)
            == Some(GraphError::InvalidAction(action->Invalid_0)),
        node_type_of(view.node_type@) is Some && !(action is Invalid) ==> node_problem(
            view,
            action,
        ) is None,
        condition is Invalid ==> edge_problem(condition, guard) == Some(
            GraphError::InvalidCondition(condition->Invalid_0),
        ),
        !(condition is Invalid) && guard is Invalid ==> edge_problem(condition, guard) == Some(
            GraphError::InvalidGuard(guard->Invalid_0),
        ),
        !(condition is Invalid) && !(guard is Invalid) ==> edge_problem(condition, guard) is None,
{
}

/// The first problem of a list counts: no node before it has one.
pub proof fn law_first_problem_counts(
    views: Seq<NodeView>,
    actions: Seq<Parsed<NodeAction>>,
    upto: int,
    k: int,
)
    requires
        0 <= upto,
    ensures
        (forall|i: int| 0 <= i < upto ==> node_problem(#[trigger] views[i], actions[i]) is None)
            <==> first_node_problem(views, actions, upto) is None,
        0 <= k < upto && node_problem(views[k], actions[k]) is Some && (forall|i: int|
            0 <= i < k ==> node_problem(#[trigger] views[i], actions[i]) is None)
            ==> first_node_problem(views, actions, upto) == node_problem(views[k], actions[k]),
    decreases upto,
{
    if upto > 0 {
        law_first_problem_counts(views, actions, upto - 1, k);
        if k == upto - 1 && (forall|i: int|
            0 <= i < k ==> node_problem(#[trigger] views[i], actions[i]) is None) {
            assert(first_node_problem(views, actions, upto - 1) is None);
        }
        if first_node_problem(views, actions, upto) is None {
            assert forall|i: int| 0 <= i < upto implies node_problem(
                #[trigger] views[i],
                actions[i],
            ) is None by {}
        }
        if forall|i: int|
            0 <= i < upto ==> node_problem(#[trigger] views[i], actions[i]) is None {
            assert(node_problem(views[upto - 1], actions[upto - 1]) is None);
        }
    }
}

/// What went wrong with a run or a graph is told in words of its own.
pub proof fn law_errors_are_told(e: GraphError)
    ensures
        RunError::NoEntry.message() == "no entry node in workflow"@,
        RunError::NoSteps.message() == "no action steps found in workflow lane"@,
        RunError::Unavailable.message() == "coordinator unavailable"@,
        e is UnknownNodeType ==> e.message() == "unknown node type: "@ + e->UnknownNodeType_0@,
        e is InvalidAction ==> e.message() == "invalid action: "@ + e->InvalidAction_0@,
        e is InvalidCondition ==> e.message() == "invalid condition: "@ + e->InvalidCondition_0@,
        e is InvalidGuard ==> e.message() == "invalid guard: "@ + e->InvalidGuard_0@,
{
}

/// A node that is put into a graph replaces the one of its name, or is the last
/// one where there was none; the others stay.
pub proof fn law_node_is_put_once(nodes: Seq<(String, Node)>, id: String, node: Node, k: int)
    ensures
        0 <= k < nodes.len() && nodes[k].0@ == id@ && (forall|j: int|
            0 <= j < k ==> (#[trigger] nodes[j]).0@ != id@) ==> with_node(nodes, id, node)
            == nodes.update(k, (id, node)),
        (forall|j: int| 0 <= j < nodes.len() ==> (#[trigger] nodes[j]).0@ != id@) ==> with_node(
            nodes,
            id,
            node,
        ) == nodes.push((id, node)),
{
    lemma_node_at_holds(nodes, id@);
    let m = node_at(nodes, id@);
    if 0 <= k < nodes.len() && nodes[k].0@ == id@ && (forall|j: int|
        0 <= j < k ==> (#[trigger] nodes[j]).0@ != id@) {
        if m < k {
            assert(nodes[m].0@ == id@);
        } else if m > k {
            assert(nodes[k].0@ != id@);
        }
    }
    if (forall|j: int| 0 <= j < nodes.len() ==> (#[trigger] nodes[j]).0@ != id@) && m
        < nodes.len() {
        assert(nodes[m].0@ == id@);
    }
}

/// Nodes are compared in small letters: each label and each kind of action is
/// lowered, in place.
pub proof fn law_nodes_are_lowered(nodes: Seq<(String, Node)>, lower: Seq<LowerNode>, k: int)
    requires
        lowered_nodes(nodes, lower),
        0 <= k < nodes.len(),
    ensures
        lower.len() == nodes.len(),
        lower[k].label@ == lowercase(nodes[k].1.label@),
        nodes[k].1.action is Some ==> lower[k].kind@ == lowercase(nodes[k].1.action->0.kind@),
        nodes[k].1.action is None ==> lower[k].kind@.len() == 0,
{
    assert(lower[k].label@ == lowercase(nodes[k].1.label@));
}

/// A lane is the one that was asked for, and there is none where none was.
pub proof fn law_asked_lane_is_taken(asked: Option<String>, l: Option<Lane>)
    requires
        lane_of(asked, l),
    ensures
        l is Some <==> asked is Some,
        asked is Some ==> l->0.name@ == asked->0@ && l->0.lower@ == lowercase(asked->0@),
{
}

/// An edge is made as the editor shows it, with its condition and guard where
/// these can be read.
pub proof fn law_edge_is_made_as_shown(
    edge: Edge,
    view: EdgeView,
    condition: Parsed<EdgeCondition>,
    guard: Parsed<Json>,
)
    requires
        edge_made(edge, view, condition, guard),
    ensures
        edge.from == view.from && edge.to == view.to,
        edge.priority == read_priority(view.priority),
        condition is Value ==> edge.condition == Some(condition->Value_0),
        !(condition is Value) ==> edge.condition is None,
        guard is Value ==> edge.guard == Some(guard->Value_0),
        !(guard is Value) ==> edge.guard is None,
{
}

/// The cursor of a run stands on the step that is asked, behind one move for
/// each step that was done, at the time of the run and caused by it.
pub proof fn law_cursor_tracks_the_run(
    cursor: GraphCursor,
    steps: Seq<WorkflowStep>,
    i: int,
    now: Moment,
    j: int,
)
    requires
        tracks(cursor, steps, i, now),
        0 <= i < steps.len(),
    ensures
        cursor.current_node@ == steps[i].node_id@,
        cursor.history@.len() == i,
        cursor.counters@.len() == 0,
        0 <= j < i ==> cursor.history@[j].to_node@ == steps[j + 1].node_id@
            && cursor.history@[j].timestamp == now && cursor.history@[j].trigger@
            == "workflow_run"@,
{
    if 0 <= j < i {
        assert(cursor.history@[j].timestamp == now);
    }
}

/// The first problem of the edges counts: no edge before it has one.
pub proof fn law_first_edge_problem_counts(
    conditions: Seq<Parsed<EdgeCondition>>,
    guards: Seq<Parsed<Json>>,
    upto: int,
    k: int,
)
    requires
        0 <= upto,
    ensures
        (forall|i: int| 0 <= i < upto ==> edge_problem(#[trigger] conditions[i], guards[i]) is None)
            <==> first_edge_problem(conditions, guards, upto) is None,
        0 <= k < upto && edge_problem(conditions[k], guards[k]) is Some && (forall|i: int|
            0 <= i < k ==> edge_problem(#[trigger] conditions[i], guards[i]) is None)
            ==> first_edge_problem(conditions, guards, upto) == edge_problem(
            conditions[k],
            guards[k],
        ),
    decreases upto,
{
    if upto > 0 {
        law_first_edge_problem_counts(conditions, guards, upto - 1, k);
        if first_edge_problem(conditions, guards, upto) is None {
            assert forall|i: int| 0 <= i < upto implies edge_problem(
                #[trigger] conditions[i],
                guards[i],
            ) is None by {}
        }
        if forall|i: int|
            0 <= i < upto ==> edge_problem(#[trigger] conditions[i], guards[i]) is None {
            assert(edge_problem(conditions[upto - 1], guards[upto - 1]) is None);
        }
    }
}

/// The task of a run is in progress under its topic, with the bee that runs it,
/// and has no pull request.
pub proof fn law_run_has_a_task(
    r: Task,
    id: Seq<char>,
    workspace: Seq<char>,
    topic: Seq<char>,
    bee: Option<String>,
    cursor: GraphCursor,
    now: Moment,
)
    requires
        is_task_of_run(r, id, workspace, topic, bee, cursor, now),
    ensures
        r.stage == TaskStage::InProgress,
        r.id@ == id && r.workspace@ == workspace && r.title@ == topic,
        r.source is Some && r.source->0@ == "workflow"@,
        r.worker_id == bee && r.cursor == Some(cursor),
        r.pr_url is None && r.pr_number is None && r.repo is None && r.source_url is None,
        r.created_at == now && r.updated_at == now && r.resolved_at is None,
{
}

} // verus!
