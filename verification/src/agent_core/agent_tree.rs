//! Agent tree: hierarchical agent recursion with depth and cost guards.
use vstd::prelude::*;

use crate::agent_core::traits::fractal::FractalSplitView;
use crate::agent_core::traits::{CostPredictor, FractalAgent};
use crate::traits::{task_views, AgentState, Task, TaskView};

verus! {

// ============================================================================
// NODES AND TREES
// ============================================================================

/// A node of an agent tree.
#[derive(Debug)]
pub struct AgentNode {
    pub id: String,
    pub depth: usize,
    pub children: Vec<AgentNode>,
}

/// `node` has the given id and depth and no children.
pub open spec fn is_fresh_node(node: AgentNode, id: Seq<char>, depth: usize) -> bool {
    &&& node.id@ == id
    &&& node.depth == depth
    &&& node.children.len() == 0
}

impl AgentNode {
    /// A node with no children.
    pub fn new(id: &str, depth: usize) -> (node: AgentNode)
        ensures
            is_fresh_node(node, id@, depth),
    {
        AgentNode { id: String::from_str(id), depth, children: Vec::new() }
    }

    /// Appends `child` to the children of this node.
    pub fn add_child(&mut self, child: AgentNode)
        ensures
            final(self).id == old(self).id,
            final(self).depth == old(self).depth,
            final(self).children@ == old(self).children@.push(child),
    {
        self.children.push(child);
    }
}

/// A tree of agent nodes with its limits.
#[derive(Debug)]
pub struct AgentTree {
    pub root: AgentNode,
    pub max_depth: usize,
    pub max_cost: usize,
}

impl AgentTree {
    /// A tree of one root node, with depth limit 8 and cost limit 10 000.
    pub fn new(root_id: &str) -> (tree: AgentTree)
        ensures
            is_fresh_node(tree.root, root_id@, 0),
            tree.max_depth == 8,
            tree.max_cost == 10_000,
    {
        AgentTree { root: AgentNode::new(root_id, 0), max_depth: 8, max_cost: 10_000 }
    }
}

/// A node of a tree run, with its state.
#[derive(Debug)]
pub struct AgentTreeNodeState<S: AgentState> {
    pub node: AgentNode,
    pub state: S,
}

impl<S: AgentState> AgentTreeNodeState<S> {
    pub fn new(id: &str, depth: usize, state: S) -> (node_state: AgentTreeNodeState<S>)
        ensures
            is_fresh_node(node_state.node, id@, depth),
            node_state.state == state,
    {
        AgentTreeNodeState { node: AgentNode::new(id, depth), state }
    }
}

// ============================================================================
// EXECUTION CONTEXT
// ============================================================================

/// The context of a recursive tree run: the tree, and every node with its
/// state in the order the nodes were made (the root first).
#[derive(Debug)]
pub struct AgentTreeContext<S: AgentState> {
    pub tree: AgentTree,
    pub nodes: Vec<AgentTreeNodeState<S>>,
}

/// The shape that every context keeps: there is a root entry; no entry has
/// children of its own; and the tree's root lists, in order, a copy of every
/// entry after the first (same id, same depth, no children).
pub open spec fn context_wf<S: AgentState>(ctx: AgentTreeContext<S>) -> bool {
    &&& ctx.nodes.len() >= 1
    &&& ctx.tree.root.children.len() + 1 == ctx.nodes.len()
    &&& forall|i: int| 0 <= i < ctx.nodes.len() ==> (#[trigger] ctx.nodes@[i]).node.children.len() == 0
    &&& forall|i: int|
        1 <= i < ctx.nodes.len() ==> is_fresh_node(
            ctx.tree.root.children@[i - 1],
            (#[trigger] ctx.nodes@[i]).node.id@,
            ctx.nodes@[i].node.depth,
        )
}

impl<S: AgentState> AgentTreeContext<S> {
    /// The context of a run that has only its root, holding `root_state`.
    pub fn new(root_id: String, root_state: S) -> (ctx: AgentTreeContext<S>)
        ensures
            context_wf(ctx),
            ctx.nodes.len() == 1,
            is_fresh_node(ctx.nodes@[0].node, root_id@, 0),
            ctx.nodes@[0].state == root_state,
            is_fresh_node(ctx.tree.root, root_id@, 0),
            ctx.tree.max_depth == 8,
            ctx.tree.max_cost == 10_000,
    {
        let mut tree = AgentTree::new(root_id.as_str());
        let root_node = AgentNode::new(root_id.as_str(), 0);
        tree.root = root_node;
        let root = AgentTreeNodeState::new(root_id.as_str(), 0, root_state);
        let mut nodes: Vec<AgentTreeNodeState<S>> = Vec::new();
        nodes.push(root);
        AgentTreeContext { tree, nodes }
    }

    /// The tree's depth limit.
    pub fn max_depth(&self) -> (limit: usize)
        ensures
            limit == self.tree.max_depth,
    {
        self.tree.max_depth
    }

    /// The tree's cost limit.
    pub fn max_cost(&self) -> (limit: usize)
        ensures
            limit == self.tree.max_cost,
    {
        self.tree.max_cost
    }

    /// Adds a child of the entry `parent_idx`, one level deeper, holding
    /// `child_state`; the tree's root lists a copy of it. Returns the index
    /// of the new entry.
    pub fn add_child(&mut self, parent_idx: usize, child_id: &str, child_state: S) -> (child_idx: usize)
        requires
            parent_idx < old(self).nodes.len(),
            old(self).nodes@[parent_idx as int].node.depth < usize::MAX,
        ensures
            context_wf(*old(self)) ==> context_wf(*final(self)),
            child_idx == old(self).nodes.len(),
            final(self).nodes.len() == old(self).nodes.len() + 1,
            forall|j: int| 0 <= j < old(self).nodes.len() ==> #[trigger] final(self).nodes@[j] == old(self).nodes@[j],
            is_fresh_node(
                final(self).nodes@[child_idx as int].node,
                child_id@,
                (old(self).nodes@[parent_idx as int].node.depth + 1) as usize,
            ),
            final(self).nodes@[child_idx as int].state == child_state,
            final(self).tree.root.id == old(self).tree.root.id,
            final(self).tree.root.depth == old(self).tree.root.depth,
            final(self).tree.root.children.len() == old(self).tree.root.children.len() + 1,
            final(self).tree.root.children@.take(old(self).tree.root.children.len() as int)
                == old(self).tree.root.children@,
            is_fresh_node(
                final(self).tree.root.children@.last(),
                child_id@,
                (old(self).nodes@[parent_idx as int].node.depth + 1) as usize,
            ),
            final(self).tree.max_depth == old(self).tree.max_depth,
            final(self).tree.max_cost == old(self).tree.max_cost,
    {
        let parent_depth: usize = self.nodes[parent_idx].node.depth;
        let child_depth: usize = parent_depth + 1;
        let child_node = AgentNode::new(child_id, child_depth);
        self.tree.root.add_child(AgentNode::new(child_id, child_depth));
        let child = AgentTreeNodeState { node: child_node, state: child_state };
        self.nodes.push(child);
        proof {
            let ctx = *self;
            assert(ctx.tree.root.children@.take(old(self).tree.root.children.len() as int)
                =~= old(self).tree.root.children@);
            if context_wf(*old(self)) {
                assert forall|i: int| 1 <= i < ctx.nodes.len() implies is_fresh_node(
                    ctx.tree.root.children@[i - 1],
                    (#[trigger] ctx.nodes@[i]).node.id@,
                    ctx.nodes@[i].node.depth,
                ) by {
                    if i < ctx.nodes.len() - 1 {
                        assert(ctx.nodes@[i] == old(self).nodes@[i]);
                        assert(ctx.tree.root.children@[i - 1] == old(self).tree.root.children@[i - 1]);
                    }
                }
            }
        }
        self.nodes.len() - 1
    }
}

// ============================================================================
// RECURSIVE EXECUTOR
// ============================================================================

/// Runs a fractal agent as a tree: each task is split into sub-tasks, each
/// sub-task becomes a child node holding a copy of its parent's state.
pub struct AgentTreeExecutor<S: AgentState, A: FractalAgent<S> + CostPredictor<S>> {
    pub agent: A,
    pub _state_marker: std::marker::PhantomData<S>,
}

/// What a run of the executor keeps: entries made before stay as they were; every new entry holds `state`, lies deeper
/// than `depth` and no deeper than `limit`; the tree's root and limits stay.
pub open spec fn grown_from<S: AgentState>(
    before: AgentTreeContext<S>,
    after: AgentTreeContext<S>,
    state: S,
    depth: usize,
    limit: usize,
) -> bool {
    &&& after.nodes.len() >= before.nodes.len()
    &&& forall|j: int| 0 <= j < before.nodes.len() ==> #[trigger] after.nodes@[j] == before.nodes@[j]
    &&& forall|j: int|
        before.nodes.len() <= j < after.nodes.len() ==> {
            &&& (#[trigger] after.nodes@[j]).state == state
            &&& depth < after.nodes@[j].node.depth <= limit
        }
    &&& after.tree.root.id == before.tree.root.id
    &&& after.tree.root.depth == before.tree.root.depth
    &&& after.tree.max_depth == before.tree.max_depth
    &&& after.tree.max_cost == before.tree.max_cost
}

/// The id and depth of each entry.
pub open spec fn node_keys<S: AgentState>(nodes: Seq<AgentTreeNodeState<S>>) -> Seq<(Seq<char>, usize)> {
    nodes.map_values(|n: AgentTreeNodeState<S>| (n.node.id@, n.node.depth))
}

/// The nodes (id and depth, in the order they are made) that the executor
/// adds below a node at `depth` that holds `state` and runs `task`: none at
/// or past the agent's depth limit, when the agent does not split the task,
/// or when the split's predicted cost is over the agent's cost limit; else,
/// for each sub-task in order, a node named after it one level deeper,
/// followed by the nodes added below that node.
pub open spec fn tree_below<S: AgentState, A: FractalAgent<S> + CostPredictor<S>>(
    agent: A,
    state: S,
    task: TaskView,
    depth: usize,
) -> Seq<(Seq<char>, usize)>
    decreases agent.spec_max_fractal_depth() - depth, 1nat, 0nat,
{
    if depth >= agent.spec_max_fractal_depth() {
        seq![]
    } else {
        match agent.spec_split_task(state, task, depth) {
            None => seq![],
            Some(split) => if agent.spec_predict_many(state, split.sub_tasks) > agent.spec_max_fractal_cost() {
                seq![]
            } else {
                tree_below_children(agent, state, split.sub_tasks, depth)
            },
        }
    }
}

/// The nodes that the executor adds for the sub-tasks `subs` of a node at
/// `depth`.
pub open spec fn tree_below_children<S: AgentState, A: FractalAgent<S> + CostPredictor<S>>(
    agent: A,
    state: S,
    subs: Seq<TaskView>,
    depth: usize,
) -> Seq<(Seq<char>, usize)>
    decreases agent.spec_max_fractal_depth() - depth, 0nat, subs.len(),
{
    if subs.len() == 0 || depth >= agent.spec_max_fractal_depth() {
        seq![]
    } else {
        let next = (depth + 1) as usize;
        tree_below_children(agent, state, subs.drop_last(), depth) + seq![(subs.last().name, next)]
            + tree_below(agent, state, subs.last(), next)
    }
}

/// Below a node that is within the depth limit and whose task the agent
/// splits within its cost limit, the tree is built in pre-order: for each
/// sub-task in order, one node named after it one level deeper, then every
/// node built below that one.
pub proof fn lemma_tree_below_pre_order<S: AgentState, A: FractalAgent<S> + CostPredictor<S>>(
    agent: A,
    state: S,
    task: TaskView,
    depth: usize,
    earlier: Seq<TaskView>,
    sub: TaskView,
)
    requires
        depth < agent.spec_max_fractal_depth(),
        agent.spec_split_task(state, task, depth) matches Some(split) && split.sub_tasks == earlier.push(sub)
            && agent.spec_predict_many(state, split.sub_tasks) <= agent.spec_max_fractal_cost(),
    ensures
        tree_below(agent, state, task, depth) == tree_below_children(agent, state, earlier, depth) + seq![
            (sub.name, (depth + 1) as usize),
        ] + tree_below(agent, state, sub, (depth + 1) as usize),
{
    let subs = earlier.push(sub);
    assert(subs.drop_last() =~= earlier);
}

/// A node gets no children when it lies at or past the agent's depth limit,
/// when the agent does not split its task, or when the split's predicted
/// cost is over the agent's cost limit.
pub proof fn lemma_tree_below_empty_unless_split<S: AgentState, A: FractalAgent<S> + CostPredictor<S>>(
    agent: A,
    state: S,
    task: TaskView,
    depth: usize,
)
    requires
        depth >= agent.spec_max_fractal_depth() || agent.spec_split_task(state, task, depth) is None || (
        agent.spec_split_task(state, task, depth) matches Some(split) && agent.spec_predict_many(
            state,
            split.sub_tasks,
        ) > agent.spec_max_fractal_cost()),
    ensures
        tree_below(agent, state, task, depth) == Seq::<(Seq<char>, usize)>::empty(),
{
}

/// Every node built below a node at `depth` lies deeper than it and no
/// deeper than the agent's depth limit.
pub proof fn lemma_tree_below_depths<S: AgentState, A: FractalAgent<S> + CostPredictor<S>>(
    agent: A,
    state: S,
    task: TaskView,
    depth: usize,
)
    ensures
        forall|k: int|
            0 <= k < tree_below(agent, state, task, depth).len() ==> depth < (#[trigger] tree_below(
                agent,
                state,
                task,
                depth,
            )[k]).1 <= agent.spec_max_fractal_depth(),
    decreases agent.spec_max_fractal_depth() - depth, 1nat, 0nat,
{
    if depth < agent.spec_max_fractal_depth() {
        if let Some(split) = agent.spec_split_task(state, task, depth) {
            if agent.spec_predict_many(state, split.sub_tasks) <= agent.spec_max_fractal_cost() {
                lemma_tree_below_children_depths(agent, state, split.sub_tasks, depth);
                assert(tree_below(agent, state, task, depth) == tree_below_children(
                    agent,
                    state,
                    split.sub_tasks,
                    depth,
                ));
            }
        }
    }
}

proof fn lemma_tree_below_children_depths<S: AgentState, A: FractalAgent<S> + CostPredictor<S>>(
    agent: A,
    state: S,
    subs: Seq<TaskView>,
    depth: usize,
)
    ensures
        forall|k: int|
            0 <= k < tree_below_children(agent, state, subs, depth).len() ==> depth < (
            #[trigger] tree_below_children(agent, state, subs, depth)[k]).1 <= agent.spec_max_fractal_depth(),
    decreases agent.spec_max_fractal_depth() - depth, 0nat, subs.len(),
{
    if subs.len() > 0 && depth < agent.spec_max_fractal_depth() {
        let next = (depth + 1) as usize;
        lemma_tree_below_children_depths(agent, state, subs.drop_last(), depth);
        lemma_tree_below_depths(agent, state, subs.last(), next);
        let front = tree_below_children(agent, state, subs.drop_last(), depth);
        let deeper = tree_below(agent, state, subs.last(), next);
        let all = tree_below_children(agent, state, subs, depth);
        assert(all == front + seq![(subs.last().name, next)] + deeper);
        assert forall|k: int| 0 <= k < all.len() implies depth < (#[trigger] all[k]).1
            <= agent.spec_max_fractal_depth() by {
            if k < front.len() {
                assert(all[k] == front[k]);
            } else if k > front.len() {
                assert(all[k] == deeper[k - front.len() - 1]);
            }
        }
    }
}

proof fn lemma_filter_misses_all<T>(items: Seq<T>, keep: spec_fn(T) -> bool)
    requires
        forall|k: int| 0 <= k < items.len() ==> !keep(#[trigger] items[k]),
    ensures
        items.filter(keep) == Seq::<T>::empty(),
    decreases items.len(),
{
    reveal(Seq::filter);
    if items.len() > 0 {
        lemma_filter_misses_all(items.drop_last(), keep);
    }
}

proof fn lemma_one_child_level(
    front: Seq<(Seq<char>, usize)>,
    name: Seq<char>,
    deeper: Seq<(Seq<char>, usize)>,
    depth: usize,
)
    requires
        depth < usize::MAX,
        forall|k: int| 0 <= k < deeper.len() ==> (#[trigger] deeper[k]).1 > depth + 1,
    ensures
        (front + seq![(name, (depth + 1) as usize)] + deeper).filter(|e: (Seq<char>, usize)| e.1 == depth + 1)
            == front.filter(|e: (Seq<char>, usize)| e.1 == depth + 1) + seq![(name, (depth + 1) as usize)],
{
    let level = |e: (Seq<char>, usize)| e.1 == depth + 1;
    let here = seq![(name, (depth + 1) as usize)];
    assert forall|k: int| 0 <= k < deeper.len() implies !level(#[trigger] deeper[k]) by {}
    lemma_filter_misses_all(deeper, level);
    assert(here.filter(level) =~= here) by {
        reveal(Seq::filter);
        assert(here.drop_last() =~= Seq::<(Seq<char>, usize)>::empty());
    }
    Seq::filter_distributes_over_add(front + here, deeper, level);
    Seq::filter_distributes_over_add(front, here, level);
    assert((front + here + deeper).filter(level) =~= front.filter(level) + here);
}

/// The children of a node that the agent splits within its limits are
/// exactly the split's sub-tasks, in order: the nodes built one level below
/// it are named after the sub-tasks, one each, and no other node sits at
/// that level.
pub proof fn lemma_tree_below_children_are_the_split<S: AgentState, A: FractalAgent<S> + CostPredictor<S>>(
    agent: A,
    state: S,
    task: TaskView,
    depth: usize,
    split: FractalSplitView,
)
    requires
        depth < agent.spec_max_fractal_depth(),
        agent.spec_split_task(state, task, depth) == Some(split),
        agent.spec_predict_many(state, split.sub_tasks) <= agent.spec_max_fractal_cost(),
    ensures
        tree_below(agent, state, task, depth).filter(|e: (Seq<char>, usize)| e.1 == depth + 1)
            == split.sub_tasks.map_values(|t: TaskView| (t.name, (depth + 1) as usize)),
{
    lemma_children_level(agent, state, split.sub_tasks, depth);
}

proof fn lemma_children_level<S: AgentState, A: FractalAgent<S> + CostPredictor<S>>(
    agent: A,
    state: S,
    subs: Seq<TaskView>,
    depth: usize,
)
    requires
        depth < agent.spec_max_fractal_depth(),
    ensures
        tree_below_children(agent, state, subs, depth).filter(|e: (Seq<char>, usize)| e.1 == depth + 1)
            == subs.map_values(|t: TaskView| (t.name, (depth + 1) as usize)),
    decreases subs.len(),
{
    let level = |e: (Seq<char>, usize)| e.1 == depth + 1;
    let key = |t: TaskView| (t.name, (depth + 1) as usize);
    if subs.len() == 0 {
        assert(subs.map_values(key) =~= Seq::<(Seq<char>, usize)>::empty());
        assert(tree_below_children(agent, state, subs, depth).filter(level) =~= Seq::<(Seq<char>, usize)>::empty()) by {
            reveal(Seq::filter);
        }
    } else {
        let next = (depth + 1) as usize;
        let init = subs.drop_last();
        lemma_children_level(agent, state, init, depth);
        let front = tree_below_children(agent, state, init, depth);
        let deeper = tree_below(agent, state, subs.last(), next);
        let all = tree_below_children(agent, state, subs, depth);
        lemma_tree_below_depths(agent, state, subs.last(), next);
        lemma_one_child_level(front, subs.last().name, deeper, depth);
        assert(all == front + seq![(subs.last().name, next)] + deeper);
        assert(subs.map_values(key) =~= init.map_values(key).push(key(subs.last())));
        assert(all.filter(level) =~= subs.map_values(key));
    }
}

impl<S: AgentState, A: FractalAgent<S> + CostPredictor<S>> AgentTreeExecutor<S, A> {
    pub fn new(agent: A) -> (executor: AgentTreeExecutor<S, A>)
        ensures
            executor.agent == agent,
    {
        AgentTreeExecutor { agent, _state_marker: std::marker::PhantomData }
    }

    /// Runs the agent from a root node `root` holding `root_state`. Every
    /// node of the result holds `root_state`; the root has depth 0 and every
    /// other node lies no deeper than the agent's depth limit.
    pub fn run(&self, root_state: S, root_task: Task) -> (ctx: AgentTreeContext<S>)
        ensures
            context_wf(ctx),
            is_fresh_node(ctx.nodes@[0].node, "root"@, 0),
            ctx.tree.root.id@ == "root"@,
            ctx.tree.root.depth == 0,
            ctx.tree.max_depth == 8,
            ctx.tree.max_cost == 10_000,
            forall|j: int| 0 <= j < ctx.nodes.len() ==> (#[trigger] ctx.nodes@[j]).state == root_state,
            forall|j: int|
                1 <= j < ctx.nodes.len() ==> 0 < (#[trigger] ctx.nodes@[j]).node.depth
                    <= self.agent.spec_max_fractal_depth(),
            node_keys(ctx.nodes@).drop_first() == tree_below(self.agent, root_state, root_task@, 0),
    {
        let mut ctx = AgentTreeContext::new(self.agent_root_id(), root_state);
        let ghost start = ctx;
        self.recurse(&mut ctx, 0, root_task);
        assert(ctx.nodes@[0] == start.nodes@[0]);
        assert(node_keys(ctx.nodes@).drop_first() =~= node_keys(ctx.nodes@).skip(1));
        ctx
    }

    fn agent_root_id(&self) -> (id: String)
        ensures
            id@ == "root"@,
    {
        proof { reveal_strlit("root"); }
        String::from_str("root")
    }

    /// Grows the tree below the entry `node_idx`, which runs `task`: the
    /// entries already there stay as they were, and the new ones, appended in
    /// pre-order, are exactly `tree_below` of that entry's state, task and
    /// depth; each holds the entry's state and lies deeper than it, within the
    /// agent's depth limit. A well-formed context stays well-formed.
    pub fn recurse(&self, ctx: &mut AgentTreeContext<S>, node_idx: usize, task: Task)
        requires
            node_idx < old(ctx).nodes.len(),
        ensures
            context_wf(*old(ctx)) ==> context_wf(*final(ctx)),
            grown_from(
                *old(ctx),
                *final(ctx),
                old(ctx).nodes@[node_idx as int].state,
                old(ctx).nodes@[node_idx as int].node.depth,
                self.agent.spec_max_fractal_depth(),
            ),
            node_keys(final(ctx).nodes@).skip(old(ctx).nodes.len() as int) == tree_below(
                self.agent,
                old(ctx).nodes@[node_idx as int].state,
                task@,
                old(ctx).nodes@[node_idx as int].node.depth,
            ),
        decreases self.agent.spec_max_fractal_depth() - old(ctx).nodes@[node_idx as int].node.depth,
    {
        let ghost start = *ctx;
        let ghost start_len: int = start.nodes.len() as int;
        assert(node_keys(ctx.nodes@).skip(start_len) =~= Seq::<(Seq<char>, usize)>::empty());
        let depth: usize = ctx.nodes[node_idx].node.depth;
        let limit: usize = self.agent.max_fractal_depth();
        if depth >= limit {
            return;
        }
        let state = ctx.nodes[node_idx].state.clone_state();
        let split = self.agent.split_task(&state, &task, depth);
        let split = match split {
            Some(s) => s,
            None => {
                return;
            },
        };
        let cost: usize = self.agent.predict_many(&state, split.sub_tasks.as_slice());
        if cost > self.agent.max_fractal_cost() {
            return;
        }
        let ghost input = split.sub_tasks@;
        let ghost subs = task_views(input);
        assert(tree_below(self.agent, state, task@, depth) == tree_below_children(self.agent, state, subs, depth));
        for sub in it: split.sub_tasks.into_iter()
            invariant
                start == *old(ctx),
                start_len == start.nodes.len(),
                it.seq() == input,
                subs == task_views(input),
                node_idx < start.nodes.len(),
                node_idx < ctx.nodes.len(),
                ctx.nodes@[node_idx as int] == start.nodes@[node_idx as int],
                depth < limit,
                limit == self.agent.spec_max_fractal_depth(),
                depth == start.nodes@[node_idx as int].node.depth,
                state == start.nodes@[node_idx as int].state,
                context_wf(start) ==> context_wf(*ctx),
                grown_from(start, *ctx, state, depth, limit),
                node_keys(ctx.nodes@).skip(start_len) == tree_below_children(
                    self.agent,
                    state,
                    subs.take(it.index() as int),
                    depth,
                ),
        {
            let ghost before = *ctx;
            let ghost i: int = it.index() as int;
            let ghost sub_view = sub@;
            assert(sub_view == subs[i]);
            let child_idx: usize = ctx.add_child(node_idx, sub.name.as_str(), state.clone_state());
            let ghost middle = *ctx;
            assert(middle.nodes@[node_idx as int] == before.nodes@[node_idx as int]);
            assert(middle.nodes@[child_idx as int].node.depth == depth + 1);
            self.recurse(ctx, child_idx, sub);
            proof {
                assert forall|j: int| 0 <= j < start.nodes.len() implies #[trigger] ctx.nodes@[j] == start.nodes@[j] by {
                    assert(middle.nodes@[j] == before.nodes@[j]);
                    assert(ctx.nodes@[j] == middle.nodes@[j]);
                }
                assert forall|j: int| start.nodes.len() <= j < ctx.nodes.len() implies {
                    &&& (#[trigger] ctx.nodes@[j]).state == state
                    &&& depth < ctx.nodes@[j].node.depth <= limit
                } by {
                    if j < before.nodes.len() {
                        assert(middle.nodes@[j] == before.nodes@[j]);
                        assert(ctx.nodes@[j] == middle.nodes@[j]);
                    } else if j == child_idx {
                        assert(ctx.nodes@[j] == middle.nodes@[j]);
                    }
                }
                assert(ctx.nodes@[node_idx as int] == middle.nodes@[node_idx as int]);
                let taken = subs.take(i + 1);
                assert(taken.drop_last() =~= subs.take(i));
                assert(taken.last() == sub_view);
                let next = (depth + 1) as usize;
                let deeper = tree_below(self.agent, state, sub_view, next);
                let earlier = node_keys(before.nodes@).skip(start_len);
                assert(node_keys(ctx.nodes@).skip(middle.nodes.len() as int) == deeper);
                assert forall|j: int| 0 <= j < before.nodes.len() implies #[trigger] ctx.nodes@[j] == before.nodes@[j] by {
                    assert(middle.nodes@[j] == before.nodes@[j]);
                    assert(ctx.nodes@[j] == middle.nodes@[j]);
                }
                assert(ctx.nodes@[child_idx as int] == middle.nodes@[child_idx as int]);
                let all = node_keys(ctx.nodes@).skip(start_len);
                let expected = earlier + seq![(sub_view.name, next)] + deeper;
                assert(all.len() == expected.len());
                assert forall|k: int| 0 <= k < all.len() implies all[k] == expected[k] by {
                    if k < earlier.len() {
                        assert(ctx.nodes@[start_len + k] == before.nodes@[start_len + k]);
                    } else if k == earlier.len() {
                        assert(start_len + k == child_idx);
                    } else {
                        assert(node_keys(ctx.nodes@).skip(middle.nodes.len() as int)[k - earlier.len() - 1] == deeper[k - earlier.len() - 1]);
                    }
                }
                assert(all =~= expected);
            }
        }
        assert(subs.take(subs.len() as int) =~= subs);
    }
}

} // verus!
