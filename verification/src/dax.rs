//! The split / execute / collapse pipeline.
//!
//! - Classic split and collapse
//! - Fractal recursive splitting with depth and cost guards
//! - Deterministic, order-preserving collapse
use vstd::prelude::*;

use crate::subagent::{is_local_result, run_subagents_local, SubAgentResult};
use crate::traits::{
    spec_views, task_views, Agent, AgentExecutor, AgentState, FractalAgent, SubAgentSpec, SubAgentSpecView,
    Task, TaskView,
};

verus! {

// ============================================================================
// STRATEGIES
// ============================================================================

/// How tasks are distributed over subagents.
#[non_exhaustive]
#[derive(Clone, Debug)]
pub enum SplitStrategy {
    RoundRobin(usize),
    SemanticRouting,
}

/// How deltas are merged back into the master state.
#[non_exhaustive]
#[derive(Clone, Debug)]
pub enum CollapseStrategy {
    Sequential,
    Weighted,
}

// ============================================================================
// SUBAGENT IDS
// ============================================================================

/// The character of a decimal digit.
pub open spec fn digit_char(d: nat) -> char {
    if d == 0 {
        '0'
    } else if d == 1 {
        '1'
    } else if d == 2 {
        '2'
    } else if d == 3 {
        '3'
    } else if d == 4 {
        '4'
    } else if d == 5 {
        '5'
    } else if d == 6 {
        '6'
    } else if d == 7 {
        '7'
    } else if d == 8 {
        '8'
    } else {
        '9'
    }
}

/// The decimal notation of `n`, without leading zeros.
pub open spec fn decimal(n: nat) -> Seq<char>
    decreases n,
{
    if n < 10 {
        seq![digit_char(n)]
    } else {
        decimal(n / 10).push(digit_char(n % 10))
    }
}

/// The id of the `i`-th subagent of a split: `sub-` and `i` in decimal.
pub open spec fn sub_id(i: nat) -> Seq<char> {
    seq!['s', 'u', 'b', '-'] + decimal(i)
}

proof fn lemma_digit_char_injective(a: nat, b: nat)
    requires
        a < 10,
        b < 10,
        digit_char(a) == digit_char(b),
    ensures
        a == b,
{
}

/// Distinct numbers have distinct decimal notations.
pub proof fn lemma_decimal_injective(a: nat, b: nat)
    requires
        decimal(a) == decimal(b),
    ensures
        a == b,
    decreases a,
{
    if a < 10 && b < 10 {
        assert(decimal(a) == seq![digit_char(a)]);
        assert(decimal(b) == seq![digit_char(b)]);
        assert(seq![digit_char(a)][0] == digit_char(a));
        assert(seq![digit_char(b)][0] == digit_char(b));
        lemma_digit_char_injective(a, b);
    } else if a < 10 {
        assert(decimal(b).len() == decimal(b / 10).len() + 1);
        assert(decimal(b / 10).len() >= 1) by {
            lemma_decimal_nonempty((b / 10) as nat);
        }
    } else if b < 10 {
        assert(decimal(a).len() == decimal(a / 10).len() + 1);
        assert(decimal(a / 10).len() >= 1) by {
            lemma_decimal_nonempty((a / 10) as nat);
        }
    } else {
        let da = decimal(a);
        let db = decimal(b);
        assert(da.last() == db.last());
        lemma_digit_char_injective(a % 10, b % 10);
        assert(da.drop_last() =~= decimal(a / 10));
        assert(db.drop_last() =~= decimal(b / 10));
        lemma_decimal_injective((a / 10) as nat, (b / 10) as nat);
    }
}

proof fn lemma_decimal_nonempty(n: nat)
    ensures
        decimal(n).len() >= 1,
    decreases n,
{
    if n >= 10 {
        lemma_decimal_nonempty((n / 10) as nat);
    }
}

/// Every subagent of a split gets its own id.
pub proof fn lemma_sub_ids_distinct(i: nat, j: nat)
    requires
        i != j,
    ensures
        sub_id(i) != sub_id(j),
{
    if sub_id(i) == sub_id(j) {
        let prefix = seq!['s', 'u', 'b', '-'];
        assert((prefix + decimal(i)).skip(4) =~= decimal(i));
        assert((prefix + decimal(j)).skip(4) =~= decimal(j));
        lemma_decimal_injective(i, j);
    }
}

fn digit_str(d: usize) -> (s: &'static str)
    requires
        d < 10,
    ensures
        s@ == seq![digit_char(d as nat)],
{
    if d == 0 {
        proof { reveal_strlit("0"); }
        "0"
    } else if d == 1 {
        proof { reveal_strlit("1"); }
        "1"
    } else if d == 2 {
        proof { reveal_strlit("2"); }
        "2"
    } else if d == 3 {
        proof { reveal_strlit("3"); }
        "3"
    } else if d == 4 {
        proof { reveal_strlit("4"); }
        "4"
    } else if d == 5 {
        proof { reveal_strlit("5"); }
        "5"
    } else if d == 6 {
        proof { reveal_strlit("6"); }
        "6"
    } else if d == 7 {
        proof { reveal_strlit("7"); }
        "7"
    } else if d == 8 {
        proof { reveal_strlit("8"); }
        "8"
    } else {
        proof { reveal_strlit("9"); }
        "9"
    }
}

fn append_decimal(s: &mut String, n: usize)
    ensures
        final(s)@ == old(s)@ + decimal(n as nat),
    decreases n,
{
    if n >= 10 {
        append_decimal(s, n / 10);
    }
    s.append(digit_str(n % 10));
}

/// The decimal notation of `n`.
pub fn decimal_string(n: usize) -> (s: String)
    ensures
        s@ == decimal(n as nat),
{
    let mut s = String::new();
    append_decimal(&mut s, n);
    assert(s@ =~= decimal(n as nat));
    s
}

/// The id of the `i`-th subagent of a split.
pub fn subagent_id(i: usize) -> (id: String)
    ensures
        id@ == sub_id(i as nat),
{
    proof { reveal_strlit("sub-"); }
    let mut s = String::from_str("sub-");
    append_decimal(&mut s, i);
    s
}

// ============================================================================
// COLLAPSE
// ============================================================================

/// The state after merging `deltas` into `state`, first to last.
pub open spec fn collapse_spec<S: AgentState>(state: S, deltas: Seq<S::Delta>) -> S
    decreases deltas.len(),
{
    if deltas.len() == 0 {
        state
    } else {
        collapse_spec(state, deltas.drop_last()).spec_apply_delta(deltas.last())
    }
}

/// Merges every delta into `original`, in order. The strategy does not
/// change the result.
pub fn collapse<S: AgentState>(original: S, deltas: Vec<S::Delta>, strategy: CollapseStrategy) -> (merged: S)
    ensures
        merged == collapse_spec(original, deltas@),
{
    let mut state = original;
    let mut i: usize = 0;
    while i < deltas.len()
        invariant
            i <= deltas.len(),
            state == collapse_spec(original, deltas@.take(i as int)),
        decreases deltas.len() - i,
    {
        assert(deltas@.take(i + 1).drop_last() =~= deltas@.take(i as int));
        state.apply_delta(&deltas[i]);
        i = i + 1;
    }
    assert(deltas@.take(deltas.len() as int) =~= deltas@);
    state
}

/// Collapsing no deltas leaves the state as it was.
pub proof fn lemma_collapse_nothing<S: AgentState>(state: S)
    ensures
        collapse_spec(state, Seq::<S::Delta>::empty()) == state,
{
}

/// Collapsing in two steps is collapsing once over the concatenation.
pub proof fn lemma_collapse_concat<S: AgentState>(state: S, first: Seq<S::Delta>, second: Seq<S::Delta>)
    ensures
        collapse_spec(collapse_spec(state, first), second) == collapse_spec(state, first + second),
    decreases second.len(),
{
    if second.len() == 0 {
        assert(first + second =~= first);
    } else {
        lemma_collapse_concat(state, first, second.drop_last());
        assert((first + second).drop_last() =~= first + second.drop_last());
    }
}


/// How a merge function walks a list of labelled deltas: `end` is reached
/// from `start` by one call of `merge` per item, in order, each call given
/// the state so far, the item's delta and the item's label.
pub open spec fn merge_chain<S, D, F: Fn(S, &D, Option<&str>) -> S>(
    merge: F,
    start: S,
    items: Seq<(Option<String>, D)>,
    end: S,
) -> bool
    decreases items.len(),
{
    if items.len() == 0 {
        end == start
    } else {
        exists|mid: S, label: Option<&str>|
            {
                &&& merge_chain(merge, start, items.drop_last(), mid)
                &&& label_matches(label, items.last().0)
                &&& call_ensures(merge, (mid, &items.last().1, label), end)
            }
    }
}

/// A borrowed label carries the text of an owned one.
pub open spec fn label_matches(label: Option<&str>, owned: Option<String>) -> bool {
    match (label, owned) {
        (Some(l), Some(o)) => l@ == o@,
        (None, None) => true,
        _ => false,
    }
}

/// Merges the deltas into `original` with a merge function of the host's,
/// which also sees each delta's label.
pub fn collapse_with<S, F: Fn(S, &S::Delta, Option<&str>) -> S>(
    original: S,
    deltas: Vec<(Option<String>, S::Delta)>,
    merge_fn: F,
) -> (merged: S) where S: AgentState
    requires
        forall|state: S, delta: &S::Delta, label: Option<&str>| merge_fn.requires((state, delta, label)),
    ensures
        merge_chain(merge_fn, original, deltas@, merged),
{
    let mut state = original;
    let mut i: usize = 0;
    while i < deltas.len()
        invariant
            i <= deltas.len(),
            forall|state: S, delta: &S::Delta, label: Option<&str>| merge_fn.requires((state, delta, label)),
            merge_chain(merge_fn, original, deltas@.take(i as int), state),
        decreases deltas.len() - i,
    {
        let label: Option<&str> = match &deltas[i].0 {
            Some(id) => Some(id.as_str()),
            None => None,
        };
        let ghost mid = state;
        state = merge_fn(state, &deltas[i].1, label);
        assert(deltas@.take(i + 1).drop_last() =~= deltas@.take(i as int));
        assert(label_matches(label, deltas@.take(i + 1).last().0));
        assert(merge_chain(merge_fn, original, deltas@.take(i + 1), state));
        i = i + 1;
    }
    assert(deltas@.take(deltas.len() as int) =~= deltas@);
    state
}


/// Merging with a function that applies each delta to the state, whatever
/// the labels, is collapsing the deltas in order.
pub proof fn lemma_apply_chain_is_collapse<S: AgentState, F: Fn(S, &S::Delta, Option<&str>) -> S>(
    merge: F,
    start: S,
    items: Seq<(Option<String>, S::Delta)>,
    end: S,
)
    requires
        forall|state: S, delta: &S::Delta, label: Option<&str>, next: S|
            call_ensures(merge, (state, delta, label), next) ==> next == state.spec_apply_delta(*delta),
        merge_chain(merge, start, items, end),
    ensures
        end == collapse_spec(start, labelled_deltas(items)),
    decreases items.len(),
{
    if items.len() > 0 {
        let (mid, label) = choose|mid: S, label: Option<&str>|
            {
                &&& merge_chain(merge, start, items.drop_last(), mid)
                &&& label_matches(label, items.last().0)
                &&& call_ensures(merge, (mid, &items.last().1, label), end)
            };
        lemma_apply_chain_is_collapse(merge, start, items.drop_last(), mid);
        assert(labelled_deltas(items).drop_last() =~= labelled_deltas(items.drop_last()));
    }
}

/// The deltas of a list of labelled deltas.
pub open spec fn labelled_deltas<D>(items: Seq<(Option<String>, D)>) -> Seq<D> {
    items.map_values(|p: (Option<String>, D)| p.1)
}

/// The deltas of a list of id and delta pairs.
pub open spec fn paired_deltas<D>(pairs: Seq<(String, D)>) -> Seq<D> {
    pairs.map_values(|p: (String, D)| p.1)
}

/// Merges deltas that carry the id of the subagent that produced them; the
/// ids do not change the result.
pub fn collapse_from_id_pairs<S: AgentState>(
    original: S,
    id_and_deltas: Vec<(String, S::Delta)>,
    strategy: CollapseStrategy,
) -> (merged: S)
    ensures
        merged == collapse_spec(original, paired_deltas(id_and_deltas@)),
{
    let ghost input = id_and_deltas@;
    let mut labelled: Vec<(Option<String>, S::Delta)> = Vec::new();
    for pair in it: id_and_deltas.into_iter()
        invariant
            it.seq() == input,
            labelled.len() == it.index(),
            forall|i: int| 0 <= i < labelled.len() ==> #[trigger] labelled@[i].1 == input[i].1,
    {
        let (id, delta) = pair;
        labelled.push((Some(id), delta));
    }
    assert(labelled_deltas(labelled@) =~= paired_deltas(input));
    let apply = |state: S, delta: &S::Delta, label: Option<&str>| -> (next: S)
        ensures
            next == state.spec_apply_delta(*delta),
        {
            let mut next = state;
            next.apply_delta(delta);
            next
        };
    let ghost items = labelled@;
    let merged = collapse_with(original, labelled, apply);
    proof {
        lemma_apply_chain_is_collapse(apply, original, items, merged);
    }
    merged
}

/// Merges the deltas of subagent results into the master state, in order.
pub fn dax_collapse<S: AgentState>(
    master: S,
    results: Vec<SubAgentResult<S::Delta>>,
    strategy: CollapseStrategy,
) -> (merged: S)
    ensures
        merged == collapse_spec(master, result_deltas(results@)),
{
    let ghost input = results@;
    let mut pairs: Vec<(String, S::Delta)> = Vec::new();
    for r in it: results.into_iter()
        invariant
            it.seq() == input,
            pairs.len() == it.index(),
            forall|i: int| 0 <= i < pairs.len() ==> #[trigger] pairs@[i].1 == input[i].delta,
    {
        pairs.push((r.id, r.delta));
    }
    assert(paired_deltas(pairs@) =~= result_deltas(input));
    collapse_from_id_pairs(master, pairs, strategy)
}

/// The deltas of a list of subagent results.
pub open spec fn result_deltas<D>(results: Seq<SubAgentResult<D>>) -> Seq<D> {
    results.map_values(|r: SubAgentResult<D>| r.delta)
}


// ============================================================================
// CLASSIC SPLIT
// ============================================================================

/// `specs` is a split of `state` over `tasks` with the slicing function
/// `extract`: one subagent per task, in order, the `i`-th with id `sub-i`,
/// the `i`-th task, and a state that `extract` returned for `(state, i)`.
pub open spec fn is_split_of<S, F: Fn(&S, usize) -> S>(
    state: S,
    tasks: Seq<TaskView>,
    extract: F,
    specs: Seq<SubAgentSpecView<S>>,
) -> bool {
    &&& specs.len() == tasks.len()
    &&& forall|i: int|
        0 <= i < specs.len() ==> {
            &&& (#[trigger] specs[i]).id == sub_id(i as nat)
            &&& specs[i].task == tasks[i]
            &&& call_ensures(extract, (&state, i as usize), specs[i].scoped_state)
        }
}

/// Splits `state` into one subagent per task; `extract_slice` gives the
/// scoped state of the `i`-th subagent. The strategy does not change the
/// result.
pub fn split<S: AgentState>(
    state: &S,
    strategy: SplitStrategy,
    tasks: Vec<Task>,
    extract_slice: impl Fn(&S, usize) -> S,
) -> (specs: Vec<SubAgentSpec<S>>)
    requires
        forall|i: usize| i < tasks.len() ==> extract_slice.requires((state, i)),
    ensures
        is_split_of(*state, task_views(tasks@), extract_slice, spec_views(specs@)),
{
    let ghost input = tasks@;
    let mut specs: Vec<SubAgentSpec<S>> = Vec::new();
    for task in it: tasks.into_iter()
        invariant
            it.seq() == input,
            specs.len() == it.index(),
            it.index() <= input.len(),
            forall|j: usize| j < input.len() ==> extract_slice.requires((state, j)),
            forall|j: int|
                0 <= j < specs.len() ==> {
                    &&& (#[trigger] specs@[j]).id@ == sub_id(j as nat)
                    &&& specs@[j].task@ == input[j]@
                    &&& call_ensures(extract_slice, (state, j as usize), specs@[j].scoped_state)
                },
    {
        let i: usize = specs.len();
        let id = subagent_id(i);
        let scoped_state = extract_slice(state, i);
        specs.push(SubAgentSpec { id, scoped_state, task });
    }
    let ghost views = spec_views(specs@);
    assert forall|j: int| 0 <= j < views.len() implies {
        &&& (#[trigger] views[j]).id == sub_id(j as nat)
        &&& views[j].task == task_views(input)[j]
        &&& call_ensures(extract_slice, (state, j as usize), views[j].scoped_state)
    } by {}
    specs
}


// ============================================================================
// FRACTAL SPLIT
// ============================================================================

/// The subagents that a fractal agent spawns from `state` at `depth`: none at
/// or below its depth limit or when the state costs more than its cost
/// limit; else each subagent of its split at this depth, each followed by
/// the expansion of that subagent's state one level deeper.
pub open spec fn expand_spec<S: AgentState, F: FractalAgent<S>>(
    fractal: F,
    state: S,
    depth: usize,
) -> Seq<SubAgentSpecView<S>>
    decreases fractal.spec_config().max_depth - depth, 1nat, 0nat,
{
    let cfg = fractal.spec_config();
    if depth >= cfg.max_depth {
        seq![]
    } else if fractal.spec_estimate_cost(state) > cfg.max_cost {
        seq![]
    } else {
        expand_children(fractal, fractal.spec_split(state, depth), depth)
    }
}

/// Each of `subs` (split at `depth`), followed by its expansion at
/// `depth + 1`.
pub open spec fn expand_children<S: AgentState, F: FractalAgent<S>>(
    fractal: F,
    subs: Seq<SubAgentSpecView<S>>,
    depth: usize,
) -> Seq<SubAgentSpecView<S>>
    decreases fractal.spec_config().max_depth - depth, 0nat, subs.len(),
{
    if subs.len() == 0 || depth >= fractal.spec_config().max_depth {
        seq![]
    } else {
        expand_children(fractal, subs.drop_last(), depth) + seq![subs.last()]
            + expand_spec(fractal, subs.last().scoped_state, (depth + 1) as usize)
    }
}

/// Expands `state` recursively through the fractal agent, from `depth` on,
/// with its depth and cost guards.
pub fn dax_expand_fractal<S: AgentState, F: FractalAgent<S>>(
    fractal: &F,
    state: S,
    depth: usize,
) -> (expanded: Vec<SubAgentSpec<S>>)
    ensures
        spec_views(expanded@) == expand_spec(*fractal, state, depth),
    decreases fractal.spec_config().max_depth - depth,
{
    let cfg = fractal.config();
    if depth >= cfg.max_depth {
        return Vec::new();
    }
    if fractal.estimate_cost(&state) > cfg.max_cost {
        return Vec::new();
    }
    let subs = fractal.split(state.clone_state(), depth);
    let ghost sub_views = spec_views(subs@);
    let mut expanded: Vec<SubAgentSpec<S>> = Vec::new();
    let mut i: usize = 0;
    while i < subs.len()
        invariant
            i <= subs.len(),
            depth < fractal.spec_config().max_depth,
            sub_views == spec_views(subs@),
            sub_views == fractal.spec_split(state, depth),
            spec_views(expanded@) == expand_children(*fractal, sub_views.take(i as int), depth),
        decreases subs.len() - i,
    {
        let sub = subs[i].clone();
        let mut children = dax_expand_fractal(fractal, subs[i].scoped_state.clone_state(), depth + 1);
        let ghost before = expanded@;
        let ghost child_views = spec_views(children@);
        expanded.push(sub);
        expanded.append(&mut children);
        proof {
            let taken = sub_views.take(i + 1);
            assert(taken.drop_last() =~= sub_views.take(i as int));
            assert(taken.last() == sub_views[i as int]);
            assert(spec_views(expanded@) =~= spec_views(before) + seq![sub_views[i as int]] + child_views);
        }
        i = i + 1;
    }
    assert(sub_views.take(subs.len() as int) =~= sub_views);
    expanded
}

/// The fractal split of `state` over `tasks`: for each task in order, a
/// subagent `sub-i` with the whole state and that task, followed by the
/// expansion of the state from depth 1.
pub open spec fn split_fractal_spec<S: AgentState, F: FractalAgent<S>>(
    fractal: F,
    state: S,
    tasks: Seq<TaskView>,
) -> Seq<SubAgentSpecView<S>>
    decreases tasks.len(),
{
    if tasks.len() == 0 {
        seq![]
    } else {
        split_fractal_spec(fractal, state, tasks.drop_last())
            + seq![SubAgentSpecView { id: sub_id((tasks.len() - 1) as nat), scoped_state: state, task: tasks.last() }]
            + expand_spec(fractal, state, 1)
    }
}

/// Splits `state` over `tasks` through a fractal agent.
pub fn dax_split_fractal<S: AgentState, F: FractalAgent<S>>(
    fractal: &F,
    state: S,
    tasks: Vec<Task>,
) -> (specs: Vec<SubAgentSpec<S>>)
    ensures
        spec_views(specs@) == split_fractal_spec(*fractal, state, task_views(tasks@)),
{
    let ghost input = task_views(tasks@);
    let mut specs: Vec<SubAgentSpec<S>> = Vec::new();
    let mut i: usize = 0;
    while i < tasks.len()
        invariant
            i <= tasks.len(),
            input == task_views(tasks@),
            spec_views(specs@) == split_fractal_spec(*fractal, state, input.take(i as int)),
        decreases tasks.len() - i,
    {
        let ghost before = specs@;
        specs.push(SubAgentSpec { id: subagent_id(i), scoped_state: state.clone_state(), task: tasks[i].clone() });
        let mut children = dax_expand_fractal(fractal, state.clone_state(), 1);
        let ghost child_views = spec_views(children@);
        specs.append(&mut children);
        proof {
            let taken = input.take(i + 1);
            assert(taken.drop_last() =~= input.take(i as int));
            assert(taken.last() == input[i as int]);
            assert(spec_views(specs@) =~= spec_views(before) + seq![
                SubAgentSpecView { id: sub_id(i as nat), scoped_state: state, task: input[i as int] },
            ] + child_views);
        }
        i = i + 1;
    }
    assert(input.take(tasks.len() as int) =~= input);
    specs
}


/// What `dax_split` hands back: the fractal split when the agent acts as a
/// fractal agent, else the classic split with the slicing function.
pub open spec fn dax_split_spec<S: AgentState, A: Agent<S>, F: Fn(&S, usize) -> S>(
    agent: A,
    state: S,
    tasks: Seq<TaskView>,
    extract: F,
    specs: Seq<SubAgentSpecView<S>>,
) -> bool {
    match agent.spec_as_fractal() {
        Some(fractal) => specs == split_fractal_spec(fractal, state, tasks),
        None => is_split_of(state, tasks, extract, specs),
    }
}

/// Splits through the agent's fractal side when it has one, else with the
/// classic split.
pub fn dax_split<S: AgentState, A: Agent<S>>(
    agent: &A,
    state: &S,
    strategy: SplitStrategy,
    tasks: Vec<Task>,
    extract_slice: impl Fn(&S, usize) -> S,
) -> (specs: Vec<SubAgentSpec<S>>)
    requires
        forall|i: usize| i < tasks.len() ==> extract_slice.requires((state, i)),
    ensures
        dax_split_spec(*agent, *state, task_views(tasks@), extract_slice, spec_views(specs@)),
{
    match agent.as_fractal() {
        Some(fractal) => dax_split_fractal(fractal, state.clone_state(), tasks),
        None => split(state, strategy, tasks, extract_slice),
    }
}

// ============================================================================
// EXECUTION + FULL ORCHESTRATION
// ============================================================================

/// Runs the subagents on the current thread, in order.
pub fn dax_execute_sync<S: AgentState, E: AgentExecutor<S>>(
    specs: Vec<SubAgentSpec<S>>,
    executor: &E,
) -> (results: Vec<SubAgentResult<S::Delta>>)
    ensures
        results.len() == specs.len(),
        forall|i: int|
            0 <= i < specs.len() ==> is_local_result(*executor, #[trigger] specs@[i]@, results@[i]@),
{
    run_subagents_local(specs, executor)
}

/// One run of the whole pipeline: `specs` is what the split handed out,
/// `deltas[i]` is what the executor produced for `specs[i]`, and `merged`
/// is the master state with every delta merged in order.
pub open spec fn is_run_of<S: AgentState, A: Agent<S>, E: AgentExecutor<S>, F: Fn(&S, usize) -> S>(
    agent: A,
    executor: E,
    master: S,
    tasks: Seq<TaskView>,
    extract: F,
    specs: Seq<SubAgentSpecView<S>>,
    deltas: Seq<S::Delta>,
    merged: S,
) -> bool {
    &&& dax_split_spec(agent, master, tasks, extract, specs)
    &&& deltas.len() == specs.len()
    &&& forall|i: int|
        0 <= i < specs.len() ==> executor.produces(specs[i].scoped_state, specs[i].task, #[trigger] deltas[i])
    &&& merged == collapse_spec(master, deltas)
}

/// Split, execute on the current thread, collapse.
pub fn dax_run_sync<S: AgentState, A: Agent<S>, E: AgentExecutor<S>>(
    agent: &A,
    executor: &E,
    master: S,
    tasks: Vec<Task>,
    split_strategy: SplitStrategy,
    collapse_strategy: CollapseStrategy,
    extract_slice: impl Fn(&S, usize) -> S,
) -> (merged: S)
    requires
        forall|i: usize| i < tasks.len() ==> extract_slice.requires((&master, i)),
    ensures
        exists|specs: Seq<SubAgentSpecView<S>>, deltas: Seq<S::Delta>|
            {
                &&& #[trigger] is_run_of(
                    *agent,
                    *executor,
                    master,
                    task_views(tasks@),
                    extract_slice,
                    specs,
                    deltas,
                    merged,
                )
                &&& dax_split_spec(*agent, master, task_views(tasks@), extract_slice, specs)
                &&& deltas.len() == specs.len()
                &&& forall|i: int|
                    0 <= i < specs.len() ==> executor.produces(
                        specs[i].scoped_state,
                        specs[i].task,
                        #[trigger] deltas[i],
                    )
                &&& merged == collapse_spec(master, deltas)
            },
{
    let ghost task_input = task_views(tasks@);
    let specs = dax_split(agent, &master, split_strategy, tasks, extract_slice);
    let ghost split_views = spec_views(specs@);
    let results = dax_execute_sync(specs, executor);
    let ghost deltas = result_deltas(results@);
    let ghost start = master;
    let merged = dax_collapse(master, results, collapse_strategy);
    assert(is_run_of(*agent, *executor, start, task_input, extract_slice, split_views, deltas, merged));
    merged
}


// ============================================================================
// LAWS OF THE FRACTAL EXPANSION
// ============================================================================

/// `spec` was handed out by the fractal agent's split of some state at some
/// depth at least `depth` and below the agent's depth limit.
pub open spec fn split_below_limit<S: AgentState, F: FractalAgent<S>>(
    fractal: F,
    spec: SubAgentSpecView<S>,
    depth: usize,
) -> bool {
    exists|state: S, level: usize|
        depth <= level < fractal.spec_config().max_depth && #[trigger] fractal.spec_split(state, level).contains(spec)
}

/// Every subagent of an expansion from `depth` comes from a split at a depth
/// between `depth` and the agent's depth limit: the recursion never goes
/// past the limit.
pub proof fn lemma_expansion_within_depth<S: AgentState, F: FractalAgent<S>>(
    fractal: F,
    state: S,
    depth: usize,
)
    ensures
        forall|k: int|
            0 <= k < expand_spec(fractal, state, depth).len() ==> split_below_limit(
                fractal,
                #[trigger] expand_spec(fractal, state, depth)[k],
                depth,
            ),
    decreases fractal.spec_config().max_depth - depth, 1nat, 0nat,
{
    let cfg = fractal.spec_config();
    if depth < cfg.max_depth && fractal.spec_estimate_cost(state) <= cfg.max_cost {
        let subs = fractal.spec_split(state, depth);
        assert forall|k: int| 0 <= k < subs.len() implies subs.contains(#[trigger] subs[k]) by {}
        lemma_children_within_depth(fractal, state, subs, depth);
        assert(expand_spec(fractal, state, depth) == expand_children(fractal, subs, depth));
    }
}

proof fn lemma_children_within_depth<S: AgentState, F: FractalAgent<S>>(
    fractal: F,
    parent: S,
    subs: Seq<SubAgentSpecView<S>>,
    depth: usize,
)
    requires
        forall|k: int| 0 <= k < subs.len() ==> fractal.spec_split(parent, depth).contains(#[trigger] subs[k]),
    ensures
        forall|k: int|
            0 <= k < expand_children(fractal, subs, depth).len() ==> split_below_limit(
                fractal,
                #[trigger] expand_children(fractal, subs, depth)[k],
                depth,
            ),
    decreases fractal.spec_config().max_depth - depth, 0nat, subs.len(),
{
    if subs.len() > 0 && depth < fractal.spec_config().max_depth {
        let init = subs.drop_last();
        let last = subs.last();
        let next = (depth + 1) as usize;
        assert forall|k: int| 0 <= k < init.len() implies fractal.spec_split(parent, depth).contains(#[trigger] init[k]) by {
            assert(init[k] == subs[k]);
        }
        lemma_children_within_depth(fractal, parent, init, depth);
        lemma_expansion_within_depth(fractal, last.scoped_state, next);
        let front = expand_children(fractal, init, depth);
        let deeper = expand_spec(fractal, last.scoped_state, next);
        let all = expand_children(fractal, subs, depth);
        assert(all == front + seq![last] + deeper);
        assert forall|k: int| 0 <= k < all.len() implies split_below_limit(fractal, #[trigger] all[k], depth) by {
            if k < front.len() {
                assert(all[k] == front[k]);
            } else if k == front.len() {
                assert(all[k] == last);
                assert(fractal.spec_split(parent, depth).contains(subs[subs.len() - 1]));
            } else {
                let j: int = k - front.len() - 1;
                assert(all[k] == deeper[j]);
                assert(split_below_limit(fractal, deeper[j], next));
                let (st, lv) = choose|st: S, lv: usize|
                    next <= lv < fractal.spec_config().max_depth && #[trigger] fractal.spec_split(st, lv).contains(deeper[j]);
                assert(depth <= lv);
            }
        }
    }
}

/// At or past the depth limit, and for a state over the cost limit, the
/// expansion is empty.
pub proof fn lemma_expansion_guards<S: AgentState, F: FractalAgent<S>>(fractal: F, state: S, depth: usize)
    requires
        depth >= fractal.spec_config().max_depth || fractal.spec_estimate_cost(state) > fractal.spec_config().max_cost,
    ensures
        expand_spec(fractal, state, depth) == Seq::<SubAgentSpecView<S>>::empty(),
{
}


/// Below its limits, the expansion of a state is, for each subagent of the
/// state's split in order, that subagent followed by the expansion of its
/// own scoped state one level deeper.
pub proof fn lemma_expansion_is_each_sub_then_its_own_expansion<S: AgentState, F: FractalAgent<S>>(
    fractal: F,
    state: S,
    depth: usize,
)
    requires
        depth < fractal.spec_config().max_depth,
        fractal.spec_estimate_cost(state) <= fractal.spec_config().max_cost,
    ensures
        expand_spec(fractal, state, depth) == fractal.spec_split(state, depth).map_values(
            |sub: SubAgentSpecView<S>| seq![sub] + expand_spec(fractal, sub.scoped_state, (depth + 1) as usize),
        ).flatten(),
{
    lemma_children_are_blocks(fractal, fractal.spec_split(state, depth), depth);
}

proof fn lemma_children_are_blocks<S: AgentState, F: FractalAgent<S>>(
    fractal: F,
    subs: Seq<SubAgentSpecView<S>>,
    depth: usize,
)
    requires
        depth < fractal.spec_config().max_depth,
    ensures
        expand_children(fractal, subs, depth) == subs.map_values(
            |sub: SubAgentSpecView<S>| seq![sub] + expand_spec(fractal, sub.scoped_state, (depth + 1) as usize),
        ).flatten(),
    decreases subs.len(),
{
    let block = |sub: SubAgentSpecView<S>| seq![sub] + expand_spec(fractal, sub.scoped_state, (depth + 1) as usize);
    if subs.len() == 0 {
        assert(subs.map_values(block) =~= Seq::<Seq<SubAgentSpecView<S>>>::empty());
    } else {
        let init = subs.drop_last();
        lemma_children_are_blocks(fractal, init, depth);
        assert(subs.map_values(block) =~= init.map_values(block).push(block(subs.last())));
        init.map_values(block).lemma_flatten_push(block(subs.last()));
        assert(expand_children(fractal, subs, depth) =~= init.map_values(block).flatten() + block(subs.last()));
    }
}

/// The fractal split of a state over tasks is, for each task in order, the
/// subagent `sub-i` holding the whole state and the `i`-th task, followed by
/// the expansion of the state from depth 1.
pub proof fn lemma_fractal_split_is_one_block_per_task<S: AgentState, F: FractalAgent<S>>(
    fractal: F,
    state: S,
    tasks: Seq<TaskView>,
)
    ensures
        split_fractal_spec(fractal, state, tasks) == tasks.map(
            |i: int, task: TaskView|
                seq![SubAgentSpecView { id: sub_id(i as nat), scoped_state: state, task }] + expand_spec(
                    fractal,
                    state,
                    1,
                ),
        ).flatten(),
    decreases tasks.len(),
{
    let block = |i: int, task: TaskView|
        seq![SubAgentSpecView { id: sub_id(i as nat), scoped_state: state, task }] + expand_spec(fractal, state, 1);
    if tasks.len() == 0 {
        assert(tasks.map(block) =~= Seq::<Seq<SubAgentSpecView<S>>>::empty());
    } else {
        let init = tasks.drop_last();
        lemma_fractal_split_is_one_block_per_task(fractal, state, init);
        assert(tasks.map(block) =~= init.map(block).push(block(tasks.len() - 1, tasks.last())));
        init.map(block).lemma_flatten_push(block(tasks.len() - 1, tasks.last()));
        assert(split_fractal_spec(fractal, state, tasks) =~= init.map(block).flatten() + block(
            tasks.len() - 1,
            tasks.last(),
        ));
    }
}


/// In a run, each subagent's delta is one that the executor produced for
/// that subagent's own scoped state and task, never for the master state as
/// such; without a fractal side, the `i`-th delta comes from the `i`-th task
/// run on the state that the slicing function returned for `(master, i)`. The
/// merged state is the master with the deltas applied in order.
pub proof fn lemma_run_uses_scoped_states<S: AgentState, A: Agent<S>, E: AgentExecutor<S>, F: Fn(&S, usize) -> S>(
    agent: A,
    executor: E,
    master: S,
    tasks: Seq<TaskView>,
    extract: F,
    specs: Seq<SubAgentSpecView<S>>,
    deltas: Seq<S::Delta>,
    merged: S,
)
    requires
        is_run_of(agent, executor, master, tasks, extract, specs, deltas, merged),
    ensures
        deltas.len() == specs.len(),
        forall|i: int|
            0 <= i < deltas.len() ==> #[trigger] executor.produces(specs[i].scoped_state, specs[i].task, deltas[i]),
        agent.spec_as_fractal() is None ==> {
            &&& deltas.len() == tasks.len()
            &&& forall|i: int|
                0 <= i < tasks.len() ==> {
                    &&& specs[i].task == tasks[i]
                    &&& call_ensures(extract, (&master, i as usize), specs[i].scoped_state)
                    &&& executor.produces(specs[i].scoped_state, tasks[i], #[trigger] deltas[i])
                }
        },
        merged == collapse_spec(master, deltas),
{
    if agent.spec_as_fractal() is None {
        assert(is_split_of(master, tasks, extract, specs));
        assert forall|i: int| 0 <= i < tasks.len() implies {
            &&& specs[i].task == tasks[i]
            &&& call_ensures(extract, (&master, i as usize), specs[i].scoped_state)
            &&& executor.produces(specs[i].scoped_state, tasks[i], #[trigger] deltas[i])
        } by {
            assert(executor.produces(specs[i].scoped_state, specs[i].task, deltas[i]));
        }
    }
}

} // verus!
