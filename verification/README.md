# dax_agent_orchestrator

A small orchestrator that splits a host agent's state into scoped subagents,
runs them, and collapses their deltas back into the master state. The library
under `src/` is verified with Verus; `app/` holds the async and parallel
runners, which run outside the verifier.

## Layout

- `src/traits.rs`: the host's state and delta (`AgentState`), tasks,
  subagent specifications, executors, micro-agents, fractal agents.
- `src/dax.rs`: split, fractal expansion with depth and cost guards,
  collapse, and the synchronous pipeline `dax_run_sync`.
- `src/subagent.rs`: micro-agent routing, the local runner, single runs and
  the gathering of results of separate runs.
- `src/agent_core/`: agent trees, the do-not-do graph, and the traits of the
  execution engine (reflection, acceptance, fallback, cost, strategies).
- `src/engine/`: the engine's orchestrator (`DaxOrchestrator`) and worker
  agent (`SubAgent`).
- `app/lib.rs`: the Tokio-backed parallel runner, the async pipeline, the
  async executor trait, and type-erased deltas.

## What is proved

- Collapse merges deltas in order (`collapse_spec`); collapsing in two steps
  equals collapsing the concatenation; labels and ids do not change the
  result.
- A split hands out one subagent per task, in order, with id `sub-i`, and
  distinct indices give distinct ids.
- The fractal expansion is exactly `expand_spec`; it never goes past the
  agent's depth limit and is empty over the cost limit.
- Runners keep the input order; gathering keeps every finished run in order.
- The agent tree run builds exactly the tree of `tree_below`, every node
  holding the root state.
- The engine's orchestrator ends each execution as `engine_step` prescribes;
  the sub-tasks it runs fit its cost budget, and a worker never runs a task
  its do-not-do graph forbids.

## Host traits

Each host trait pairs its executable methods with spec functions that state
what they return. A host that verifies its implementation defines them. Where
a spec function has a default, the default is what a host that does not
define it is held to: a relation that promises nothing (`produces`,
`executes`, `merges`), the usual limits (`spec_config`,
`spec_max_fractal_depth`, `spec_max_fractal_cost`), or a fixed answer (an
empty split, a cost of 0 or 1, no fallback, no name). A host that does not
use Verus leaves them out, except `AgentState::spec_apply_delta` and the
strategy accessors of the engine's `Agent`, which have no default.
