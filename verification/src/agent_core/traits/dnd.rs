//! Do-not-do safety graph: forbidden actions and agents gated by them.
use vstd::prelude::*;

use crate::traits::{AgentState, Task};

verus! {

// ============================================================================
// FORBIDDEN ACTION
// ============================================================================

/// A task name that must not run, and why.
#[derive(Clone, Debug)]
pub struct ForbiddenAction {
    pub task_name: String,
    pub reason: String,
}

/// The mathematical value of a forbidden action.
pub struct ForbiddenActionView {
    pub task_name: Seq<char>,
    pub reason: Seq<char>,
}

impl View for ForbiddenAction {
    type V = ForbiddenActionView;

    open spec fn view(&self) -> ForbiddenActionView {
        ForbiddenActionView { task_name: self.task_name@, reason: self.reason@ }
    }
}

impl ForbiddenAction {
    pub fn new(task: &str, reason: &str) -> (action: ForbiddenAction)
        ensures
            action@ == (ForbiddenActionView { task_name: task@, reason: reason@ }),
    {
        ForbiddenAction { task_name: String::from_str(task), reason: String::from_str(reason) }
    }
}

// ============================================================================
// DO-NOT-DO GRAPH
// ============================================================================

/// The forbidden actions, in the order they were added.
#[derive(Clone, Debug)]
pub struct DoNotDoGraph {
    pub forbidden: Vec<ForbiddenAction>,
}

impl View for DoNotDoGraph {
    type V = Seq<ForbiddenActionView>;

    open spec fn view(&self) -> Seq<ForbiddenActionView> {
        self.forbidden@.map_values(|f: ForbiddenAction| f@)
    }
}

/// The reason of the first forbidden action for the task name `name`, if
/// there is one.
pub open spec fn forbidden_reason(entries: Seq<ForbiddenActionView>, name: Seq<char>) -> Option<Seq<char>>
    decreases entries.len(),
{
    if entries.len() == 0 {
        None
    } else if entries[0].task_name == name {
        Some(entries[0].reason)
    } else {
        forbidden_reason(entries.drop_first(), name)
    }
}

proof fn lemma_forbidden_reason_skip(entries: Seq<ForbiddenActionView>, name: Seq<char>, i: int)
    requires
        0 <= i < entries.len(),
        forall|j: int| 0 <= j < i ==> entries[j].task_name != name,
    ensures
        forbidden_reason(entries, name) == forbidden_reason(entries.subrange(i, entries.len() as int), name),
    decreases i,
{
    if i > 0 {
        let rest = entries.drop_first();
        assert forall|j: int| 0 <= j < i - 1 implies rest[j].task_name != name by {
            assert(rest[j] == entries[j + 1]);
        }
        lemma_forbidden_reason_skip(rest, name, i - 1);
        assert(rest.subrange(i - 1, rest.len() as int) =~= entries.subrange(i, entries.len() as int));
    } else {
        assert(entries.subrange(0, entries.len() as int) =~= entries);
    }
}

proof fn lemma_forbidden_reason_none(entries: Seq<ForbiddenActionView>, name: Seq<char>)
    requires
        forall|j: int| 0 <= j < entries.len() ==> entries[j].task_name != name,
    ensures
        forbidden_reason(entries, name) is None,
    decreases entries.len(),
{
    if entries.len() > 0 {
        let rest = entries.drop_first();
        assert forall|j: int| 0 <= j < rest.len() implies rest[j].task_name != name by {
            assert(rest[j] == entries[j + 1]);
        }
        lemma_forbidden_reason_none(rest, name);
    }
}

/// A task name has a reason exactly when some entry names it, and the
/// reason is that of the first such entry.
pub proof fn lemma_forbidden_reason_first_match(entries: Seq<ForbiddenActionView>, name: Seq<char>)
    ensures
        (forbidden_reason(entries, name) is None) <==> (forall|j: int|
            0 <= j < entries.len() ==> #[trigger] entries[j].task_name != name),
        forbidden_reason(entries, name) is Some ==> exists|j: int|
            0 <= j < entries.len() && #[trigger] entries[j].task_name == name && forbidden_reason(entries, name)
                == Some(entries[j].reason) && forall|k: int| 0 <= k < j ==> entries[k].task_name != name,
    decreases entries.len(),
{
    if entries.len() > 0 {
        let rest = entries.drop_first();
        lemma_forbidden_reason_first_match(rest, name);
        if entries[0].task_name != name {
            assert forall|j: int| 0 <= j < rest.len() implies #[trigger] rest[j] == entries[j + 1] by {}
            if forbidden_reason(entries, name) is Some {
                let j = choose|j: int|
                    0 <= j < rest.len() && #[trigger] rest[j].task_name == name && forbidden_reason(rest, name)
                        == Some(rest[j].reason) && forall|k: int| 0 <= k < j ==> rest[k].task_name != name;
                assert(entries[j + 1] == rest[j]);
                assert forall|k: int| 0 <= k < j + 1 implies entries[k].task_name != name by {
                    if k > 0 {
                        assert(entries[k] == rest[k - 1]);
                    }
                }
            } else {
                assert forall|j: int| 0 <= j < entries.len() implies #[trigger] entries[j].task_name != name by {
                    if j > 0 {
                        assert(entries[j] == rest[j - 1]);
                    }
                }
            }
        } else {
            assert(entries[0].task_name == name);
        }
    }
}

impl DoNotDoGraph {
    /// A graph that forbids nothing.
    pub fn new() -> (graph: DoNotDoGraph)
        ensures
            graph.forbidden@ == Seq::<ForbiddenAction>::empty(),
            graph@ == Seq::<ForbiddenActionView>::empty(),
    {
        let graph = DoNotDoGraph { forbidden: Vec::new() };
        assert(graph@ =~= Seq::<ForbiddenActionView>::empty());
        graph
    }

    /// Forbids the task name `task`, giving `reason`.
    pub fn forbid(&mut self, task: &str, reason: &str)
        ensures
            final(self)@ == old(self)@.push(ForbiddenActionView { task_name: task@, reason: reason@ }),
    {
        self.forbidden.push(ForbiddenAction::new(task, reason));
        assert(self@ =~= old(self)@.push(ForbiddenActionView { task_name: task@, reason: reason@ }));
    }

    /// The reason of the first forbidden action with the task's name, or
    /// `None` when the task is not forbidden.
    pub fn is_forbidden(&self, task: &Task) -> (reason: Option<String>)
        ensures
            match reason {
                Some(r) => forbidden_reason(self@, task.name@) == Some(r@),
                None => forbidden_reason(self@, task.name@) is None,
            },
    {
        let mut i: usize = 0;
        while i < self.forbidden.len()
            invariant
                i <= self.forbidden.len(),
                forall|j: int| 0 <= j < i ==> (#[trigger] self@[j]).task_name != task.name@,
            decreases self.forbidden.len() - i,
        {
            if self.forbidden[i].task_name == task.name {
                proof {
                    lemma_forbidden_reason_skip(self@, task.name@, i as int);
                    assert(self@.subrange(i as int, self@.len() as int)[0] == self@[i as int]);
                }
                return Some(self.forbidden[i].reason.clone());
            }
            i = i + 1;
        }
        proof {
            lemma_forbidden_reason_none(self@, task.name@);
        }
        None
    }
}

/// What `Debug` shows of a string: the string in double quotes, with
/// quotes, backslashes and characters that do not print escaped.
pub uninterp spec fn debug_str(text: Seq<char>) -> Seq<char>;

/// A text that `Debug` shows unchanged between its quotes: printable ASCII
/// characters other than a double quote and a backslash.
pub open spec fn is_plain_text(text: Seq<char>) -> bool {
    forall|i: int|
        0 <= i < text.len() ==> {
            &&& ' ' <= #[trigger] text[i] <= '~'
            &&& text[i] != '"'
            &&& text[i] != '\\'
        }
}

/// `<str as Debug>::fmt`, through `format!("{:?}", ..)`: the text in double
/// quotes with std's escapes. A plain text is only put in quotes.
#[verifier::external_body]
pub(crate) fn debug_text(text: &str) -> (shown: String)
    ensures
        shown@ == debug_str(text@),
        is_plain_text(text@) ==> shown@ == seq!['"'] + text@ + seq!['"'],
{
    format!("{:?}", text)
}

/// The text of one forbidden action, as `Debug` shows it.
pub open spec fn action_text(action: ForbiddenActionView) -> Seq<char> {
    "ForbiddenAction { task_name: "@ + debug_str(action.task_name) + ", reason: "@ + debug_str(action.reason)
        + " }"@
}

/// The texts of forbidden actions, separated by a comma and a space.
pub open spec fn actions_text(entries: Seq<ForbiddenActionView>) -> Seq<char>
    decreases entries.len(),
{
    if entries.len() == 0 {
        Seq::empty()
    } else if entries.len() == 1 {
        action_text(entries[0])
    } else {
        actions_text(entries.drop_last()) + ", "@ + action_text(entries.last())
    }
}

/// The text of a do-not-do graph: its forbidden actions in brackets.
pub open spec fn graph_text(entries: Seq<ForbiddenActionView>) -> Seq<char> {
    "DoNotDoGraph { forbidden: ["@ + actions_text(entries) + "] }"@
}

impl DoNotDoGraph {
    /// A one-line text of the graph, listing its forbidden actions in order,
    /// as `Debug` shows it.
    pub fn summary(&self) -> (text: String)
        ensures
            text@ == graph_text(self@),
    {
        proof {
            reveal_strlit("DoNotDoGraph { forbidden: [");
            reveal_strlit("ForbiddenAction { task_name: ");
            reveal_strlit(", reason: ");
            reveal_strlit(" }");
            reveal_strlit(", ");
            reveal_strlit("] }");
        }
        let ghost entries = self@;
        let mut text = String::from_str("DoNotDoGraph { forbidden: [");
        let ghost head = text@;
        assert(entries.take(0) =~= Seq::<ForbiddenActionView>::empty());
        let mut i: usize = 0;
        while i < self.forbidden.len()
            invariant
                i <= self.forbidden.len(),
                entries == self@,
                head == "DoNotDoGraph { forbidden: ["@,
                text@ == head + actions_text(entries.take(i as int)),
            decreases self.forbidden.len() - i,
        {
            let ghost before = text@;
            if i > 0 {
                text.append(", ");
            }
            text.append("ForbiddenAction { task_name: ");
            text.append(debug_text(self.forbidden[i].task_name.as_str()).as_str());
            text.append(", reason: ");
            text.append(debug_text(self.forbidden[i].reason.as_str()).as_str());
            text.append(" }");
            proof {
                let taken = entries.take(i + 1);
                assert(taken.drop_last() =~= entries.take(i as int));
                assert(taken.last() == entries[i as int]);
                assert(entries[i as int] == self.forbidden@[i as int]@);
                if i == 0 {
                    assert(taken.len() == 1);
                    assert(taken[0] == entries[0]);
                    assert(text@ =~= head + actions_text(taken));
                } else {
                    assert(text@ =~= head + actions_text(taken));
                }
            }
            i = i + 1;
        }
        assert(entries.take(self.forbidden.len() as int) =~= entries);
        text.append("] }");
        assert(text@ =~= graph_text(entries));
        text
    }
}

// ============================================================================
// DO-NOT-DO AGENT
// ============================================================================

/// An agent gated by a do-not-do graph.
///
/// A host that leaves out one of the spec functions below (a host written
/// outside Verus always does, as it cannot name them) is described by that
/// function's default: what the library proves of such a host holds only
/// where its methods behave as the default says, and nothing checks that
/// they do.
pub trait DoNotDoAgent<S: AgentState> {
    /// The agent's forbidden actions; none unless the agent says otherwise.
    open spec fn spec_dnd_graph(&self) -> Seq<ForbiddenActionView> {
        Seq::empty()
    }

    fn dnd_graph(&self) -> (graph: &DoNotDoGraph)
        ensures
            graph@ == self.spec_dnd_graph(),
    ;

    /// The graph, for the caller to change; the agent's graph is then what
    /// the caller leaves in it.
    fn dnd_graph_mut(&mut self) -> (graph: &mut DoNotDoGraph)
        ensures
            (*graph)@ == old(self).spec_dnd_graph(),
            final(self).spec_dnd_graph() == (*final(graph))@,
    ;

    /// Whether this agent may run the task: no forbidden action has its name.
    fn allowed(&self, task: &Task) -> (allowed: bool)
        ensures
            allowed == (forbidden_reason(self.spec_dnd_graph(), task.name@) is None),
    {
        self.dnd_graph().is_forbidden(task).is_none()
    }
}

} // verus!
