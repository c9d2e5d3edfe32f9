//! Project configuration: the workflow states that tasks may take.
use vstd::prelude::*;

use crate::task::StateKind;
use crate::text::{concat2, join, owned, push_str, str_eq, views};

verus! {

/// Individual workflow state definition.
#[derive(Debug, Clone)]
pub struct WorkflowState {
    /// Wire value stored on tasks.
    pub value: String,
    /// Optional human-friendly label.
    pub label: Option<String>,
    /// Classification of the state, if configured.
    pub kind: Option<StateKind>,
}

/// Workflow configuration block.
#[derive(Debug, Clone)]
pub struct WorkflowConfig {
    /// The configured states; none means any state is allowed.
    pub states: Vec<WorkflowState>,
    /// The state given to new tasks that name none.
    pub default_state: Option<String>,
}

/// Top-level project configuration.
#[derive(Debug, Clone)]
pub struct ProjectConfig {
    /// Workflow configuration.
    pub workflow: WorkflowConfig,
}

/// Why a workflow state or configuration is rejected.
#[derive(Debug)]
pub enum WorkflowError {
    /// The state is not one of the configured states; `hint` lists them.
    UnknownState { value: String, hint: Option<String> },
    /// The configuration defines the same state value twice.
    DuplicateState { value: String },
}

/// The view of a [`WorkflowError`].
pub enum WorkflowErrorView {
    UnknownState(Seq<char>, Option<Seq<char>>),
    DuplicateState(Seq<char>),
}

impl View for WorkflowError {
    type V = WorkflowErrorView;

    open spec fn view(&self) -> WorkflowErrorView {
        match self {
            WorkflowError::UnknownState { value, hint } => WorkflowErrorView::UnknownState(
                value@,
                match hint {
                    Some(h) => Some(h@),
                    None => None,
                },
            ),
            WorkflowError::DuplicateState { value } => WorkflowErrorView::DuplicateState(value@),
        }
    }
}

/// The text of an error message.
pub open spec fn workflow_error_text(e: WorkflowErrorView) -> Seq<char> {
    match e {
        WorkflowErrorView::UnknownState(v, hint) => "state '"@ + v
            + "' is not defined in workflow configuration."@ + match hint {
            Some(h) => " Allowed values: "@ + h + "."@,
            None => Seq::<char>::empty(),
        },
        WorkflowErrorView::DuplicateState(v) => "duplicate workflow state detected: "@ + v,
    }
}

impl WorkflowError {
    /// A human-readable description.
    pub fn message(&self) -> (r: String)
        ensures
            r@ == workflow_error_text(self@),
    {
        match self {
            WorkflowError::UnknownState { value, hint } => {
                let mut out = concat2("state '", value.as_str());
                push_str(&mut out, "' is not defined in workflow configuration.");
                match hint {
                    Some(h) => {
                        push_str(&mut out, " Allowed values: ");
                        push_str(&mut out, h.as_str());
                        push_str(&mut out, ".");
                    },
                    None => {},
                }
                out
            },
            WorkflowError::DuplicateState { value } => concat2(
                "duplicate workflow state detected: ",
                value.as_str(),
            ),
        }
    }
}

impl WorkflowState {
    /// How the state is described in hints: its value, followed by its label
    /// in parentheses when it has one that differs from the value.
    pub open spec fn description(self) -> Seq<char> {
        match self.label {
            Some(l) => if l@ != self.value@ {
                self.value@ + " ("@ + l@ + ")"@
            } else {
                self.value@
            },
            None => self.value@,
        }
    }

    /// Create a workflow state with the given wire value.
    pub fn new(value: String) -> (r: WorkflowState)
        ensures
            r.value@ == value@,
            r.label is None,
            r.kind is None,
    {
        WorkflowState { value, label: None, kind: None }
    }

    /// The wire value.
    pub fn value(&self) -> (r: &str)
        ensures
            r@ == self.value@,
    {
        self.value.as_str()
    }

    /// Optional human-friendly label.
    pub fn label(&self) -> (r: Option<&str>)
        ensures
            r is Some <==> self.label is Some,
            r matches Some(l) ==> l@ == self.label->0@,
    {
        match &self.label {
            Some(l) => Some(l.as_str()),
            None => None,
        }
    }

    /// The state as described in hints.
    pub fn describe(&self) -> (r: String)
        ensures
            r@ == self.description(),
    {
        match self.label() {
            Some(label) => {
                if !str_eq(label, self.value.as_str()) {
                    let mut out = owned(self.value.as_str());
                    push_str(&mut out, " (");
                    push_str(&mut out, label);
                    push_str(&mut out, ")");
                    out
                } else {
                    owned(self.value.as_str())
                }
            },
            None => owned(self.value.as_str()),
        }
    }
}

/// The first value, from position `i` on, that equals an earlier one.
pub open spec fn first_duplicate(s: Seq<Seq<char>>, i: int) -> Option<Seq<char>>
    decreases s.len() - i,
{
    if i < 0 || i >= s.len() {
        None
    } else if s.take(i).contains(s[i]) {
        Some(s[i])
    } else {
        first_duplicate(s, i + 1)
    }
}

/// No value occurs twice from position `i` on when no value there repeats an
/// earlier one.
proof fn lemma_first_duplicate_none(s: Seq<Seq<char>>, i: int)
    requires
        0 <= i <= s.len(),
        s.take(i).no_duplicates(),
        first_duplicate(s, i) is None,
    ensures
        s.no_duplicates(),
    decreases s.len() - i,
{
    if i < s.len() {
        assert(!s.take(i).contains(s[i]));
        assert(s.take(i + 1) =~= s.take(i).push(s[i]));
        let t = s.take(i + 1);
        assert forall|a: int, b: int|
            0 <= a < t.len() && 0 <= b < t.len() && a != b implies #[trigger] t[a] != #[trigger] t[b] by {
            if a == i {
                assert(s.take(i)[b] == s[b]);
            } else if b == i {
                assert(s.take(i)[a] == s[a]);
            } else {
                assert(s.take(i)[a] != s.take(i)[b]);
            }
        }
        lemma_first_duplicate_none(s, i + 1);
    } else {
        assert(s.take(i) =~= s);
    }
}

/// A value that repeats an earlier one breaks `no_duplicates`.
proof fn lemma_first_duplicate_some(s: Seq<Seq<char>>, i: int)
    requires
        first_duplicate(s, i) is Some,
    ensures
        !s.no_duplicates(),
    decreases s.len() - i,
{
    if 0 <= i < s.len() {
        if s.take(i).contains(s[i]) {
            let k = choose|k: int| 0 <= k < i && s.take(i)[k] == s[i];
            assert(s[k] == s[i]);
        } else {
            lemma_first_duplicate_some(s, i + 1);
        }
    }
}

impl WorkflowConfig {
    /// The configured state values.
    pub open spec fn values(self) -> Seq<Seq<char>> {
        self.states@.map_values(|st: WorkflowState| st.value@)
    }

    /// The configured states.
    pub open spec fn state_list(self) -> Seq<WorkflowState> {
        self.states@
    }

    /// The hint listing the configured states: their descriptions joined
    /// with `", "`; none when no state is configured.
    pub open spec fn hint(self) -> Option<Seq<char>> {
        if self.states@.len() == 0 {
            None
        } else {
            Some(join(self.states@.map_values(|st: WorkflowState| st.description()), ", "@))
        }
    }

    /// Whether `candidate` passes validation: any state (or none) when no
    /// state is configured, otherwise only a configured value.
    pub open spec fn accepts(self, candidate: Option<Seq<char>>) -> bool {
        match candidate {
            None => true,
            Some(v) => self.states@.len() == 0 || self.values().contains(v),
        }
    }

    /// The kind of the first configured state, from position `i` on, whose
    /// value is `value`; none when no such state exists.
    pub open spec fn kind_from(self, value: Seq<char>, i: int) -> Option<StateKind>
        decreases self.states@.len() - i,
    {
        if i < 0 || i >= self.states@.len() {
            None
        } else if self.states@[i].value@ == value {
            self.states@[i].kind
        } else {
            self.kind_from(value, i + 1)
        }
    }

    /// The kind of the state `value`: that of the first configured state with
    /// this value.
    pub open spec fn kind_of(self, value: Option<Seq<char>>) -> Option<StateKind> {
        match value {
            Some(v) => self.kind_from(v, 0),
            None => None,
        }
    }

    /// Resolve the kind of a workflow state by its value.
    pub fn resolve_state_kind(&self, state: Option<&str>) -> (r: Option<StateKind>)
        ensures
            r == self.kind_of(
                match state {
                    Some(s) => Some(s@),
                    None => None,
                },
            ),
    {
        let value = match state {
            None => return None,
            Some(v) => v,
        };
        let mut i: usize = 0;
        while i < self.states.len()
            invariant
                i <= self.states@.len(),
                state == Some(value),
                self.kind_from(value@, 0) == self.kind_from(value@, i as int),
            decreases self.states@.len() - i,
        {
            if str_eq(self.states[i].value.as_str(), value) {
                return self.states[i].kind;
            }
            i = i + 1;
        }
        None
    }

    /// The state given to new tasks that name none.
    pub fn default_state(&self) -> (r: Option<&str>)
        ensures
            r is Some <==> self.default_state is Some,
            r matches Some(d) ==> d@ == self.default_state->0@,
    {
        match &self.default_state {
            Some(d) => Some(d.as_str()),
            None => None,
        }
    }

    /// An unrestricted configuration.
    pub fn new() -> (r: WorkflowConfig)
        ensures
            r.state_list().len() == 0,
            r.default_state is None,
    {
        WorkflowConfig { states: Vec::new(), default_state: None }
    }

    /// Construct a workflow configuration from explicit states.
    pub fn from_states(states: Vec<WorkflowState>) -> (r: WorkflowConfig)
        ensures
            r.state_list() == states@,
            r.default_state is None,
    {
        WorkflowConfig { states, default_state: None }
    }

    /// Returns true when states are restricted to a configured set.
    pub fn is_restricted(&self) -> (r: bool)
        ensures
            r == (self.state_list().len() > 0),
    {
        self.states.len() > 0
    }

    /// The allowed workflow states (if any).
    pub fn states(&self) -> (r: &[WorkflowState])
        ensures
            r@ == self.state_list(),
    {
        self.states.as_slice()
    }

    /// Human-readable hint string for editor templates and error messages.
    pub fn state_hint(&self) -> (r: Option<String>)
        ensures
            r is None <==> self.hint() is None,
            r matches Some(h) ==> self.hint() == Some(h@),
    {
        if self.states.len() == 0 {
            return None;
        }
        let ghost ds = self.states@.map_values(|st: WorkflowState| st.description());
        let mut parts: Vec<String> = Vec::new();
        for i in 0..self.states.len()
            invariant
                ds == self.states@.map_values(|st: WorkflowState| st.description()),
                views(parts@) == ds.take(i as int),
        {
            let d = self.states[i].describe();
            let ghost before = parts@;
            parts.push(d);
            assert(views(parts@) =~= views(before).push(d@));
            assert(ds.take(i + 1) =~= ds.take(i as int).push(ds[i as int]));
        }
        assert(ds.take(self.states.len() as int) =~= ds);
        Some(crate::text::join_strings(&parts, ", "))
    }

    /// Validate that the provided state (if any) is part of the configured set.
    pub fn validate_state(&self, candidate: Option<&str>) -> (r: Result<(), WorkflowError>)
        ensures
            r is Ok <==> self.accepts(
                match candidate {
                    Some(c) => Some(c@),
                    None => None,
                },
            ),
            r matches Err(e) ==> e@ == WorkflowErrorView::UnknownState(
                candidate->0@,
                self.hint(),
            ),
    {
        let value = match candidate {
            None => return Ok(()),
            Some(v) => v,
        };
        if !self.is_restricted() {
            return Ok(());
        }
        for i in 0..self.states.len()
            invariant
                candidate == Some(value),
                forall|k: int| 0 <= k < i ==> self.values()[k] != value@,
        {
            if str_eq(self.states[i].value.as_str(), value) {
                assert(self.values()[i as int] == value@);
                assert(self.values().contains(value@));
                return Ok(());
            }
        }
        assert(!self.values().contains(value@));
        let hint = self.state_hint();
        Err(WorkflowError::UnknownState { value: owned(value), hint })
    }

    /// Reject configurations that define the same state value twice; the
    /// error names the first value that repeats an earlier one.
    pub fn ensure_unique_states(&self) -> (r: Result<(), WorkflowError>)
        ensures
            r is Ok <==> self.values().no_duplicates(),
            r matches Err(e) ==> e@ is DuplicateState && first_duplicate(self.values(), 0) == Some(
                e@->DuplicateState_0,
            ),
    {
        let ghost vs = self.values();
        for i in 0..self.states.len()
            invariant
                vs == self.values(),
                first_duplicate(vs, 0) == first_duplicate(vs, i as int),
        {
            let mut seen = false;
            for j in 0..i
                invariant
                    vs == self.values(),
                    i < vs.len(),
                    !seen ==> forall|k: int| 0 <= k < j ==> vs[k] != vs[i as int],
                    seen ==> vs.take(i as int).contains(vs[i as int]),
            {
                if str_eq(self.states[j].value.as_str(), self.states[i].value.as_str()) {
                    assert(vs.take(i as int)[j as int] == vs[i as int]);
                    seen = true;
                }
            }
            if seen {
                proof {
                    lemma_first_duplicate_some(vs, 0);
                }
                return Err(WorkflowError::DuplicateState { value: owned(self.states[i].value.as_str()) });
            }
            assert(!vs.take(i as int).contains(vs[i as int]));
        }
        proof {
            assert(vs.take(0).no_duplicates());
            lemma_first_duplicate_none(vs, 0);
        }
        Ok(())
    }
}

impl Default for WorkflowConfig {
    fn default() -> (r: Self)
        ensures
            r.state_list().len() == 0,
            r.default_state is None,
    {
        WorkflowConfig::new()
    }
}

impl Default for ProjectConfig {
    fn default() -> (r: Self)
        ensures
            r.workflow.state_list().len() == 0,
            r.workflow.default_state is None,
    {
        ProjectConfig { workflow: WorkflowConfig::new() }
    }
}

impl ProjectConfig {
    /// Checks a loaded configuration: state values must be unique.
    pub fn validate(&mut self) -> (r: Result<(), WorkflowError>)
        ensures
            *final(self) == *old(self),
            r is Ok <==> old(self).workflow.values().no_duplicates(),
            r matches Err(e) ==> e@ is DuplicateState && first_duplicate(
                old(self).workflow.values(),
                0,
            ) == Some(e@->DuplicateState_0),
    {
        self.workflow.ensure_unique_states()
    }
}

} // verus!
