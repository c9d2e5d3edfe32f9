//! The decisions behind task mutations: which events a creation, an edit or
//! a state change records, and which requests the workflow refuses.
use vstd::prelude::*;

use crate::config::{WorkflowConfig, WorkflowError, WorkflowErrorView};
use crate::editor::{NewTaskData, NewTaskView};
use crate::event_log::{kind_views, Actor, EventKind, EventKindView};
use crate::task::{opt_view, TaskId, TaskSnapshot};
use crate::task_patch::{
    patch_events, patch_for, patch_is_empty, DescriptionPatch, FieldPatch, SetDiff, StatePatch,
    TaskEditData, TaskPatch, TaskPatchView, TaskUpdate,
};
use crate::text::{owned, views};

verus! {

/// The views of events addressed to tasks.
pub open spec fn targeted_views(s: Seq<(TaskId, EventKind)>) -> Seq<(TaskId, EventKindView)> {
    s.map_values(|p: (TaskId, EventKind)| (p.0, p.1@))
}

/// The state a new task gets: the one it names, else the workflow's default.
pub open spec fn creation_state(state: Option<Seq<char>>, workflow: WorkflowConfig) -> Option<
    Seq<char>,
> {
    match state {
        Some(s) => Some(s),
        None => opt_view(workflow.default_state),
    }
}

/// The events that create task `task` from the form data: its creation, and
/// when a parent is named, the link recorded on the child and on the parent.
pub open spec fn creation_events(task: TaskId, data: NewTaskView, workflow: WorkflowConfig) -> Seq<
    (TaskId, EventKindView),
> {
    let state = creation_state(data.state, workflow);
    seq![
        (
            task,
            EventKindView::TaskCreated {
                title: data.title,
                labels: data.labels,
                assignees: data.assignees,
                description: data.description,
                state,
                state_kind: workflow.kind_of(state),
            },
        ),
    ] + match data.parent {
        Some(parent) => seq![
            (task, EventKindView::ChildLinked { parent, child: task }),
            (parent, EventKindView::ChildLinked { parent, child: task }),
        ],
        None => Seq::<(TaskId, EventKindView)>::empty(),
    }
}

/// The events that create a task with identifier `task` from the form data.
/// The state defaults to the workflow's default state; a state the workflow
/// does not allow is refused.
pub fn plan_creation(task: TaskId, data: NewTaskData, workflow: &WorkflowConfig) -> (r: Result<
    Vec<(TaskId, EventKind)>,
    WorkflowError,
>)
    ensures
        r is Ok <==> workflow.accepts(creation_state(data@.state, *workflow)),
        r matches Ok(v) ==> targeted_views(v@) == creation_events(task, data@, *workflow),
        r matches Err(e) ==> e@ == WorkflowErrorView::UnknownState(
            creation_state(data@.state, *workflow)->0,
            workflow.hint(),
        ),
{
    let ghost dv = data@;
    let NewTaskData { title, state, labels, assignees, description, parent } = data;
    let state = match state {
        Some(s) => Some(s),
        None => match workflow.default_state() {
            Some(d) => Some(owned(d)),
            None => None,
        },
    };
    let checked = match &state {
        Some(s) => workflow.validate_state(Some(s.as_str())),
        None => workflow.validate_state(None),
    };
    match checked {
        Err(e) => return Err(e),
        Ok(()) => {},
    }
    let state_kind = match &state {
        Some(s) => workflow.resolve_state_kind(Some(s.as_str())),
        None => workflow.resolve_state_kind(None),
    };
    let mut events: Vec<(TaskId, EventKind)> = Vec::new();
    events.push(
        (
            task,
            EventKind::TaskCreated { title, labels, assignees, description, state, state_kind },
        ),
    );
    match parent {
        Some(p) => {
            events.push((task, EventKind::ChildLinked { parent: p, child: task }));
            events.push((p, EventKind::ChildLinked { parent: p, child: task }));
        },
        None => {},
    }
    assert(targeted_views(events@) =~= creation_events(task, dv, *workflow));
    Ok(events)
}

/// The event carries the kind that the workflow gives its state, when it
/// sets a state.
pub open spec fn carries_resolved_kind(e: EventKindView, workflow: WorkflowConfig) -> bool {
    match e {
        EventKindView::TaskCreated { state, state_kind, .. } => state_kind == workflow.kind_of(state),
        EventKindView::TaskStateSet { state, state_kind } => state_kind == workflow.kind_of(
            Some(state),
        ),
        _ => true,
    }
}

/// Every event that creates a task or sets its state carries the kind that
/// the workflow gives the state, so that readers of the events never have to
/// infer it.
pub proof fn lemma_events_carry_resolved_kind(
    task: TaskId,
    data: NewTaskView,
    p: TaskPatchView,
    workflow: WorkflowConfig,
)
    ensures
        forall|i: int|
            0 <= i < creation_events(task, data, workflow).len() ==> carries_resolved_kind(
                (#[trigger] creation_events(task, data, workflow)[i]).1,
                workflow,
            ),
        forall|i: int|
            0 <= i < patch_events(p, workflow).len() ==> carries_resolved_kind(
                #[trigger] patch_events(p, workflow)[i],
                workflow,
            ),
{
    let ps = patch_events(p, workflow);
    assert forall|i: int| 0 <= i < ps.len() implies carries_resolved_kind(#[trigger] ps[i], workflow) by {
        let t = crate::task_patch::title_events(p.title);
        let st = crate::task_patch::state_events(p.state, workflow);
        if i < t.len() {
            assert(ps[i] == t[i]);
        } else if i < t.len() + st.len() {
            assert(ps[i] == st[i - t.len()]);
        } else {
            assert(ps[i] is TaskDescriptionSet || ps[i] is LabelsAdded || ps[i] is LabelsRemoved
                || ps[i] is AssigneesAdded || ps[i] is AssigneesRemoved);
        }
    }
}

/// The new state a patch asks for, if it asks for one.
pub open spec fn requested_state(p: TaskPatchView) -> Option<Seq<char>> {
    match p.state {
        Some(FieldPatch::Replace(s)) => Some(s),
        _ => None,
    }
}

/// The events that turn `snapshot` into the edited fields; none when nothing
/// changes. A new state that the workflow does not allow is refused.
pub fn plan_task_update(
    snapshot: &TaskSnapshot,
    data: TaskEditData,
    workflow: &WorkflowConfig,
) -> (r: Result<Vec<EventKind>, WorkflowError>)
    ensures
        r is Ok <==> workflow.accepts(requested_state(patch_for(*snapshot, data))),
        r matches Ok(v) ==> kind_views(v@) == patch_events(patch_for(*snapshot, data), *workflow),
        r matches Err(e) ==> e@ == WorkflowErrorView::UnknownState(
            requested_state(patch_for(*snapshot, data))->0,
            workflow.hint(),
        ),
{
    let patch = TaskPatch::from_snapshot(snapshot, data);
    if patch.is_empty() {
        let v: Vec<EventKind> = Vec::new();
        assert(kind_views(v@) =~= patch_events(patch@, *workflow));
        return Ok(v);
    }
    let checked = match &patch.state {
        Some(StatePatch::Replace { state }) => workflow.validate_state(Some(state.as_str())),
        _ => Ok(()),
    };
    match checked {
        Err(e) => Err(e),
        Ok(()) => Ok(patch.into_events(workflow)),
    }
}

/// The event that moves a task from state `current` to `state`: none when it
/// is already there. A state that the workflow does not allow is refused,
/// also when the task already has it.
pub fn plan_state_change(
    current: &Option<String>,
    state: Option<String>,
    workflow: &WorkflowConfig,
) -> (r: Result<Option<EventKind>, WorkflowError>)
    ensures
        r is Ok <==> workflow.accepts(opt_view(state)),
        r matches Err(e) ==> e@ == WorkflowErrorView::UnknownState(
            opt_view(state)->0,
            workflow.hint(),
        ),
        r matches Ok(None) ==> opt_view(*current) == opt_view(state),
        r matches Ok(Some(k)) ==> opt_view(*current) != opt_view(state) && k@ == match opt_view(
            state,
        ) {
            Some(s) => EventKindView::TaskStateSet {
                state: s,
                state_kind: workflow.kind_of(Some(s)),
            },
            None => EventKindView::TaskStateCleared,
        },
{
    let checked = match &state {
        Some(s) => workflow.validate_state(Some(s.as_str())),
        None => workflow.validate_state(None),
    };
    match checked {
        Err(e) => return Err(e),
        Ok(()) => {},
    }
    let same = match (current, &state) {
        (Some(a), Some(b)) => crate::text::str_eq(a.as_str(), b.as_str()),
        (None, None) => true,
        _ => false,
    };
    if same {
        return Ok(None);
    }
    match state {
        Some(value) => {
            let state_kind = workflow.resolve_state_kind(Some(value.as_str()));
            Ok(Some(EventKind::TaskStateSet { state: value, state_kind }))
        },
        None => Ok(Some(EventKind::TaskStateCleared)),
    }
}

/// The update requested by command-line options: a new state, or clearing
/// it when asked and no state is given; a new description; the label and
/// assignee additions and removals as given. A state that the workflow does
/// not allow is refused.
pub fn plan_cli_update(
    workflow: &WorkflowConfig,
    title: Option<String>,
    description: Option<String>,
    state: Option<String>,
    clear_state: bool,
    add_labels: Vec<String>,
    remove_labels: Vec<String>,
    add_assignees: Vec<String>,
    remove_assignees: Vec<String>,
) -> (r: Result<TaskUpdate, WorkflowError>)
    ensures
        r is Ok <==> workflow.accepts(opt_view(state)),
        r matches Err(e) ==> e@ == WorkflowErrorView::UnknownState(
            opt_view(state)->0,
            workflow.hint(),
        ),
        r matches Ok(u) ==> u@ == (TaskPatchView {
            title: opt_view(title),
            state: match opt_view(state) {
                Some(s) => Some(FieldPatch::Replace(s)),
                None => if clear_state {
                    Some(FieldPatch::Clear)
                } else {
                    None
                },
            },
            description: match opt_view(description) {
                Some(d) => Some(FieldPatch::Replace(d)),
                None => None,
            },
            labels_added: views(add_labels@),
            labels_removed: views(remove_labels@),
            assignees_added: views(add_assignees@),
            assignees_removed: views(remove_assignees@),
        }),
{
    let checked = match &state {
        Some(s) => workflow.validate_state(Some(s.as_str())),
        None => Ok(()),
    };
    match checked {
        Err(e) => return Err(e),
        Ok(()) => {},
    }
    let state_patch = match state {
        Some(value) => Some(StatePatch::Replace { state: value }),
        None => if clear_state {
            Some(StatePatch::Clear)
        } else {
            None
        },
    };
    let description_patch = match description {
        Some(body) => Some(DescriptionPatch::Replace { description: body }),
        None => None,
    };
    Ok(
        TaskUpdate {
            title,
            state: state_patch,
            description: description_patch,
            labels: SetDiff { added: add_labels, removed: remove_labels },
            assignees: SetDiff { added: add_assignees, removed: remove_assignees },
        },
    )
}


/// An error of the backing store, as the `anyhow` crate carries it.
#[verifier::external_type_specification]
#[verifier::external_body]
pub struct ExStoreError(anyhow::Error);

/// The object identifier of a stored event, as `git2` gives it.
#[verifier::external_type_specification]
#[verifier::external_body]
pub struct ExOid(git2::Oid);

/// Payload used when creating a task.
#[derive(Debug)]
pub struct CreateTaskRequest {
    /// Human-readable title.
    pub title: String,
    /// Optional workflow state label.
    pub state: Option<String>,
    /// Labels to attach.
    pub labels: Vec<String>,
    /// Initial assignees.
    pub assignees: Vec<String>,
    /// Optional Markdown description.
    pub description: Option<String>,
    /// Parent tasks to link.
    pub parents: Vec<TaskId>,
    /// Actor who authored the request.
    pub actor: Actor,
}

/// Comment body payload.
#[derive(Debug)]
pub struct CommentRequest {
    /// Comment body encoded as Markdown.
    pub body_md: String,
    /// Actor who authored the comment.
    pub actor: Actor,
}

/// Result returned when a task is created.
#[derive(Debug)]
pub struct CreateTaskResult {
    /// Identifier of the new task.
    pub task: TaskId,
    /// Object identifiers of the events written.
    pub events: Vec<git2::Oid>,
}

/// Result returned for update, comment and link operations.
#[derive(Debug)]
pub struct TaskWriteResult {
    /// Identifier of the mutated task.
    pub task: TaskId,
    /// Object identifiers of the events written.
    pub events: Vec<git2::Oid>,
}

/// Errors surfaced by [`TaskWriter`].
#[derive(Debug)]
pub enum TaskWriteError {
    /// Workflow state validation failed.
    InvalidState(String),
    /// Parent task could not be found.
    MissingParent(TaskId),
    /// Target task could not be found.
    MissingTask(TaskId),
    /// Backing store returned an error.
    Store(anyhow::Error),
    /// The operation is not available yet.
    NotImplemented(&'static str),
}

/// Whether the result is the refusal of an operation not available yet.
pub open spec fn not_implemented<T>(r: Result<T, TaskWriteError>, operation: Seq<char>) -> bool {
    r matches Err(TaskWriteError::NotImplemented(name)) && name@ == operation
}

/// High-level service that validates inputs and emits task events.
#[derive(Debug)]
pub struct TaskWriter<S> {
    store: S,
    workflow: WorkflowConfig,
}

impl<S> TaskWriter<S> {
    /// The store the writer appends to.
    pub closed spec fn store_view(&self) -> S {
        self.store
    }

    /// The workflow the writer validates against.
    pub closed spec fn workflow_view(&self) -> WorkflowConfig {
        self.workflow
    }

    /// Construct a new writer.
    pub fn new(store: S, workflow: WorkflowConfig) -> (r: TaskWriter<S>)
        ensures
            r.store_view() == store,
            r.workflow_view() == workflow,
    {
        TaskWriter { store, workflow }
    }

    /// Borrow the workflow configuration.
    pub fn workflow(&self) -> (r: &WorkflowConfig)
        ensures
            *r == self.workflow_view(),
    {
        &self.workflow
    }

    /// Borrow the store.
    pub fn store(&self) -> (r: &S)
        ensures
            *r == self.store_view(),
    {
        &self.store
    }

    /// Create a new task with optional parents; not available yet.
    pub fn create_task(&self, request: CreateTaskRequest) -> (r: Result<CreateTaskResult, TaskWriteError>)
        ensures
            not_implemented(r, "create_task"@),
    {
        Err(TaskWriteError::NotImplemented("create_task"))
    }

    /// Apply an update to an existing task; not available yet.
    pub fn update_task(&self, task: TaskId, patch: TaskUpdate) -> (r: Result<TaskWriteResult, TaskWriteError>)
        ensures
            not_implemented(r, "update_task"@),
    {
        Err(TaskWriteError::NotImplemented("update_task"))
    }

    /// Only change the workflow state of a task; not available yet.
    pub fn set_state(&self, task: TaskId, state: Option<String>, actor: &Actor) -> (r: Result<
        TaskWriteResult,
        TaskWriteError,
    >)
        ensures
            not_implemented(r, "set_state"@),
    {
        Err(TaskWriteError::NotImplemented("set_state"))
    }

    /// Append a Markdown comment to the task; not available yet.
    pub fn add_comment(&self, task: TaskId, comment: CommentRequest) -> (r: Result<
        TaskWriteResult,
        TaskWriteError,
    >)
        ensures
            not_implemented(r, "add_comment"@),
    {
        Err(TaskWriteError::NotImplemented("add_comment"))
    }

    /// Link new parents to the task; not available yet.
    pub fn link_parents(&self, task: TaskId, parents: &[TaskId], actor: &Actor) -> (r: Result<
        TaskWriteResult,
        TaskWriteError,
    >)
        ensures
            not_implemented(r, "link_parents"@),
    {
        Err(TaskWriteError::NotImplemented("link_parents"))
    }

    /// Remove parent links from the task; not available yet.
    pub fn unlink_parents(&self, task: TaskId, parents: &[TaskId], actor: &Actor) -> (r: Result<
        TaskWriteResult,
        TaskWriteError,
    >)
        ensures
            not_implemented(r, "unlink_parents"@),
    {
        Err(TaskWriteError::NotImplemented("unlink_parents"))
    }
}


/// A new task keeps the state it names; only a task that names no state
/// gets the workflow's default state.
pub proof fn lemma_named_state_kept(task: TaskId, data: NewTaskView, workflow: WorkflowConfig)
    ensures
        creation_events(task, data, workflow)[0].1 matches EventKindView::TaskCreated { state, .. } && state
            == match data.state {
            Some(s) => Some(s),
            None => opt_view(workflow.default_state),
        },
        data.state matches Some(s) ==> creation_events(task, data, workflow)[0].1 matches EventKindView::TaskCreated {
            state,
            ..
        } && state == Some(s),
{
}

} // verus!
