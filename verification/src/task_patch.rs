//! Task diffs: the changes that turn a task snapshot into edited fields.
use vstd::prelude::*;

use crate::sets::{
    difference, lemma_is_sort_set, lemma_minus_contains, minus, same_elements, sort_set,
    sorted_set, to_sorted_set,
};
use crate::config::{WorkflowConfig, WorkflowError, WorkflowErrorView};
use crate::editor::NewTaskData;
use crate::event_log::{kind_views, EventKind, EventKindView};
use crate::task::{opt_view, TaskSnapshot};
use crate::text::{str_eq, views};

verus! {

/// Normalized task edit fields used to compute diffs.
#[derive(Debug)]
pub struct TaskEditData {
    /// Desired task title.
    pub title: String,
    /// Desired workflow state (clears when `None`).
    pub state: Option<String>,
    /// Desired label set.
    pub labels: Vec<String>,
    /// Desired assignee set.
    pub assignees: Vec<String>,
    /// Desired description body (`None` leaves it unchanged, `Some("")`
    /// clears it).
    pub description: Option<String>,
}

/// A change of the workflow state.
#[derive(Debug)]
pub enum StatePatch {
    Replace { state: String },
    Clear,
}

/// A change of the description.
#[derive(Debug)]
pub enum DescriptionPatch {
    Replace { description: String },
    Clear,
}

/// Additions to and removals from a set.
#[derive(Debug)]
pub struct SetDiff {
    /// Items to add, in ascending order.
    pub added: Vec<String>,
    /// Items to remove, in ascending order.
    pub removed: Vec<String>,
}

/// Diff between a snapshot and target fields.
#[derive(Debug)]
pub struct TaskPatch {
    /// Title change (if any).
    pub title: Option<String>,
    /// State change (if any).
    pub state: Option<StatePatch>,
    /// Description change (if any).
    pub description: Option<DescriptionPatch>,
    /// Label additions/removals.
    pub labels: SetDiff,
    /// Assignee additions/removals.
    pub assignees: SetDiff,
}

/// Aggregate task update payload.
#[derive(Debug)]
pub struct TaskUpdate {
    pub title: Option<String>,
    pub state: Option<StatePatch>,
    pub description: Option<DescriptionPatch>,
    pub labels: SetDiff,
    pub assignees: SetDiff,
}

/// The view of a [`StatePatch`] or [`DescriptionPatch`].
pub enum FieldPatch {
    Replace(Seq<char>),
    Clear,
}

/// The view of a [`TaskPatch`].
pub struct TaskPatchView {
    pub title: Option<Seq<char>>,
    pub state: Option<FieldPatch>,
    pub description: Option<FieldPatch>,
    pub labels_added: Seq<Seq<char>>,
    pub labels_removed: Seq<Seq<char>>,
    pub assignees_added: Seq<Seq<char>>,
    pub assignees_removed: Seq<Seq<char>>,
}

/// The view of an optional state change.
pub open spec fn state_patch_view(p: Option<StatePatch>) -> Option<FieldPatch> {
    match p {
        Some(StatePatch::Replace { state }) => Some(FieldPatch::Replace(state@)),
        Some(StatePatch::Clear) => Some(FieldPatch::Clear),
        None => None,
    }
}

/// The view of an optional description change.
pub open spec fn description_patch_view(p: Option<DescriptionPatch>) -> Option<FieldPatch> {
    match p {
        Some(DescriptionPatch::Replace { description }) => Some(FieldPatch::Replace(description@)),
        Some(DescriptionPatch::Clear) => Some(FieldPatch::Clear),
        None => None,
    }
}

impl View for TaskPatch {
    type V = TaskPatchView;

    open spec fn view(&self) -> TaskPatchView {
        TaskPatchView {
            title: opt_view(self.title),
            state: state_patch_view(self.state),
            description: description_patch_view(self.description),
            labels_added: views(self.labels.added@),
            labels_removed: views(self.labels.removed@),
            assignees_added: views(self.assignees.added@),
            assignees_removed: views(self.assignees.removed@),
        }
    }
}

impl View for TaskUpdate {
    type V = TaskPatchView;

    open spec fn view(&self) -> TaskPatchView {
        TaskPatchView {
            title: opt_view(self.title),
            state: state_patch_view(self.state),
            description: description_patch_view(self.description),
            labels_added: views(self.labels.added@),
            labels_removed: views(self.labels.removed@),
            assignees_added: views(self.assignees.added@),
            assignees_removed: views(self.assignees.removed@),
        }
    }
}

/// The state change from `old` to `new`.
pub open spec fn state_change(old: Option<Seq<char>>, new: Option<Seq<char>>) -> Option<FieldPatch> {
    match (old, new) {
        (Some(o), Some(n)) => if o != n {
            Some(FieldPatch::Replace(n))
        } else {
            None
        },
        (None, Some(n)) => Some(FieldPatch::Replace(n)),
        (Some(_), None) => Some(FieldPatch::Clear),
        (None, None) => None,
    }
}

/// The description the edit asks for: the one given, or else the current
/// one `old`.
pub open spec fn desired_description(old: Seq<char>, d: Option<Seq<char>>) -> Seq<char> {
    match d {
        Some(t) => t,
        None => old,
    }
}

/// The description change from `old` to the desired `new`: none when no
/// description is given or it equals `old`, a clear for an empty one, and
/// otherwise the new text.
pub open spec fn description_change(old: Seq<char>, new: Option<Seq<char>>) -> Option<FieldPatch> {
    let target = desired_description(old, new);
    if target == old {
        None
    } else if target.len() == 0 {
        Some(FieldPatch::Clear)
    } else {
        Some(FieldPatch::Replace(target))
    }
}

/// The patch that turns `snapshot` into the edited fields.
pub open spec fn patch_for(snapshot: TaskSnapshot, data: TaskEditData) -> TaskPatchView {
    let labels = sort_set(views(data.labels@));
    let assignees = sort_set(views(data.assignees@));
    TaskPatchView {
        title: if data.title@ != snapshot.title@ {
            Some(data.title@)
        } else {
            None
        },
        state: state_change(opt_view(snapshot.state), opt_view(data.state)),
        description: description_change(snapshot.description@, opt_view(data.description)),
        labels_added: minus(labels, snapshot.label_views()),
        labels_removed: minus(snapshot.label_views(), labels),
        assignees_added: minus(assignees, snapshot.assignee_views()),
        assignees_removed: minus(snapshot.assignee_views(), assignees),
    }
}

/// The patch changes nothing.
pub open spec fn patch_is_empty(p: TaskPatchView) -> bool {
    &&& p.title is None
    &&& p.state is None
    &&& p.description is None
    &&& p.labels_added.len() == 0
    &&& p.labels_removed.len() == 0
    &&& p.assignees_added.len() == 0
    &&& p.assignees_removed.len() == 0
}

/// A field value after applying an optional change.
pub open spec fn apply_field(old: Option<Seq<char>>, p: Option<FieldPatch>) -> Option<Seq<char>> {
    match p {
        Some(FieldPatch::Replace(v)) => Some(v),
        Some(FieldPatch::Clear) => None,
        None => old,
    }
}

/// A text field after applying an optional change; clearing empties it.
pub open spec fn apply_text(old: Seq<char>, p: Option<FieldPatch>) -> Seq<char> {
    match p {
        Some(FieldPatch::Replace(v)) => v,
        Some(FieldPatch::Clear) => Seq::<char>::empty(),
        None => old,
    }
}

/// Set membership after removing `removed` and adding `added`.
pub open spec fn in_applied(
    current: Seq<Seq<char>>,
    added: Seq<Seq<char>>,
    removed: Seq<Seq<char>>,
    x: Seq<char>,
) -> bool {
    (current.contains(x) && !removed.contains(x)) || added.contains(x)
}


/// One event when `present`, none otherwise.
pub open spec fn event_if(present: bool, e: EventKindView) -> Seq<EventKindView> {
    if present {
        seq![e]
    } else {
        Seq::<EventKindView>::empty()
    }
}

/// The event of a title change.
pub open spec fn title_events(title: Option<Seq<char>>) -> Seq<EventKindView> {
    match title {
        Some(t) => seq![EventKindView::TaskTitleSet { title: t }],
        None => Seq::<EventKindView>::empty(),
    }
}

/// The event of a state change; a new state carries the kind the workflow
/// gives it.
pub open spec fn state_events(state: Option<FieldPatch>, workflow: WorkflowConfig) -> Seq<
    EventKindView,
> {
    match state {
        Some(FieldPatch::Replace(s)) => seq![
            EventKindView::TaskStateSet { state: s, state_kind: workflow.kind_of(Some(s)) },
        ],
        Some(FieldPatch::Clear) => seq![EventKindView::TaskStateCleared],
        None => Seq::<EventKindView>::empty(),
    }
}

/// The event of a description change; clearing sets no description.
pub open spec fn description_events(description: Option<FieldPatch>) -> Seq<EventKindView> {
    match description {
        Some(FieldPatch::Replace(d)) => seq![
            EventKindView::TaskDescriptionSet { description: Some(d) },
        ],
        Some(FieldPatch::Clear) => seq![EventKindView::TaskDescriptionSet { description: None }],
        None => Seq::<EventKindView>::empty(),
    }
}

/// The events that record a patch, in order: title, state, description,
/// labels added, labels removed, assignees added, assignees removed; a set
/// change only when it names at least one item.
pub open spec fn patch_events(p: TaskPatchView, workflow: WorkflowConfig) -> Seq<EventKindView> {
    title_events(p.title) + state_events(p.state, workflow) + description_events(p.description)
        + event_if(p.labels_added.len() > 0, set_event(SetEventKind::LabelsAdded, p.labels_added))
        + event_if(
        p.labels_removed.len() > 0,
        set_event(SetEventKind::LabelsRemoved, p.labels_removed),
    ) + event_if(
        p.assignees_added.len() > 0,
        set_event(SetEventKind::AssigneesAdded, p.assignees_added),
    ) + event_if(
        p.assignees_removed.len() > 0,
        set_event(SetEventKind::AssigneesRemoved, p.assignees_removed),
    )
}

/// A patch is recorded by no event exactly when it changes nothing.
pub proof fn lemma_patch_events_empty(p: TaskPatchView, workflow: WorkflowConfig)
    ensures
        patch_events(p, workflow).len() == 0 <==> patch_is_empty(p),
{
}


/// Which set change an event records.
pub enum SetEventKind {
    LabelsAdded,
    LabelsRemoved,
    AssigneesAdded,
    AssigneesRemoved,
}

/// The event recording a set change of the given items.
pub open spec fn set_event(which: SetEventKind, items: Seq<Seq<char>>) -> EventKindView {
    match which {
        SetEventKind::LabelsAdded => EventKindView::LabelsAdded { labels: items },
        SetEventKind::LabelsRemoved => EventKindView::LabelsRemoved { labels: items },
        SetEventKind::AssigneesAdded => EventKindView::AssigneesAdded { assignees: items },
        SetEventKind::AssigneesRemoved => EventKindView::AssigneesRemoved { assignees: items },
    }
}

fn push_title_event(events: &mut Vec<EventKind>, title: Option<String>)
    ensures
        kind_views(final(events)@) == kind_views(old(events)@) + title_events(opt_view(title)),
{
    let ghost before = events@;
    match title {
        Some(title) => events.push(EventKind::TaskTitleSet { title }),
        None => {},
    }
    assert(kind_views(events@) =~= kind_views(before) + title_events(opt_view(title)));
}

fn push_state_event(events: &mut Vec<EventKind>, state: Option<StatePatch>, workflow: &WorkflowConfig)
    ensures
        kind_views(final(events)@) == kind_views(old(events)@) + state_events(
            state_patch_view(state),
            *workflow,
        ),
{
    let ghost before = events@;
    let ghost sv = state_patch_view(state);
    match state {
        Some(StatePatch::Replace { state }) => {
            let state_kind = workflow.resolve_state_kind(Some(state.as_str()));
            events.push(EventKind::TaskStateSet { state, state_kind });
        },
        Some(StatePatch::Clear) => events.push(EventKind::TaskStateCleared),
        None => {},
    }
    assert(kind_views(events@) =~= kind_views(before) + state_events(sv, *workflow));
}

fn push_description_event(events: &mut Vec<EventKind>, description: Option<DescriptionPatch>)
    ensures
        kind_views(final(events)@) == kind_views(old(events)@) + description_events(
            description_patch_view(description),
        ),
{
    let ghost before = events@;
    let ghost dv = description_patch_view(description);
    match description {
        Some(DescriptionPatch::Replace { description }) => events.push(
            EventKind::TaskDescriptionSet { description: Some(description) },
        ),
        Some(DescriptionPatch::Clear) => events.push(
            EventKind::TaskDescriptionSet { description: None },
        ),
        None => {},
    }
    assert(kind_views(events@) =~= kind_views(before) + description_events(dv));
}

fn push_items_event(events: &mut Vec<EventKind>, items: Vec<String>, which: SetEventKind)
    ensures
        kind_views(final(events)@) == kind_views(old(events)@) + event_if(
            items@.len() > 0,
            set_event(which, views(items@)),
        ),
{
    let ghost before = events@;
    let ghost iv = views(items@);
    let ghost w = which;
    if items.len() > 0 {
        let e = match which {
            SetEventKind::LabelsAdded => EventKind::LabelsAdded { labels: items },
            SetEventKind::LabelsRemoved => EventKind::LabelsRemoved { labels: items },
            SetEventKind::AssigneesAdded => EventKind::AssigneesAdded { assignees: items },
            SetEventKind::AssigneesRemoved => EventKind::AssigneesRemoved { assignees: items },
        };
        assert(e@ == set_event(w, iv));
        events.push(e);
    }
    assert(kind_views(events@) =~= kind_views(before) + event_if(iv.len() > 0, set_event(w, iv)));
}

/// The differences between two string sets: what `desired` has that
/// `current` lacks, and what `current` has that `desired` lacks, each in the
/// order of its source.
pub fn diff_sets(current: &Vec<String>, desired: &Vec<String>) -> (r: SetDiff)
    ensures
        views(r.added@) == minus(views(desired@), views(current@)),
        views(r.removed@) == minus(views(current@), views(desired@)),
{
    SetDiff { added: difference(desired, current), removed: difference(current, desired) }
}

impl SetDiff {
    /// No addition and no removal.
    pub fn is_empty(&self) -> (r: bool)
        ensures
            r == (self.added@.len() == 0 && self.removed@.len() == 0),
    {
        self.added.len() == 0 && self.removed.len() == 0
    }
}

impl From<NewTaskData> for TaskEditData {
    /// The edit of a task with the task form's fields.
    fn from(data: NewTaskData) -> (r: Self) {
        TaskEditData {
            title: data.title,
            state: data.state,
            labels: data.labels,
            assignees: data.assignees,
            description: data.description,
        }
    }
}

impl vstd::std_specs::convert::FromSpecImpl<NewTaskData> for TaskEditData {
    open spec fn obeys_from_spec() -> bool {
        true
    }

    open spec fn from_spec(v: NewTaskData) -> TaskEditData {
        TaskEditData {
            title: v.title,
            state: v.state,
            labels: v.labels,
            assignees: v.assignees,
            description: v.description,
        }
    }
}

impl TaskEditData {
    /// The edit that the task editor's form asks for: its fields, where a
    /// blank description deletes the description (the form says so).
    pub fn from_form(data: NewTaskData) -> (r: TaskEditData)
        ensures
            r.title == data.title,
            r.state == data.state,
            r.labels == data.labels,
            r.assignees == data.assignees,
            r.description matches Some(d) && d@ == match data.description {
                Some(x) => x@,
                None => Seq::<char>::empty(),
            },
    {
        let description = match data.description {
            Some(d) => d,
            None => {
                proof {
                    reveal_strlit("");
                }
                crate::text::owned("")
            },
        };
        TaskEditData {
            title: data.title,
            state: data.state,
            labels: data.labels,
            assignees: data.assignees,
            description: Some(description),
        }
    }
}

impl TaskEditData {
    /// Construct a new edit payload.
    pub fn new(
        title: String,
        state: Option<String>,
        labels: Vec<String>,
        assignees: Vec<String>,
        description: Option<String>,
    ) -> (r: TaskEditData)
        ensures
            r.title == title,
            r.state == state,
            r.labels == labels,
            r.assignees == assignees,
            r.description == description,
    {
        TaskEditData { title, state, labels, assignees, description }
    }
}

fn opt_eq(a: &Option<String>, b: &Option<String>) -> (r: bool)
    ensures
        r == (opt_view(*a) == opt_view(*b)),
{
    match (a, b) {
        (Some(x), Some(y)) => str_eq(x.as_str(), y.as_str()),
        (None, None) => true,
        _ => false,
    }
}

impl TaskPatch {
    /// Compute the patch that turns a snapshot into the edited fields.
    pub fn from_snapshot(snapshot: &TaskSnapshot, data: TaskEditData) -> (r: TaskPatch)
        ensures
            r@ == patch_for(*snapshot, data),
    {
        let ghost data0 = data;
        let TaskEditData { title, state, labels, assignees, description } = data;
        let title_patch = if !str_eq(title.as_str(), snapshot.title.as_str()) {
            Some(title)
        } else {
            None
        };
        let state_patch = match (&snapshot.state, state) {
            (Some(old), Some(new)) => {
                if !str_eq(old.as_str(), new.as_str()) {
                    Some(StatePatch::Replace { state: new })
                } else {
                    None
                }
            },
            (None, Some(new)) => Some(StatePatch::Replace { state: new }),
            (Some(_), None) => Some(StatePatch::Clear),
            (None, None) => None,
        };
        let desired_labels = to_sorted_set(&labels);
        let label_diff = diff_sets(&snapshot.labels, &desired_labels);
        let desired_assignees = to_sorted_set(&assignees);
        let assignee_diff = diff_sets(&snapshot.assignees, &desired_assignees);
        let description_patch = match description {
            None => None,
            Some(text) => {
                if text.as_str().is_empty() {
                    if snapshot.description.as_str().is_empty() {
                        assert(snapshot.description@ =~= text@);
                        None
                    } else {
                        Some(DescriptionPatch::Clear)
                    }
                } else if str_eq(text.as_str(), snapshot.description.as_str()) {
                    None
                } else {
                    Some(DescriptionPatch::Replace { description: text })
                }
            },
        };
        let r = TaskPatch {
            title: title_patch,
            state: state_patch,
            description: description_patch,
            labels: label_diff,
            assignees: assignee_diff,
        };
        let ghost pv = patch_for(*snapshot, data0);
        assert(r@.title == pv.title);
        assert(r@.state == pv.state);
        assert(r@.description == pv.description);
        assert(r@.labels_added == pv.labels_added);
        assert(r@.assignees_removed == pv.assignees_removed);
        r
    }

    /// Returns true when the patch would not change the task.
    pub fn is_empty(&self) -> (r: bool)
        ensures
            r == patch_is_empty(self@),
    {
        self.title.is_none() && self.state.is_none() && self.description.is_none()
            && self.labels.is_empty() && self.assignees.is_empty()
    }

    /// The events that record the patch.
    pub fn into_events(self, workflow: &WorkflowConfig) -> (r: Vec<EventKind>)
        ensures
            kind_views(r@) == patch_events(self@, *workflow),
    {
        let ghost pv = self@;
        let mut events: Vec<EventKind> = Vec::new();
        push_title_event(&mut events, self.title);
        push_state_event(&mut events, self.state, workflow);
        push_description_event(&mut events, self.description);
        let SetDiff { added: labels_added, removed: labels_removed } = self.labels;
        let SetDiff { added: assignees_added, removed: assignees_removed } = self.assignees;
        push_items_event(&mut events, labels_added, SetEventKind::LabelsAdded);
        push_items_event(&mut events, labels_removed, SetEventKind::LabelsRemoved);
        push_items_event(&mut events, assignees_added, SetEventKind::AssigneesAdded);
        push_items_event(&mut events, assignees_removed, SetEventKind::AssigneesRemoved);
        assert(kind_views(events@) =~= patch_events(pv, *workflow));
        events
    }

    /// Convert the patch into a task update.
    pub fn into_task_update(self) -> (r: TaskUpdate)
        ensures
            r@ == self@,
    {
        TaskUpdate {
            title: self.title,
            state: self.state,
            description: self.description,
            labels: self.labels,
            assignees: self.assignees,
        }
    }
}

/// Applying the patch computed for an edit to the snapshot yields exactly
/// the edited fields: the title, the state, the description (empty when the
/// edit gives none) and the label and assignee sets.
pub proof fn lemma_patch_reaches_edit(snapshot: TaskSnapshot, data: TaskEditData)
    ensures
        ({
            let p = patch_for(snapshot, data);
            &&& match p.title {
                Some(t) => t,
                None => snapshot.title@,
            } == data.title@
            &&& apply_field(opt_view(snapshot.state), p.state) == opt_view(data.state)
            &&& apply_text(snapshot.description@, p.description) == desired_description(
                snapshot.description@,
                opt_view(data.description),
            )
            &&& forall|x: Seq<char>|
                in_applied(snapshot.label_views(), p.labels_added, p.labels_removed, x)
                    <==> views(data.labels@).contains(x)
            &&& forall|x: Seq<char>|
                in_applied(snapshot.assignee_views(), p.assignees_added, p.assignees_removed, x)
                    <==> views(data.assignees@).contains(x)
        }),
{
    let labels = sort_set(views(data.labels@));
    let assignees = sort_set(views(data.assignees@));
    lemma_sort_set_props(views(data.labels@));
    lemma_sort_set_props(views(data.assignees@));
    lemma_minus_contains(labels, snapshot.label_views());
    lemma_minus_contains(snapshot.label_views(), labels);
    lemma_minus_contains(assignees, snapshot.assignee_views());
    lemma_minus_contains(snapshot.assignee_views(), assignees);
}

/// `sort_set` is a sorted set with the same elements.
pub proof fn lemma_sort_set_props(s: Seq<Seq<char>>)
    ensures
        sorted_set(sort_set(s)),
        same_elements(sort_set(s), s),
{
    let r = crate::sets::sorted_witness(s);
    lemma_is_sort_set(r, s);
}

/// The patch for an edit is empty exactly when the snapshot already has the
/// edited fields.
pub proof fn lemma_patch_empty_iff_unchanged(snapshot: TaskSnapshot, data: TaskEditData)
    ensures
        patch_is_empty(patch_for(snapshot, data)) <==> {
            &&& data.title@ == snapshot.title@
            &&& opt_view(data.state) == opt_view(snapshot.state)
            &&& desired_description(snapshot.description@, opt_view(data.description))
                == snapshot.description@
            &&& same_elements(views(data.labels@), snapshot.label_views())
            &&& same_elements(views(data.assignees@), snapshot.assignee_views())
        },
{
    let labels = sort_set(views(data.labels@));
    let assignees = sort_set(views(data.assignees@));
    lemma_sort_set_props(views(data.labels@));
    lemma_sort_set_props(views(data.assignees@));
    lemma_minus_contains(labels, snapshot.label_views());
    lemma_minus_contains(snapshot.label_views(), labels);
    lemma_minus_contains(assignees, snapshot.assignee_views());
    lemma_minus_contains(snapshot.assignee_views(), assignees);
    lemma_minus_empty(labels, snapshot.label_views());
    lemma_minus_empty(snapshot.label_views(), labels);
    lemma_minus_empty(assignees, snapshot.assignee_views());
    lemma_minus_empty(snapshot.assignee_views(), assignees);
    let p = patch_for(snapshot, data);
    if opt_view(data.state) != opt_view(snapshot.state) {
        assert(p.state is Some);
    }
}

/// `minus(s, t)` is empty exactly when every element of `s` is in `t`.
pub proof fn lemma_minus_empty(s: Seq<Seq<char>>, t: Seq<Seq<char>>)
    ensures
        minus(s, t).len() == 0 <==> forall|x: Seq<char>| s.contains(x) ==> t.contains(x),
{
    lemma_minus_contains(s, t);
    if minus(s, t).len() > 0 {
        assert(minus(s, t).contains(minus(s, t)[0]));
    }
    if exists|x: Seq<char>| s.contains(x) && !t.contains(x) {
        let x = choose|x: Seq<char>| s.contains(x) && !t.contains(x);
        assert(minus(s, t).contains(x));
    }
}

} // verus!
