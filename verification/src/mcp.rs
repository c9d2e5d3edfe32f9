//! The requests of the MCP tools, and what the tools compute from a task's
//! events.
use vstd::prelude::*;

use crate::commands::first_bad_id;
use crate::event_log::{Actor, Event, EventKind};
use crate::filter::TaskFilter;
use crate::filter_args::{
    assemble_filter, conditions_error, id_inputs, makes_filter, read_request_ids, trimmed_ids,
    FilterConditions,
};
use crate::text::trim;
use crate::task::{uuid_text, EventId, TaskId};
use crate::task_patch::{DescriptionPatch, FieldPatch, SetDiff, StatePatch, TaskPatchView, TaskUpdate};
use crate::text::{concat2, owned, push_str, views};

verus! {

/// Parameters for creating a new task.
#[derive(Debug)]
pub struct CreateTaskParams {
    /// Human-readable title for the task.
    pub title: String,
    /// Optional workflow state; the workflow's default state when omitted.
    pub state: Option<String>,
    /// Labels to attach to the task.
    pub labels: Vec<String>,
    /// Initial assignees.
    pub assignees: Vec<String>,
    /// Optional description in Markdown.
    pub description: Option<String>,
    /// Identifiers of the tasks the new task is placed under.
    pub parents: Vec<String>,
    /// Optional actor display name.
    pub actor_name: Option<String>,
    /// Optional actor email.
    pub actor_email: Option<String>,
}

/// Parameters for updating an existing task.
#[derive(Debug)]
pub struct UpdateTaskParams {
    /// Task ID to update.
    pub task_id: String,
    /// New title.
    pub title: Option<String>,
    /// New description.
    pub description: Option<String>,
    /// New workflow state.
    pub state: Option<String>,
    /// Whether to clear the workflow state.
    pub clear_state: bool,
    /// Labels to add.
    pub add_labels: Vec<String>,
    /// Labels to remove.
    pub remove_labels: Vec<String>,
    /// Assignees to add.
    pub add_assignees: Vec<String>,
    /// Assignees to remove.
    pub remove_assignees: Vec<String>,
    /// Parent task IDs to link.
    pub link_parents: Vec<String>,
    /// Parent task IDs to unlink.
    pub unlink_parents: Vec<String>,
    /// Optional actor display name.
    pub actor_name: Option<String>,
    /// Optional actor email.
    pub actor_email: Option<String>,
}

/// Parameters for updating a comment.
#[derive(Debug)]
pub struct UpdateCommentParams {
    /// Task ID containing the comment.
    pub task_id: String,
    /// Comment ID to update.
    pub comment_id: String,
    /// New comment body in Markdown.
    pub body_md: String,
    /// Optional actor display name.
    pub actor_name: Option<String>,
    /// Optional actor email.
    pub actor_email: Option<String>,
}

/// Parameters for adding a comment.
#[derive(Debug)]
pub struct AddCommentParams {
    /// Task ID to add the comment to.
    pub task_id: String,
    /// Comment body in Markdown.
    pub body_md: String,
    /// Optional actor display name.
    pub actor_name: Option<String>,
    /// Optional actor email.
    pub actor_email: Option<String>,
}

/// Parameters for retrieving a single task snapshot.
#[derive(Debug)]
pub struct GetTaskParams {
    /// Task ID to fetch.
    pub task_id: String,
}

/// Parameters for listing comments on a task.
#[derive(Debug)]
pub struct ListCommentsParams {
    /// Task ID whose comments should be returned.
    pub task_id: String,
}

/// Parameters for listing subtasks of a parent task.
#[derive(Debug)]
pub struct ListSubtasksParams {
    /// Parent task ID whose subtasks to list.
    pub parent_task_id: String,
}

/// Parameters for listing tasks with optional filters.
#[derive(Debug)]
pub struct ListTasksParams {
    /// Limit results to tasks in any of these workflow states.
    pub states: Vec<String>,
    /// Require every listed label.
    pub labels: Vec<String>,
    /// Match tasks that include any of these assignees.
    pub assignees: Vec<String>,
    /// Include only these workflow state kinds.
    pub include_state_kinds: Vec<String>,
    /// Exclude these workflow state kinds.
    pub exclude_state_kinds: Vec<String>,
    /// Require tasks to include any of these parents.
    pub parents: Vec<String>,
    /// Require tasks to include any of these children.
    pub children: Vec<String>,
    /// Match tasks updated at or after this time (RFC 3339).
    pub updated_since: Option<String>,
    /// Match tasks updated at or before this time (RFC 3339).
    pub updated_until: Option<String>,
    /// Case-insensitive substring search.
    pub text: Option<String>,
}

impl ListTasksParams {
    /// The names of the state kinds to leave out: those asked for, or
    /// `done` when the request names no state and no state kind at all.
    pub open spec fn dropped_kind_names(self) -> Seq<Seq<char>> {
        if self.states@.len() == 0 && self.include_state_kinds@.len() == 0
            && self.exclude_state_kinds@.len() == 0 {
            seq!["done"@]
        } else {
            views(self.exclude_state_kinds@)
        }
    }

    /// The conditions of the request, with the related tasks read from
    /// their trimmed inputs.
    pub open spec fn conditions(self) -> FilterConditions {
        FilterConditions {
            states: views(self.states@),
            labels: views(self.labels@),
            assignees: views(self.assignees@),
            parents: trimmed_ids(self.parents@),
            children: trimmed_ids(self.children@),
            kept: views(self.include_state_kinds@),
            dropped: self.dropped_kind_names(),
            text: crate::task::opt_view(self.text),
            since: crate::task::opt_view(self.updated_since),
            until: crate::task::opt_view(self.updated_until),
        }
    }

    /// The state kinds to leave out: those asked for, or `done` when the
    /// request names no state and no state kind at all.
    pub fn excluded_kinds(&self) -> (r: Vec<String>)
        ensures
            views(r@) == self.dropped_kind_names(),
    {
        let mut out: Vec<String> = Vec::new();
        let mut i: usize = 0;
        while i < self.exclude_state_kinds.len()
            invariant
                i <= self.exclude_state_kinds@.len(),
                views(out@) == views(self.exclude_state_kinds@.take(i as int)),
            decreases self.exclude_state_kinds@.len() - i,
        {
            out.push(owned(self.exclude_state_kinds[i].as_str()));
            assert(views(self.exclude_state_kinds@.take(i + 1)) =~= views(
                self.exclude_state_kinds@.take(i as int),
            ).push(self.exclude_state_kinds@[i as int]@));
            i = i + 1;
        }
        assert(self.exclude_state_kinds@.take(self.exclude_state_kinds@.len() as int)
            =~= self.exclude_state_kinds@);
        if self.states.len() == 0 && self.include_state_kinds.len() == 0 && self.exclude_state_kinds.len()
            == 0 {
            out.push(owned("done"));
            assert(views(out@) =~= seq!["done"@]);
        }
        out
    }

    /// The filter the request asks for: a parent, then a child, that is no
    /// task identifier is refused, and so are the conditions that make no
    /// filter. Unless the request names a state or a state kind, tasks of
    /// the `done` kind are left out.
    pub fn into_filter(self) -> (r: Result<TaskFilter, String>)
        ensures
            match first_bad_id(id_inputs(views(self.parents@), true), 0) {
                Some(k) => r matches Err(m) && m@ == "Invalid parent id: "@ + trim(self.parents@[k]@),
                None => match first_bad_id(id_inputs(views(self.children@), true), 0) {
                    Some(k) => r matches Err(m) && m@ == "Invalid child id: "@ + trim(
                        self.children@[k]@,
                    ),
                    None => match conditions_error(self.conditions()) {
                        Some(e) => r matches Err(m) && m@ == e,
                        None => r matches Ok(f) && makes_filter(self.conditions(), f@),
                    },
                },
            },
    {
        proof {
            reveal_strlit("Invalid ");
            reveal_strlit("parent");
            reveal_strlit("child");
            reveal_strlit(" id: ");
            reveal_strlit("Invalid parent id: ");
            reveal_strlit("Invalid child id: ");
            assert("Invalid "@ + "parent"@ + " id: "@ =~= "Invalid parent id: "@);
            assert("Invalid "@ + "child"@ + " id: "@ =~= "Invalid child id: "@);
        }
        let parents = match read_request_ids(&self.parents, "parent") {
            Ok(v) => v,
            Err(e) => return Err(e),
        };
        let children = match read_request_ids(&self.children, "child") {
            Ok(v) => v,
            Err(e) => return Err(e),
        };
        let dropped = self.excluded_kinds();
        assemble_filter(
            &self.states,
            &self.labels,
            &self.assignees,
            &parents,
            &children,
            &self.include_state_kinds,
            &dropped,
            &self.text,
            &self.updated_since,
            &self.updated_until,
        )
    }
}

impl UpdateTaskParams {
    /// The update the request asks for: the new title, a new state (or
    /// clearing it when asked and no state is given), a new description,
    /// and the label and assignee changes as given.
    pub fn task_update(&self) -> (r: TaskUpdate)
        ensures
            r@ == (TaskPatchView {
                title: crate::task::opt_view(self.title),
                state: match crate::task::opt_view(self.state) {
                    Some(s) => Some(FieldPatch::Replace(s)),
                    None => if self.clear_state {
                        Some(FieldPatch::Clear)
                    } else {
                        None
                    },
                },
                description: match crate::task::opt_view(self.description) {
                    Some(d) => Some(FieldPatch::Replace(d)),
                    None => None,
                },
                labels_added: views(self.add_labels@),
                labels_removed: views(self.remove_labels@),
                assignees_added: views(self.add_assignees@),
                assignees_removed: views(self.remove_assignees@),
            }),
    {
        let state = match &self.state {
            Some(value) => Some(StatePatch::Replace { state: owned(value.as_str()) }),
            None => if self.clear_state {
                Some(StatePatch::Clear)
            } else {
                None
            },
        };
        let description = match &self.description {
            Some(body) => Some(DescriptionPatch::Replace { description: owned(body.as_str()) }),
            None => None,
        };
        let title = match &self.title {
            Some(t) => Some(owned(t.as_str())),
            None => None,
        };
        TaskUpdate {
            title,
            state,
            description,
            labels: SetDiff {
                added: copy_strings(&self.add_labels),
                removed: copy_strings(&self.remove_labels),
            },
            assignees: SetDiff {
                added: copy_strings(&self.add_assignees),
                removed: copy_strings(&self.remove_assignees),
            },
        }
    }
}

fn copy_strings(v: &Vec<String>) -> (r: Vec<String>)
    ensures
        views(r@) == views(v@),
{
    let mut out: Vec<String> = Vec::new();
    let mut i: usize = 0;
    while i < v.len()
        invariant
            i <= v@.len(),
            views(out@) == views(v@.take(i as int)),
        decreases v@.len() - i,
    {
        out.push(owned(v[i].as_str()));
        assert(views(v@.take(i + 1)) =~= views(v@.take(i as int)).push(v@[i as int]@));
        i = i + 1;
    }
    assert(v@.take(v@.len() as int) =~= v@);
    out
}

/// A comment as the comment listing shows it.
#[derive(Debug)]
pub struct CommentRecord {
    /// Identifier of the comment.
    pub comment_id: EventId,
    /// Author of the comment.
    pub actor: Actor,
    /// Current body.
    pub body_md: String,
    /// Time the comment was added, in nanoseconds since the Unix epoch.
    pub created_at: i128,
    /// Time of its last update, if any.
    pub updated_at: Option<i128>,
}

/// The view of a [`CommentRecord`].
pub struct CommentView {
    pub comment_id: EventId,
    pub actor_name: Seq<char>,
    pub actor_email: Seq<char>,
    pub body: Seq<char>,
    pub created_at: i128,
    pub updated_at: Option<i128>,
}

/// The views of comment records.
pub open spec fn comment_views(s: Seq<CommentRecord>) -> Seq<CommentView> {
    s.map_values(
        |c: CommentRecord|
            CommentView {
                comment_id: c.comment_id,
                actor_name: c.actor.name@,
                actor_email: c.actor.email@,
                body: c.body_md@,
                created_at: c.created_at,
                updated_at: c.updated_at,
            },
    )
}

/// The last position of the comment `id`.
pub open spec fn last_comment(cs: Seq<CommentView>, id: EventId) -> Option<int>
    decreases cs.len(),
{
    if cs.len() == 0 {
        None
    } else if cs.last().comment_id == id {
        Some(cs.len() - 1)
    } else {
        last_comment(cs.drop_last(), id)
    }
}

/// The comments after reading the events in order: an added comment is
/// appended; an update changes the body and update time of the comment
/// last added with that identifier; an update of a comment never added is
/// an error naming it.
pub open spec fn comment_history(events: Seq<Event>) -> Result<Seq<CommentView>, EventId>
    decreases events.len(),
{
    if events.len() == 0 {
        Ok(Seq::<CommentView>::empty())
    } else {
        match comment_history(events.drop_last()) {
            Err(id) => Err(id),
            Ok(cs) => {
                let e = events.last();
                match e.kind {
                    EventKind::CommentAdded { comment_id, body_md } => Ok(
                        cs.push(
                            CommentView {
                                comment_id,
                                actor_name: e.actor.name@,
                                actor_email: e.actor.email@,
                                body: body_md@,
                                created_at: e.ts,
                                updated_at: None,
                            },
                        ),
                    ),
                    EventKind::CommentUpdated { comment_id, body_md } => match last_comment(
                        cs,
                        comment_id,
                    ) {
                        Some(k) => Ok(
                            cs.update(
                                k,
                                CommentView { body: body_md@, updated_at: Some(e.ts), ..cs[k] },
                            ),
                        ),
                        None => Err(comment_id),
                    },
                    _ => Ok(cs),
                }
            },
        }
    }
}

/// The message for an update of a comment never added.
pub open spec fn orphan_update_message(id: EventId) -> Seq<char> {
    "Comment "@ + uuid_text(id.value) + " was updated before it was added"@
}

proof fn lemma_last_comment(cs: Seq<CommentView>, id: EventId)
    ensures
        last_comment(cs, id) matches Some(k) ==> 0 <= k < cs.len() && cs[k].comment_id == id,
    decreases cs.len(),
{
    if cs.len() > 0 && cs.last().comment_id != id {
        lemma_last_comment(cs.drop_last(), id);
    }
}

fn last_comment_position(cs: &Vec<CommentRecord>, id: EventId) -> (r: Option<usize>)
    ensures
        r matches Some(k) ==> k < cs@.len(),
        r matches Some(k) ==> last_comment(comment_views(cs@), id) == Some(k as int),
        r is None ==> last_comment(comment_views(cs@), id) is None,
{
    let ghost vs = comment_views(cs@);
    let mut k: usize = cs.len();
    assert(vs.take(k as int) =~= vs);
    while k > 0
        invariant
            k <= cs@.len(),
            vs == comment_views(cs@),
            last_comment(vs, id) == last_comment(vs.take(k as int), id),
        decreases k,
    {
        let ghost t = vs.take(k as int);
        assert(t.drop_last() =~= vs.take(k - 1));
        assert(t.last() == vs[k - 1]);
        if cs[k - 1].comment_id == id {
            proof {
                lemma_last_comment(vs.take(k as int), id);
            }
            return Some(k - 1);
        }
        k = k - 1;
    }
    None
}

/// The comments of a task's events, read in order, or the error for an
/// update of a comment that was never added.
pub fn comment_records(events: &Vec<Event>) -> (r: Result<Vec<CommentRecord>, String>)
    ensures
        match comment_history(events@) {
            Ok(cs) => r matches Ok(v) && comment_views(v@) == cs,
            Err(id) => r matches Err(m) && m@ == orphan_update_message(id),
        },
{
    let mut out: Vec<CommentRecord> = Vec::new();
    assert(events@.take(0) =~= Seq::<Event>::empty());
    assert(comment_views(out@) =~= Seq::<CommentView>::empty());
    let mut i: usize = 0;
    while i < events.len()
        invariant
            i <= events@.len(),
            comment_history(events@.take(i as int)) == Ok::<Seq<CommentView>, EventId>(
                comment_views(out@),
            ),
        decreases events@.len() - i,
    {
        let ghost t = events@.take(i + 1);
        assert(t.drop_last() =~= events@.take(i as int));
        assert(t.last() == events@[i as int]);
        let e = &events[i];
        let ghost before = comment_views(out@);
        match &e.kind {
            EventKind::CommentAdded { comment_id, body_md } => {
                out.push(
                    CommentRecord {
                        comment_id: *comment_id,
                        actor: e.actor.clone(),
                        body_md: owned(body_md.as_str()),
                        created_at: e.ts,
                        updated_at: None,
                    },
                );
                assert(comment_views(out@) =~= comment_history(t)->Ok_0);
            },
            EventKind::CommentUpdated { comment_id, body_md } => {
                match last_comment_position(&out, *comment_id) {
                    Some(k) => {
                        let mut record = out.remove(k);
                        record.body_md = owned(body_md.as_str());
                        record.updated_at = Some(e.ts);
                        out.insert(k, record);
                        assert(comment_views(out@) =~= comment_history(t)->Ok_0);
                    },
                    None => {
                        proof {
                            lemma_history_err_sticks(events@, i + 1, events@.len() as int);
                            assert(events@.take(events@.len() as int) =~= events@);
                        }
                        let mut msg = concat2("Comment ", comment_id.to_text().as_str());
                        push_str(&mut msg, " was updated before it was added");
                        return Err(msg);
                    },
                }
            },
            _ => {},
        }
        i = i + 1;
    }
    assert(events@.take(events@.len() as int) =~= events@);
    Ok(out)
}

proof fn lemma_history_err_sticks(es: Seq<Event>, i: int, j: int)
    requires
        0 <= i <= j <= es.len(),
        comment_history(es.take(i)) is Err,
    ensures
        comment_history(es.take(j)) == comment_history(es.take(i)),
    decreases j - i,
{
    if j > i {
        lemma_history_err_sticks(es, i, j - 1);
        assert(es.take(j).drop_last() =~= es.take(j - 1));
    }
}

/// Whether the event adds the comment `id`.
pub open spec fn adds(e: Event, id: EventId) -> bool {
    match e.kind {
        EventKind::CommentAdded { comment_id, .. } => comment_id == id,
        _ => false,
    }
}

/// Whether one of the events adds the comment `id`.
pub open spec fn adds_comment(events: Seq<Event>, id: EventId) -> bool {
    exists|i: int| 0 <= i < events.len() && adds(#[trigger] events[i], id)
}

/// Whether one of the events adds the comment `id`.
pub fn comment_exists(events: &Vec<Event>, id: EventId) -> (r: bool)
    ensures
        r == adds_comment(events@, id),
{
    let mut i: usize = 0;
    while i < events.len()
        invariant
            i <= events@.len(),
            forall|k: int| 0 <= k < i ==> !adds(#[trigger] events@[k], id),
        decreases events@.len() - i,
    {
        match &events[i].kind {
            EventKind::CommentAdded { comment_id, .. } => {
                if *comment_id == id {
                    assert(adds(events@[i as int], id));
                    return true;
                }
            },
            _ => {},
        }
        i = i + 1;
    }
    false
}

/// The message when a comment to update is not one of the task's.
pub fn missing_comment_message(comment: EventId, task: TaskId) -> (r: String)
    ensures
        r@ == "Comment "@ + uuid_text(comment.value) + " not found in task "@ + uuid_text(task.value),
{
    let mut msg = concat2("Comment ", comment.to_text().as_str());
    push_str(&mut msg, " not found in task ");
    push_str(&mut msg, task.to_text().as_str());
    msg
}


/// The state kinds a request leaves out are exactly those it names to
/// leave out whenever it names any state or state kind; `done` is left out
/// on its own account only when the request names none at all.
pub proof fn lemma_named_exclusions_kept(p: ListTasksParams)
    ensures
        p.exclude_state_kinds@.len() > 0 ==> p.dropped_kind_names() == views(p.exclude_state_kinds@),
        p.states@.len() > 0 || p.include_state_kinds@.len() > 0 ==> p.dropped_kind_names() == views(
            p.exclude_state_kinds@,
        ),
        p.dropped_kind_names().contains("done"@) ==> views(p.exclude_state_kinds@).contains("done"@) || (
        p.states@.len() == 0 && p.include_state_kinds@.len() == 0 && p.exclude_state_kinds@.len() == 0),
{
}

} // verus!
