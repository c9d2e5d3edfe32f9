//! Task events and their rendering in event logs.
use vstd::prelude::*;

use crate::task::{opt_view, state_kind_name, uuid_text, EventId, StateKind, TaskId};
use crate::text::{
    chars_of, concat2, concat3, drop_empty, join, join_strings, owned, push_str, slice_chars,
    split_chars_ws, drop_empty_chars, join_chars, string_from_chars, views, words, cviews,
};

verus! {

/// Author of an event.
#[derive(Debug)]
pub struct Actor {
    pub name: String,
    pub email: String,
}

impl Clone for Actor {
    fn clone(&self) -> (r: Self)
        ensures
            r.name@ == self.name@,
            r.email@ == self.email@,
    {
        Actor { name: owned(self.name.as_str()), email: owned(self.email.as_str()) }
    }
}

/// What an event does to a task.
#[derive(Debug)]
pub enum EventKind {
    TaskCreated {
        title: String,
        labels: Vec<String>,
        assignees: Vec<String>,
        description: Option<String>,
        state: Option<String>,
        state_kind: Option<StateKind>,
    },
    TaskStateSet { state: String, state_kind: Option<StateKind> },
    TaskStateCleared,
    TaskTitleSet { title: String },
    TaskDescriptionSet { description: Option<String> },
    LabelsAdded { labels: Vec<String> },
    LabelsRemoved { labels: Vec<String> },
    AssigneesAdded { assignees: Vec<String> },
    AssigneesRemoved { assignees: Vec<String> },
    CommentAdded { comment_id: EventId, body_md: String },
    CommentUpdated { comment_id: EventId, body_md: String },
    ChildLinked { parent: TaskId, child: TaskId },
    ChildUnlinked { parent: TaskId, child: TaskId },
    RelationAdded { kind: String, target: TaskId },
    RelationRemoved { kind: String, target: TaskId },
}

/// The view of an [`EventKind`]: its strings by their characters.
pub enum EventKindView {
    TaskCreated {
        title: Seq<char>,
        labels: Seq<Seq<char>>,
        assignees: Seq<Seq<char>>,
        description: Option<Seq<char>>,
        state: Option<Seq<char>>,
        state_kind: Option<StateKind>,
    },
    TaskStateSet { state: Seq<char>, state_kind: Option<StateKind> },
    TaskStateCleared,
    TaskTitleSet { title: Seq<char> },
    TaskDescriptionSet { description: Option<Seq<char>> },
    LabelsAdded { labels: Seq<Seq<char>> },
    LabelsRemoved { labels: Seq<Seq<char>> },
    AssigneesAdded { assignees: Seq<Seq<char>> },
    AssigneesRemoved { assignees: Seq<Seq<char>> },
    CommentAdded { comment_id: EventId, body_md: Seq<char> },
    CommentUpdated { comment_id: EventId, body_md: Seq<char> },
    ChildLinked { parent: TaskId, child: TaskId },
    ChildUnlinked { parent: TaskId, child: TaskId },
    RelationAdded { kind: Seq<char>, target: TaskId },
    RelationRemoved { kind: Seq<char>, target: TaskId },
}

impl View for EventKind {
    type V = EventKindView;

    open spec fn view(&self) -> EventKindView {
        match self {
            EventKind::TaskCreated { title, labels, assignees, description, state, state_kind } =>
                EventKindView::TaskCreated {
                title: title@,
                labels: views(labels@),
                assignees: views(assignees@),
                description: opt_view(*description),
                state: opt_view(*state),
                state_kind: *state_kind,
            },
            EventKind::TaskStateSet { state, state_kind } => EventKindView::TaskStateSet {
                state: state@,
                state_kind: *state_kind,
            },
            EventKind::TaskStateCleared => EventKindView::TaskStateCleared,
            EventKind::TaskTitleSet { title } => EventKindView::TaskTitleSet { title: title@ },
            EventKind::TaskDescriptionSet { description } => EventKindView::TaskDescriptionSet {
                description: opt_view(*description),
            },
            EventKind::LabelsAdded { labels } => EventKindView::LabelsAdded { labels: views(labels@) },
            EventKind::LabelsRemoved { labels } => EventKindView::LabelsRemoved {
                labels: views(labels@),
            },
            EventKind::AssigneesAdded { assignees } => EventKindView::AssigneesAdded {
                assignees: views(assignees@),
            },
            EventKind::AssigneesRemoved { assignees } => EventKindView::AssigneesRemoved {
                assignees: views(assignees@),
            },
            EventKind::CommentAdded { comment_id, body_md } => EventKindView::CommentAdded {
                comment_id: *comment_id,
                body_md: body_md@,
            },
            EventKind::CommentUpdated { comment_id, body_md } => EventKindView::CommentUpdated {
                comment_id: *comment_id,
                body_md: body_md@,
            },
            EventKind::ChildLinked { parent, child } => EventKindView::ChildLinked {
                parent: *parent,
                child: *child,
            },
            EventKind::ChildUnlinked { parent, child } => EventKindView::ChildUnlinked {
                parent: *parent,
                child: *child,
            },
            EventKind::RelationAdded { kind, target } => EventKindView::RelationAdded {
                kind: kind@,
                target: *target,
            },
            EventKind::RelationRemoved { kind, target } => EventKindView::RelationRemoved {
                kind: kind@,
                target: *target,
            },
        }
    }
}

/// The views of a sequence of event kinds.
pub open spec fn kind_views(s: Seq<EventKind>) -> Seq<EventKindView> {
    s.map_values(|k: EventKind| k@)
}

/// An event of a task's history.
#[derive(Debug)]
pub struct Event {
    /// Unique event identifier.
    pub id: EventId,
    /// Event time, in nanoseconds since the Unix epoch (UTC).
    pub ts: i128,
    /// Author.
    pub actor: Actor,
    /// What happened.
    pub kind: EventKind,
}

/// Renderable representation of a task event.
#[derive(Debug)]
pub struct LogEntry {
    /// Unique event identifier.
    pub id: EventId,
    /// Event time, in nanoseconds since the Unix epoch (UTC).
    pub ts: i128,
    /// Actor who authored the event.
    pub actor: Actor,
    /// Short action label.
    pub action: String,
    /// Optional human-readable details.
    pub detail: Option<String>,
    /// Whether the detail should be rendered as multi-line description content.
    pub is_description: bool,
}

// ---------------------------------------------------------------------------
// Specification
// ---------------------------------------------------------------------------

/// The short label of an event kind.
pub open spec fn action_label(kind: EventKind) -> Seq<char> {
    match kind {
        EventKind::TaskCreated { .. } => "Task created"@,
        EventKind::TaskStateSet { .. } => "State set"@,
        EventKind::TaskStateCleared => "State cleared"@,
        EventKind::TaskTitleSet { .. } => "Title set"@,
        EventKind::TaskDescriptionSet { .. } => "Description set"@,
        EventKind::LabelsAdded { .. } => "Labels added"@,
        EventKind::LabelsRemoved { .. } => "Labels removed"@,
        EventKind::AssigneesAdded { .. } => "Assignees added"@,
        EventKind::AssigneesRemoved { .. } => "Assignees removed"@,
        EventKind::CommentAdded { .. } => "Comment added"@,
        EventKind::CommentUpdated { .. } => "Comment updated"@,
        EventKind::ChildLinked { .. } => "Child linked"@,
        EventKind::ChildUnlinked { .. } => "Child unlinked"@,
        EventKind::RelationAdded { .. } => "Relation added"@,
        EventKind::RelationRemoved { .. } => "Relation removed"@,
    }
}

/// ` (kind)` for a known state kind, nothing otherwise.
pub open spec fn kind_suffix(kind: Option<StateKind>) -> Seq<char> {
    match kind {
        Some(k) => " ("@ + state_kind_name(k) + ")"@,
        None => Seq::<char>::empty(),
    }
}

/// The `state: ...` line of a detail.
pub open spec fn state_line(state: Seq<char>, kind: Option<StateKind>) -> Seq<char> {
    "state: "@ + state + kind_suffix(kind)
}

/// The non-empty parts joined with `" | "`; none when no part is left.
pub open spec fn joined_parts(parts: Seq<Seq<char>>) -> Option<Seq<char>> {
    let kept = drop_empty(parts);
    if kept.len() == 0 {
        None
    } else {
        Some(join(kept, " | "@))
    }
}

/// The summary parts of a task creation.
pub open spec fn created_parts(
    title: Seq<char>,
    state: Option<Seq<char>>,
    kind: Option<StateKind>,
    labels: Seq<Seq<char>>,
    assignees: Seq<Seq<char>>,
) -> Seq<Seq<char>> {
    let p1 = seq!["title: "@ + title];
    let p2 = match state {
        Some(s) => p1.push(state_line(s, kind)),
        None => p1,
    };
    let p3 = if labels.len() > 0 {
        p2.push("labels: "@ + join(labels, ", "@))
    } else {
        p2
    };
    if assignees.len() > 0 {
        p3.push("assignees: "@ + join(assignees, ", "@))
    } else {
        p3
    }
}

/// The human-readable detail of an event kind.
pub open spec fn event_detail(kind: EventKind) -> Option<Seq<char>> {
    match kind {
        EventKind::TaskCreated { title, labels, assignees, description, state, state_kind } => {
            let summary = joined_parts(
                created_parts(
                    title@,
                    match state {
                        Some(s) => Some(s@),
                        None => None,
                    },
                    state_kind,
                    views(labels@),
                    views(assignees@),
                ),
            );
            match description {
                Some(desc) => Some(
                    match summary {
                        Some(prefix) => prefix + "\n"@ + desc@,
                        None => desc@,
                    },
                ),
                None => summary,
            }
        },
        EventKind::TaskStateSet { state, state_kind } => Some(state_line(state@, state_kind)),
        EventKind::TaskStateCleared => None,
        EventKind::TaskTitleSet { title } => Some("title: "@ + title@),
        EventKind::TaskDescriptionSet { description } => match description {
            Some(d) => Some(d@),
            None => Some("description cleared"@),
        },
        EventKind::LabelsAdded { labels } => Some("added: "@ + join(views(labels@), ", "@)),
        EventKind::LabelsRemoved { labels } => Some("removed: "@ + join(views(labels@), ", "@)),
        EventKind::AssigneesAdded { assignees } => Some(
            "added: "@ + join(views(assignees@), ", "@),
        ),
        EventKind::AssigneesRemoved { assignees } => Some(
            "removed: "@ + join(views(assignees@), ", "@),
        ),
        EventKind::CommentAdded { body_md, .. } => Some(body_md@),
        EventKind::CommentUpdated { body_md, .. } => Some(body_md@),
        EventKind::ChildLinked { parent, child } => Some(
            "parent: "@ + uuid_text(parent.value) + ", child: "@ + uuid_text(child.value),
        ),
        EventKind::ChildUnlinked { parent, child } => Some(
            "parent: "@ + uuid_text(parent.value) + ", child: "@ + uuid_text(child.value),
        ),
        EventKind::RelationAdded { kind, target } => Some(
            "kind: "@ + kind@ + ", target: "@ + uuid_text(target.value),
        ),
        EventKind::RelationRemoved { kind, target } => Some(
            "kind: "@ + kind@ + ", target: "@ + uuid_text(target.value),
        ),
    }
}

/// Whether the detail of an event kind is description content.
pub open spec fn is_description_kind(kind: EventKind) -> bool {
    match kind {
        EventKind::TaskDescriptionSet { .. } => true,
        EventKind::TaskCreated { description, .. } => description is Some,
        _ => false,
    }
}

/// The view of an optional string.
pub open spec fn opt_str(o: Option<String>) -> Option<Seq<char>> {
    match o {
        Some(s) => Some(s@),
        None => None,
    }
}

/// `text` shortened to at most `max_chars` characters with a `...` marker:
/// the first `max_chars - 3` characters and `...`, or, below three
/// characters, only as many dots as fit.
pub open spec fn truncated(text: Seq<char>, max_chars: nat) -> Seq<char> {
    if text.len() <= max_chars {
        text
    } else if max_chars >= 3 {
        text.take(max_chars - 3) + "..."@
    } else {
        "..."@.take(max_chars as int)
    }
}

/// The RFC 3339 text of an instant given in nanoseconds since the Unix
/// epoch (UTC), as the `time` crate renders it; none when the crate cannot
/// represent or format it.
pub uninterp spec fn rfc3339_text(ts_nanos: i128) -> Option<Seq<char>>;

// ---------------------------------------------------------------------------
// Executable
// ---------------------------------------------------------------------------

/// Formats an instant as RFC 3339 with the `time` crate
/// (`OffsetDateTime::from_unix_timestamp_nanos`, then `format(&Rfc3339)`).
/// The contract names the result and claims only that it is a function of the
/// instant; what the text looks like is left to the crate.
#[verifier::external_body]
pub(crate) fn rfc3339(ts_nanos: i128) -> (r: Option<String>)
    ensures
        opt_str(r) == rfc3339_text(ts_nanos),
{
    match time::OffsetDateTime::from_unix_timestamp_nanos(ts_nanos) {
        Ok(t) => t.format(&time::format_description::well_known::Rfc3339).ok(),
        Err(_) => None,
    }
}

/// Render a timestamp in RFC 3339 format, or `-` when it cannot be.
pub fn format_timestamp(ts_nanos: i128) -> (r: String)
    ensures
        r@ == match rfc3339_text(ts_nanos) {
            Some(t) => t,
            None => "-"@,
        },
{
    match rfc3339(ts_nanos) {
        Some(t) => t,
        None => owned("-"),
    }
}

/// Where the actor of an event can come from, most preferred first: the
/// command-line flags, the `GIT_MILE_ACTOR_*` variables, the
/// `GIT_AUTHOR_*` variables, and the `user.name` and `user.email` settings
/// of git.
#[derive(Debug)]
pub struct ActorSources {
    pub flag_name: Option<String>,
    pub flag_email: Option<String>,
    pub mile_name: Option<String>,
    pub author_name: Option<String>,
    pub config_name: Option<String>,
    pub mile_email: Option<String>,
    pub author_email: Option<String>,
    pub config_email: Option<String>,
}

/// The first of three candidates that is given, else the fallback.
pub open spec fn first_given(
    a: Option<Seq<char>>,
    b: Option<Seq<char>>,
    c: Option<Seq<char>>,
    fallback: Seq<char>,
) -> Seq<char> {
    match a {
        Some(x) => x,
        None => match b {
            Some(x) => x,
            None => match c {
                Some(x) => x,
                None => fallback,
            },
        },
    }
}

pub(crate) fn first_given_string(a: Option<String>, b: Option<String>, c: Option<String>, fallback: &str) -> (r: String)
    ensures
        r@ == first_given(opt_view(a), opt_view(b), opt_view(c), fallback@),
{
    match a {
        Some(x) => x,
        None => match b {
            Some(x) => x,
            None => match c {
                Some(x) => x,
                None => owned(fallback),
            },
        },
    }
}

impl ActorSources {
    /// The actor: each of name and email from its most preferred source
    /// that is given, else `git-mile` and `git-mile@localhost`.
    pub fn resolve(self) -> (r: Actor)
        ensures
            r.name@ == match opt_view(self.flag_name) {
                Some(x) => x,
                None => first_given(
                    opt_view(self.mile_name),
                    opt_view(self.author_name),
                    opt_view(self.config_name),
                    "git-mile"@,
                ),
            },
            r.email@ == match opt_view(self.flag_email) {
                Some(x) => x,
                None => first_given(
                    opt_view(self.mile_email),
                    opt_view(self.author_email),
                    opt_view(self.config_email),
                    "git-mile@localhost"@,
                ),
            },
    {
        let ActorSources {
            flag_name,
            flag_email,
            mile_name,
            author_name,
            config_name,
            mile_email,
            author_email,
            config_email,
        } = self;
        let name = match flag_name {
            Some(x) => x,
            None => first_given_string(mile_name, author_name, config_name, "git-mile"),
        };
        let email = match flag_email {
            Some(x) => x,
            None => first_given_string(mile_email, author_email, config_email, "git-mile@localhost"),
        };
        Actor { name, email }
    }
}

/// Render an actor as `name <email>`.
pub fn format_actor(actor: &Actor) -> (r: String)
    ensures
        r@ == actor.name@ + " <"@ + actor.email@ + ">"@,
{
    let mut out = concat3(actor.name.as_str(), " <", actor.email.as_str());
    push_str(&mut out, ">");
    out
}

/// Collapse multiline text into a single line: its words separated by single
/// spaces.
pub fn single_line_detail(detail: &str) -> (r: String)
    ensures
        r@ == join(words(detail@), " "@),
{
    let chars = chars_of(detail);
    let pieces = split_chars_ws(&chars);
    let kept = drop_empty_chars(&pieces);
    let sep = chars_of(" ");
    let joined = join_chars(&kept, &sep);
    string_from_chars(&joined)
}

/// Truncate text to at most `max_chars` characters, adding `...` when shortened.
pub fn truncate_detail(detail: &str, max_chars: usize) -> (r: String)
    ensures
        r@ == truncated(detail@, max_chars as nat),
{
    let chars = chars_of(detail);
    if chars.len() <= max_chars {
        return owned(detail);
    }
    if max_chars < 3 {
        proof {
            reveal_strlit("...");
            reveal_strlit(".");
            reveal_strlit("..");
            reveal_strlit("");
        }
        let dots = if max_chars == 0 {
            ""
        } else if max_chars == 1 {
            "."
        } else {
            ".."
        };
        assert(dots@ =~= "..."@.take(max_chars as int));
        return owned(dots);
    }
    let keep = max_chars - 3;
    let head = slice_chars(&chars, 0, keep);
    let mut out = string_from_chars(&head);
    push_str(&mut out, "...");
    assert(head@ =~= detail@.take(keep as int));
    out
}

/// The shortened text holds at most `max_chars` characters.
pub proof fn lemma_truncated_len(text: Seq<char>, max_chars: nat)
    ensures
        truncated(text, max_chars).len() <= max_chars,
{
    reveal_strlit("...");
}

/// The non-empty parts joined with `" | "`; none when no part is left.
pub fn join_parts(parts: Vec<String>) -> (r: Option<String>)
    ensures
        opt_str(r) == joined_parts(views(parts@)),
{
    let ghost pv = views(parts@);
    let mut kept: Vec<String> = Vec::new();
    for i in 0..parts.len()
        invariant
            pv == views(parts@),
            views(kept@) == drop_empty(pv.take(i as int)),
    {
        assert(pv.take(i + 1).drop_last() =~= pv.take(i as int));
        assert(pv.take(i + 1).last() == parts@[i as int]@);
        if !parts[i].as_str().is_empty() {
            let s = owned(parts[i].as_str());
            let ghost before = kept@;
            kept.push(s);
            assert(views(kept@) =~= views(before).push(s@));
        }
    }
    assert(pv.take(parts.len() as int) =~= pv);
    if kept.len() == 0 {
        None
    } else {
        Some(join_strings(&kept, " | "))
    }
}

/// The short label of an event kind.
pub fn action_for_kind(kind: &EventKind) -> (r: String)
    ensures
        r@ == action_label(*kind),
{
    let s = match kind {
        EventKind::TaskCreated { .. } => "Task created",
        EventKind::TaskStateSet { .. } => "State set",
        EventKind::TaskStateCleared => "State cleared",
        EventKind::TaskTitleSet { .. } => "Title set",
        EventKind::TaskDescriptionSet { .. } => "Description set",
        EventKind::LabelsAdded { .. } => "Labels added",
        EventKind::LabelsRemoved { .. } => "Labels removed",
        EventKind::AssigneesAdded { .. } => "Assignees added",
        EventKind::AssigneesRemoved { .. } => "Assignees removed",
        EventKind::CommentAdded { .. } => "Comment added",
        EventKind::CommentUpdated { .. } => "Comment updated",
        EventKind::ChildLinked { .. } => "Child linked",
        EventKind::ChildUnlinked { .. } => "Child unlinked",
        EventKind::RelationAdded { .. } => "Relation added",
        EventKind::RelationRemoved { .. } => "Relation removed",
    };
    owned(s)
}

fn state_line_string(state: &str, kind: Option<StateKind>) -> (r: String)
    ensures
        r@ == state_line(state@, kind),
{
    let mut line = concat2("state: ", state);
    match kind {
        Some(k) => {
            push_str(&mut line, " (");
            push_str(&mut line, k.as_str());
            push_str(&mut line, ")");
        },
        None => {},
    }
    line
}

fn prefixed_list(prefix: &str, items: &Vec<String>) -> (r: String)
    ensures
        r@ == prefix@ + join(views(items@), ", "@),
{
    let joined = join_strings(items, ", ");
    concat2(prefix, joined.as_str())
}

fn link_detail(first: &str, a: &TaskId, second: &str, b: &TaskId) -> (r: String)
    ensures
        r@ == first@ + uuid_text(a.value) + second@ + uuid_text(b.value),
{
    let mut out = owned(first);
    let ta = a.to_text();
    push_str(&mut out, ta.as_str());
    push_str(&mut out, second);
    let tb = b.to_text();
    push_str(&mut out, tb.as_str());
    out
}

/// The human-readable detail of an event kind.
pub fn detail_for_kind(kind: &EventKind) -> (r: Option<String>)
    ensures
        opt_str(r) == event_detail(*kind),
{
    match kind {
        EventKind::TaskCreated { title, labels, assignees, description, state, state_kind } => {
            let mut parts: Vec<String> = Vec::new();
            parts.push(concat2("title: ", title.as_str()));
            match state {
                Some(st) => {
                    parts.push(state_line_string(st.as_str(), *state_kind));
                },
                None => {},
            }
            if labels.len() > 0 {
                parts.push(prefixed_list("labels: ", labels));
            }
            if assignees.len() > 0 {
                parts.push(prefixed_list("assignees: ", assignees));
            }
            assert(views(parts@) =~= created_parts(
                title@,
                match state {
                    Some(s) => Some(s@),
                    None => None,
                },
                *state_kind,
                views(labels@),
                views(assignees@),
            ));
            let summary = join_parts(parts);
            match description {
                Some(desc) => match summary {
                    Some(prefix) => Some(concat3(prefix.as_str(), "\n", desc.as_str())),
                    None => Some(owned(desc.as_str())),
                },
                None => summary,
            }
        },
        EventKind::TaskStateSet { state, state_kind } => Some(
            state_line_string(state.as_str(), *state_kind),
        ),
        EventKind::TaskStateCleared => None,
        EventKind::TaskTitleSet { title } => Some(concat2("title: ", title.as_str())),
        EventKind::TaskDescriptionSet { description } => match description {
            Some(d) => Some(owned(d.as_str())),
            None => Some(owned("description cleared")),
        },
        EventKind::LabelsAdded { labels } => Some(prefixed_list("added: ", labels)),
        EventKind::LabelsRemoved { labels } => Some(prefixed_list("removed: ", labels)),
        EventKind::AssigneesAdded { assignees } => Some(prefixed_list("added: ", assignees)),
        EventKind::AssigneesRemoved { assignees } => Some(prefixed_list("removed: ", assignees)),
        EventKind::CommentAdded { body_md, .. } => Some(owned(body_md.as_str())),
        EventKind::CommentUpdated { body_md, .. } => Some(owned(body_md.as_str())),
        EventKind::ChildLinked { parent, child } => Some(
            link_detail("parent: ", parent, ", child: ", child),
        ),
        EventKind::ChildUnlinked { parent, child } => Some(
            link_detail("parent: ", parent, ", child: ", child),
        ),
        EventKind::RelationAdded { kind, target } => {
            let mut out = concat3("kind: ", kind.as_str(), ", target: ");
            let t = target.to_text();
            push_str(&mut out, t.as_str());
            Some(out)
        },
        EventKind::RelationRemoved { kind, target } => {
            let mut out = concat3("kind: ", kind.as_str(), ", target: ");
            let t = target.to_text();
            push_str(&mut out, t.as_str());
            Some(out)
        },
    }
}

/// Convert a single event to a display-friendly entry.
pub fn entry_from_event(event: &Event) -> (r: LogEntry)
    ensures
        r.id == event.id,
        r.ts == event.ts,
        r.actor.name@ == event.actor.name@,
        r.actor.email@ == event.actor.email@,
        r.action@ == action_label(event.kind),
        opt_str(r.detail) == event_detail(event.kind),
        r.is_description == is_description_kind(event.kind),
{
    let is_description = match &event.kind {
        EventKind::TaskDescriptionSet { .. } => true,
        EventKind::TaskCreated { description, .. } => description.is_some(),
        _ => false,
    };
    LogEntry {
        id: event.id,
        ts: event.ts,
        actor: event.actor.clone(),
        action: action_for_kind(&event.kind),
        detail: detail_for_kind(&event.kind),
        is_description,
    }
}

/// Convert raw events to display-friendly entries, one per event, in order.
pub fn entries_from_events(events: &Vec<Event>) -> (r: Vec<LogEntry>)
    ensures
        r@.len() == events@.len(),
        forall|i: int|
            0 <= i < events@.len() ==> {
                &&& (#[trigger] r@[i]).id == events@[i].id
                &&& r@[i].ts == events@[i].ts
                &&& r@[i].actor.name@ == events@[i].actor.name@
                &&& r@[i].actor.email@ == events@[i].actor.email@
                &&& r@[i].action@ == action_label(events@[i].kind)
                &&& opt_str(r@[i].detail) == event_detail(events@[i].kind)
                &&& r@[i].is_description == is_description_kind(events@[i].kind)
            },
{
    let mut out: Vec<LogEntry> = Vec::new();
    for i in 0..events.len()
        invariant
            out@.len() == i,
            forall|k: int|
                0 <= k < i ==> {
                    &&& (#[trigger] out@[k]).id == events@[k].id
                    &&& out@[k].ts == events@[k].ts
                    &&& out@[k].actor.name@ == events@[k].actor.name@
                    &&& out@[k].actor.email@ == events@[k].actor.email@
                    &&& out@[k].action@ == action_label(events@[k].kind)
                    &&& opt_str(out@[k].detail) == event_detail(events@[k].kind)
                    &&& out@[k].is_description == is_description_kind(events@[k].kind)
                },
    {
        out.push(entry_from_event(&events[i]));
    }
    out
}


/// The log detail of a removal says `removed: `, that of an addition says
/// `added: `, and the two differ for the same items.
pub proof fn lemma_removal_detail_names_removal(items: Vec<String>)
    ensures
        event_detail(EventKind::LabelsRemoved { labels: items }) matches Some(d) && d.len() >= 9 && d.take(9)
            == "removed: "@,
        event_detail(EventKind::AssigneesRemoved { assignees: items }) matches Some(d) && d.len() >= 9 && d.take(9)
            == "removed: "@,
        event_detail(EventKind::LabelsAdded { labels: items }) matches Some(d) && d.len() >= 7 && d.take(7)
            == "added: "@,
        event_detail(EventKind::AssigneesAdded { assignees: items }) matches Some(d) && d.len() >= 7 && d.take(7)
            == "added: "@,
        event_detail(EventKind::LabelsRemoved { labels: items }) != event_detail(EventKind::LabelsAdded { labels: items }),
        event_detail(EventKind::AssigneesRemoved { assignees: items }) != event_detail(
            EventKind::AssigneesAdded { assignees: items },
        ),
{
    reveal_strlit("removed: ");
    reveal_strlit("added: ");
    let j = join(views(items@), ", "@);
    assert(("removed: "@ + j).take(9) =~= "removed: "@);
    assert(("added: "@ + j).take(7) =~= "added: "@);
    assert(("removed: "@ + j)[0] != ("added: "@ + j)[0]);
}

} // verus!
