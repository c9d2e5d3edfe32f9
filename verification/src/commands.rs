//! The command-line commands: what each asks for, how identifiers given on
//! the command line are read, and the tables the commands print.
use vstd::prelude::*;

use crate::config::WorkflowConfig;
use crate::event_log::{
    action_label, entries_from_events, event_detail, format_actor, format_timestamp, rfc3339_text,
    single_line_detail, truncate_detail, truncated, Event,
};
use crate::task::{parse_uuid, state_kind_name, uuid_text, EventId, StateKind, TaskId};
use crate::text::{concat2, join, owned, push_str, views, words};

verus! {

/// Output format of `ls`.
#[derive(Clone, Copy, Debug, PartialEq, Eq, Structural)]
pub enum LsFormat {
    /// A human-readable table.
    Table,
    /// A JSON array of task snapshots.
    Json,
}

/// A command of the command line.
#[derive(Debug)]
pub enum Command {
    /// Create a new task with initial fields.
    New {
        title: String,
        state: Option<String>,
        labels: Vec<String>,
        assignees: Vec<String>,
        description: Option<String>,
        parents: Vec<String>,
        actor_name: String,
        actor_email: String,
    },
    /// Add a comment to an existing task.
    Comment { task: String, message: String, actor_name: String, actor_email: String },
    /// Show a materialized snapshot of a task.
    Show { task: String },
    /// List tasks with optional filters.
    Ls {
        states: Vec<String>,
        labels: Vec<String>,
        assignees: Vec<String>,
        state_kinds: Vec<String>,
        exclude_state_kinds: Vec<String>,
        parents: Vec<String>,
        children: Vec<String>,
        updated_since: Option<String>,
        updated_until: Option<String>,
        text: Option<String>,
        format: LsFormat,
    },
    /// Launch the interactive terminal interface.
    Tui,
    /// Start the MCP server.
    Mcp,
}

/// Whether the command logs through the tracing subscriber: every command
/// but the MCP server, whose standard output carries the protocol.
pub fn should_install_tracing(cmd: &Command) -> (r: bool)
    ensures
        r == !(cmd is Mcp),
{
    match cmd {
        Command::Mcp => false,
        _ => true,
    }
}

/// The error for a task identifier that cannot be read.
pub open spec fn bad_task_id_message(raw: Seq<char>) -> Seq<char> {
    "Invalid task id: "@ + raw
}

/// Read a task identifier given on the command line.
pub fn parse_task_id(raw: &str) -> (r: Result<TaskId, String>)
    ensures
        match parse_uuid(raw@) {
            Some(v) => r matches Ok(id) && id.value == v,
            None => r matches Err(m) && m@ == bad_task_id_message(raw@),
        },
{
    match TaskId::parse(raw) {
        Some(id) => Ok(id),
        None => Err(concat2("Invalid task id: ", raw)),
    }
}

/// Read a comment identifier given on the command line.
pub fn parse_event_id(raw: &str) -> (r: Result<EventId, String>)
    ensures
        match parse_uuid(raw@) {
            Some(v) => r matches Ok(id) && id.value == v,
            None => r matches Err(m) && m@ == "Invalid comment id: "@ + raw@,
        },
{
    match EventId::parse(raw) {
        Some(id) => Ok(id),
        None => Err(concat2("Invalid comment id: ", raw)),
    }
}

/// The first input, from position `i` on, that is no task identifier.
pub open spec fn first_bad_id(inputs: Seq<Seq<char>>, i: int) -> Option<int>
    decreases inputs.len() - i,
{
    if i < 0 || i >= inputs.len() {
        None
    } else if parse_uuid(inputs[i]) is None {
        Some(i)
    } else {
        first_bad_id(inputs, i + 1)
    }
}

/// Read task identifiers given on the command line, in order; the first
/// one that cannot be read is the error.
pub fn parse_task_ids(inputs: &Vec<String>) -> (r: Result<Vec<TaskId>, String>)
    ensures
        match first_bad_id(views(inputs@), 0) {
            Some(k) => r matches Err(m) && m@ == bad_task_id_message(inputs@[k]@),
            None => r matches Ok(ids) && ids@.len() == inputs@.len() && forall|i: int|
                0 <= i < inputs@.len() ==> parse_uuid(inputs@[i]@) == Some(
                    (#[trigger] ids@[i]).value,
                ),
        },
{
    let ghost vs = views(inputs@);
    let mut out: Vec<TaskId> = Vec::new();
    let mut i: usize = 0;
    while i < inputs.len()
        invariant
            i <= inputs@.len(),
            vs == views(inputs@),
            first_bad_id(vs, 0) == first_bad_id(vs, i as int),
            out@.len() == i,
            forall|k: int| 0 <= k < i ==> parse_uuid(inputs@[k]@) == Some((#[trigger] out@[k]).value),
        decreases inputs@.len() - i,
    {
        match parse_task_id(inputs[i].as_str()) {
            Ok(id) => out.push(id),
            Err(m) => {
                assert(first_bad_id(vs, i as int) == Some(i as int));
                return Err(m);
            },
        }
        i = i + 1;
    }
    Ok(out)
}

/// What `ls` prints when no task is listed.
pub fn no_tasks_message(filter_is_empty: bool) -> (r: &'static str)
    ensures
        r@ == if filter_is_empty {
            "No tasks found"@
        } else {
            "No tasks matched the provided filters"@
        },
{
    if filter_is_empty {
        "No tasks found"
    } else {
        "No tasks matched the provided filters"
    }
}

/// The detail column of an event in the log table: the detail on one line,
/// shortened to 80 characters, or `-`.
pub open spec fn log_detail(detail: Option<Seq<char>>) -> Seq<char> {
    match detail {
        Some(d) => truncated(join(words(d), " "@), 80),
        None => "-"@,
    }
}

/// The time column of the log table.
pub open spec fn log_time(ts: i128) -> Seq<char> {
    match rfc3339_text(ts) {
        Some(t) => t,
        None => "-"@,
    }
}

/// The log table row of an event.
pub open spec fn log_row(e: Event) -> Seq<char> {
    log_time(e.ts) + " | "@ + e.actor.name@ + " <"@ + e.actor.email@ + ">"@ + " | "@ + action_label(
        e.kind,
    ) + " | "@ + log_detail(event_detail(e.kind)) + " | "@ + uuid_text(e.id.value)
}

/// The lines of the log table of a task's events.
pub open spec fn log_table(events: Seq<Event>) -> Seq<Seq<char>> {
    seq![
        "Timestamp | Actor | Event | Detail | EventId"@,
        "--------- | ----- | ----- | ------ | -------"@,
    ] + events.map_values(|e: Event| log_row(e))
}

/// The lines of the log table of a task's events: a header, then one row
/// per event in order.
pub fn log_table_lines(events: &Vec<Event>) -> (r: Vec<String>)
    ensures
        views(r@) == log_table(events@),
{
    let entries = entries_from_events(events);
    let mut out: Vec<String> = Vec::new();
    out.push(owned("Timestamp | Actor | Event | Detail | EventId"));
    out.push(owned("--------- | ----- | ----- | ------ | -------"));
    let ghost head = views(out@);
    let mut i: usize = 0;
    while i < entries.len()
        invariant
            i <= entries@.len(),
            entries@.len() == events@.len(),
            forall|k: int|
                0 <= k < events@.len() ==> {
                    &&& (#[trigger] entries@[k]).id == events@[k].id
                    &&& entries@[k].ts == events@[k].ts
                    &&& entries@[k].actor.name@ == events@[k].actor.name@
                    &&& entries@[k].actor.email@ == events@[k].actor.email@
                    &&& entries@[k].action@ == action_label(events@[k].kind)
                    &&& crate::event_log::opt_str(entries@[k].detail) == event_detail(events@[k].kind)
                },
            head == seq![
                "Timestamp | Actor | Event | Detail | EventId"@,
                "--------- | ----- | ----- | ------ | -------"@,
            ],
            views(out@) == head + events@.take(i as int).map_values(|e: Event| log_row(e)),
        decreases entries@.len() - i,
    {
        let entry = &entries[i];
        let mut row = format_timestamp(entry.ts);
        push_str(&mut row, " | ");
        push_str(&mut row, format_actor(&entry.actor).as_str());
        push_str(&mut row, " | ");
        push_str(&mut row, entry.action.as_str());
        push_str(&mut row, " | ");
        let detail = match &entry.detail {
            Some(text) => truncate_detail(single_line_detail(text.as_str()).as_str(), 80),
            None => owned("-"),
        };
        push_str(&mut row, detail.as_str());
        push_str(&mut row, " | ");
        push_str(&mut row, entry.id.to_text().as_str());
        let ghost before = views(out@);
        proof {
            assert(row@ =~= log_row(events@[i as int]));
        }
        out.push(row);
        proof {
            assert(views(out@) =~= before.push(row@));
            assert(events@.take(i + 1).map_values(|e: Event| log_row(e)) =~= events@.take(
                i as int,
            ).map_values(|e: Event| log_row(e)).push(log_row(events@[i as int])));
        }
        i = i + 1;
    }
    assert(events@.take(events@.len() as int) =~= events@);
    out
}

/// The name of a state kind in tables, or `-`.
pub open spec fn kind_column(kind: Option<StateKind>) -> Seq<char> {
    match kind {
        Some(k) => state_kind_name(k),
        None => "-"@,
    }
}

/// The table row of a configured workflow state.
pub open spec fn workflow_row(state: crate::config::WorkflowState, default_state: Option<Seq<char>>) -> Seq<char> {
    state.value@ + " | "@ + match state.label {
        Some(l) => l@,
        None => "-"@,
    } + " | "@ + kind_column(state.kind) + " | "@ + if default_state == Some(state.value@) {
        "yes"@
    } else {
        "no"@
    }
}

/// The lines of the workflow states table.
pub open spec fn workflow_table(workflow: WorkflowConfig) -> Seq<Seq<char>> {
    let default_state = crate::task::opt_view(workflow.default_state);
    seq![
        "Restricted | "@ + if workflow.states@.len() > 0 {
            "true"@
        } else {
            "false"@
        },
        "DefaultState | "@ + match default_state {
            Some(d) => d,
            None => "-"@,
        },
        "Value | Label | Kind | Default"@,
        "----- | ----- | ---- | -------"@,
    ] + workflow.states@.map_values(
        |s: crate::config::WorkflowState| workflow_row(s, default_state),
    )
}

/// The lines of the workflow states table: whether states are restricted,
/// the default state, then one row per configured state.
pub fn workflow_states_lines(workflow: &WorkflowConfig) -> (r: Vec<String>)
    ensures
        views(r@) == workflow_table(*workflow),
{
    let ghost default_state = crate::task::opt_view(workflow.default_state);
    let mut out: Vec<String> = Vec::new();
    out.push(concat2("Restricted | ", if workflow.is_restricted() { "true" } else { "false" }));
    out.push(concat2("DefaultState | ", match workflow.default_state() {
        Some(d) => d,
        None => "-",
    }));
    out.push(owned("Value | Label | Kind | Default"));
    out.push(owned("----- | ----- | ---- | -------"));
    let ghost head = views(out@);
    let mut i: usize = 0;
    while i < workflow.states.len()
        invariant
            i <= workflow.states@.len(),
            default_state == crate::task::opt_view(workflow.default_state),
            views(out@) == head + workflow.states@.take(i as int).map_values(
                |s: crate::config::WorkflowState| workflow_row(s, default_state),
            ),
        decreases workflow.states@.len() - i,
    {
        let st = &workflow.states[i];
        let mut row = owned(st.value.as_str());
        push_str(&mut row, " | ");
        push_str(&mut row, match &st.label {
            Some(l) => l.as_str(),
            None => "-",
        });
        push_str(&mut row, " | ");
        push_str(&mut row, match st.kind {
            Some(k) => k.as_str(),
            None => "-",
        });
        push_str(&mut row, " | ");
        let is_default = match workflow.default_state() {
            Some(d) => crate::text::str_eq(d, st.value.as_str()),
            None => false,
        };
        push_str(&mut row, if is_default { "yes" } else { "no" });
        let ghost before = views(out@);
        proof {
            assert(row@ =~= workflow_row(*st, default_state));
        }
        out.push(row);
        proof {
            assert(views(out@) =~= before.push(row@));
            assert(workflow.states@.take(i + 1).map_values(
                |s: crate::config::WorkflowState| workflow_row(s, default_state),
            ) =~= workflow.states@.take(i as int).map_values(
                |s: crate::config::WorkflowState| workflow_row(s, default_state),
            ).push(workflow_row(workflow.states@[i as int], default_state)));
        }
        i = i + 1;
    }
    assert(workflow.states@.take(workflow.states@.len() as int) =~= workflow.states@);
    out
}

/// A task as the task table shows it: its snapshot, the display label of its
/// state (the workflow's label for the state, or for no state), and the time
/// of its last change, in nanoseconds since the Unix epoch, when known.
pub struct TaskTableRow {
    pub snapshot: crate::task::TaskSnapshot,
    pub state_label: String,
    pub updated: Option<i128>,
}

/// The state column of the task table: the state's display label, followed
/// by the state in brackets when the two differ.
pub open spec fn state_column(state: Option<Seq<char>>, label: Seq<char>) -> Seq<char> {
    match state {
        Some(v) => if label == v {
            label
        } else {
            label + " ("@ + v + ")"@
        },
        None => label,
    }
}

/// A set column of the task table: the entries joined with commas, or `-`.
pub open spec fn set_column(items: Seq<Seq<char>>) -> Seq<char> {
    if items.len() == 0 {
        "-"@
    } else {
        join(items, ", "@)
    }
}

/// The table row of a task.
pub open spec fn task_row(row: TaskTableRow) -> Seq<char> {
    let s = row.snapshot;
    uuid_text(s.id.value) + " | "@ + state_column(crate::task::opt_view(s.state), row.state_label@)
        + " | "@ + s.title@ + " | "@ + set_column(views(s.labels@)) + " | "@ + set_column(
        views(s.assignees@),
    ) + " | "@ + match row.updated {
        Some(ts) => log_time(ts),
        None => "-"@,
    }
}

/// The lines of the task table.
pub open spec fn task_table(rows: Seq<TaskTableRow>) -> Seq<Seq<char>> {
    seq![
        "ID | State | Title | Labels | Assignees | Updated"@,
        "-- | ----- | ----- | ------ | --------- | -------"@,
    ] + rows.map_values(|r: TaskTableRow| task_row(r))
}

/// The set column text of entries.
fn set_column_text(items: &Vec<String>) -> (r: String)
    ensures
        r@ == set_column(views(items@)),
{
    if items.len() == 0 {
        owned("-")
    } else {
        crate::text::join_strings(items, ", ")
    }
}

/// The lines of the task table: a header, then one row per task in order,
/// giving the identifier, the state, the title, the labels, the assignees
/// and the time of the last change.
pub fn task_table_lines(rows: &Vec<TaskTableRow>) -> (r: Vec<String>)
    ensures
        views(r@) == task_table(rows@),
{
    let mut out: Vec<String> = Vec::new();
    out.push(owned("ID | State | Title | Labels | Assignees | Updated"));
    out.push(owned("-- | ----- | ----- | ------ | --------- | -------"));
    let ghost head = views(out@);
    let mut i: usize = 0;
    while i < rows.len()
        invariant
            i <= rows@.len(),
            head == seq![
                "ID | State | Title | Labels | Assignees | Updated"@,
                "-- | ----- | ----- | ------ | --------- | -------"@,
            ],
            views(out@) == head + rows@.take(i as int).map_values(|r: TaskTableRow| task_row(r)),
        decreases rows@.len() - i,
    {
        let row = &rows[i];
        let s = &row.snapshot;
        let mut line = s.id.to_text();
        push_str(&mut line, " | ");
        let label = row.state_label.as_str();
        match &s.state {
            Some(v) => {
                push_str(&mut line, label);
                if !crate::text::str_eq(label, v.as_str()) {
                    push_str(&mut line, " (");
                    push_str(&mut line, v.as_str());
                    push_str(&mut line, ")");
                }
            },
            None => push_str(&mut line, label),
        }
        push_str(&mut line, " | ");
        push_str(&mut line, s.title.as_str());
        push_str(&mut line, " | ");
        push_str(&mut line, set_column_text(&s.labels).as_str());
        push_str(&mut line, " | ");
        push_str(&mut line, set_column_text(&s.assignees).as_str());
        push_str(&mut line, " | ");
        match row.updated {
            Some(ts) => push_str(&mut line, format_timestamp(ts).as_str()),
            None => push_str(&mut line, "-"),
        }
        let ghost before = views(out@);
        proof {
            assert(line@ =~= task_row(rows@[i as int]));
        }
        out.push(line);
        proof {
            assert(views(out@) =~= before.push(line@));
            assert(rows@.take(i + 1).map_values(|r: TaskTableRow| task_row(r)) =~= rows@.take(
                i as int,
            ).map_values(|r: TaskTableRow| task_row(r)).push(task_row(rows@[i as int])));
        }
        i = i + 1;
    }
    assert(rows@.take(rows@.len() as int) =~= rows@);
    out
}

/// The table row of a comment.
pub open spec fn comment_row(c: crate::mcp::CommentRecord) -> Seq<char> {
    uuid_text(c.comment_id.value) + " | "@ + c.actor.name@ + " <"@ + c.actor.email@ + ">"@ + " | "@
        + log_time(c.created_at) + " | "@ + match c.updated_at {
        Some(ts) => log_time(ts),
        None => "-"@,
    } + " | "@ + truncated(join(words(c.body_md@), " "@), 80)
}

/// The lines of the comment table.
pub open spec fn comment_table(comments: Seq<crate::mcp::CommentRecord>) -> Seq<Seq<char>> {
    seq![
        "CommentId | Actor | Created | Updated | Body"@,
        "--------- | ----- | ------- | ------- | ----"@,
    ] + comments.map_values(|c: crate::mcp::CommentRecord| comment_row(c))
}

/// The lines of the comment table: a header, then one row per comment in
/// order, giving its identifier, author, creation and update times, and its
/// body on one line, shortened to 80 characters.
pub fn comment_table_lines(comments: &Vec<crate::mcp::CommentRecord>) -> (r: Vec<String>)
    ensures
        views(r@) == comment_table(comments@),
{
    let mut out: Vec<String> = Vec::new();
    out.push(owned("CommentId | Actor | Created | Updated | Body"));
    out.push(owned("--------- | ----- | ------- | ------- | ----"));
    let ghost head = views(out@);
    let mut i: usize = 0;
    while i < comments.len()
        invariant
            i <= comments@.len(),
            head == seq![
                "CommentId | Actor | Created | Updated | Body"@,
                "--------- | ----- | ------- | ------- | ----"@,
            ],
            views(out@) == head + comments@.take(i as int).map_values(
                |c: crate::mcp::CommentRecord| comment_row(c),
            ),
        decreases comments@.len() - i,
    {
        let c = &comments[i];
        let mut line = c.comment_id.to_text();
        push_str(&mut line, " | ");
        push_str(&mut line, format_actor(&c.actor).as_str());
        push_str(&mut line, " | ");
        push_str(&mut line, format_timestamp(c.created_at).as_str());
        push_str(&mut line, " | ");
        match c.updated_at {
            Some(ts) => push_str(&mut line, format_timestamp(ts).as_str()),
            None => push_str(&mut line, "-"),
        }
        push_str(&mut line, " | ");
        push_str(&mut line, truncate_detail(single_line_detail(c.body_md.as_str()).as_str(), 80).as_str());
        let ghost before = views(out@);
        proof {
            assert(line@ =~= comment_row(comments@[i as int]));
        }
        out.push(line);
        proof {
            assert(views(out@) =~= before.push(line@));
            assert(comments@.take(i + 1).map_values(|c: crate::mcp::CommentRecord| comment_row(c))
                =~= comments@.take(i as int).map_values(
                |c: crate::mcp::CommentRecord| comment_row(c),
            ).push(comment_row(comments@[i as int])));
        }
        i = i + 1;
    }
    assert(comments@.take(comments@.len() as int) =~= comments@);
    out
}

} // verus!
