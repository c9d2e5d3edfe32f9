use git_mile::commands::{
    no_tasks_message, parse_event_id, parse_task_id, parse_task_ids, should_install_tracing,
    comment_table_lines, task_table_lines, workflow_states_lines, Command, TaskTableRow,
};
use git_mile::config::{ProjectConfig, WorkflowConfig, WorkflowError, WorkflowState};
use git_mile::event_log::{Actor, Event, EventKind};
use git_mile::mcp::{
    comment_exists, comment_records, missing_comment_message, CommentRecord, UpdateTaskParams,
};
use git_mile::task::{EventId, StateKind, TaskId, TaskSnapshot};
use git_mile::task_patch::StatePatch;
use git_mile::ui::DetailFocus;
use git_mile::ui_state::instructions;

fn actor() -> Actor {
    Actor { name: "tester".into(), email: "tester@example.invalid".into() }
}

#[test]
fn skips_tracing_in_mcp_mode() {
    assert!(!should_install_tracing(&Command::Mcp));
}

#[test]
fn installs_tracing_for_other_commands() {
    assert!(should_install_tracing(&Command::Tui));
}

#[test]
fn parse_task_ids_roundtrip() {
    let ids = vec![TaskId { value: 0x0123_4567_89ab_cdef_0123_4567_89ab_cdef }, TaskId { value: 42 }];
    let raw: Vec<String> = ids.iter().map(TaskId::to_text).collect();
    let parsed = parse_task_ids(&raw).expect("ids parse");
    assert_eq!(parsed, ids);
}

#[test]
fn parse_task_ids_rejects_invalid_value() {
    let Err(err) = parse_task_ids(&vec!["not-a-task-id".into()]) else {
        panic!("expected invalid id error");
    };
    assert!(err.contains("Invalid task id"));
}

#[test]
fn parse_event_id_rejects_invalid_value() {
    let Err(err) = parse_event_id("not-an-event-id") else {
        panic!("expected invalid id error");
    };
    assert!(err.contains("Invalid comment id"));
}

#[test]
fn task_ids_accept_both_uuid_spellings() {
    let dashed = parse_task_id("0123ABCD-0000-0000-0000-00000000000F").expect("hyphenated");
    let plain = parse_task_id("0123abcd00000000000000000000000f").expect("simple");
    assert_eq!(dashed, plain);
    assert_eq!(dashed.to_text(), "0123abcd-0000-0000-0000-00000000000f");
    assert_eq!(parse_task_id("0123abcd-0000-0000-0000-00000000000").unwrap_err(), "Invalid task id: 0123abcd-0000-0000-0000-00000000000");
}

#[test]
fn no_tasks_message_depends_on_filter() {
    assert_eq!(no_tasks_message(true), "No tasks found");
    assert_eq!(no_tasks_message(false), "No tasks matched the provided filters");
}

#[test]
fn workflow_states_table_lists_states() {
    let workflow = WorkflowConfig {
        states: vec![
            WorkflowState { value: "state/todo".into(), label: Some("To Do".into()), kind: Some(StateKind::Todo) },
            WorkflowState { value: "state/done".into(), label: None, kind: None },
        ],
        default_state: Some("state/todo".into()),
    };
    assert_eq!(
        workflow_states_lines(&workflow),
        vec![
            "Restricted | true",
            "DefaultState | state/todo",
            "Value | Label | Kind | Default",
            "----- | ----- | ---- | -------",
            "state/todo | To Do | todo | yes",
            "state/done | - | - | no",
        ]
    );
    assert_eq!(
        workflow_states_lines(&WorkflowConfig::default()),
        vec!["Restricted | false", "DefaultState | -", "Value | Label | Kind | Default", "----- | ----- | ---- | -------"]
    );
}

fn config_with(values: &[&str]) -> ProjectConfig {
    ProjectConfig {
        workflow: WorkflowConfig {
            states: values.iter().map(|v| WorkflowState::new((*v).to_owned())).collect(),
            default_state: None,
        },
    }
}

#[test]
fn duplicate_states_are_rejected() {
    let mut cfg = config_with(&["state/todo", "state/todo"]);
    let err = cfg.validate().unwrap_err();
    assert!(err.message().contains("duplicate workflow state"));
    assert!(matches!(err, WorkflowError::DuplicateState { value } if value == "state/todo"));
}

#[test]
fn configured_states_restrict_values() {
    let mut cfg = config_with(&["state/todo", "state/done"]);
    assert!(cfg.validate().is_ok());
    assert!(cfg.workflow.is_restricted());
    assert_eq!(cfg.workflow.states().len(), 2);
    assert!(cfg.workflow.validate_state(Some("state/todo")).is_ok());
    assert!(cfg.workflow.validate_state(Some("state/unknown")).is_err());
    assert!(cfg.workflow.validate_state(None).is_ok());
    assert_eq!(cfg.workflow.state_hint().as_deref(), Some("state/todo, state/done"));
}

#[test]
fn missing_config_is_unrestricted() {
    let cfg = ProjectConfig::default();
    assert!(!cfg.workflow.is_restricted());
    assert!(cfg.workflow.validate_state(Some("anything")).is_ok());
    assert_eq!(cfg.workflow.state_hint(), None);
}

#[test]
fn state_kinds_resolve_from_the_first_matching_state() {
    let workflow = WorkflowConfig {
        states: vec![
            WorkflowState { value: "s".into(), label: Some("S".into()), kind: Some(StateKind::Blocked) },
            WorkflowState { value: "s".into(), label: None, kind: Some(StateKind::Done) },
        ],
        default_state: None,
    };
    assert_eq!(workflow.resolve_state_kind(Some("s")), Some(StateKind::Blocked));
    assert_eq!(workflow.resolve_state_kind(Some("t")), None);
    assert_eq!(workflow.resolve_state_kind(None), None);
    assert_eq!(workflow.state_hint().as_deref(), Some("s (S), s"));
}

fn comment_event(id: u128, ts: i128, kind: EventKind) -> Event {
    Event { id: EventId { value: id }, ts, actor: actor(), kind }
}

#[test]
fn comment_records_apply_updates_in_order() {
    let first = EventId { value: 1 };
    let second = EventId { value: 2 };
    let events = vec![
        comment_event(1, 10, EventKind::CommentAdded { comment_id: first, body_md: "one".into() }),
        comment_event(2, 20, EventKind::CommentAdded { comment_id: second, body_md: "two".into() }),
        comment_event(3, 30, EventKind::TaskStateCleared),
        comment_event(4, 40, EventKind::CommentUpdated { comment_id: first, body_md: "one, edited".into() }),
    ];
    let records = comment_records(&events).expect("history is consistent");
    assert_eq!(records.len(), 2);
    assert_eq!(records[0].comment_id, first);
    assert_eq!(records[0].body_md, "one, edited");
    assert_eq!(records[0].created_at, 10);
    assert_eq!(records[0].updated_at, Some(40));
    assert_eq!(records[1].body_md, "two");
    assert_eq!(records[1].updated_at, None);
    assert!(comment_exists(&events, second));
    assert!(!comment_exists(&events, EventId { value: 9 }));
}

#[test]
fn comment_update_before_add_is_an_error() {
    let orphan = EventId { value: 0xff };
    let events = vec![comment_event(1, 10, EventKind::CommentUpdated { comment_id: orphan, body_md: "x".into() })];
    assert_eq!(
        comment_records(&events).unwrap_err(),
        "Comment 00000000-0000-0000-0000-0000000000ff was updated before it was added"
    );
}

#[test]
fn missing_comment_message_names_both_ids() {
    let text = missing_comment_message(EventId { value: 1 }, TaskId { value: 2 });
    assert!(text.contains("00000000-0000-0000-0000-000000000001"));
    assert!(text.contains("00000000-0000-0000-0000-000000000002"));
}

#[test]
fn update_task_request_becomes_an_update() {
    let params = UpdateTaskParams {
        task_id: "t".into(),
        title: Some("New".into()),
        description: None,
        state: None,
        clear_state: true,
        add_labels: vec!["a".into()],
        remove_labels: Vec::new(),
        add_assignees: Vec::new(),
        remove_assignees: vec!["bob".into()],
        link_parents: Vec::new(),
        unlink_parents: Vec::new(),
        actor_name: None,
        actor_email: None,
    };
    let update = params.task_update();
    assert_eq!(update.title.as_deref(), Some("New"));
    assert!(matches!(update.state, Some(StatePatch::Clear)));
    assert!(update.description.is_none());
    assert_eq!(update.labels.added, vec!["a"]);
    assert_eq!(update.assignees.removed, vec!["bob"]);
}

fn instructions_mention_filter() {
    assert!(instructions(DetailFocus::TaskList, &actor()).contains("f:フィルタ"));
}

#[test]
fn tui_instructions_include_filter_shortcut() {
    instructions_mention_filter();
}

#[test]
fn tests_instructions_include_filter_shortcut() {
    instructions_mention_filter();
}

#[test]
fn instructions_name_the_actor_and_follow_the_focus() {
    let text = instructions(DetailFocus::TaskList, &actor());
    assert!(text.ends_with(" [tester <tester@example.invalid>]"));
    assert_eq!(instructions(DetailFocus::StatePicker, &actor()), "j/k:移動 ↵:決定 q/Esc:キャンセル");
    assert_eq!(
        instructions(DetailFocus::DescriptionViewer, &actor()),
        instructions(DetailFocus::CommentViewer, &actor())
    );
}

fn table_snapshot(value: u128, title: &str, state: Option<&str>) -> TaskSnapshot {
    TaskSnapshot {
        id: TaskId { value },
        title: title.into(),
        state: state.map(String::from),
        state_kind: None,
        labels: vec![],
        assignees: vec![],
        description: String::new(),
        parents: vec![],
    }
}

#[test]
fn task_table_lists_rows_in_order() {
    let mut first = table_snapshot(1, "Write docs", Some("state/todo"));
    first.labels = vec!["docs".into(), "easy".into()];
    first.assignees = vec!["alice".into()];
    let second = table_snapshot(2, "Ship", None);
    let rows = vec![
        TaskTableRow { snapshot: first, state_label: "Todo".into(), updated: Some(0) },
        TaskTableRow { snapshot: second, state_label: "未設定".into(), updated: None },
    ];
    let lines = task_table_lines(&rows);
    assert_eq!(
        lines,
        vec![
            "ID | State | Title | Labels | Assignees | Updated".to_string(),
            "-- | ----- | ----- | ------ | --------- | -------".to_string(),
            "00000000-0000-0000-0000-000000000001 | Todo (state/todo) | Write docs | docs, easy | alice | 1970-01-01T00:00:00Z".to_string(),
            "00000000-0000-0000-0000-000000000002 | 未設定 | Ship | - | - | -".to_string(),
        ]
    );
}

#[test]
fn task_table_shows_label_once_when_it_is_the_state() {
    let rows = vec![TaskTableRow {
        snapshot: table_snapshot(3, "Same", Some("todo")),
        state_label: "todo".into(),
        updated: None,
    }];
    let lines = task_table_lines(&rows);
    assert_eq!(lines[2], "00000000-0000-0000-0000-000000000003 | todo | Same | - | - | -");
}

#[test]
fn comment_table_shows_each_comment_on_one_line() {
    let comments = vec![
        CommentRecord {
            comment_id: EventId { value: 7 },
            actor: actor(),
            body_md: "first line\n  second   line".into(),
            created_at: 0,
            updated_at: Some(1_000_000_000),
        },
        CommentRecord {
            comment_id: EventId { value: 8 },
            actor: actor(),
            body_md: "x".repeat(90),
            created_at: 0,
            updated_at: None,
        },
    ];
    let lines = comment_table_lines(&comments);
    assert_eq!(lines.len(), 4);
    assert_eq!(lines[0], "CommentId | Actor | Created | Updated | Body");
    assert_eq!(
        lines[2],
        "00000000-0000-0000-0000-000000000007 | tester <tester@example.invalid> | 1970-01-01T00:00:00Z | 1970-01-01T00:00:01Z | first line second line"
    );
    assert_eq!(
        lines[3],
        format!(
            "00000000-0000-0000-0000-000000000008 | tester <tester@example.invalid> | 1970-01-01T00:00:00Z | - | {}...",
            "x".repeat(77)
        )
    );
}
