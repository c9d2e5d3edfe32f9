use git_mile::config::{WorkflowConfig, WorkflowState};
use git_mile::editor::NewTaskData;
use git_mile::event_log::{Actor, EventKind};
use git_mile::task::{StateKind, TaskId, TaskSnapshot};
use git_mile::task_patch::{diff_sets, DescriptionPatch, StatePatch, TaskEditData, TaskPatch};
use git_mile::task_service::{
    plan_cli_update, plan_creation, plan_state_change, plan_task_update, CommentRequest,
    TaskWriteError, TaskWriter,
};

fn task_one() -> TaskId {
    TaskId::parse("00000000-0000-0000-0000-000000000001").expect("must parse task id")
}

fn snapshot_with(title: &str, state: Option<&str>, description: &str) -> TaskSnapshot {
    TaskSnapshot {
        id: task_one(),
        title: title.into(),
        state: state.map(str::to_owned),
        state_kind: None,
        labels: Vec::new(),
        assignees: Vec::new(),
        description: description.into(),
        parents: Vec::new(),
    }
}

fn default_data() -> TaskEditData {
    TaskEditData::new("Title".into(), Some("state/todo".into()), Vec::new(), Vec::new(), None)
}

fn workflow_of(states: &[&str], default_state: Option<&str>) -> WorkflowConfig {
    WorkflowConfig {
        states: states.iter().map(|s| WorkflowState::new((*s).to_owned())).collect(),
        default_state: default_state.map(str::to_owned),
    }
}

#[test]
fn patch_detects_title_and_state_changes() {
    let snapshot = snapshot_with("Old", Some("state/done"), "");
    let data = TaskEditData::new("New".into(), Some("state/todo".into()), Vec::new(), Vec::new(), None);
    let patch = TaskPatch::from_snapshot(&snapshot, data);
    assert!(patch.title.is_some());
    assert!(matches!(patch.state, Some(StatePatch::Replace { state }) if state == "state/todo"));
}

#[test]
fn patch_leaves_description_when_none_given() {
    let snapshot = snapshot_with("Title", None, "body");
    let data = TaskEditData::new("Title".into(), None, Vec::new(), Vec::new(), None);
    let patch = TaskPatch::from_snapshot(&snapshot, data);
    assert!(patch.description.is_none());
    assert!(patch.is_empty());
}

#[test]
fn blank_form_description_deletes_description() {
    let snapshot = snapshot_with("Title", None, "body");
    let form = NewTaskData {
        title: "Title".into(),
        state: None,
        labels: vec![],
        assignees: vec![],
        description: None,
        parent: None,
    };
    let patch = TaskPatch::from_snapshot(&snapshot, TaskEditData::from_form(form));
    assert!(matches!(patch.description, Some(DescriptionPatch::Clear)));
}

#[test]
fn patch_clears_description_when_empty() {
    let snapshot = snapshot_with("Title", None, "body");
    let data = TaskEditData::new("Title".into(), None, Vec::new(), Vec::new(), Some(String::new()));
    let patch = TaskPatch::from_snapshot(&snapshot, data);
    assert!(matches!(patch.description, Some(DescriptionPatch::Clear)));
}

#[test]
fn patch_is_empty_when_fields_match() {
    let snapshot = snapshot_with("Title", Some("state/todo"), "");
    let data = default_data();
    let patch = TaskPatch::from_snapshot(&snapshot, data);
    assert!(patch.is_empty());
}

#[test]
fn patch_emits_diff_for_labels_and_assignees() {
    let mut snapshot = snapshot_with("Title", None, "");
    snapshot.labels.push("a".into());
    snapshot.assignees.push("alice".into());

    let data = TaskEditData::new("Title".into(), None, vec!["b".into()], vec!["bob".into()], None);
    let patch = TaskPatch::from_snapshot(&snapshot, data);
    assert_eq!(patch.labels.removed, vec!["a"]);
    assert_eq!(patch.labels.added, vec!["b"]);
    assert_eq!(patch.assignees.removed, vec!["alice"]);
    assert_eq!(patch.assignees.added, vec!["bob"]);
}

#[test]
fn patch_replaces_description_and_keeps_missing_state_cleared() {
    let snapshot = snapshot_with("Title", Some("state/todo"), "old");
    let data = TaskEditData::new("Title".into(), None, Vec::new(), Vec::new(), Some("new".into()));
    let patch = TaskPatch::from_snapshot(&snapshot, data);
    assert!(matches!(patch.state, Some(StatePatch::Clear)));
    assert!(matches!(&patch.description, Some(DescriptionPatch::Replace { description }) if description == "new"));
    assert!(!patch.is_empty());
}

#[test]
fn patch_events_follow_field_order() {
    let snapshot = snapshot_with("Old", Some("state/todo"), "");
    let data = TaskEditData::new(
        "New".into(),
        Some("state/done".into()),
        vec!["x".into()],
        Vec::new(),
        None,
    );
    let workflow = WorkflowConfig {
        states: vec![
            WorkflowState { value: "state/todo".into(), label: None, kind: Some(StateKind::Todo) },
            WorkflowState { value: "state/done".into(), label: None, kind: Some(StateKind::Done) },
        ],
        default_state: None,
    };
    let events = TaskPatch::from_snapshot(&snapshot, data).into_events(&workflow);
    assert_eq!(events.len(), 3);
    assert!(matches!(&events[0], EventKind::TaskTitleSet { title } if title == "New"));
    assert!(matches!(
        &events[1],
        EventKind::TaskStateSet { state, state_kind: Some(StateKind::Done) } if state == "state/done"
    ));
    assert!(matches!(&events[2], EventKind::LabelsAdded { labels } if labels == &vec!["x".to_string()]));
}

fn diff_sets_case() {
    let current = vec![String::from("a"), String::from("b")];
    let desired = vec![String::from("b"), String::from("c")];

    let diff = diff_sets(&current, &desired);

    assert_eq!(diff.added, vec![String::from("c")]);
    assert_eq!(diff.removed, vec![String::from("a")]);
}

#[test]
fn diff_sets_detects_added_and_removed_items() {
    diff_sets_case();
}

fn created_task_data() -> NewTaskData {
    NewTaskData {
        title: "Title".into(),
        state: Some("todo".into()),
        labels: vec!["type/docs".into()],
        assignees: Vec::new(),
        description: Some("Write documentation".into()),
        parent: None,
    }
}

fn create_task_records_fields() {
    let id = TaskId { value: 42 };
    let events = plan_creation(id, created_task_data(), &WorkflowConfig::new()).expect("creation planned");
    assert_eq!(events.len(), 1);
    let (target, kind) = &events[0];
    assert_eq!(*target, id);
    match kind {
        EventKind::TaskCreated { title, labels, description, state, state_kind, .. } => {
            assert_eq!(title, "Title");
            assert_eq!(state.as_deref(), Some("todo"));
            assert_eq!(description.as_deref(), Some("Write documentation"));
            let labels: Vec<&str> = labels.iter().map(String::as_str).collect();
            assert_eq!(labels, vec!["type/docs"]);
            assert_eq!(*state_kind, None);
        }
        other => panic!("unexpected event: {other:?}"),
    }
}

#[test]
fn tui_create_task_registers_and_selects_new_entry() {
    create_task_records_fields();
}

#[test]
fn tests_create_task_registers_and_selects_new_entry() {
    create_task_records_fields();
}

fn create_task_unknown_state() {
    let workflow = workflow_of(&["state/todo"], None);
    let data = NewTaskData {
        title: "Title".into(),
        state: Some("state/done".into()),
        labels: Vec::new(),
        assignees: Vec::new(),
        description: None,
        parent: None,
    };
    let err = plan_creation(TaskId { value: 7 }, data, &workflow).unwrap_err();
    assert!(err.message().contains("state 'state/done'"));
}

#[test]
fn tui_create_task_rejects_unknown_state() {
    create_task_unknown_state();
}

#[test]
fn tests_create_task_rejects_unknown_state() {
    create_task_unknown_state();
}

fn create_task_default_state() {
    let workflow = workflow_of(&["state/todo"], Some("state/todo"));
    let data = NewTaskData {
        title: "Title".into(),
        state: None,
        labels: Vec::new(),
        assignees: Vec::new(),
        description: None,
        parent: None,
    };
    let events = plan_creation(TaskId { value: 8 }, data, &workflow).expect("creation planned");
    match &events[0].1 {
        EventKind::TaskCreated { state, .. } => assert_eq!(state.as_deref(), Some("state/todo")),
        other => panic!("unexpected event: {other:?}"),
    }
}

#[test]
fn tui_create_task_applies_default_state() {
    create_task_default_state();
}

#[test]
fn tests_create_task_applies_default_state() {
    create_task_default_state();
}

#[test]
fn create_subtask_links_both_tasks() {
    let child = TaskId { value: 9 };
    let parent = TaskId { value: 3 };
    let mut data = created_task_data();
    data.parent = Some(parent);
    let events = plan_creation(child, data, &WorkflowConfig::new()).expect("creation planned");
    assert_eq!(events.len(), 3);
    assert!(matches!(events[1], (t, EventKind::ChildLinked { parent: p, child: c }) if t == child && p == parent && c == child));
    assert!(matches!(events[2], (t, EventKind::ChildLinked { parent: p, child: c }) if t == parent && p == parent && c == child));
}

fn initial_snapshot() -> TaskSnapshot {
    TaskSnapshot {
        id: TaskId { value: 11 },
        title: "Initial".into(),
        state: Some("state/in-progress".into()),
        state_kind: Some(StateKind::InProgress),
        labels: vec!["area/cli".into(), "type/bug".into()],
        assignees: vec!["alice".into(), "carol".into()],
        description: "old description".into(),
        parents: Vec::new(),
    }
}

fn update_task_changes() {
    let data = TaskEditData::new(
        "Updated".into(),
        None,
        vec!["type/docs".into()],
        vec!["bob".into()],
        Some("new description".into()),
    );
    let events =
        plan_task_update(&initial_snapshot(), data, &WorkflowConfig::new()).expect("update planned");
    assert_eq!(events.len(), 7);
    assert!(events.iter().any(|ev| matches!(ev, EventKind::TaskTitleSet { title } if title == "Updated")));
    assert!(events.iter().any(|ev| matches!(ev, EventKind::TaskStateCleared)));
    assert!(events.iter().any(|ev| matches!(
        ev,
        EventKind::TaskDescriptionSet { description: Some(d) } if d == "new description"
    )));
    assert!(events.iter().any(|ev| matches!(ev, EventKind::LabelsAdded { labels } if labels == &vec!["type/docs".to_string()])));
    assert!(events.iter().any(|ev| matches!(
        ev,
        EventKind::LabelsRemoved { labels } if labels == &vec!["area/cli".to_string(), "type/bug".to_string()]
    )));
    assert!(events.iter().any(|ev| matches!(ev, EventKind::AssigneesAdded { assignees } if assignees == &vec!["bob".to_string()])));
    assert!(events.iter().any(|ev| matches!(
        ev,
        EventKind::AssigneesRemoved { assignees } if assignees == &vec!["alice".to_string(), "carol".to_string()]
    )));
}

#[test]
fn tui_update_task_applies_field_changes() {
    update_task_changes();
}

#[test]
fn tests_update_task_applies_field_changes() {
    update_task_changes();
}

fn update_task_without_diff() {
    let snapshot = initial_snapshot();
    let data = TaskEditData::new(
        snapshot.title.clone(),
        snapshot.state.clone(),
        snapshot.labels.clone(),
        snapshot.assignees.clone(),
        Some(snapshot.description.clone()),
    );
    let events = plan_task_update(&snapshot, data, &WorkflowConfig::new()).expect("update planned");
    assert!(events.is_empty());
}

#[test]
fn tui_update_task_returns_false_when_no_diff() {
    update_task_without_diff();
}

#[test]
fn tests_update_task_returns_false_when_no_diff() {
    update_task_without_diff();
}

#[test]
fn update_task_rejects_unknown_state() {
    let workflow = workflow_of(&["state/todo"], None);
    let data = TaskEditData::new("Initial".into(), Some("state/nope".into()), Vec::new(), Vec::new(), None);
    let err = plan_task_update(&initial_snapshot(), data, &workflow).unwrap_err();
    assert_eq!(
        err.message(),
        "state 'state/nope' is not defined in workflow configuration. Allowed values: state/todo."
    );
}

fn set_state_new_value() {
    let workflow = workflow_of(&["state/todo", "state/done"], None);
    let change = plan_state_change(&Some("state/todo".into()), Some("state/done".into()), &workflow)
        .expect("state change planned");
    assert!(matches!(change, Some(EventKind::TaskStateSet { state, .. }) if state == "state/done"));
}

#[test]
fn tui_set_task_state_applies_new_value() {
    set_state_new_value();
}

#[test]
fn tests_set_task_state_applies_new_value() {
    set_state_new_value();
}

fn set_state_unchanged() {
    let workflow = workflow_of(&["state/todo"], None);
    let change = plan_state_change(&Some("state/todo".into()), Some("state/todo".into()), &workflow)
        .expect("state change planned");
    assert!(change.is_none());
}

#[test]
fn tui_set_task_state_returns_false_when_unchanged() {
    set_state_unchanged();
}

#[test]
fn tests_set_task_state_returns_false_when_unchanged() {
    set_state_unchanged();
}

#[test]
fn clearing_state_emits_cleared_event() {
    let change = plan_state_change(&Some("state/todo".into()), None, &WorkflowConfig::new())
        .expect("state change planned");
    assert!(matches!(change, Some(EventKind::TaskStateCleared)));
}

#[test]
fn cli_update_clears_state_when_asked() {
    let update = plan_cli_update(
        &WorkflowConfig::new(),
        Some("T".into()),
        None,
        None,
        true,
        vec!["l".into()],
        Vec::new(),
        Vec::new(),
        vec!["bob".into()],
    )
    .expect("update accepted");
    assert_eq!(update.title.as_deref(), Some("T"));
    assert!(matches!(update.state, Some(StatePatch::Clear)));
    assert!(update.description.is_none());
    assert_eq!(update.labels.added, vec!["l"]);
    assert_eq!(update.assignees.removed, vec!["bob"]);
}

#[test]
fn cli_update_rejects_unknown_state() {
    let workflow = workflow_of(&["state/todo"], None);
    let result = plan_cli_update(
        &workflow,
        None,
        None,
        Some("state/other".into()),
        false,
        Vec::new(),
        Vec::new(),
        Vec::new(),
        Vec::new(),
    );
    assert!(result.is_err());
}

#[test]
fn task_writer_exposes_workflow() {
    let workflow = workflow_of(&["state/todo"], Some("state/todo"));
    let writer = TaskWriter::new(5u8, workflow);
    assert_eq!(writer.workflow().default_state(), Some("state/todo"));
    assert_eq!(*writer.store(), 5u8);
}

#[test]
fn task_writer_operations_are_not_available_yet() {
    let writer = TaskWriter::new((), WorkflowConfig::new());
    let actor = Actor { name: "tester".into(), email: "tester@example.invalid".into() };
    let comment = CommentRequest { body_md: "hi".into(), actor: actor.clone() };
    assert!(matches!(writer.add_comment(TaskId { value: 1 }, comment), Err(TaskWriteError::NotImplemented("add_comment"))));
    assert!(matches!(
        writer.set_state(TaskId { value: 1 }, None, &actor),
        Err(TaskWriteError::NotImplemented("set_state"))
    ));
    assert!(matches!(
        writer.link_parents(TaskId { value: 1 }, &[TaskId { value: 2 }], &actor),
        Err(TaskWriteError::NotImplemented("link_parents"))
    ));
}
