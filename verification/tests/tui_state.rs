use git_mile::config::{WorkflowConfig, WorkflowState};
use git_mile::event_log::EventKind;
use git_mile::filter::TaskFilter;
use git_mile::keybindings::{Action, KeyBindingsConfig};
use git_mile::keys::{KeyCode, KeyEvent, KeyModifiers};
use git_mile::task::{TaskId, TaskSnapshot};
use git_mile::task_cache::TaskCache;
use git_mile::task_service::plan_state_change;
use git_mile::tree_view::{TreeNode, TreeViewState};
use git_mile::ui::DetailFocus;
use git_mile::ui_state::{KeyOutcome, MessageLevel, Ui};
use git_mile::visibility::{TaskView, TaskVisibility};

const SECOND: i128 = 1_000_000_000;

fn id_of(text: &str) -> TaskId {
    TaskId::parse(text).unwrap_or_else(|| panic!("valid id: {text}"))
}

fn fixed_task_id(n: u8) -> TaskId {
    id_of(&format!("00000000-0000-0000-0000-0000000000{n:02}"))
}

fn task(id: TaskId, title: &str, updated_secs: Option<i128>, parents: Vec<TaskId>) -> TaskView {
    TaskView {
        snapshot: TaskSnapshot {
            id,
            title: title.to_owned(),
            state: None,
            state_kind: None,
            labels: Vec::new(),
            assignees: Vec::new(),
            description: String::new(),
            parents,
        },
        comments: Vec::new(),
        last_updated: updated_secs.map(|s| s * SECOND),
    }
}

fn view(id: &str, title: &str) -> TaskView {
    task(id_of(id), title, None, Vec::new())
}

fn with_state(mut view: TaskView, state: &str) -> TaskView {
    view.snapshot.state = Some(state.to_owned());
    view
}

fn workflow_of(states: &[&str]) -> WorkflowConfig {
    WorkflowConfig {
        states: states.iter().map(|s| WorkflowState::new((*s).to_owned())).collect(),
        default_state: None,
    }
}

fn ui_over(tasks: Vec<TaskView>, workflow: WorkflowConfig) -> Ui {
    Ui::new(TaskCache::from_views(tasks), workflow, KeyBindingsConfig::default(), TaskFilter::default(), None)
}

fn key(code: KeyCode) -> KeyEvent {
    KeyEvent::new(code, KeyModifiers::none())
}

fn visible_titles<'a>(visibility: &TaskVisibility, tasks: &'a [TaskView]) -> Vec<&'a str> {
    visibility
        .visible_tasks(tasks)
        .into_iter()
        .map(|view| view.snapshot.title.as_str())
        .collect()
}

// --- task visibility ---------------------------------------------------------

#[test]
fn rebuild_without_filter_lists_all_tasks() {
    let tasks = vec![
        view("00000000-0000-0000-0000-000000000001", "one"),
        view("00000000-0000-0000-0000-000000000002", "two"),
    ];
    let mut visibility = TaskVisibility::default();
    visibility.rebuild(&tasks, None, None);

    assert_eq!(visibility.visible_indexes(), &[0, 1]);
    assert_eq!(visibility.selected_index(), 0);
    assert_eq!(visibility.selected_task_id(&tasks), Some(tasks[0].snapshot.id));
}

#[test]
fn rebuild_applies_filter_and_keeps_preferred_selection() {
    let tasks = vec![
        view("00000000-0000-0000-0000-000000000010", "Root"),
        view("00000000-0000-0000-0000-000000000011", "Child"),
        view("00000000-0000-0000-0000-000000000012", "Grandchild"),
    ];

    // The text filter "child" keeps "Child" and "Grandchild".
    let matches = [false, true, true];
    let mut visibility = TaskVisibility::default();
    let preferred = Some(tasks[2].snapshot.id);
    visibility.rebuild(&tasks, Some(&matches), preferred);

    assert_eq!(visibility.visible_indexes(), &[1, 2]);
    assert_eq!(visibility.selected_task_id(&tasks), Some(tasks[2].snapshot.id));
}

#[test]
fn navigation_wraps_within_bounds() {
    let tasks = vec![
        view("00000000-0000-0000-0000-000000000020", "first"),
        view("00000000-0000-0000-0000-000000000021", "second"),
    ];
    let mut visibility = TaskVisibility::default();
    visibility.rebuild(&tasks, None, None);
    visibility.select_next();
    assert_eq!(visibility.selected_task_id(&tasks), Some(tasks[1].snapshot.id));
    visibility.select_next();
    assert_eq!(visibility.selected_task_id(&tasks), Some(tasks[1].snapshot.id));
    visibility.select_prev();
    assert_eq!(visibility.selected_task_id(&tasks), Some(tasks[0].snapshot.id));
    visibility.select_prev();
    assert_eq!(visibility.selected_task_id(&tasks), Some(tasks[0].snapshot.id));
}

#[test]
fn jump_to_task_updates_selection_when_visible() {
    let tasks = vec![
        view("00000000-0000-0000-0000-000000000030", "first"),
        view("00000000-0000-0000-0000-000000000031", "second"),
    ];
    let mut visibility = TaskVisibility::default();
    visibility.rebuild(&tasks, None, None);

    visibility.jump_to_task(tasks[1].snapshot.id);
    assert_eq!(visibility.selected_task_id(&tasks), Some(tasks[1].snapshot.id));
    visibility.jump_to_task(TaskId { value: 0xdead_beef });
    assert_eq!(visibility.selected_task_id(&tasks), Some(tasks[1].snapshot.id));
}

#[test]
fn filter_only_keeps_matching_tasks() {
    let tasks = vec![
        view("00000000-0000-0000-0000-000000000040", "Root"),
        view("00000000-0000-0000-0000-000000000041", "Child"),
        view("00000000-0000-0000-0000-000000000042", "Grandchild"),
    ];

    // The text filter "Grand" keeps only "Grandchild".
    let matches = [false, false, true];
    let mut visibility = TaskVisibility::default();
    visibility.rebuild(&tasks, Some(&matches), None);

    assert_eq!(visible_titles(&visibility, &tasks), vec!["Grandchild"]);
}

#[test]
fn filter_matches_parent_without_including_children() {
    let tasks = vec![
        view("00000000-0000-0000-0000-000000000050", "Root"),
        view("00000000-0000-0000-0000-000000000051", "Child"),
    ];

    // The text filter "Root" keeps only the parent.
    let matches = [true, false];
    let mut visibility = TaskVisibility::default();
    visibility.rebuild(&tasks, Some(&matches), None);

    assert_eq!(visible_titles(&visibility, &tasks), vec!["Root"]);
}

#[test]
fn rebuild_keeps_selection_in_bounds_when_list_shrinks() {
    let tasks = vec![
        view("00000000-0000-0000-0000-000000000060", "a"),
        view("00000000-0000-0000-0000-000000000061", "b"),
        view("00000000-0000-0000-0000-000000000062", "c"),
    ];
    let mut visibility = TaskVisibility::new();
    visibility.rebuild(&tasks, None, None);
    visibility.select_next();
    visibility.select_next();
    assert_eq!(visibility.selected_index(), 2);
    let matches = [true, false, false];
    visibility.rebuild(&tasks, Some(&matches), None);
    assert_eq!(visibility.selected_index(), 0);
    assert!(visibility.contains(tasks[0].snapshot.id));
    assert!(!visibility.contains(tasks[2].snapshot.id));
    let none = [false, false, false];
    visibility.rebuild(&tasks, Some(&none), None);
    assert!(!visibility.has_visible_tasks());
    assert_eq!(visibility.selected_task_id(&tasks), None);
}

#[test]
fn moving_down_then_up_returns_to_the_same_task() {
    let tasks = vec![
        view("00000000-0000-0000-0000-000000000070", "a"),
        view("00000000-0000-0000-0000-000000000071", "b"),
    ];
    let mut visibility = TaskVisibility::new();
    visibility.rebuild(&tasks, None, None);
    let before = visibility.selected_task_id(&tasks);
    visibility.select_next();
    visibility.select_prev();
    assert_eq!(visibility.selected_task_id(&tasks), before);
}

// --- tree view ---------------------------------------------------------------

#[test]
fn expands_path_to_selected_task() {
    let child_id = TaskId { value: 2 };
    let root_id = TaskId { value: 1 };
    let mut state = TreeViewState {
        roots: vec![TreeNode {
            task_id: root_id,
            children: vec![TreeNode { task_id: child_id, children: Vec::new(), expanded: false }],
            expanded: false,
        }],
        visible_nodes: Vec::new(),
        selected: 0,
    };

    state.expand_to_task(child_id);
    assert!(state.roots[0].expanded, "root should be expanded to reveal child");
    assert_eq!(state.roots[0].task_id, root_id);
}

#[test]
fn rebuild_visible_nodes_includes_children() {
    let child_id = TaskId { value: 4 };
    let root_id = TaskId { value: 3 };
    let mut state = TreeViewState {
        roots: vec![TreeNode {
            task_id: root_id,
            children: vec![TreeNode { task_id: child_id, children: Vec::new(), expanded: false }],
            expanded: true,
        }],
        visible_nodes: Vec::new(),
        selected: 0,
    };

    state.rebuild_visible_nodes();
    assert_eq!(state.visible_nodes.len(), 2);
    assert_eq!(state.visible_nodes[0], (0, root_id));
    assert_eq!(state.visible_nodes[1], (1, child_id));
}

#[test]
fn selected_task_id_tracks_current_row() {
    let mut state = TreeViewState {
        roots: vec![TreeNode { task_id: TaskId { value: 5 }, children: Vec::new(), expanded: true }],
        visible_nodes: Vec::new(),
        selected: 0,
    };
    state.rebuild_visible_nodes();
    assert_eq!(state.selected_task_id(), Some(state.roots[0].task_id));
}

#[test]
fn collapsed_nodes_hide_their_children() {
    let mut state = TreeViewState {
        roots: vec![TreeNode {
            task_id: TaskId { value: 6 },
            children: vec![TreeNode { task_id: TaskId { value: 7 }, children: Vec::new(), expanded: false }],
            expanded: false,
        }],
        visible_nodes: Vec::new(),
        selected: 0,
    };
    state.rebuild_visible_nodes();
    assert_eq!(state.visible_nodes, vec![(0, TaskId { value: 6 })]);
    assert!(state.set_node_expanded(TaskId { value: 6 }, true));
    state.rebuild_visible_nodes();
    assert_eq!(state.visible_nodes.len(), 2);
    assert!(state.find_node(TaskId { value: 7 }).is_some());
    assert!(!state.set_node_expanded(TaskId { value: 8 }, true));
}

// --- task cache ----------------------------------------------------------------

#[test]
fn load_sorts_tasks_by_latest_update() {
    let first = fixed_task_id(1);
    let second = fixed_task_id(2);
    let third = fixed_task_id(3);

    let cache = TaskCache::from_views(vec![
        task(first, "first", Some(10), Vec::new()),
        task(second, "second", Some(30), Vec::new()),
        task(third, "third", Some(20), Vec::new()),
    ]);
    let ids: Vec<TaskId> = cache.tasks.iter().map(|view| view.snapshot.id).collect();
    assert_eq!(ids, vec![second, third, first]);
}

#[test]
fn indexes_track_parent_child_relationships() {
    let parent = fixed_task_id(10);
    let child = fixed_task_id(20);

    let cache = TaskCache::from_views(vec![
        task(parent, "parent", Some(15), Vec::new()),
        task(child, "child", Some(15), vec![parent]),
    ]);

    assert_eq!(cache.parents_of(child).map(Vec::as_slice), Some(&[parent][..]));
    assert_eq!(cache.children_of(parent), vec![child]);
    assert!(cache.children_of(child).is_empty());
    assert_eq!(cache.index_of(child).map(|i| cache.tasks[i].snapshot.id), Some(child));
    assert_eq!(cache.find_task(TaskId { value: 0 }).map(|t| t.snapshot.id), None);
}

fn refreshes_sorted_by_last_update() {
    let task_a = fixed_task_id(1);
    let task_b = fixed_task_id(2);
    // A was created at 0 and commented at 2000; B was created at 1000.
    let cache = TaskCache::from_views(vec![
        task(task_a, "A", Some(2000), Vec::new()),
        task(task_b, "B", Some(1000), Vec::new()),
    ]);
    assert_eq!(cache.tasks.len(), 2);
    let titles: Vec<&str> = cache.tasks.iter().map(|view| view.snapshot.title.as_str()).collect();
    assert_eq!(titles, vec!["A", "B"]);
}

#[test]
fn tui_app_refreshes_tasks_sorted_by_last_update() {
    refreshes_sorted_by_last_update();
}

#[test]
fn tests_app_refreshes_tasks_sorted_by_last_update() {
    refreshes_sorted_by_last_update();
}

fn children_use_parent_links() {
    let parent = fixed_task_id(1);
    let child = fixed_task_id(2);
    let cache = TaskCache::from_views(vec![
        task(parent, "Parent", Some(0), Vec::new()),
        task(child, "Child", Some(20), vec![parent]),
    ]);

    let children = cache.get_children(parent);
    assert_eq!(children.len(), 1);
    assert_eq!(children[0].snapshot.id, child);
}

#[test]
fn tui_app_get_children_uses_parent_links() {
    children_use_parent_links();
}

#[test]
fn tests_app_get_children_uses_parent_links() {
    children_use_parent_links();
}

fn children_keep_task_order() {
    let parent = fixed_task_id(1);
    let recent_child = fixed_task_id(2);
    let older_child = fixed_task_id(3);
    let cache = TaskCache::from_views(vec![
        task(parent, "Parent", Some(0), Vec::new()),
        task(older_child, "Older", Some(11), vec![parent]),
        task(recent_child, "Recent", Some(21), vec![parent]),
    ]);

    let ids: Vec<TaskId> = cache.get_children(parent).iter().map(|view| view.snapshot.id).collect();
    assert_eq!(ids, vec![recent_child, older_child]);
}

#[test]
fn tui_app_get_children_preserves_task_order() {
    children_keep_task_order();
}

#[test]
fn tests_app_get_children_preserves_task_order() {
    children_keep_task_order();
}

fn root_despite_cycle() {
    let root = fixed_task_id(1);
    let loop_a = fixed_task_id(2);
    let loop_b = fixed_task_id(3);
    let leaf = fixed_task_id(4);
    let cache = TaskCache::from_views(vec![
        task(root, "Root", Some(0), Vec::new()),
        task(loop_a, "LoopA", Some(3), vec![root, loop_b]),
        task(loop_b, "LoopB", Some(5), vec![loop_a]),
        task(leaf, "Leaf", Some(8), vec![loop_a, loop_b]),
    ]);

    let root_view = cache.get_root(leaf).expect("must locate a root despite cycle");
    assert_eq!(root_view.snapshot.id, root);
}

#[test]
fn tui_app_get_root_handles_cyclic_parent_graph() {
    root_despite_cycle();
}

#[test]
fn tests_app_get_root_handles_cyclic_parent_graph() {
    root_despite_cycle();
}

#[test]
fn get_root_fails_on_a_closed_cycle() {
    let a = fixed_task_id(1);
    let b = fixed_task_id(2);
    let cache = TaskCache::from_views(vec![
        task(a, "A", Some(1), vec![b]),
        task(b, "B", Some(2), vec![a]),
    ]);
    assert!(cache.get_root(a).is_none());
    let parents: Vec<TaskId> = cache.get_parents(a).iter().map(|t| t.snapshot.id).collect();
    assert_eq!(parents, vec![b]);
}

// --- the interface -------------------------------------------------------------

fn seeded_ui() -> Ui {
    let id = TaskId { value: 77 };
    ui_over(vec![task(id, "task", None, Vec::new())], WorkflowConfig::default())
}

#[test]
fn quits_on_q_key() {
    let mut ui = seeded_ui();
    assert!(matches!(ui.handle_key(&key(KeyCode::Char('q'))), KeyOutcome::Done));
    assert!(ui.should_quit);
}

#[test]
fn comment_viewer_escape_closes_popup() {
    let mut ui = seeded_ui();
    ui.open_comment_viewer();
    assert_eq!(ui.detail_focus, DetailFocus::CommentViewer);
    ui.handle_key(&key(KeyCode::Esc));
    assert!(ui.comment_viewer.is_none());
    assert_eq!(ui.detail_focus, DetailFocus::TaskList);
}

#[test]
fn description_viewer_opens_on_d_key() {
    let mut ui = seeded_ui();
    assert!(matches!(ui.handle_key(&key(KeyCode::Char('d'))), KeyOutcome::Done));
    assert_eq!(ui.detail_focus, DetailFocus::DescriptionViewer);
    assert!(ui.description_viewer.is_some());
}

#[test]
fn description_viewer_escape_closes_popup() {
    let mut ui = seeded_ui();
    ui.open_description_viewer();
    assert_eq!(ui.detail_focus, DetailFocus::DescriptionViewer);
    ui.handle_key(&key(KeyCode::Esc));
    assert!(ui.description_viewer.is_none());
    assert_eq!(ui.detail_focus, DetailFocus::TaskList);
}

#[test]
fn unbound_key_changes_nothing() {
    let mut ui = seeded_ui();
    assert!(matches!(ui.handle_key(&key(KeyCode::Char('z'))), KeyOutcome::Done));
    assert!(!ui.should_quit);
    assert_eq!(ui.detail_focus, DetailFocus::TaskList);
}

#[test]
fn comment_viewer_scrolls_and_saturates() {
    let mut ui = seeded_ui();
    ui.open_comment_viewer();
    ui.handle_key(&key(KeyCode::Char('j')));
    assert_eq!(ui.comment_viewer.map(|v| v.scroll_offset), Some(1));
    ui.handle_key(&key(KeyCode::Char('k')));
    ui.handle_key(&key(KeyCode::Char('k')));
    assert_eq!(ui.comment_viewer.map(|v| v.scroll_offset), Some(0));
}

fn parent_and_child_tree() {
    let parent = fixed_task_id(1);
    let child = fixed_task_id(2);
    let mut ui = ui_over(
        vec![task(parent, "Parent", Some(0), Vec::new()), task(child, "Child", Some(20), vec![parent])],
        WorkflowConfig::default(),
    );
    ui.open_tree_view();

    assert_eq!(ui.detail_focus, DetailFocus::TreeView);
    let visible: Vec<TaskId> = ui.tree_state.visible_nodes.iter().map(|(_, id)| *id).collect();
    assert_eq!(visible, vec![parent, child]);
}

#[test]
fn tui_tree_view_includes_parent_and_child() {
    parent_and_child_tree();
}

#[test]
fn tests_tree_view_includes_parent_and_child() {
    parent_and_child_tree();
}

fn grandchild_path_tree() {
    let parent = fixed_task_id(1);
    let child = fixed_task_id(2);
    let grandchild = fixed_task_id(3);
    let mut ui = ui_over(
        vec![
            task(parent, "Parent", Some(0), Vec::new()),
            task(child, "Child", Some(11), vec![parent]),
            task(grandchild, "Grandchild", Some(21), vec![child]),
        ],
        WorkflowConfig::default(),
    );
    ui.visibility.jump_to_task(grandchild);

    ui.open_tree_view();

    let visible: Vec<TaskId> = ui.tree_state.visible_nodes.iter().map(|(_, id)| *id).collect();
    assert_eq!(visible, vec![parent, child, grandchild]);
    assert_eq!(ui.tree_state.selected_task_id(), Some(grandchild));
}

#[test]
fn tui_tree_view_expands_path_to_selected_grandchild() {
    grandchild_path_tree();
}

#[test]
fn tests_tree_view_expands_path_to_selected_grandchild() {
    grandchild_path_tree();
}

fn copy_writes_id() {
    let id = fixed_task_id(9);
    let mut ui = ui_over(vec![task(id, "Task", Some(0), Vec::new())], WorkflowConfig::default());
    let outcome = ui.handle_task_list_action(Action::CopyTaskId);
    let copied = match outcome {
        KeyOutcome::CopyTaskId(task) => task,
        other => panic!("unexpected outcome: {other:?}"),
    };
    assert_eq!(copied, id);
    let text = copied.to_text();
    ui.report_copy(&text, Ok(()));
    let message = ui.message.expect("info message must be set");
    assert!(matches!(message.level, MessageLevel::Info));
    assert!(message.text.contains("コピー"));
    assert!(message.text.contains("00000000-0000-0000-0000-000000000009"));
}

#[test]
fn tui_copy_selected_task_id_writes_to_clipboard() {
    copy_writes_id();
}

#[test]
fn tests_copy_selected_task_id_writes_to_clipboard() {
    copy_writes_id();
}

fn copy_reports_failure() {
    let id = fixed_task_id(9);
    let mut ui = ui_over(vec![task(id, "Task", Some(0), Vec::new())], WorkflowConfig::default());
    ui.report_copy(&id.to_text(), Err("broken clipboard".to_string()));
    let message = ui.message.expect("error message must be set");
    assert!(matches!(message.level, MessageLevel::Error));
    assert!(message.text.contains("broken clipboard"), "actual text: {}", message.text);
}

#[test]
fn tui_copy_selected_task_id_reports_clipboard_failure() {
    copy_reports_failure();
}

#[test]
fn tests_copy_selected_task_id_reports_clipboard_failure() {
    copy_reports_failure();
}

fn copy_without_selection() {
    let mut ui = ui_over(Vec::new(), WorkflowConfig::default());
    assert!(matches!(ui.handle_task_list_action(Action::CopyTaskId), KeyOutcome::Done));
    let message = ui.message.expect("error message must be set");
    assert!(matches!(message.level, MessageLevel::Error));
    assert!(message.text.contains("コピー対象"));
}

#[test]
fn tui_copy_selected_task_id_without_selection_shows_error() {
    copy_without_selection();
}

#[test]
fn tests_copy_selected_task_id_without_selection_shows_error() {
    copy_without_selection();
}

fn picker_prefills_state() {
    let id = fixed_task_id(5);
    let workflow = workflow_of(&["state/todo", "state/done"]);
    let mut ui = ui_over(vec![with_state(task(id, "Initial", Some(0), Vec::new()), "state/done")], workflow);
    ui.refilter(None);
    ui.open_state_picker();

    assert_eq!(ui.detail_focus, DetailFocus::StatePicker);
    let picker = ui.state_picker.as_ref().expect("state picker");
    assert_eq!(picker.options[picker.selected].value.as_deref(), Some("state/done"));
}

#[test]
fn tui_open_state_picker_prefills_current_state() {
    picker_prefills_state();
}

#[test]
fn tests_open_state_picker_prefills_current_state() {
    picker_prefills_state();
}

fn picker_applies_state() {
    let id = fixed_task_id(6);
    let workflow = workflow_of(&["state/todo", "state/done"]);
    let mut ui =
        ui_over(vec![with_state(task(id, "Initial", Some(0), Vec::new()), "state/todo")], workflow.clone());

    ui.open_state_picker();
    ui.state_picker_down();
    let outcome = ui.apply_state_picker_selection();

    let (target, state) = match outcome {
        KeyOutcome::ApplyState { task, state } => (task, state),
        other => panic!("unexpected outcome: {other:?}"),
    };
    assert_eq!(target, id);
    assert_eq!(state.as_deref(), Some("state/done"));
    let change = plan_state_change(&Some("state/todo".to_string()), state, &workflow).expect("allowed");
    assert!(matches!(change, Some(EventKind::TaskStateSet { state, .. }) if state == "state/done"));
    assert!(ui.state_picker.is_none());
    assert_eq!(ui.detail_focus, DetailFocus::TaskList);
}

#[test]
fn tui_apply_state_picker_selection_updates_state() {
    picker_applies_state();
}

#[test]
fn tests_apply_state_picker_selection_updates_state() {
    picker_applies_state();
}

#[test]
fn picker_choices_list_no_state_first() {
    let id = fixed_task_id(7);
    let mut ui = ui_over(vec![task(id, "x", Some(0), Vec::new())], workflow_of(&["a", "b"]));
    ui.open_state_picker();
    let picker = ui.state_picker.as_ref().expect("state picker");
    let values: Vec<Option<&str>> = picker.options.iter().map(|o| o.value.as_deref()).collect();
    assert_eq!(values, vec![None, Some("a"), Some("b")]);
    assert_eq!(picker.selected, 0);
    ui.state_picker_up();
    assert_eq!(ui.state_picker.as_ref().map(|p| p.selected), Some(0));
}

#[test]
fn jump_to_parent_selects_the_parent() {
    let parent = fixed_task_id(1);
    let child = fixed_task_id(2);
    let mut ui = ui_over(
        vec![task(parent, "Parent", Some(0), Vec::new()), task(child, "Child", Some(20), vec![parent])],
        WorkflowConfig::default(),
    );
    assert_eq!(ui.selected_task_id(), Some(child));
    ui.jump_to_parent();
    assert_eq!(ui.selected_task_id(), Some(parent));
    assert_eq!(ui.message.as_ref().map(|m| m.text.as_str()), Some("親タスクへジャンプ: Parent"));
    ui.jump_to_parent();
    let message = ui.message.as_ref().expect("message");
    assert!(matches!(message.level, MessageLevel::Error));
    assert_eq!(message.text, "親タスクがありません");
    assert_eq!(ui.selected_task_id(), Some(parent));
}

#[test]
fn reload_keeps_the_preferred_task_selected() {
    let a = fixed_task_id(1);
    let b = fixed_task_id(2);
    let mut ui = ui_over(vec![task(a, "A", Some(1), Vec::new())], WorkflowConfig::default());
    let cache = TaskCache::from_views(vec![task(a, "A", Some(1), Vec::new()), task(b, "B", Some(2), Vec::new())]);
    ui.reload(cache, None, Some(a));
    assert_eq!(ui.selected_task_id(), Some(a));
    ui.finish_reload(
        TaskCache::from_views(vec![task(a, "A", Some(1), Vec::new()), task(b, "B", Some(2), Vec::new())]),
        None,
    );
    assert_eq!(ui.selected_task_id(), Some(a));
    assert_eq!(ui.message.as_ref().map(|m| m.text.as_str()), Some("タスクを再読込しました"));
}

#[test]
fn tree_scroll_keeps_selection_half_a_page_down() {
    let mut ui = ui_over(Vec::new(), WorkflowConfig::default());
    ui.tree_state.visible_nodes = (0..20).map(|i| (0usize, TaskId { value: i })).collect();
    ui.tree_state.selected = 12;
    assert_eq!(ui.tree_scroll_offset(0), 0);
    assert_eq!(ui.tree_scroll_offset(30), 0);
    assert_eq!(ui.tree_scroll_offset(10), 7);
    ui.tree_state.selected = 19;
    assert_eq!(ui.tree_scroll_offset(10), 10);
    ui.tree_state.selected = 2;
    assert_eq!(ui.tree_scroll_offset(10), 0);
    assert_eq!(ui.status_text(), "ステータスメッセージはありません");
}

#[test]
fn editor_sessions_report_their_outcome() {
    let id = fixed_task_id(3);
    let mut ui = ui_over(vec![task(id, "Task", Some(0), Vec::new())], WorkflowConfig::default());

    assert_eq!(ui.comment_input("# only a comment line\n\n").as_deref(), None);
    assert_eq!(ui.message.as_ref().map(|m| m.text.as_str()), Some("コメントをキャンセルしました"));
    assert_eq!(ui.comment_input("  hello  \n").as_deref(), Some("hello"));
    ui.report_comment_added();
    assert_eq!(ui.status_text(), "コメントを追加しました");

    let data = ui.new_task_input("title: Child\n", Some(id)).expect("form read");
    assert_eq!(data.title, "Child");
    assert_eq!(data.parent, Some(id));
    ui.report_task_created(TaskId { value: 1 }, true);
    assert_eq!(ui.status_text(), "子タスクを作成しました: 00000000-0000-0000-0000-000000000001");

    assert!(ui.edit_task_input("").is_none());
    assert_eq!(ui.status_text(), "タスク編集をキャンセルしました");
    ui.report_task_updated(false);
    assert_eq!(ui.status_text(), "変更はありませんでした");
    ui.report_editor_error("boom");
    assert_eq!(ui.status_text(), "エディタ処理中に失敗しました: boom");
    assert!(matches!(ui.message.as_ref().map(|m| m.level), Some(MessageLevel::Error)));

    assert!(ui.edit_task_template(TaskId { value: 0xabc }).is_none());
    assert_eq!(ui.status_text(), "編集対象のタスクが見つかりません");
    let template = ui.edit_task_template(id).expect("template");
    assert!(template.contains("Task"));
    assert!(ui.new_task_template(Some(id)).contains("Task"));
}

#[test]
fn filter_editor_changes_the_filter_only_when_it_differs() {
    let id = fixed_task_id(4);
    let mut ui = ui_over(vec![task(id, "Task", Some(0), Vec::new())], WorkflowConfig::default());
    assert!(!ui.apply_filter_editor_output("labels:\n"));
    assert_eq!(ui.status_text(), "フィルタに変更はありません");
    assert!(!ui.apply_filter_editor_output("bogus line"));
    assert!(ui.status_text().starts_with("フィルタの解析に失敗しました: "));
    assert!(ui.apply_filter_editor_output("labels: x\n"));
    assert_eq!(ui.filter.labels, vec!["x"]);
    ui.finish_filter_update(Some(&[false]));
    assert_eq!(ui.status_text(), "フィルタを更新しました（該当なし）: label=x");
    ui.finish_filter_update(None);
    assert_eq!(ui.status_text(), "フィルタを更新しました: label=x");
}

#[test]
fn detail_pane_lists_the_task_fields() {
    let parent = fixed_task_id(1);
    let child = fixed_task_id(2);
    let grandchild = fixed_task_id(3);
    let mut view = task(child, "Child", None, vec![parent]);
    view.snapshot.labels = vec!["a".into(), "b".into()];
    view.snapshot.description = "line one\nline two".into();
    let ui = ui_over(
        vec![
            task(parent, "A parent with a rather long title", Some(5), Vec::new()),
            view.clone(),
            task(grandchild, "Grandchild", Some(9), vec![child]),
        ],
        WorkflowConfig::default(),
    );
    let lines = ui.detail_lines(&view, "Todo");
    assert_eq!(
        lines,
        vec![
            "Child",
            "ID: 00000000-0000-0000-0000-000000000002",
            "状態: Todo",
            "ラベル: a, b",
            "親: A parent wit...",
            "子タスク: 1 件",
            "",
            "説明:",
            "line one",
            "line two",
        ]
    );
    assert_eq!(ui.breadcrumb(child), "Home > A parent with a r... > 現在");
    assert_eq!(ui.breadcrumb(parent), "Home > 現在");

    let orphan = task(fixed_task_id(4), "Orphan", None, vec![fixed_task_id(9), fixed_task_id(8)]);
    let lines = ui.detail_lines(&orphan, "-");
    assert_eq!(lines[3], "親: 2 件（未読込）");
    assert_eq!(lines.last().map(String::as_str), Some("説明はまだありません。"));
}
