use git_mile::filter::{
    filter_editor_template, format_time, parse_filter_editor_output, parse_state_kind_filter,
    short_task_id, TaskFilter, UpdatedFilter,
};
use git_mile::filter_args::{build_filter, FilterArgs};
use git_mile::mcp::ListTasksParams;
use git_mile::task::{StateKind, TaskId};

const NANOS: i128 = 1_000_000_000;
// 2025-01-01T00:00:00Z and 2025-01-02T00:00:00Z.
const JAN_1_2025: i128 = 1_735_689_600 * NANOS;
const JAN_2_2025: i128 = 1_735_776_000 * NANOS;

fn fixed_task_id(n: u8) -> TaskId {
    TaskId::parse(&format!("00000000-0000-0000-0000-0000000000{n:02}")).expect("must parse task id")
}

fn parses_all_fields() {
    let parent = fixed_task_id(1);
    let child = fixed_task_id(2);
    let raw = format!(
        "\
states: state/todo,state/done
state_kinds: !done
labels: type/bug
assignees: alice
parents: {}
children: {}
text: panic
updated_since: 2025-01-01T00:00:00Z
updated_until: 2025-01-02T00:00:00Z
",
        parent.to_text(),
        child.to_text()
    );
    let filter = parse_filter_editor_output(&raw).expect("parse succeeds");
    assert!(filter.states.contains(&"state/todo".to_string()));
    assert!(filter.labels.contains(&"type/bug".to_string()));
    assert!(filter.assignees.contains(&"alice".to_string()));
    assert!(filter.parents.contains(&parent));
    assert!(filter.children.contains(&child));
    assert_eq!(filter.text.as_deref(), Some("panic"));
    assert!(filter.state_kinds.excluded.contains(&StateKind::Done));
    let updated = filter.updated.expect("updated filter");
    assert_eq!(updated.since, Some(JAN_1_2025));
    assert_eq!(updated.until, Some(JAN_2_2025));
}

#[test]
fn tui_filter_editor_output_parses_all_fields() {
    parses_all_fields();
}

#[test]
fn tests_filter_editor_output_parses_all_fields() {
    parses_all_fields();
}

fn rejects_invalid_timestamp() {
    let err = parse_filter_editor_output("updated_since: invalid").expect_err("should error");
    assert!(err.contains("時刻"));
}

#[test]
fn tui_filter_editor_output_rejects_invalid_timestamp() {
    rejects_invalid_timestamp();
}

#[test]
fn tests_filter_editor_output_rejects_invalid_timestamp() {
    rejects_invalid_timestamp();
}

#[test]
fn filter_editor_output_rejects_unknown_fields_and_bad_ids() {
    let err = parse_filter_editor_output("colour: red").expect_err("unknown field");
    assert_eq!(err, "未知のフィールドです: colour");
    let err = parse_filter_editor_output("parents: nope").expect_err("bad id");
    assert_eq!(err, "TaskId の形式が正しくありません: nope");
    let err = parse_filter_editor_output("no colon here").expect_err("malformed");
    assert!(err.contains("no colon here"));
    let err = parse_filter_editor_output("state_kinds: someday").expect_err("bad kind");
    assert_eq!(err, "state_kind の指定が不正です: someday");
}

#[test]
fn filter_editor_output_skips_comments_and_keeps_last_value() {
    let filter = parse_filter_editor_output("# comment\n\nlabels: a, b, a\nlabels: c\ntext:\n").expect("parse");
    assert_eq!(filter.labels, vec!["c"]);
    assert!(filter.text.is_none());
    assert!(filter.updated.is_none());
    assert!(filter.state_kinds.is_empty());
}

fn lists_active_fields() {
    let mut filter = TaskFilter::default();
    filter.states.push("state/todo".into());
    filter.text = Some("panic".into());
    let summary = filter.summarize();
    assert!(summary.contains("state=state/todo"));
    assert!(summary.contains("text=\"panic\""));
}

#[test]
fn tui_summarize_task_filter_lists_active_fields() {
    lists_active_fields();
}

#[test]
fn tests_summarize_task_filter_lists_active_fields() {
    lists_active_fields();
}

fn includes_state_kind_clause() {
    let mut filter = TaskFilter::default();
    filter.state_kinds.excluded.push(StateKind::Done);
    let summary = filter.summarize();
    assert!(summary.contains("state-kind!=done"));
}

#[test]
fn tui_summarize_task_filter_includes_state_kind_clause() {
    includes_state_kind_clause();
}

#[test]
fn tests_summarize_task_filter_includes_state_kind_clause() {
    includes_state_kind_clause();
}

#[test]
fn summarize_empty_filter_says_unset() {
    assert_eq!(TaskFilter::default().summarize(), "未設定");
    assert!(TaskFilter::default().is_empty());
}

#[test]
fn summarize_joins_parts_in_order() {
    let mut filter = TaskFilter::default();
    filter.labels = vec!["a".into(), "b".into()];
    filter.parents = vec![fixed_task_id(7)];
    filter.updated = Some(UpdatedFilter { since: Some(JAN_1_2025), until: None });
    filter.state_kinds.included.push(StateKind::InProgress);
    assert_eq!(
        filter.summarize(),
        "label=a, b / parent=00000000 / since=2025-01-01T00:00:00Z / state-kind=in_progress"
    );
}

#[test]
fn parse_state_kind_filter_handles_include_and_exclude() {
    let filter = parse_state_kind_filter("in_progress, !done").expect("parse succeeds");
    assert!(filter.included.contains(&StateKind::InProgress));
    assert!(filter.excluded.contains(&StateKind::Done));
}

#[test]
fn state_kind_filter_round_trips_through_editor_value() {
    let filter = parse_state_kind_filter("done, !todo, blocked").expect("parse succeeds");
    assert_eq!(filter.included, vec![StateKind::Blocked, StateKind::Done]);
    assert_eq!(filter.excluded, vec![StateKind::Todo]);
    let value = filter.to_editor_value();
    assert_eq!(value, "blocked, done, !todo");
    let again = parse_state_kind_filter(&value).expect("parse succeeds");
    assert_eq!(again.included, filter.included);
    assert_eq!(again.excluded, filter.excluded);
}

#[test]
fn filter_template_round_trips() {
    let raw = "states: b, a\nlabels: x\nparents: 00000000-0000-0000-0000-000000000003\ntext: hello\nupdated_since: 2025-01-01T00:00:00Z\nstate_kinds: !done\n";
    let filter = parse_filter_editor_output(raw).expect("parse");
    let template = filter_editor_template(&filter);
    assert!(template.contains("states: a, b\n"));
    assert!(template.contains("parents: 00000000-0000-0000-0000-000000000003\n"));
    assert!(template.contains("updated_since: 2025-01-01T00:00:00Z\n"));
    assert!(template.contains("state_kinds: !done\n"));
    let again = parse_filter_editor_output(&template).expect("template parses");
    assert_eq!(again.states, filter.states);
    assert_eq!(again.labels, filter.labels);
    assert_eq!(again.parents, filter.parents);
    assert_eq!(again.text, filter.text);
    assert_eq!(again.state_kinds.excluded, filter.state_kinds.excluded);
    assert_eq!(again.updated.map(|u| u.since), filter.updated.map(|u| u.since));
}

#[test]
fn unchanged_filter_template_reads_back_same_filter() {
    let raw = format!(
        "states: state/done, state/todo\nstate_kinds: in_progress, !done\nlabels: area/ui\nassignees: bob\nparents: {}\nchildren: {}\ntext: crash\nupdated_since: 2025-01-01T00:00:00Z\nupdated_until: 2025-01-02T00:00:00Z\n",
        fixed_task_id(5).to_text(),
        fixed_task_id(6).to_text()
    );
    let filter = parse_filter_editor_output(&raw).expect("parse");
    let template = filter_editor_template(&filter);
    let again = parse_filter_editor_output(&template).expect("template parses");
    assert!(again.same_as(&filter));
    assert!(!again.same_as(&TaskFilter::default()));
}

#[test]
fn time_and_id_formatting() {
    assert_eq!(format_time(0), "1970-01-01T00:00:00Z");
    assert_eq!(format_time(JAN_2_2025), "2025-01-02T00:00:00Z");
    assert_eq!(short_task_id(&fixed_task_id(42)), "00000000");
}

// --- filters from plain conditions ----------------------------------------------

fn no_args() -> FilterArgs {
    FilterArgs {
        states: Vec::new(),
        labels: Vec::new(),
        assignees: Vec::new(),
        include_state_kinds: Vec::new(),
        exclude_state_kinds: Vec::new(),
        parents: Vec::new(),
        children: Vec::new(),
        updated_since: None,
        updated_until: None,
        text: None,
    }
}

#[test]
fn build_filter_trims_text_input() {
    let mut args = no_args();
    args.text = Some("  panic at the disco  ".into());
    let filter = build_filter(&args).expect("filter builds");
    assert_eq!(filter.text.as_deref(), Some("panic at the disco"));
}

#[test]
fn build_filter_discards_blank_text() {
    let mut args = no_args();
    args.text = Some("   ".into());
    let filter = build_filter(&args).expect("filter builds");
    assert!(filter.text.is_none());
}

#[test]
fn build_filter_applies_state_kinds_and_parents() {
    let parent = fixed_task_id(11);
    let child = fixed_task_id(12);
    let mut args = no_args();
    args.include_state_kinds = vec!["todo".into()];
    args.exclude_state_kinds = vec!["done".into()];
    args.parents = vec![parent.to_text()];
    args.children = vec![child.to_text()];
    args.updated_since = Some("2024-01-01T00:00:00Z".into());
    let filter = build_filter(&args).expect("filter builds");

    assert!(filter.parents.contains(&parent));
    assert!(filter.children.contains(&child));
    assert!(filter.state_kinds.included.contains(&StateKind::Todo));
    assert!(filter.state_kinds.excluded.contains(&StateKind::Done));
    assert!(filter.updated.is_some());
}

#[test]
fn build_filter_rejects_invalid_state_kind() {
    let mut args = no_args();
    args.include_state_kinds = vec!["unknown".into()];
    let Err(err) = build_filter(&args) else {
        panic!("filter should reject invalid state kind");
    };
    assert!(err.contains("invalid state kind"));
}

#[test]
fn build_filter_rejects_invalid_timestamp() {
    let mut args = no_args();
    args.updated_since = Some("not-a-timestamp".into());
    let Err(err) = build_filter(&args) else {
        panic!("filter should reject timestamp");
    };
    assert!(err.contains("invalid updated_since timestamp"));
}

#[test]
fn build_filter_rejects_invalid_parent() {
    let mut args = no_args();
    args.parents = vec!["not-a-task-id".into()];
    let Err(err) = build_filter(&args) else {
        panic!("filter should reject parent");
    };
    assert_eq!(err, "Invalid task id: not-a-task-id");
}

#[test]
fn build_filter_sorts_and_deduplicates_sets() {
    let mut args = no_args();
    args.states = vec!["b".into(), "a".into(), "b".into()];
    args.parents = vec![fixed_task_id(9).to_text(), fixed_task_id(3).to_text(), fixed_task_id(9).to_text()];
    let filter = build_filter(&args).expect("filter builds");
    assert_eq!(filter.states, vec!["a", "b"]);
    assert_eq!(filter.parents, vec![fixed_task_id(3), fixed_task_id(9)]);
    assert!(filter.updated.is_none());
}

fn no_params() -> ListTasksParams {
    ListTasksParams {
        states: Vec::new(),
        labels: Vec::new(),
        assignees: Vec::new(),
        include_state_kinds: Vec::new(),
        exclude_state_kinds: Vec::new(),
        parents: Vec::new(),
        children: Vec::new(),
        updated_since: None,
        updated_until: None,
        text: None,
    }
}

#[test]
fn defaults_to_excluding_done_when_no_state_filters() {
    let filter = no_params().into_filter().expect("filter should build");
    assert!(filter.state_kinds.excluded.contains(&StateKind::Done));
}

#[test]
fn applies_default_exclude_done_even_with_other_filters() {
    let mut params = no_params();
    params.labels = vec!["type/doc".to_string()];
    let filter = params.into_filter().expect("filter should build");
    assert!(filter.state_kinds.excluded.contains(&StateKind::Done));
}

#[test]
fn respects_explicit_state_kinds() {
    let mut params = no_params();
    params.include_state_kinds = vec!["done".to_string()];
    let filter = params.into_filter().expect("filter should build");
    assert!(filter.state_kinds.included.contains(&StateKind::Done));
    assert!(filter.state_kinds.excluded.is_empty());
}

#[test]
fn respects_explicit_states() {
    let mut params = no_params();
    params.states = vec!["state/todo".to_string()];
    let filter = params.into_filter().expect("filter should build");
    assert!(filter.states.contains(&"state/todo".to_string()));
    assert!(filter.state_kinds.excluded.is_empty());
}

#[test]
fn request_ids_are_trimmed_and_named_in_errors() {
    let mut params = no_params();
    params.parents = vec![format!("  {}  ", fixed_task_id(5).to_text())];
    let filter = params.into_filter().expect("filter should build");
    assert_eq!(filter.parents, vec![fixed_task_id(5)]);

    let mut params = no_params();
    params.children = vec![" nope ".to_string()];
    assert_eq!(params.into_filter().unwrap_err(), "Invalid child id: nope");
}

#[test]
fn task_list_starts_by_hiding_done_tasks() {
    let filter = git_mile::filter::initial_view_filter(TaskFilter::default());
    assert_eq!(filter.state_kinds.excluded, vec![StateKind::Done]);
    assert!(filter.states.is_empty() && filter.text.is_none());
    let mut custom = TaskFilter::default();
    custom.text = Some("x".into());
    let kept = git_mile::filter::initial_view_filter(custom);
    assert_eq!(kept.text.as_deref(), Some("x"));
    assert!(kept.state_kinds.excluded.is_empty());
}
