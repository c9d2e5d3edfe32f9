use git_mile::display::viewer_popup_area;
use git_mile::editor::resolve_editor_command;
use git_mile::display::{
    comment_editor_template, edit_task_editor_template, new_task_editor_template, osc52_sequence,
    state_kind_marker, truncate_with_ellipsis, TruncatedText,
};
use git_mile::editor::{
    normalize_text, parse_comment_editor_output, parse_list, parse_new_task_editor_output,
    parse_state_kind_name, split_state_kind_tokens,
};
use git_mile::event_log::Actor;
use git_mile::task::{StateKind, TaskId, TaskSnapshot};
use git_mile::display::comment_pane_lines;
use git_mile::visibility::{TaskComment, TaskView};
use git_mile::task_patch::{TaskEditData, TaskPatch};

fn fixed_task_id(n: u8) -> TaskId {
    TaskId::parse(&format!("00000000-0000-0000-0000-0000000000{n:02}")).expect("must parse task id")
}

fn view(id: TaskId, title: &str) -> TaskView {
    TaskView {
        snapshot: TaskSnapshot {
            id,
            title: title.to_owned(),
            state: None,
            state_kind: None,
            labels: Vec::new(),
            assignees: Vec::new(),
            description: String::new(),
            parents: Vec::new(),
        },
        comments: Vec::new(),
        last_updated: None,
    }
}

#[test]
fn tui_truncate_with_ellipsis_returns_borrowed_when_short() {
    let title = "Short title";
    assert!(matches!(
        truncate_with_ellipsis(title, 20),
        TruncatedText::Borrowed(result) if result == title
    ));
}

#[test]
fn tests_truncate_with_ellipsis_returns_borrowed_when_short() {
    let title = "Short title";
    assert!(matches!(
        truncate_with_ellipsis(title, 20),
        TruncatedText::Borrowed(result) if result == title
    ));
}

#[test]
fn tui_truncate_with_ellipsis_handles_multibyte_titles() {
    let title = "あいうえおかきくけこ";
    assert_eq!(truncate_with_ellipsis(title, 5).as_str(), "あい...");
}

#[test]
fn tests_truncate_with_ellipsis_handles_multibyte_titles() {
    let title = "あいうえおかきくけこ";
    assert_eq!(truncate_with_ellipsis(title, 5).as_str(), "あい...");
}

#[test]
fn tui_truncate_with_ellipsis_keeps_grapheme_clusters_intact() {
    let title = "a\u{0301}bcdef";
    assert_eq!(truncate_with_ellipsis(title, 4).as_str(), "a\u{0301}...");
}

#[test]
fn tests_truncate_with_ellipsis_keeps_grapheme_clusters_intact() {
    let title = "a\u{0301}bcdef";
    assert_eq!(truncate_with_ellipsis(title, 4).as_str(), "a\u{0301}...");
}

#[test]
fn truncate_with_ellipsis_edge_widths() {
    assert_eq!(truncate_with_ellipsis("abcdef", 0).as_str(), "");
    assert_eq!(truncate_with_ellipsis("abcdef", 2).as_str(), "ab");
    assert_eq!(truncate_with_ellipsis("abcdef", 3).as_str(), "abc");
    assert_eq!(truncate_with_ellipsis("abcdef", 4).as_str(), "a...");
    assert!(matches!(truncate_with_ellipsis("abcdef", 6), TruncatedText::Borrowed(_)));
}

#[test]
fn tui_comment_editor_output_strips_comments_and_trims() {
    let input = "# comment\nline1\n\nline2  \n# ignored";
    let parsed = parse_comment_editor_output(input);
    assert_eq!(parsed.as_deref(), Some("line1\n\nline2"));
}

#[test]
fn tests_comment_editor_output_strips_comments_and_trims() {
    let input = "# comment\nline1\n\nline2  \n# ignored";
    let parsed = parse_comment_editor_output(input);
    assert_eq!(parsed.as_deref(), Some("line1\n\nline2"));
}

#[test]
fn tui_comment_editor_output_none_when_empty() {
    let input = "# comment\n\n   \n# another comment";
    assert!(parse_comment_editor_output(input).is_none());
}

#[test]
fn tests_comment_editor_output_none_when_empty() {
    let input = "# comment\n\n   \n# another comment";
    assert!(parse_comment_editor_output(input).is_none());
}

#[test]
fn tui_parse_list_trims_entries() {
    assert_eq!(
        parse_list("one, two , , three"),
        vec!["one".to_owned(), "two".to_owned(), "three".to_owned()]
    );
}

#[test]
fn tests_parse_list_trims_entries() {
    assert_eq!(
        parse_list("one, two , , three"),
        vec!["one".to_owned(), "two".to_owned(), "three".to_owned()]
    );
}

#[test]
fn tui_new_task_editor_output_parses_fields() {
    let raw = "\
# heading
title: Sample Task
state: state/todo
labels: type/docs, area/cli
assignees: alice, bob
---
This is description.
";
    let parsed = parse_new_task_editor_output(raw).expect("parse succeeds");
    let data = parsed.expect("should create task");
    assert_eq!(data.title, "Sample Task");
    assert_eq!(data.state.as_deref(), Some("state/todo"));
    assert_eq!(data.labels, vec!["type/docs".to_string(), "area/cli".to_string()]);
    assert_eq!(data.assignees, vec!["alice".to_string(), "bob".to_string()]);
    assert_eq!(data.description.as_deref(), Some("This is description."));
}

#[test]
fn tui_new_task_editor_output_none_when_all_empty() {
    let raw = "\
# heading
title:
state:
labels:
assignees:
---
# no description
";
    let parsed = parse_new_task_editor_output(raw).expect("parse succeeds");
    assert!(parsed.is_none());
}

#[test]
fn tui_new_task_editor_output_requires_title() {
    let raw = "\
title:
state: state/todo
labels: foo
assignees:
---
";
    let err = parse_new_task_editor_output(raw).expect_err("should error");
    assert_eq!(err, "タイトルを入力してください");
}

#[test]
fn new_task_editor_output_rejects_unknown_field() {
    let err = parse_new_task_editor_output("title: x\npriority: high\n").expect_err("should error");
    assert_eq!(err, "未知のフィールドです: priority");
    let err = parse_new_task_editor_output("title x\n").expect_err("should error");
    assert_eq!(err, "フィールドの形式が正しくありません: title x");
}

#[test]
fn tui_new_task_editor_template_prefills_default_state() {
    let template = new_task_editor_template(None, None, Some("state/todo"));
    assert!(template.contains("state: state/todo"));
}

#[test]
fn new_task_editor_template_names_parent() {
    let parent = view(fixed_task_id(1), "Parent");
    let template = new_task_editor_template(Some(&parent), Some("state/todo, state/done"), None);
    assert!(template.starts_with("# 新規タスク（親: Parent [00000000-000...]）を作成します。\n"));
    assert!(template.contains("\n# state 候補: state/todo, state/done\nstate: \n"));
    assert!(template.ends_with("不要なら空のままにしてください。\n"));
}

#[test]
fn edit_task_template_round_trips_through_parser() {
    let mut task = view(fixed_task_id(2), "Edit me");
    task.snapshot.state = Some("state/todo".into());
    task.snapshot.labels = vec!["a".into(), "b".into()];
    task.snapshot.description = "first\nsecond".into();
    let template = edit_task_editor_template(&task, None);
    let parsed = parse_new_task_editor_output(&template).expect("parse succeeds").expect("task");
    assert_eq!(parsed.title, "Edit me");
    assert_eq!(parsed.state.as_deref(), Some("state/todo"));
    assert_eq!(parsed.labels, vec!["a".to_string(), "b".to_string()]);
    assert!(parsed.assignees.is_empty());
    assert_eq!(parsed.description.as_deref(), Some("first\nsecond"));
}

#[test]
fn unchanged_edit_template_gives_empty_patch() {
    let mut task = view(fixed_task_id(4), "Keep me");
    task.snapshot.state = Some("state/todo".into());
    task.snapshot.labels = vec!["x".into()];
    task.snapshot.assignees = vec!["alice".into()];
    task.snapshot.description = "body".into();
    let template = edit_task_editor_template(&task, Some("state/todo, state/done"));
    let parsed = parse_new_task_editor_output(&template).expect("parse succeeds").expect("task");
    let patch = TaskPatch::from_snapshot(&task.snapshot, TaskEditData::from(parsed));
    assert!(patch.is_empty());
}

#[test]
fn comment_template_names_task_and_actor() {
    let actor = Actor { name: "tester".into(), email: "tester@example.invalid".into() };
    let template = comment_editor_template(&actor, fixed_task_id(3));
    assert_eq!(
        template,
        "# コメントを入力してください。\n# 空のまま保存するとキャンセルされます。\n# Task: 00000000-0000-0000-0000-000000000003\n# Actor: tester <tester@example.invalid>\n\n"
    );
    assert!(parse_comment_editor_output(&template).is_none());
}

#[test]
fn tui_osc52_sequence_encodes_text() {
    let seq = osc52_sequence("Task-ID");
    assert_eq!(seq, "\x1b]52;c;VGFzay1JRA==\x07");
}

#[test]
fn tests_osc52_sequence_encodes_text() {
    let seq = osc52_sequence("Task-ID");
    assert_eq!(seq, "\x1b]52;c;VGFzay1JRA==\x07");
}

#[test]
fn osc52_padding_cases() {
    assert_eq!(osc52_sequence(""), "\x1b]52;c;\x07");
    assert_eq!(osc52_sequence("a"), "\x1b]52;c;YQ==\x07");
    assert_eq!(osc52_sequence("ab"), "\x1b]52;c;YWI=\x07");
    assert_eq!(osc52_sequence("abc"), "\x1b]52;c;YWJj\x07");
    assert_eq!(osc52_sequence("あ"), "\x1b]52;c;44GC\x07");
}

#[test]
fn state_kind_markers() {
    assert_eq!(state_kind_marker(Some(StateKind::Done)), " ✓");
    assert_eq!(state_kind_marker(Some(StateKind::InProgress)), " →");
    assert_eq!(state_kind_marker(Some(StateKind::Blocked)), " ⊗");
    assert_eq!(state_kind_marker(Some(StateKind::Todo)), " □");
    assert_eq!(state_kind_marker(Some(StateKind::Backlog)), " ◇");
    assert_eq!(state_kind_marker(None), "");
}

#[test]
fn tui_parse_state_kind_filter_handles_include_and_exclude() {
    let (included, excluded) = split_state_kind_tokens("in_progress, !done");
    assert_eq!(included, vec!["in_progress".to_string()]);
    assert_eq!(excluded, vec!["done".to_string()]);
    assert_eq!(parse_state_kind_name(" In-Progress "), Some(StateKind::InProgress));
    assert_eq!(parse_state_kind_name("in progress"), Some(StateKind::InProgress));
    assert_eq!(parse_state_kind_name("finished"), None);
}

#[test]
fn normalize_text_trims_and_drops_blank() {
    assert_eq!(normalize_text(Some("  panic ".into())).as_deref(), Some("panic"));
    assert_eq!(normalize_text(Some("   ".into())), None);
    assert_eq!(normalize_text(None), None);
}

#[test]
fn comment_pane_shows_each_comment_then_a_blank_line() {
    let mut v = view(fixed_task_id(1), "T");
    assert_eq!(comment_pane_lines(&v), vec!["コメントはまだありません。"]);
    v.comments.push(TaskComment {
        actor: Actor { name: "alice".into(), email: "alice@example.com".into() },
        body: "first\nsecond".into(),
        ts: 0,
    });
    assert_eq!(
        comment_pane_lines(&v),
        vec!["alice <alice@example.com> [1970-01-01 0:00:00.0 +00:00:00]", "first", "second", ""]
    );
}

#[test]
fn counts_are_written_in_decimal() {
    assert_eq!(git_mile::display::decimal_text(0), "0");
    assert_eq!(git_mile::display::decimal_text(7), "7");
    assert_eq!(git_mile::display::decimal_text(1234), "1234");
}

#[test]
fn editor_command_prefers_git_mile_editor() {
    assert_eq!(resolve_editor_command(Some("nano".into()), Some("vim".into()), None), "nano");
    assert_eq!(resolve_editor_command(None, Some("vim".into()), Some("ed".into())), "vim");
    assert_eq!(resolve_editor_command(None, None, Some("ed".into())), "ed");
    assert_eq!(resolve_editor_command(None, None, None), "vi");
}

#[test]
fn viewer_popup_is_four_fifths_at_least_forty_by_ten() {
    assert_eq!(viewer_popup_area(100, 50), (10, 5, 80, 40));
    assert_eq!(viewer_popup_area(45, 11), (2, 0, 40, 10));
    assert_eq!(viewer_popup_area(30, 8), (0, 0, 30, 8));
}
