use git_mile::commands::log_table_lines;
use git_mile::event_log::{
    entries_from_events, entry_from_event, format_actor, single_line_detail, truncate_detail, Actor,
    ActorSources, Event, EventKind,
};
use git_mile::task::{EventId, StateKind, TaskId};

fn sample_actor() -> Actor {
    Actor { name: "tester".into(), email: "tester@example.invalid".into() }
}

fn event(id: u128, kind: EventKind) -> Event {
    Event { id: EventId { value: id }, ts: 0, actor: sample_actor(), kind }
}

#[test]
fn entry_from_event_sets_action_and_detail() {
    let actor = sample_actor();
    let ev = event(
        7,
        EventKind::TaskStateSet { state: "state/done".into(), state_kind: Some(StateKind::Done) },
    );
    let entry = entry_from_event(&ev);
    assert_eq!(entry.id, ev.id);
    assert_eq!(entry.action, "State set");
    assert_eq!(entry.detail.as_deref(), Some("state: state/done (done)"));
    assert_eq!(entry.actor.email, actor.email);
}

#[test]
fn single_line_detail_collapses_whitespace() {
    let raw = "line one\nline   two\tthree";
    assert_eq!(single_line_detail(raw), "line one line two three");
}

#[test]
fn truncate_detail_shortens_long_text() {
    let detail = "abcdefghij";
    assert_eq!(truncate_detail(detail, 5), "ab...");
    assert_eq!(truncate_detail(detail, 10), detail);
}

#[test]
fn description_detail_is_marked_multiline() {
    let ev = event(1, EventKind::TaskDescriptionSet { description: Some("line1\nline2".into()) });
    let entry = entry_from_event(&ev);
    assert!(entry.is_description);
    assert_eq!(entry.detail.as_deref(), Some("line1\nline2"));
}

#[test]
fn task_created_description_is_multiline() {
    let ev = event(
        2,
        EventKind::TaskCreated {
            title: "t".into(),
            labels: vec![],
            assignees: vec![],
            description: Some("first\nsecond".into()),
            state: None,
            state_kind: None,
        },
    );
    let entry = entry_from_event(&ev);
    assert!(entry.is_description);
    assert_eq!(entry.detail.as_deref(), Some("title: t\nfirst\nsecond"));
}

#[test]
fn task_created_summary_lists_fields() {
    let ev = event(
        3,
        EventKind::TaskCreated {
            title: "Plan".into(),
            labels: vec!["a".into(), "b".into()],
            assignees: vec!["alice".into()],
            description: None,
            state: Some("state/todo".into()),
            state_kind: Some(StateKind::Todo),
        },
    );
    let entry = entry_from_event(&ev);
    assert!(!entry.is_description);
    assert_eq!(entry.action, "Task created");
    assert_eq!(
        entry.detail.as_deref(),
        Some("title: Plan | state: state/todo (todo) | labels: a, b | assignees: alice")
    );
}

#[test]
fn link_and_state_clear_details() {
    let parent = TaskId { value: 1 };
    let child = TaskId { value: 2 };
    let linked = entry_from_event(&event(4, EventKind::ChildLinked { parent, child }));
    assert_eq!(
        linked.detail.as_deref(),
        Some("parent: 00000000-0000-0000-0000-000000000001, child: 00000000-0000-0000-0000-000000000002")
    );
    let cleared = entry_from_event(&event(5, EventKind::TaskStateCleared));
    assert_eq!(cleared.action, "State cleared");
    assert_eq!(cleared.detail, None);
}

#[test]
fn entries_keep_event_order() {
    let events = vec![
        event(1, EventKind::TaskTitleSet { title: "A".into() }),
        event(2, EventKind::LabelsAdded { labels: vec!["x".into()] }),
    ];
    let entries = entries_from_events(&events);
    assert_eq!(entries.len(), 2);
    assert_eq!(entries[0].detail.as_deref(), Some("title: A"));
    assert_eq!(entries[1].detail.as_deref(), Some("added: x"));
    assert_eq!(format_actor(&entries[1].actor), "tester <tester@example.invalid>");
}

#[test]
fn log_table_has_header_and_rows() {
    let events = vec![event(9, EventKind::CommentAdded {
        comment_id: EventId { value: 10 },
        body_md: "hello\n  world".into(),
    })];
    let lines = log_table_lines(&events);
    assert_eq!(lines.len(), 3);
    assert_eq!(lines[0], "Timestamp | Actor | Event | Detail | EventId");
    assert_eq!(
        lines[2],
        "1970-01-01T00:00:00Z | tester <tester@example.invalid> | Comment added | hello world | 00000000-0000-0000-0000-000000000009"
    );
}

#[test]
fn actor_comes_from_the_most_preferred_source() {
    let actor = ActorSources {
        flag_name: None,
        flag_email: None,
        mile_name: None,
        author_name: Some("Author".into()),
        config_name: Some("Config".into()),
        mile_email: Some("mile@example.com".into()),
        author_email: Some("author@example.com".into()),
        config_email: None,
    }
    .resolve();
    assert_eq!(actor.name, "Author");
    assert_eq!(actor.email, "mile@example.com");
    let fallback = ActorSources {
        flag_name: None,
        flag_email: None,
        mile_name: None,
        author_name: None,
        config_name: None,
        mile_email: None,
        author_email: None,
        config_email: None,
    }
    .resolve();
    assert_eq!(format_actor(&fallback), "git-mile <git-mile@localhost>");
    let flagged = ActorSources {
        flag_name: Some("Flag".into()),
        flag_email: Some("flag@example.com".into()),
        mile_name: Some("Mile".into()),
        author_name: None,
        config_name: None,
        mile_email: Some("mile@example.com".into()),
        author_email: None,
        config_email: None,
    }
    .resolve();
    assert_eq!(flagged.name, "Flag");
    assert_eq!(flagged.email, "flag@example.com");
}

#[test]
fn truncate_detail_stays_within_a_small_limit() {
    assert_eq!(truncate_detail("abcd", 2), "..");
    assert_eq!(truncate_detail("abcd", 0), "");
    assert_eq!(truncate_detail("abcd", 3), "...");
    assert_eq!(truncate_detail("abcdef", 5), "ab...");
    assert_eq!(truncate_detail("ab", 2), "ab");
}

#[test]
fn single_line_detail_is_stable() {
    let once = single_line_detail("  a\n b\t\tc  ");
    assert_eq!(once, "a b c");
    assert_eq!(single_line_detail(&once), once);
}
