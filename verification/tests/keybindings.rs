use git_mile::keybindings::{
    init_keybindings, confirms_overwrite, should_write_keybindings, validate_config_struct,
    validate_key_expressions, validate_keybindings, validate_keybindings_config,
    validate_non_empty_bindings, Action, Config, KeyBindingsConfig, ViewType,
};
use git_mile::keys::{parse_key, KeyCode, KeyEvent, KeyModifiers};

fn control() -> KeyModifiers {
    KeyModifiers { shift: false, control: true, alt: false, other: false }
}

fn alt() -> KeyModifiers {
    KeyModifiers { shift: false, control: false, alt: true, other: false }
}

fn shift() -> KeyModifiers {
    KeyModifiers { shift: true, control: false, alt: false, other: false }
}

#[test]
fn test_default_keybindings() {
    let config = KeyBindingsConfig::default();

    assert_eq!(config.task_list.quit, vec!["q", "Q", "Esc"]);
    assert_eq!(config.task_list.down, vec!["j", "J", "Down"]);
    assert_eq!(config.task_list.up, vec!["k", "K", "Up"]);
    assert_eq!(config.task_list.open_tree, vec!["Enter"]);
    assert_eq!(config.task_list.jump_to_parent, vec!["p", "P"]);
    assert_eq!(config.task_list.refresh, vec!["r", "R"]);
    assert_eq!(config.task_list.add_comment, vec!["c", "C"]);
    assert_eq!(config.task_list.edit_task, vec!["e", "E"]);
    assert_eq!(config.task_list.create_task, vec!["n", "N"]);
    assert_eq!(config.task_list.create_subtask, vec!["s", "S"]);
    assert_eq!(config.task_list.copy_task_id, vec!["y", "Y"]);
    assert_eq!(config.task_list.open_state_picker, vec!["t", "T"]);
    assert_eq!(config.task_list.open_comment_viewer, vec!["v", "V"]);
    assert_eq!(config.task_list.open_description_viewer, vec!["d", "D"]);
    assert_eq!(config.task_list.edit_filter, vec!["f", "F"]);

    assert_eq!(config.tree_view.close, vec!["q", "Q", "Esc"]);
    assert_eq!(config.tree_view.down, vec!["j", "J", "Down"]);
    assert_eq!(config.tree_view.up, vec!["k", "K", "Up"]);
    assert_eq!(config.tree_view.collapse, vec!["h", "H"]);
    assert_eq!(config.tree_view.expand, vec!["l", "L"]);
    assert_eq!(config.tree_view.jump, vec!["Enter"]);

    assert_eq!(config.state_picker.close, vec!["q", "Q", "Esc"]);
    assert_eq!(config.state_picker.down, vec!["j", "J", "Down"]);
    assert_eq!(config.state_picker.up, vec!["k", "K", "Up"]);
    assert_eq!(config.state_picker.select, vec!["Enter"]);

    assert_eq!(config.comment_viewer.close, vec!["q", "Q", "Esc"]);
    assert_eq!(config.comment_viewer.scroll_down, vec!["j", "J"]);
    assert_eq!(config.comment_viewer.scroll_up, vec!["k", "K"]);
    assert_eq!(config.comment_viewer.scroll_down_fast, vec!["Ctrl+d"]);
    assert_eq!(config.comment_viewer.scroll_up_fast, vec!["Ctrl+u"]);
}

#[test]
fn test_parse_simple_key() {
    let key = parse_key("j").unwrap();
    assert_eq!(key.code, KeyCode::Char('j'));
    assert_eq!(key.modifiers, KeyModifiers::none());
}

#[test]
fn test_parse_uppercase_key() {
    let key = parse_key("J").unwrap();
    assert_eq!(key.code, KeyCode::Char('J'));
    assert_eq!(key.modifiers, KeyModifiers::none());
}

#[test]
fn test_parse_special_key() {
    let key = parse_key("Enter").unwrap();
    assert_eq!(key.code, KeyCode::Enter);
    assert_eq!(key.modifiers, KeyModifiers::none());

    let key = parse_key("Esc").unwrap();
    assert_eq!(key.code, KeyCode::Esc);
    assert_eq!(key.modifiers, KeyModifiers::none());
}

#[test]
fn test_parse_modified_key() {
    let key = parse_key("Ctrl+d").unwrap();
    assert_eq!(key.code, KeyCode::Char('d'));
    assert_eq!(key.modifiers, control());

    let key = parse_key("Alt+k").unwrap();
    assert_eq!(key.code, KeyCode::Char('k'));
    assert_eq!(key.modifiers, alt());
}

#[test]
fn test_parse_invalid_key() {
    assert!(parse_key("InvalidKey").is_err());
    assert!(parse_key("").is_err());
}

#[test]
fn test_case_sensitivity() {
    let lower = parse_key("j").unwrap();
    let upper = parse_key("J").unwrap();
    assert_eq!(lower.code, KeyCode::Char('j'));
    assert_eq!(upper.code, KeyCode::Char('J'));
    assert_ne!(lower.code, upper.code);
}

#[test]
fn test_default_help_text_task_list() {
    let config = KeyBindingsConfig::default();
    let help = config.generate_help_text(ViewType::TaskList);
    assert!(help.contains("移動"));
    assert!(help.contains("終了"));
    assert!(help.contains("新規"));
    assert!(help.contains("コメント"));
}

#[test]
fn test_default_help_text_tree_view() {
    let config = KeyBindingsConfig::default();
    let help = config.generate_help_text(ViewType::TreeView);
    assert!(help.contains("移動"));
    assert!(help.contains("閉じる"));
    assert!(help.contains("開く"));
    assert!(help.contains("ジャンプ"));
}

#[test]
fn test_default_help_text_state_picker() {
    let config = KeyBindingsConfig::default();
    let help = config.generate_help_text(ViewType::StatePicker);
    assert!(help.contains("移動"));
    assert!(help.contains("決定"));
    assert!(help.contains("キャンセル"));
}

#[test]
fn test_default_help_text_viewer() {
    let config = KeyBindingsConfig::default();
    let help = config.generate_help_text(ViewType::CommentViewer);
    assert!(help.contains("スクロール"));
    assert!(help.contains("半画面スクロール"));
    assert!(help.contains("閉じる"));
}

#[test]
fn test_custom_help_text() {
    let mut config = KeyBindingsConfig::default();
    config.task_list.quit = vec!["x".to_string()];
    config.task_list.down = vec!["n".to_string()];
    config.task_list.up = vec!["p".to_string()];
    let help = config.generate_help_text(ViewType::TaskList);
    assert!(help.contains("n/p:移動"));
    assert!(help.contains("x:終了"));
}

#[test]
fn test_format_special_keys() {
    let config = KeyBindingsConfig::default();
    assert_eq!(config.format_key_display("Enter"), "↵");
    assert_eq!(config.format_key_display("Esc"), "Esc");
    assert_eq!(config.format_key_display("Ctrl+d"), "Ctrl-d");
    assert_eq!(config.format_key_display("Ctrl+u"), "Ctrl-u");
    assert_eq!(config.format_key_display("Up"), "↑");
    assert_eq!(config.format_key_display("Down"), "↓");
    assert_eq!(config.format_key_display("Left"), "←");
    assert_eq!(config.format_key_display("Right"), "→");
}

#[test]
fn test_format_first_key() {
    let config = KeyBindingsConfig::default();
    assert_eq!(config.format_first_key(&vec!["j".to_string(), "J".to_string()]), "j");
    assert_eq!(config.format_first_key(&vec!["Enter".to_string()]), "↵");
    assert_eq!(config.format_first_key(&vec![]), "?");
}

#[test]
fn test_format_key_pair() {
    let config = KeyBindingsConfig::default();
    assert_eq!(
        config.format_key_pair(
            &vec!["j".to_string(), "J".to_string()],
            &vec!["k".to_string(), "K".to_string()]
        ),
        "j/k"
    );
    assert_eq!(
        config.format_key_pair(&vec!["Down".to_string()], &vec!["Up".to_string()]),
        "↓/↑"
    );
}

#[test]
fn test_parse_all_special_keys() {
    let special_keys = vec![
        "Enter", "Esc", "Tab", "Backspace", "Delete", "Up", "Down", "Left", "Right", "Home", "End",
        "PageUp", "PageDown", "Insert",
    ];
    for key_str in special_keys {
        let result = parse_key(key_str);
        assert!(result.is_ok(), "Failed to parse: {}", key_str);
    }
}

#[test]
fn test_parse_modified_keys_comprehensive() {
    let test_cases = vec![
        ("Ctrl+d", control(), KeyCode::Char('d')),
        ("Alt+k", alt(), KeyCode::Char('k')),
        ("Shift+Up", shift(), KeyCode::Up),
        ("Control+Enter", control(), KeyCode::Enter),
    ];
    for (key_str, expected_mod, expected_code) in test_cases {
        let key = parse_key(key_str).unwrap();
        assert_eq!(key.modifiers, expected_mod, "Modifier mismatch for {}", key_str);
        assert_eq!(key.code, expected_code, "Code mismatch for {}", key_str);
    }
}

#[test]
fn test_parse_arrow_keys() {
    let arrows = vec![
        ("Up", KeyCode::Up),
        ("Down", KeyCode::Down),
        ("Left", KeyCode::Left),
        ("Right", KeyCode::Right),
    ];
    for (key_str, expected_code) in arrows {
        let key = parse_key(key_str).unwrap();
        assert_eq!(key.code, expected_code);
        assert_eq!(key.modifiers, KeyModifiers::none());
    }
}

#[test]
fn test_matches_single_key() {
    let mut config = KeyBindingsConfig::default();
    config.task_list.quit = vec!["q".to_string()];
    let key = KeyEvent::new(KeyCode::Char('q'), KeyModifiers::none());
    assert!(config.matches(ViewType::TaskList, Action::Quit, &key));
    let other_key = KeyEvent::new(KeyCode::Char('x'), KeyModifiers::none());
    assert!(!config.matches(ViewType::TaskList, Action::Quit, &other_key));
}

#[test]
fn test_matches_multiple_keys() {
    let config = KeyBindingsConfig::default();
    let q_key = KeyEvent::new(KeyCode::Char('q'), KeyModifiers::none());
    let big_q_key = KeyEvent::new(KeyCode::Char('Q'), KeyModifiers::none());
    let esc_key = KeyEvent::new(KeyCode::Esc, KeyModifiers::none());
    assert!(config.matches(ViewType::TaskList, Action::Quit, &q_key));
    assert!(config.matches(ViewType::TaskList, Action::Quit, &big_q_key));
    assert!(config.matches(ViewType::TaskList, Action::Quit, &esc_key));
}

#[test]
fn test_matches_modified_keys() {
    let config = KeyBindingsConfig::default();
    let ctrl_d = KeyEvent::new(KeyCode::Char('d'), control());
    assert!(config.matches(ViewType::CommentViewer, Action::ScrollDownFast, &ctrl_d));
    let plain_d = KeyEvent::new(KeyCode::Char('d'), KeyModifiers::none());
    assert!(!config.matches(ViewType::CommentViewer, Action::ScrollDownFast, &plain_d));
}

#[test]
fn test_matches_wrong_view() {
    let config = KeyBindingsConfig::default();
    let key = KeyEvent::new(KeyCode::Char('q'), KeyModifiers::none());
    assert!(config.matches(ViewType::TaskList, Action::Quit, &key));
    assert!(config.matches(ViewType::TreeView, Action::Close, &key));
}

#[test]
fn test_validate_default_config() {
    let config = KeyBindingsConfig::default();
    let result = validate_keybindings_config(&config);
    assert!(result.is_ok(), "Default config should be valid");
}

#[test]
fn test_detect_key_conflict_in_same_view() {
    let mut config = KeyBindingsConfig::default();
    config.task_list.quit = vec!["j".to_string()];
    config.task_list.down = vec!["j".to_string()];
    let result = validate_keybindings(&config);
    assert!(result.is_err());
    let err_msg = result.unwrap_err().message();
    assert!(err_msg.contains("multiple actions") || err_msg.contains("j"));
}

#[test]
fn test_no_conflict_across_views() {
    let mut config = KeyBindingsConfig::default();
    config.task_list.quit = vec!["q".to_string()];
    config.tree_view.close = vec!["q".to_string()];
    let result = validate_keybindings(&config);
    assert!(result.is_ok(), "Same key in different views should not conflict");
}

#[test]
fn test_empty_binding_validation() {
    let mut config = KeyBindingsConfig::default();
    config.task_list.quit = vec![];
    let result = validate_non_empty_bindings(&config);
    assert!(result.is_err());
    let err_msg = result.unwrap_err().message();
    assert!(err_msg.contains("task_list.quit"));
}

#[test]
fn test_invalid_key_expression() {
    let mut config = KeyBindingsConfig::default();
    config.task_list.quit = vec!["InvalidKey123".to_string()];
    let result = validate_key_expressions(&config);
    assert!(result.is_err());
}

#[test]
fn test_validate_all_keys_parseable() {
    let config = KeyBindingsConfig::default();
    let result = validate_key_expressions(&config);
    assert!(result.is_ok(), "All default keys should be parseable");
}

#[test]
fn test_config_with_multiple_conflicts() {
    let mut config = KeyBindingsConfig::default();
    config.task_list.quit = vec!["x".to_string()];
    config.task_list.down = vec!["x".to_string()];
    config.task_list.up = vec!["x".to_string()];
    let result = validate_keybindings(&config);
    assert!(result.is_err(), "Multiple conflicts should be detected");
}

#[test]
fn conflict_message_names_key_view_and_actions() {
    let mut config = KeyBindingsConfig::default();
    config.task_list.quit = vec!["j".to_string()];
    let err = validate_keybindings(&config).unwrap_err();
    assert_eq!(
        err.message(),
        "Key 'j' is bound to multiple actions in task_list: [\"quit\", \"down\"]"
    );
}

#[test]
fn invalid_key_message_names_field() {
    let mut config = KeyBindingsConfig::default();
    config.tree_view.jump = vec!["Hyper+x".to_string()];
    let err = validate_key_expressions(&config).unwrap_err();
    assert_eq!(err.message(), "Invalid key 'Hyper+x' in tree_view.jump");
}

#[test]
fn default_config_struct_is_valid() {
    let config = Config::default();
    assert!(validate_config_struct(&config).is_ok());
}

#[test]
fn init_keybindings_prefers_given_path() {
    assert_eq!(
        init_keybindings(Some("/tmp/a.toml".to_string()), Some("/home/x/config.toml".to_string())).unwrap(),
        "/tmp/a.toml"
    );
    assert_eq!(
        init_keybindings(None, Some("/home/x/config.toml".to_string())).unwrap(),
        "/home/x/config.toml"
    );
    assert_eq!(
        init_keybindings(None, None).unwrap_err(),
        "設定ディレクトリを特定できませんでした"
    );
}

#[test]
fn overwrite_needs_agreement() {
    assert!(confirms_overwrite(" Y "));
    assert!(confirms_overwrite("yes"));
    assert!(confirms_overwrite("YeS\n"));
    assert!(!confirms_overwrite("no"));
    assert!(!confirms_overwrite("yess"));
    assert!(should_write_keybindings(false, false, None));
    assert!(should_write_keybindings(true, true, None));
    assert!(!should_write_keybindings(true, false, None));
    assert!(should_write_keybindings(true, false, Some("y")));
    assert!(!should_write_keybindings(true, false, Some("n")));
}

#[test]
fn key_repeated_under_one_action_is_no_conflict() {
    let mut config = KeyBindingsConfig::default();
    config.task_list.quit = vec!["q".into(), "q".into()];
    assert!(validate_keybindings(&config).is_ok());
}

#[test]
fn description_viewer_help_shows_its_own_keys() {
    let mut config = KeyBindingsConfig::default();
    config.description_viewer.close = vec!["x".into()];
    let help = config.generate_help_text(ViewType::DescriptionViewer);
    assert!(help.contains("x:閉じる"));
    let comment_help = config.generate_help_text(ViewType::CommentViewer);
    assert!(!comment_help.contains("x:閉じる"));
}
