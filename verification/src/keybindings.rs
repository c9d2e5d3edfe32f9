//! Keybindings configuration for the terminal UI: the bound keys of every
//! action of every view, their validation, key matching and help texts.
use vstd::prelude::*;

use crate::keys::{
    key_event_matches, parse_key, spec_parse_key, key_parses, KeyEvent, KeyParseError,
    KeyParseErrorView,
};
use crate::text::{
    chars_of, chars_start_with, concat3, owned, push_str, replace_char, starts_with, str_eq,
    string_from_chars, views,
};

verus! {

// ---------------------------------------------------------------------------
// Types
// ---------------------------------------------------------------------------

/// Top-level configuration.
#[derive(Debug, Clone)]
pub struct Config {
    /// TUI configuration.
    pub tui: TuiConfig,
}

/// TUI-specific configuration.
#[derive(Debug, Clone)]
pub struct TuiConfig {
    /// Keybindings configuration.
    pub keybindings: KeyBindingsConfig,
}

/// Keybindings for all TUI views.
#[derive(Debug, Clone)]
pub struct KeyBindingsConfig {
    /// Keybindings for the task list view.
    pub task_list: TaskListKeyBindings,
    /// Keybindings for the tree view.
    pub tree_view: TreeViewKeyBindings,
    /// Keybindings for the state picker.
    pub state_picker: StatePickerKeyBindings,
    /// Keybindings for the comment viewer.
    pub comment_viewer: ViewerKeyBindings,
    /// Keybindings for the description viewer.
    pub description_viewer: ViewerKeyBindings,
}

/// Keybindings for the task list view.
#[derive(Debug, Clone)]
pub struct TaskListKeyBindings {
    pub quit: Vec<String>,
    pub down: Vec<String>,
    pub up: Vec<String>,
    pub open_tree: Vec<String>,
    pub jump_to_parent: Vec<String>,
    pub refresh: Vec<String>,
    pub add_comment: Vec<String>,
    pub edit_task: Vec<String>,
    pub create_task: Vec<String>,
    pub create_subtask: Vec<String>,
    pub copy_task_id: Vec<String>,
    pub open_state_picker: Vec<String>,
    pub open_comment_viewer: Vec<String>,
    pub open_description_viewer: Vec<String>,
    pub edit_filter: Vec<String>,
}

/// Keybindings for the tree view.
#[derive(Debug, Clone)]
pub struct TreeViewKeyBindings {
    pub close: Vec<String>,
    pub down: Vec<String>,
    pub up: Vec<String>,
    pub collapse: Vec<String>,
    pub expand: Vec<String>,
    pub jump: Vec<String>,
}

/// Keybindings for the state picker.
#[derive(Debug, Clone)]
pub struct StatePickerKeyBindings {
    pub close: Vec<String>,
    pub down: Vec<String>,
    pub up: Vec<String>,
    pub select: Vec<String>,
}

/// Keybindings for the comment and description viewers.
#[derive(Debug, Clone)]
pub struct ViewerKeyBindings {
    pub close: Vec<String>,
    pub scroll_down: Vec<String>,
    pub scroll_up: Vec<String>,
    pub scroll_down_fast: Vec<String>,
    pub scroll_up_fast: Vec<String>,
}

/// View type for keybinding context.
#[derive(Debug, Clone, Copy, PartialEq, Eq, Structural)]
pub enum ViewType {
    TaskList,
    TreeView,
    StatePicker,
    CommentViewer,
    DescriptionViewer,
}

/// Action that can be performed in a view.
#[derive(Debug, Clone, Copy, PartialEq, Eq, Structural)]
pub enum Action {
    Quit,
    Down,
    Up,
    Close,
    OpenTree,
    JumpToParent,
    Refresh,
    AddComment,
    EditTask,
    CreateTask,
    CreateSubtask,
    CopyTaskId,
    OpenStatePicker,
    OpenCommentViewer,
    OpenDescriptionViewer,
    EditFilter,
    Collapse,
    Expand,
    Jump,
    Select,
    ScrollDown,
    ScrollUp,
    ScrollDownFast,
    ScrollUpFast,
}

/// Why a keybindings configuration is rejected.
#[derive(Debug)]
pub enum ConfigError {
    /// The named action has no key.
    EmptyBinding { field: String },
    /// A key expression of the named action cannot be read.
    InvalidKey { key: String, field: String, cause: KeyParseError },
    /// A key is bound to two different actions within one view.
    KeyConflict { key: String, view: String, actions: Vec<String> },
}

/// The view of a [`ConfigError`].
pub enum ConfigErrorView {
    EmptyBinding(Seq<char>),
    InvalidKey(Seq<char>, Seq<char>, KeyParseErrorView),
    KeyConflict(Seq<char>, Seq<char>, Seq<Seq<char>>),
}

impl View for ConfigError {
    type V = ConfigErrorView;

    open spec fn view(&self) -> ConfigErrorView {
        match self {
            ConfigError::EmptyBinding { field } => ConfigErrorView::EmptyBinding(field@),
            ConfigError::InvalidKey { key, field, cause } => ConfigErrorView::InvalidKey(
                key@,
                field@,
                cause@,
            ),
            ConfigError::KeyConflict { key, view, actions } => ConfigErrorView::KeyConflict(
                key@,
                view@,
                views(actions@),
            ),
        }
    }
}

// ---------------------------------------------------------------------------
// Defaults
// ---------------------------------------------------------------------------

/// Owned strings from string slices.
pub fn strs(items: &[&str]) -> (out: Vec<String>)
    ensures
        views(out@) == items@.map_values(|s: &str| s@),
{
    let mut out: Vec<String> = Vec::new();
    for i in 0..items.len()
        invariant
            views(out@) == items@.take(i as int).map_values(|s: &str| s@),
    {
        let s = owned(items[i]);
        let ghost before = out@;
        out.push(s);
        assert(out@ == before.push(s));
        assert(views(out@) =~= views(before).push(items@[i as int]@));
        assert(items@.take(i + 1) =~= items@.take(i as int).push(items@[i as int]));
        assert(items@.take(i + 1).map_values(|s: &str| s@) =~= items@.take(i as int).map_values(
            |s: &str| s@,
        ).push(items@[i as int]@));
    }
    assert(items@.take(items.len() as int) =~= items@);
    out
}

impl Default for TaskListKeyBindings {
    fn default() -> (r: Self)
        ensures
            views(r.quit@) == seq!["q"@, "Q"@, "Esc"@],
            views(r.down@) == seq!["j"@, "J"@, "Down"@],
            views(r.up@) == seq!["k"@, "K"@, "Up"@],
            views(r.open_tree@) == seq!["Enter"@],
            views(r.jump_to_parent@) == seq!["p"@, "P"@],
            views(r.refresh@) == seq!["r"@, "R"@],
            views(r.add_comment@) == seq!["c"@, "C"@],
            views(r.edit_task@) == seq!["e"@, "E"@],
            views(r.create_task@) == seq!["n"@, "N"@],
            views(r.create_subtask@) == seq!["s"@, "S"@],
            views(r.copy_task_id@) == seq!["y"@, "Y"@],
            views(r.open_state_picker@) == seq!["t"@, "T"@],
            views(r.open_comment_viewer@) == seq!["v"@, "V"@],
            views(r.open_description_viewer@) == seq!["d"@, "D"@],
            views(r.edit_filter@) == seq!["f"@, "F"@],
    {
        let r = TaskListKeyBindings {
            quit: strs(&["q", "Q", "Esc"]),
            down: strs(&["j", "J", "Down"]),
            up: strs(&["k", "K", "Up"]),
            open_tree: strs(&["Enter"]),
            jump_to_parent: strs(&["p", "P"]),
            refresh: strs(&["r", "R"]),
            add_comment: strs(&["c", "C"]),
            edit_task: strs(&["e", "E"]),
            create_task: strs(&["n", "N"]),
            create_subtask: strs(&["s", "S"]),
            copy_task_id: strs(&["y", "Y"]),
            open_state_picker: strs(&["t", "T"]),
            open_comment_viewer: strs(&["v", "V"]),
            open_description_viewer: strs(&["d", "D"]),
            edit_filter: strs(&["f", "F"]),
        };
        assert(views(r.quit@) =~= seq!["q"@, "Q"@, "Esc"@]);
        assert(views(r.down@) =~= seq!["j"@, "J"@, "Down"@]);
        assert(views(r.up@) =~= seq!["k"@, "K"@, "Up"@]);
        assert(views(r.open_tree@) =~= seq!["Enter"@]);
        assert(views(r.jump_to_parent@) =~= seq!["p"@, "P"@]);
        assert(views(r.refresh@) =~= seq!["r"@, "R"@]);
        assert(views(r.add_comment@) =~= seq!["c"@, "C"@]);
        assert(views(r.edit_task@) =~= seq!["e"@, "E"@]);
        assert(views(r.create_task@) =~= seq!["n"@, "N"@]);
        assert(views(r.create_subtask@) =~= seq!["s"@, "S"@]);
        assert(views(r.copy_task_id@) =~= seq!["y"@, "Y"@]);
        assert(views(r.open_state_picker@) =~= seq!["t"@, "T"@]);
        assert(views(r.open_comment_viewer@) =~= seq!["v"@, "V"@]);
        assert(views(r.open_description_viewer@) =~= seq!["d"@, "D"@]);
        assert(views(r.edit_filter@) =~= seq!["f"@, "F"@]);
        r
    }
}

impl Default for TreeViewKeyBindings {
    fn default() -> (r: Self)
        ensures
            views(r.close@) == seq!["q"@, "Q"@, "Esc"@],
            views(r.down@) == seq!["j"@, "J"@, "Down"@],
            views(r.up@) == seq!["k"@, "K"@, "Up"@],
            views(r.collapse@) == seq!["h"@, "H"@],
            views(r.expand@) == seq!["l"@, "L"@],
            views(r.jump@) == seq!["Enter"@],
    {
        let r = TreeViewKeyBindings {
            close: strs(&["q", "Q", "Esc"]),
            down: strs(&["j", "J", "Down"]),
            up: strs(&["k", "K", "Up"]),
            collapse: strs(&["h", "H"]),
            expand: strs(&["l", "L"]),
            jump: strs(&["Enter"]),
        };
        assert(views(r.close@) =~= seq!["q"@, "Q"@, "Esc"@]);
        assert(views(r.down@) =~= seq!["j"@, "J"@, "Down"@]);
        assert(views(r.up@) =~= seq!["k"@, "K"@, "Up"@]);
        assert(views(r.collapse@) =~= seq!["h"@, "H"@]);
        assert(views(r.expand@) =~= seq!["l"@, "L"@]);
        assert(views(r.jump@) =~= seq!["Enter"@]);
        r
    }
}

impl Default for StatePickerKeyBindings {
    fn default() -> (r: Self)
        ensures
            views(r.close@) == seq!["q"@, "Q"@, "Esc"@],
            views(r.down@) == seq!["j"@, "J"@, "Down"@],
            views(r.up@) == seq!["k"@, "K"@, "Up"@],
            views(r.select@) == seq!["Enter"@],
    {
        let r = StatePickerKeyBindings {
            close: strs(&["q", "Q", "Esc"]),
            down: strs(&["j", "J", "Down"]),
            up: strs(&["k", "K", "Up"]),
            select: strs(&["Enter"]),
        };
        assert(views(r.close@) =~= seq!["q"@, "Q"@, "Esc"@]);
        assert(views(r.down@) =~= seq!["j"@, "J"@, "Down"@]);
        assert(views(r.up@) =~= seq!["k"@, "K"@, "Up"@]);
        assert(views(r.select@) =~= seq!["Enter"@]);
        r
    }
}

impl Default for ViewerKeyBindings {
    fn default() -> (r: Self)
        ensures
            views(r.close@) == seq!["q"@, "Q"@, "Esc"@],
            views(r.scroll_down@) == seq!["j"@, "J"@],
            views(r.scroll_up@) == seq!["k"@, "K"@],
            views(r.scroll_down_fast@) == seq!["Ctrl+d"@],
            views(r.scroll_up_fast@) == seq!["Ctrl+u"@],
    {
        let r = ViewerKeyBindings {
            close: strs(&["q", "Q", "Esc"]),
            scroll_down: strs(&["j", "J"]),
            scroll_up: strs(&["k", "K"]),
            scroll_down_fast: strs(&["Ctrl+d"]),
            scroll_up_fast: strs(&["Ctrl+u"]),
        };
        assert(views(r.close@) =~= seq!["q"@, "Q"@, "Esc"@]);
        assert(views(r.scroll_down@) =~= seq!["j"@, "J"@]);
        assert(views(r.scroll_up@) =~= seq!["k"@, "K"@]);
        assert(views(r.scroll_down_fast@) =~= seq!["Ctrl+d"@]);
        assert(views(r.scroll_up_fast@) =~= seq!["Ctrl+u"@]);
        r
    }
}

impl KeyBindingsConfig {
    /// The configuration holds the default bindings.
    pub open spec fn is_default(self) -> bool {
        &&& views(self.task_list.quit@) == seq!["q"@, "Q"@, "Esc"@]
        &&& views(self.task_list.down@) == seq!["j"@, "J"@, "Down"@]
        &&& views(self.task_list.up@) == seq!["k"@, "K"@, "Up"@]
        &&& views(self.task_list.open_tree@) == seq!["Enter"@]
        &&& views(self.task_list.jump_to_parent@) == seq!["p"@, "P"@]
        &&& views(self.task_list.refresh@) == seq!["r"@, "R"@]
        &&& views(self.task_list.add_comment@) == seq!["c"@, "C"@]
        &&& views(self.task_list.edit_task@) == seq!["e"@, "E"@]
        &&& views(self.task_list.create_task@) == seq!["n"@, "N"@]
        &&& views(self.task_list.create_subtask@) == seq!["s"@, "S"@]
        &&& views(self.task_list.copy_task_id@) == seq!["y"@, "Y"@]
        &&& views(self.task_list.open_state_picker@) == seq!["t"@, "T"@]
        &&& views(self.task_list.open_comment_viewer@) == seq!["v"@, "V"@]
        &&& views(self.task_list.open_description_viewer@) == seq!["d"@, "D"@]
        &&& views(self.task_list.edit_filter@) == seq!["f"@, "F"@]
        &&& views(self.tree_view.close@) == seq!["q"@, "Q"@, "Esc"@]
        &&& views(self.tree_view.down@) == seq!["j"@, "J"@, "Down"@]
        &&& views(self.tree_view.up@) == seq!["k"@, "K"@, "Up"@]
        &&& views(self.tree_view.collapse@) == seq!["h"@, "H"@]
        &&& views(self.tree_view.expand@) == seq!["l"@, "L"@]
        &&& views(self.tree_view.jump@) == seq!["Enter"@]
        &&& views(self.state_picker.close@) == seq!["q"@, "Q"@, "Esc"@]
        &&& views(self.state_picker.down@) == seq!["j"@, "J"@, "Down"@]
        &&& views(self.state_picker.up@) == seq!["k"@, "K"@, "Up"@]
        &&& views(self.state_picker.select@) == seq!["Enter"@]
        &&& views(self.comment_viewer.close@) == seq!["q"@, "Q"@, "Esc"@]
        &&& views(self.comment_viewer.scroll_down@) == seq!["j"@, "J"@]
        &&& views(self.comment_viewer.scroll_up@) == seq!["k"@, "K"@]
        &&& views(self.comment_viewer.scroll_down_fast@) == seq!["Ctrl+d"@]
        &&& views(self.comment_viewer.scroll_up_fast@) == seq!["Ctrl+u"@]
        &&& views(self.description_viewer.close@) == seq!["q"@, "Q"@, "Esc"@]
        &&& views(self.description_viewer.scroll_down@) == seq!["j"@, "J"@]
        &&& views(self.description_viewer.scroll_up@) == seq!["k"@, "K"@]
        &&& views(self.description_viewer.scroll_down_fast@) == seq!["Ctrl+d"@]
        &&& views(self.description_viewer.scroll_up_fast@) == seq!["Ctrl+u"@]
    }
}

impl Default for KeyBindingsConfig {
    fn default() -> (r: Self)
        ensures
            r.is_default(),
    {
        KeyBindingsConfig {
            task_list: TaskListKeyBindings::default(),
            tree_view: TreeViewKeyBindings::default(),
            state_picker: StatePickerKeyBindings::default(),
            comment_viewer: ViewerKeyBindings::default(),
            description_viewer: ViewerKeyBindings::default(),
        }
    }
}

impl Default for TuiConfig {
    fn default() -> (r: Self)
        ensures
            r.keybindings.is_default(),
    {
        TuiConfig { keybindings: KeyBindingsConfig::default() }
    }
}

impl Default for Config {
    fn default() -> (r: Self)
        ensures
            r.tui.keybindings.is_default(),
    {
        Config { tui: TuiConfig::default() }
    }
}

// ---------------------------------------------------------------------------
// Binding tables
// ---------------------------------------------------------------------------

/// The views in the order in which they are checked.
pub open spec fn all_views() -> Seq<ViewType> {
    seq![
        ViewType::TaskList,
        ViewType::TreeView,
        ViewType::StatePicker,
        ViewType::CommentViewer,
        ViewType::DescriptionViewer,
    ]
}

/// The name of a view in configuration files and messages.
pub open spec fn view_name_spec(view: ViewType) -> Seq<char> {
    match view {
        ViewType::TaskList => "task_list"@,
        ViewType::TreeView => "tree_view"@,
        ViewType::StatePicker => "state_picker"@,
        ViewType::CommentViewer => "comment_viewer"@,
        ViewType::DescriptionViewer => "description_viewer"@,
    }
}

/// The name of a view in configuration files and messages.
pub fn view_name(view: ViewType) -> (r: &'static str)
    ensures
        r@ == view_name_spec(view),
{
    match view {
        ViewType::TaskList => "task_list",
        ViewType::TreeView => "tree_view",
        ViewType::StatePicker => "state_picker",
        ViewType::CommentViewer => "comment_viewer",
        ViewType::DescriptionViewer => "description_viewer",
    }
}

/// The view of a binding table: action names with the views of their keys.
pub open spec fn table_view(t: Seq<(&str, &Vec<String>)>) -> Seq<(Seq<char>, Seq<Seq<char>>)> {
    t.map_values(|e: (&str, &Vec<String>)| (e.0@, views(e.1@)))
}

/// The viewer bindings as a table.
pub open spec fn viewer_bindings(v: ViewerKeyBindings) -> Seq<(Seq<char>, Seq<Seq<char>>)> {
    seq![
        ("close"@, views(v.close@)),
        ("scroll_down"@, views(v.scroll_down@)),
        ("scroll_up"@, views(v.scroll_up@)),
        ("scroll_down_fast"@, views(v.scroll_down_fast@)),
        ("scroll_up_fast"@, views(v.scroll_up_fast@)),
    ]
}

impl KeyBindingsConfig {
    /// The actions of a view with their bound keys, in declaration order.
    pub open spec fn action_bindings(self, view: ViewType) -> Seq<(Seq<char>, Seq<Seq<char>>)> {
        match view {
            ViewType::TaskList => seq![
                ("quit"@, views(self.task_list.quit@)),
                ("down"@, views(self.task_list.down@)),
                ("up"@, views(self.task_list.up@)),
                ("open_tree"@, views(self.task_list.open_tree@)),
                ("jump_to_parent"@, views(self.task_list.jump_to_parent@)),
                ("refresh"@, views(self.task_list.refresh@)),
                ("add_comment"@, views(self.task_list.add_comment@)),
                ("edit_task"@, views(self.task_list.edit_task@)),
                ("create_task"@, views(self.task_list.create_task@)),
                ("create_subtask"@, views(self.task_list.create_subtask@)),
                ("copy_task_id"@, views(self.task_list.copy_task_id@)),
                ("open_state_picker"@, views(self.task_list.open_state_picker@)),
                ("open_comment_viewer"@, views(self.task_list.open_comment_viewer@)),
                ("open_description_viewer"@, views(self.task_list.open_description_viewer@)),
                ("edit_filter"@, views(self.task_list.edit_filter@)),
            ],
            ViewType::TreeView => seq![
                ("close"@, views(self.tree_view.close@)),
                ("down"@, views(self.tree_view.down@)),
                ("up"@, views(self.tree_view.up@)),
                ("collapse"@, views(self.tree_view.collapse@)),
                ("expand"@, views(self.tree_view.expand@)),
                ("jump"@, views(self.tree_view.jump@)),
            ],
            ViewType::StatePicker => seq![
                ("close"@, views(self.state_picker.close@)),
                ("down"@, views(self.state_picker.down@)),
                ("up"@, views(self.state_picker.up@)),
                ("select"@, views(self.state_picker.select@)),
            ],
            ViewType::CommentViewer => viewer_bindings(self.comment_viewer),
            ViewType::DescriptionViewer => viewer_bindings(self.description_viewer),
        }
    }

    /// The keys bound to an action in a view; none for an action that the
    /// view does not have.
    pub open spec fn keys_for(self, view: ViewType, action: Action) -> Seq<String> {
        match (view, action) {
            (ViewType::TaskList, Action::Quit) => self.task_list.quit@,
            (ViewType::TaskList, Action::Down) => self.task_list.down@,
            (ViewType::TaskList, Action::Up) => self.task_list.up@,
            (ViewType::TaskList, Action::OpenTree) => self.task_list.open_tree@,
            (ViewType::TaskList, Action::JumpToParent) => self.task_list.jump_to_parent@,
            (ViewType::TaskList, Action::Refresh) => self.task_list.refresh@,
            (ViewType::TaskList, Action::AddComment) => self.task_list.add_comment@,
            (ViewType::TaskList, Action::EditTask) => self.task_list.edit_task@,
            (ViewType::TaskList, Action::CreateTask) => self.task_list.create_task@,
            (ViewType::TaskList, Action::CreateSubtask) => self.task_list.create_subtask@,
            (ViewType::TaskList, Action::CopyTaskId) => self.task_list.copy_task_id@,
            (ViewType::TaskList, Action::OpenStatePicker) => self.task_list.open_state_picker@,
            (ViewType::TaskList, Action::OpenCommentViewer) => self.task_list.open_comment_viewer@,
            (ViewType::TaskList, Action::OpenDescriptionViewer) => self.task_list.open_description_viewer@,
            (ViewType::TaskList, Action::EditFilter) => self.task_list.edit_filter@,
            (ViewType::TreeView, Action::Close) => self.tree_view.close@,
            (ViewType::TreeView, Action::Down) => self.tree_view.down@,
            (ViewType::TreeView, Action::Up) => self.tree_view.up@,
            (ViewType::TreeView, Action::Collapse) => self.tree_view.collapse@,
            (ViewType::TreeView, Action::Expand) => self.tree_view.expand@,
            (ViewType::TreeView, Action::Jump) => self.tree_view.jump@,
            (ViewType::StatePicker, Action::Close) => self.state_picker.close@,
            (ViewType::StatePicker, Action::Down) => self.state_picker.down@,
            (ViewType::StatePicker, Action::Up) => self.state_picker.up@,
            (ViewType::StatePicker, Action::Select) => self.state_picker.select@,
            (ViewType::CommentViewer, Action::Close) => self.comment_viewer.close@,
            (ViewType::CommentViewer, Action::ScrollDown) => self.comment_viewer.scroll_down@,
            (ViewType::CommentViewer, Action::ScrollUp) => self.comment_viewer.scroll_up@,
            (ViewType::CommentViewer, Action::ScrollDownFast) => self.comment_viewer.scroll_down_fast@,
            (ViewType::CommentViewer, Action::ScrollUpFast) => self.comment_viewer.scroll_up_fast@,
            (ViewType::DescriptionViewer, Action::Close) => self.description_viewer.close@,
            (ViewType::DescriptionViewer, Action::ScrollDown) => self.description_viewer.scroll_down@,
            (ViewType::DescriptionViewer, Action::ScrollUp) => self.description_viewer.scroll_up@,
            (ViewType::DescriptionViewer, Action::ScrollDownFast) => self.description_viewer.scroll_down_fast@,
            (ViewType::DescriptionViewer, Action::ScrollUpFast) => self.description_viewer.scroll_up_fast@,
            _ => Seq::<String>::empty(),
        }
    }
}

/// The task list bindings as a table.
pub fn collect_task_list_bindings(config: &KeyBindingsConfig) -> (r: Vec<(&'static str, &Vec<String>)>)
    ensures
        table_view(r@) == config.action_bindings(ViewType::TaskList),
{
    let t = &config.task_list;
    let r = vec![
        ("quit", &t.quit),
        ("down", &t.down),
        ("up", &t.up),
        ("open_tree", &t.open_tree),
        ("jump_to_parent", &t.jump_to_parent),
        ("refresh", &t.refresh),
        ("add_comment", &t.add_comment),
        ("edit_task", &t.edit_task),
        ("create_task", &t.create_task),
        ("create_subtask", &t.create_subtask),
        ("copy_task_id", &t.copy_task_id),
        ("open_state_picker", &t.open_state_picker),
        ("open_comment_viewer", &t.open_comment_viewer),
        ("open_description_viewer", &t.open_description_viewer),
        ("edit_filter", &t.edit_filter),
    ];
    assert(table_view(r@) =~= config.action_bindings(ViewType::TaskList));
    r
}

/// The tree view bindings as a table.
pub fn collect_tree_view_bindings(config: &KeyBindingsConfig) -> (r: Vec<(&'static str, &Vec<String>)>)
    ensures
        table_view(r@) == config.action_bindings(ViewType::TreeView),
{
    let t = &config.tree_view;
    let r = vec![
        ("close", &t.close),
        ("down", &t.down),
        ("up", &t.up),
        ("collapse", &t.collapse),
        ("expand", &t.expand),
        ("jump", &t.jump),
    ];
    assert(table_view(r@) =~= config.action_bindings(ViewType::TreeView));
    r
}

/// The state picker bindings as a table.
pub fn collect_state_picker_bindings(config: &KeyBindingsConfig) -> (r: Vec<(&'static str, &Vec<String>)>)
    ensures
        table_view(r@) == config.action_bindings(ViewType::StatePicker),
{
    let t = &config.state_picker;
    let r = vec![("close", &t.close), ("down", &t.down), ("up", &t.up), ("select", &t.select)];
    assert(table_view(r@) =~= config.action_bindings(ViewType::StatePicker));
    r
}

fn collect_viewer_bindings(t: &ViewerKeyBindings) -> (r: Vec<(&'static str, &Vec<String>)>)
    ensures
        table_view(r@) == viewer_bindings(*t),
{
    let r = vec![
        ("close", &t.close),
        ("scroll_down", &t.scroll_down),
        ("scroll_up", &t.scroll_up),
        ("scroll_down_fast", &t.scroll_down_fast),
        ("scroll_up_fast", &t.scroll_up_fast),
    ];
    assert(table_view(r@) =~= viewer_bindings(*t));
    r
}

/// The comment viewer bindings as a table.
pub fn collect_comment_viewer_bindings(config: &KeyBindingsConfig) -> (r: Vec<(&'static str, &Vec<String>)>)
    ensures
        table_view(r@) == config.action_bindings(ViewType::CommentViewer),
{
    collect_viewer_bindings(&config.comment_viewer)
}

/// The description viewer bindings as a table.
pub fn collect_description_viewer_bindings(config: &KeyBindingsConfig) -> (r: Vec<(&'static str, &Vec<String>)>)
    ensures
        table_view(r@) == config.action_bindings(ViewType::DescriptionViewer),
{
    collect_viewer_bindings(&config.description_viewer)
}

/// The bindings of a view as a table.
pub fn collect_bindings(config: &KeyBindingsConfig, view: ViewType) -> (r: Vec<(&'static str, &Vec<String>)>)
    ensures
        table_view(r@) == config.action_bindings(view),
{
    match view {
        ViewType::TaskList => collect_task_list_bindings(config),
        ViewType::TreeView => collect_tree_view_bindings(config),
        ViewType::StatePicker => collect_state_picker_bindings(config),
        ViewType::CommentViewer => collect_comment_viewer_bindings(config),
        ViewType::DescriptionViewer => collect_description_viewer_bindings(config),
    }
}

// ---------------------------------------------------------------------------
// Validation
// ---------------------------------------------------------------------------

/// The first action of a table that has no key.
pub open spec fn first_empty(bs: Seq<(Seq<char>, Seq<Seq<char>>)>) -> Option<Seq<char>>
    decreases bs.len(),
{
    if bs.len() == 0 {
        None
    } else if bs[0].1.len() == 0 {
        Some(bs[0].0)
    } else {
        first_empty(bs.drop_first())
    }
}

/// The first key of a list that cannot be read, with the reason.
pub open spec fn first_bad_key(keys: Seq<Seq<char>>) -> Option<(Seq<char>, KeyParseErrorView)>
    decreases keys.len(),
{
    if keys.len() == 0 {
        None
    } else {
        match spec_parse_key(keys[0]) {
            Err(e) => Some((keys[0], e)),
            Ok(_) => first_bad_key(keys.drop_first()),
        }
    }
}

/// The first key of a table that cannot be read, with its action and the
/// reason.
pub open spec fn first_bad_binding(bs: Seq<(Seq<char>, Seq<Seq<char>>)>) -> Option<
    (Seq<char>, Seq<char>, KeyParseErrorView),
>
    decreases bs.len(),
{
    if bs.len() == 0 {
        None
    } else {
        match first_bad_key(bs[0].1) {
            Some((k, e)) => Some((k, bs[0].0, e)),
            None => first_bad_binding(bs.drop_first()),
        }
    }
}

/// The keys of one table entry, each paired with its action.
pub open spec fn entry_pairs(b: (Seq<char>, Seq<Seq<char>>)) -> Seq<(Seq<char>, Seq<char>)> {
    b.1.map_values(|k: Seq<char>| (k, b.0))
}

/// Every key of a table paired with its action, entry by entry.
pub open spec fn flat_pairs(bs: Seq<(Seq<char>, Seq<Seq<char>>)>) -> Seq<(Seq<char>, Seq<char>)>
    decreases bs.len(),
{
    if bs.len() == 0 {
        Seq::empty()
    } else {
        flat_pairs(bs.drop_last()) + entry_pairs(bs.last())
    }
}

/// The first key, from position `i` on, that already occurred before it
/// under another action.
pub open spec fn first_repeat(pairs: Seq<(Seq<char>, Seq<char>)>, i: int) -> Option<Seq<char>>
    decreases pairs.len() - i,
{
    if i < 0 || i >= pairs.len() {
        None
    } else if exists|q: int| 0 <= q < i && pairs[q].0 == pairs[i].0 && pairs[q].1 != pairs[i].1 {
        Some(pairs[i].0)
    } else {
        first_repeat(pairs, i + 1)
    }
}

/// The actions of the pairs whose key is `key`, one per pair.
pub open spec fn actions_with(pairs: Seq<(Seq<char>, Seq<char>)>, key: Seq<char>) -> Seq<Seq<char>>
    decreases pairs.len(),
{
    if pairs.len() == 0 {
        Seq::empty()
    } else if pairs.last().0 == key {
        actions_with(pairs.drop_last(), key).push(pairs.last().1)
    } else {
        actions_with(pairs.drop_last(), key)
    }
}

/// A key bound to two different actions of a table, with every action it
/// is bound to.
pub open spec fn table_conflict(bs: Seq<(Seq<char>, Seq<Seq<char>>)>) -> Option<
    (Seq<char>, Seq<Seq<char>>),
> {
    match first_repeat(flat_pairs(bs), 0) {
        Some(k) => Some((k, actions_with(flat_pairs(bs), k))),
        None => None,
    }
}

/// The help line of a viewer, listing its keys.
pub open spec fn viewer_help(t: ViewerKeyBindings) -> Seq<char> {
    display_pair(t.scroll_down@, t.scroll_up@) + ":スクロール "@ + display_first(t.scroll_down_fast@) + "/"@
        + display_first(t.scroll_up_fast@) + ":半画面スクロール "@ + display_first(t.close@) + ":閉じる"@
}

/// The qualified name `view.action`.
pub open spec fn field_name(view: ViewType, action: Seq<char>) -> Seq<char> {
    view_name_spec(view) + "."@ + action
}

impl KeyBindingsConfig {
    /// The first action without keys, views in order.
    pub open spec fn empty_binding_from(self, vs: Seq<ViewType>) -> Option<Seq<char>>
        decreases vs.len(),
    {
        if vs.len() == 0 {
            None
        } else {
            match first_empty(self.action_bindings(vs[0])) {
                Some(a) => Some(field_name(vs[0], a)),
                None => self.empty_binding_from(vs.drop_first()),
            }
        }
    }

    /// The first key that cannot be read, views in order.
    pub open spec fn bad_key_from(self, vs: Seq<ViewType>) -> Option<
        (Seq<char>, Seq<char>, KeyParseErrorView),
    >
        decreases vs.len(),
    {
        if vs.len() == 0 {
            None
        } else {
            match first_bad_binding(self.action_bindings(vs[0])) {
                Some((k, a, e)) => Some((k, field_name(vs[0], a), e)),
                None => self.bad_key_from(vs.drop_first()),
            }
        }
    }

    /// The first view in which a key is bound to two different actions.
    pub open spec fn conflict_from(self, vs: Seq<ViewType>) -> Option<
        (Seq<char>, Seq<char>, Seq<Seq<char>>),
    >
        decreases vs.len(),
    {
        if vs.len() == 0 {
            None
        } else {
            match table_conflict(self.action_bindings(vs[0])) {
                Some((k, acts)) => Some((k, view_name_spec(vs[0]), acts)),
                None => self.conflict_from(vs.drop_first()),
            }
        }
    }

    /// The outcome of validating the configuration: every action has a key,
    /// every key can be read, and no key is bound twice within a view.
    pub open spec fn validation(self) -> Result<(), ConfigErrorView> {
        match self.empty_binding_from(all_views()) {
            Some(f) => Err(ConfigErrorView::EmptyBinding(f)),
            None => match self.bad_key_from(all_views()) {
                Some((k, f, e)) => Err(ConfigErrorView::InvalidKey(k, f, e)),
                None => match self.conflict_from(all_views()) {
                    Some((k, v, a)) => Err(ConfigErrorView::KeyConflict(k, v, a)),
                    None => Ok(()),
                },
            },
        }
    }
}

fn view_at(i: usize) -> (r: ViewType)
    requires
        i < 5,
    ensures
        r == all_views()[i as int],
{
    if i == 0 {
        ViewType::TaskList
    } else if i == 1 {
        ViewType::TreeView
    } else if i == 2 {
        ViewType::StatePicker
    } else if i == 3 {
        ViewType::CommentViewer
    } else {
        ViewType::DescriptionViewer
    }
}

/// The position of the first entry of a table that has no key.
fn first_empty_index(bs: &Vec<(&'static str, &Vec<String>)>) -> (r: Option<usize>)
    ensures
        r is None ==> first_empty(table_view(bs@)) is None,
        r matches Some(i) ==> i < bs.len() && first_empty(table_view(bs@)) == Some(
            table_view(bs@)[i as int].0,
        ),
{
    let ghost tv = table_view(bs@);
    assert(tv.skip(0) =~= tv);
    for i in 0..bs.len()
        invariant
            tv == table_view(bs@),
            first_empty(tv) == first_empty(tv.skip(i as int)),
    {
        assert(tv.skip(i as int)[0] == tv[i as int]);
        assert(tv.skip(i as int).drop_first() =~= tv.skip(i + 1));
        if bs[i].1.len() == 0 {
            return Some(i);
        }
    }
    assert(tv.skip(bs.len() as int) =~= Seq::<(Seq<char>, Seq<Seq<char>>)>::empty());
    None
}

/// Checks that every action of every view has at least one key.
pub fn validate_non_empty_bindings(config: &KeyBindingsConfig) -> (r: Result<(), ConfigError>)
    ensures
        r is Ok <==> config.empty_binding_from(all_views()) is None,
        r matches Err(e) ==> config.empty_binding_from(all_views()) == Some(e@->EmptyBinding_0)
            && e@ is EmptyBinding,
{
    let ghost vs = all_views();
    assert(vs.skip(0) =~= vs);
    for i in 0..5usize
        invariant
            vs == all_views(),
            config.empty_binding_from(vs) == config.empty_binding_from(vs.skip(i as int)),
    {
        let view = view_at(i);
        assert(vs.skip(i as int)[0] == vs[i as int]);
        assert(vs.skip(i as int).drop_first() =~= vs.skip(i + 1));
        let bs = collect_bindings(config, view);
        if let Some(k) = first_empty_index(&bs) {
            let field = concat3(view_name(view), ".", bs[k].0);
            return Err(ConfigError::EmptyBinding { field });
        }
    }
    assert(vs.skip(5) =~= Seq::<ViewType>::empty());
    Ok(())
}

/// The first key of a list that cannot be read.
fn first_bad_key_index(keys: &Vec<String>) -> (r: Result<(), (usize, KeyParseError)>)
    ensures
        r is Ok ==> first_bad_key(views(keys@)) is None,
        r matches Err((i, e)) ==> i < keys.len() && first_bad_key(views(keys@)) == Some(
            (keys@[i as int]@, e@),
        ),
{
    let ghost kv = views(keys@);
    assert(kv.skip(0) =~= kv);
    for i in 0..keys.len()
        invariant
            kv == views(keys@),
            first_bad_key(kv) == first_bad_key(kv.skip(i as int)),
    {
        assert(kv.skip(i as int)[0] == keys@[i as int]@);
        assert(kv.skip(i as int).drop_first() =~= kv.skip(i + 1));
        match parse_key(keys[i].as_str()) {
            Err(e) => {
                return Err((i, e));
            },
            Ok(_) => {},
        }
    }
    assert(kv.skip(keys.len() as int) =~= Seq::<Seq<char>>::empty());
    Ok(())
}

/// Checks that every bound key can be read.
pub fn validate_key_expressions(config: &KeyBindingsConfig) -> (r: Result<(), ConfigError>)
    ensures
        r is Ok <==> config.bad_key_from(all_views()) is None,
        r matches Err(e) ==> e@ is InvalidKey && config.bad_key_from(all_views()) == Some(
            (e@->InvalidKey_0, e@->InvalidKey_1, e@->InvalidKey_2),
        ),
{
    let ghost vs = all_views();
    assert(vs.skip(0) =~= vs);
    for i in 0..5usize
        invariant
            vs == all_views(),
            config.bad_key_from(vs) == config.bad_key_from(vs.skip(i as int)),
    {
        let view = view_at(i);
        assert(vs.skip(i as int)[0] == vs[i as int]);
        assert(vs.skip(i as int).drop_first() =~= vs.skip(i + 1));
        let bs = collect_bindings(config, view);
        let ghost tv = table_view(bs@);
        assert(tv.skip(0) =~= tv);
        for j in 0..bs.len()
            invariant
                tv == table_view(bs@),
                tv == config.action_bindings(view),
                view == vs[i as int],
                vs == all_views(),
                i < 5,
                config.bad_key_from(vs) == config.bad_key_from(vs.skip(i as int)),
                first_bad_binding(tv) == first_bad_binding(tv.skip(j as int)),
        {
            assert(tv.skip(j as int)[0] == tv[j as int]);
            assert(tv.skip(j as int).drop_first() =~= tv.skip(j + 1));
            match first_bad_key_index(bs[j].1) {
                Err((k, cause)) => {
                    let key = owned(bs[j].1[k].as_str());
                    let field = concat3(view_name(view), ".", bs[j].0);
                    return Err(ConfigError::InvalidKey { key, field, cause });
                },
                Ok(()) => {},
            }
        }
        assert(tv.skip(bs.len() as int) =~= Seq::<(Seq<char>, Seq<Seq<char>>)>::empty());
    }
    assert(vs.skip(5) =~= Seq::<ViewType>::empty());
    Ok(())
}

/// The view of a list of key/action pairs.
pub open spec fn pairs_view(p: Seq<(&str, &str)>) -> Seq<(Seq<char>, Seq<char>)> {
    p.map_values(|e: (&str, &str)| (e.0@, e.1@))
}

/// Every key of a table paired with its action.
fn table_pairs<'a>(bs: &Vec<(&'static str, &'a Vec<String>)>) -> (r: Vec<(&'a str, &'static str)>)
    ensures
        pairs_view(r@) == flat_pairs(table_view(bs@)),
{
    let ghost tv = table_view(bs@);
    let mut out: Vec<(&'a str, &'static str)> = Vec::new();
    for i in 0..bs.len()
        invariant
            tv == table_view(bs@),
            pairs_view(out@) == flat_pairs(tv.take(i as int)),
    {
        let keys = bs[i].1;
        let action = bs[i].0;
        let ghost base = pairs_view(out@);
        for j in 0..keys.len()
            invariant
                keys == bs@[i as int].1,
                action == bs@[i as int].0,
                pairs_view(out@) == base + entry_pairs((action@, views(keys@).take(j as int))),
        {
            let ghost before = pairs_view(out@);
            out.push((keys[j].as_str(), action));
            assert(pairs_view(out@) =~= before.push((keys@[j as int]@, action@)));
            assert(entry_pairs((action@, views(keys@).take(j + 1))) =~= entry_pairs(
                (action@, views(keys@).take(j as int)),
            ).push((keys@[j as int]@, action@)));
        }
        assert(views(keys@).take(keys.len() as int) =~= views(keys@));
        assert(tv.take(i + 1).drop_last() =~= tv.take(i as int));
        assert(tv.take(i + 1).last() == tv[i as int]);
        assert(tv[i as int] == (action@, views(keys@)));
    }
    assert(tv.take(bs.len() as int) =~= tv);
    out
}

/// Checks that no key is bound to two different actions within one view.
pub fn validate_view_keybindings(view: &str, bindings: &Vec<(&'static str, &Vec<String>)>) -> (r:
    Result<(), ConfigError>)
    ensures
        r is Ok <==> table_conflict(table_view(bindings@)) is None,
        r matches Err(e) ==> e@ is KeyConflict && e@->KeyConflict_1 == view@ && table_conflict(
            table_view(bindings@),
        ) == Some((e@->KeyConflict_0, e@->KeyConflict_2)),
{
    let pairs = table_pairs(bindings);
    let ghost pv = pairs_view(pairs@);
    let n = pairs.len();
    let mut p: usize = 0;
    while p < n
        invariant
            n == pairs@.len(),
            pv == pairs_view(pairs@),
            pv == flat_pairs(table_view(bindings@)),
            p <= n,
            first_repeat(pv, 0) == first_repeat(pv, p as int),
        decreases n - p,
    {
        let mut q: usize = 0;
        let mut found = false;
        while q < p
            invariant
                p < n,
                n == pairs@.len(),
                pv == pairs_view(pairs@),
                q <= p,
                !found ==> forall|x: int| 0 <= x < q ==> !(pv[x].0 == pv[p as int].0 && pv[x].1 != pv[p as int].1),
                found ==> exists|x: int| 0 <= x < p && pv[x].0 == pv[p as int].0 && pv[x].1 != pv[p as int].1,
            decreases p - q,
        {
            if str_eq(pairs[q].0, pairs[p].0) && !str_eq(pairs[q].1, pairs[p].1) {
                assert(pv[q as int].0 == pv[p as int].0 && pv[q as int].1 != pv[p as int].1);
                found = true;
            }
            q += 1;
        }
        if found {
            let key = pairs[p].0;
            assert(first_repeat(pv, p as int) == Some(pv[p as int].0));
            let mut actions: Vec<String> = Vec::new();
            for x in 0..n
                invariant
                    n == pairs@.len(),
                    pv == pairs_view(pairs@),
                    key@ == pv[p as int].0,
                    views(actions@) == actions_with(pv.take(x as int), key@),
            {
                assert(pv.take(x + 1).drop_last() =~= pv.take(x as int));
                assert(pv.take(x + 1).last() == pv[x as int]);
                if str_eq(pairs[x].0, key) {
                    let a = owned(pairs[x].1);
                    let ghost before = actions@;
                    actions.push(a);
                    assert(views(actions@) =~= views(before).push(a@));
                }
            }
            assert(pv.take(n as int) =~= pv);
            return Err(ConfigError::KeyConflict { key: owned(key), view: owned(view), actions });
        }
        assert(!(exists|x: int| 0 <= x < p && pv[x].0 == pv[p as int].0 && pv[x].1 != pv[p as int].1));
        p += 1;
    }
    assert(first_repeat(pv, n as int) is None);
    Ok(())
}

/// Checks every view for keys that are bound to two different actions of a view.
pub fn validate_keybindings(config: &KeyBindingsConfig) -> (r: Result<(), ConfigError>)
    ensures
        r is Ok <==> config.conflict_from(all_views()) is None,
        r matches Err(e) ==> e@ is KeyConflict && config.conflict_from(all_views()) == Some(
            (e@->KeyConflict_0, e@->KeyConflict_1, e@->KeyConflict_2),
        ),
{
    let ghost vs = all_views();
    assert(vs.skip(0) =~= vs);
    for i in 0..5usize
        invariant
            vs == all_views(),
            config.conflict_from(vs) == config.conflict_from(vs.skip(i as int)),
    {
        let view = view_at(i);
        assert(vs.skip(i as int)[0] == vs[i as int]);
        assert(vs.skip(i as int).drop_first() =~= vs.skip(i + 1));
        let bs = collect_bindings(config, view);
        match validate_view_keybindings(view_name(view), &bs) {
            Err(e) => {
                return Err(e);
            },
            Ok(()) => {},
        }
    }
    assert(vs.skip(5) =~= Seq::<ViewType>::empty());
    Ok(())
}

/// Validates a keybindings configuration: every action has a key, every key
/// can be read, and no key is bound twice within a view.
pub fn validate_keybindings_config(config: &KeyBindingsConfig) -> (r: Result<(), ConfigError>)
    ensures
        r is Ok <==> config.validation() is Ok,
        r matches Err(e) ==> config.validation() == Err::<(), ConfigErrorView>(e@),
{
    validate_non_empty_bindings(config)?;
    validate_key_expressions(config)?;
    validate_keybindings(config)?;
    Ok(())
}

/// Validates the TUI configuration.
pub fn validate_tui_config(config: &TuiConfig) -> (r: Result<(), ConfigError>)
    ensures
        r is Ok <==> config.keybindings.validation() is Ok,
        r matches Err(e) ==> config.keybindings.validation() == Err::<(), ConfigErrorView>(e@),
{
    validate_keybindings_config(&config.keybindings)
}

/// Validates the whole configuration.
pub fn validate_config_struct(config: &Config) -> (r: Result<(), ConfigError>)
    ensures
        r is Ok <==> config.tui.keybindings.validation() is Ok,
        r matches Err(e) ==> config.tui.keybindings.validation() == Err::<(), ConfigErrorView>(
            e@,
        ),
{
    validate_tui_config(&config.tui)
}

// ---------------------------------------------------------------------------
// Matching and help texts
// ---------------------------------------------------------------------------

/// How a key expression is displayed in help texts.
pub open spec fn display_key(key: Seq<char>) -> Seq<char> {
    if key == "Enter"@ {
        "↵"@
    } else if key == "Esc"@ {
        "Esc"@
    } else if key == "Tab"@ {
        "Tab"@
    } else if key == "Backspace"@ {
        "BS"@
    } else if key == "Delete"@ {
        "Del"@
    } else if key == "Up"@ {
        "↑"@
    } else if key == "Down"@ {
        "↓"@
    } else if key == "Left"@ {
        "←"@
    } else if key == "Right"@ {
        "→"@
    } else if key == "Home"@ {
        "Home"@
    } else if key == "End"@ {
        "End"@
    } else if key == "PageUp"@ {
        "PgUp"@
    } else if key == "PageDown"@ {
        "PgDn"@
    } else if key == "Ctrl+d"@ {
        "Ctrl-d"@
    } else if key == "Ctrl+u"@ {
        "Ctrl-u"@
    } else if starts_with(key, "Ctrl+"@) || starts_with(key, "Alt+"@) {
        replace_char(key, '+', '-')
    } else {
        key
    }
}

/// How the first key of a list is displayed; `"?"` when there is none.
pub open spec fn display_first(keys: Seq<String>) -> Seq<char> {
    if keys.len() == 0 {
        "?"@
    } else {
        display_key(keys[0]@)
    }
}

/// Two first keys shown as a pair, such as `j/k`.
pub open spec fn display_pair(down: Seq<String>, up: Seq<String>) -> Seq<char> {
    display_first(down) + "/"@ + display_first(up)
}

impl KeyBindingsConfig {
    /// The help line of a view.
    pub open spec fn help_text(self, view: ViewType) -> Seq<char> {
        match view {
            ViewType::TaskList => {
                let t = self.task_list;
                display_pair(t.down@, t.up@) + ":移動 "@ + display_first(t.open_tree@)
                    + ":ツリー "@ + display_first(t.create_task@) + ":新規 "@ + display_first(
                    t.create_subtask@,
                ) + ":子タスク "@ + display_first(t.edit_task@) + ":編集 "@ + display_first(
                    t.add_comment@,
                ) + ":コメント "@ + display_first(t.open_comment_viewer@) + ":コメント表示 "@
                    + display_first(t.open_description_viewer@) + ":説明表示 "@ + display_first(
                    t.refresh@,
                ) + ":再読込 "@ + display_first(t.jump_to_parent@) + ":親へ "@ + display_first(
                    t.copy_task_id@,
                ) + ":IDコピー "@ + display_first(t.open_state_picker@) + ":状態 "@
                    + display_first(t.edit_filter@) + ":フィルタ "@ + display_first(t.quit@)
                    + ":終了"@
            },
            ViewType::TreeView => {
                let t = self.tree_view;
                display_pair(t.down@, t.up@) + ":移動 "@ + display_first(t.collapse@)
                    + ":閉じる "@ + display_first(t.expand@) + ":開く "@ + display_first(t.jump@)
                    + ":ジャンプ "@ + display_first(t.close@) + ":閉じる"@
            },
            ViewType::StatePicker => {
                let t = self.state_picker;
                display_pair(t.down@, t.up@) + ":移動 "@ + display_first(t.select@) + ":決定 "@
                    + display_first(t.close@) + ":キャンセル"@
            },
            ViewType::CommentViewer => viewer_help(self.comment_viewer),
            ViewType::DescriptionViewer => viewer_help(self.description_viewer),
        }
    }

    /// Whether a key event is one of the keys bound to an action in a view.
    pub open spec fn spec_matches(self, view: ViewType, action: Action, key: KeyEvent) -> bool {
        exists|i: int|
            0 <= i < self.keys_for(view, action).len() && spec_parse_key(
                #[trigger] self.keys_for(view, action)[i]@,
            ) == Ok::<KeyEvent, KeyParseErrorView>(key)
    }

    /// The keys bound to an action in a view (none for an action the view
    /// does not have).
    pub fn get_keys(&self, view: ViewType, action: Action) -> (r: &[String])
        ensures
            r@ == self.keys_for(view, action),
    {
        match (view, action) {
            (ViewType::TaskList, Action::Quit) => self.task_list.quit.as_slice(),
            (ViewType::TaskList, Action::Down) => self.task_list.down.as_slice(),
            (ViewType::TaskList, Action::Up) => self.task_list.up.as_slice(),
            (ViewType::TaskList, Action::OpenTree) => self.task_list.open_tree.as_slice(),
            (ViewType::TaskList, Action::JumpToParent) => self.task_list.jump_to_parent.as_slice(),
            (ViewType::TaskList, Action::Refresh) => self.task_list.refresh.as_slice(),
            (ViewType::TaskList, Action::AddComment) => self.task_list.add_comment.as_slice(),
            (ViewType::TaskList, Action::EditTask) => self.task_list.edit_task.as_slice(),
            (ViewType::TaskList, Action::CreateTask) => self.task_list.create_task.as_slice(),
            (ViewType::TaskList, Action::CreateSubtask) => self.task_list.create_subtask.as_slice(),
            (ViewType::TaskList, Action::CopyTaskId) => self.task_list.copy_task_id.as_slice(),
            (ViewType::TaskList, Action::OpenStatePicker) => self.task_list.open_state_picker.as_slice(),
            (ViewType::TaskList, Action::OpenCommentViewer) => self.task_list.open_comment_viewer.as_slice(),
            (ViewType::TaskList, Action::OpenDescriptionViewer) => self.task_list.open_description_viewer.as_slice(),
            (ViewType::TaskList, Action::EditFilter) => self.task_list.edit_filter.as_slice(),
            (ViewType::TreeView, Action::Close) => self.tree_view.close.as_slice(),
            (ViewType::TreeView, Action::Down) => self.tree_view.down.as_slice(),
            (ViewType::TreeView, Action::Up) => self.tree_view.up.as_slice(),
            (ViewType::TreeView, Action::Collapse) => self.tree_view.collapse.as_slice(),
            (ViewType::TreeView, Action::Expand) => self.tree_view.expand.as_slice(),
            (ViewType::TreeView, Action::Jump) => self.tree_view.jump.as_slice(),
            (ViewType::StatePicker, Action::Close) => self.state_picker.close.as_slice(),
            (ViewType::StatePicker, Action::Down) => self.state_picker.down.as_slice(),
            (ViewType::StatePicker, Action::Up) => self.state_picker.up.as_slice(),
            (ViewType::StatePicker, Action::Select) => self.state_picker.select.as_slice(),
            (ViewType::CommentViewer, Action::Close) => self.comment_viewer.close.as_slice(),
            (ViewType::CommentViewer, Action::ScrollDown) => self.comment_viewer.scroll_down.as_slice(),
            (ViewType::CommentViewer, Action::ScrollUp) => self.comment_viewer.scroll_up.as_slice(),
            (ViewType::CommentViewer, Action::ScrollDownFast) => self.comment_viewer.scroll_down_fast.as_slice(),
            (ViewType::CommentViewer, Action::ScrollUpFast) => self.comment_viewer.scroll_up_fast.as_slice(),
            (ViewType::DescriptionViewer, Action::Close) => self.description_viewer.close.as_slice(),
            (ViewType::DescriptionViewer, Action::ScrollDown) => self.description_viewer.scroll_down.as_slice(),
            (ViewType::DescriptionViewer, Action::ScrollUp) => self.description_viewer.scroll_up.as_slice(),
            (ViewType::DescriptionViewer, Action::ScrollDownFast) => self.description_viewer.scroll_down_fast.as_slice(),
            (ViewType::DescriptionViewer, Action::ScrollUpFast) => self.description_viewer.scroll_up_fast.as_slice(),
            _ => &[],
        }
    }

    /// Whether a key event is one of the keys bound to an action in a view.
    pub fn matches(&self, view: ViewType, action: Action, key: &KeyEvent) -> (r: bool)
        ensures
            r == self.spec_matches(view, action, *key),
    {
        let keys = self.get_keys(view, action);
        for i in 0..keys.len()
            invariant
                keys@ == self.keys_for(view, action),
                forall|k: int|
                    0 <= k < i ==> spec_parse_key(#[trigger] keys@[k]@) != Ok::<
                        KeyEvent,
                        KeyParseErrorView,
                    >(*key),
        {
            match parse_key(keys[i].as_str()) {
                Ok(expected) => {
                    if key_event_matches(&expected, key) {
                        return true;
                    }
                },
                Err(_) => {},
            }
        }
        false
    }

    /// How a key expression is displayed in help texts.
    pub fn format_key_display(&self, key: &str) -> (r: String)
        ensures
            r@ == display_key(key@),
    {
        if str_eq(key, "Enter") {
            owned("↵")
        } else if str_eq(key, "Esc") {
            owned("Esc")
        } else if str_eq(key, "Tab") {
            owned("Tab")
        } else if str_eq(key, "Backspace") {
            owned("BS")
        } else if str_eq(key, "Delete") {
            owned("Del")
        } else if str_eq(key, "Up") {
            owned("↑")
        } else if str_eq(key, "Down") {
            owned("↓")
        } else if str_eq(key, "Left") {
            owned("←")
        } else if str_eq(key, "Right") {
            owned("→")
        } else if str_eq(key, "Home") {
            owned("Home")
        } else if str_eq(key, "End") {
            owned("End")
        } else if str_eq(key, "PageUp") {
            owned("PgUp")
        } else if str_eq(key, "PageDown") {
            owned("PgDn")
        } else if str_eq(key, "Ctrl+d") {
            owned("Ctrl-d")
        } else if str_eq(key, "Ctrl+u") {
            owned("Ctrl-u")
        } else {
            let chars = chars_of(key);
            let ctrl = chars_of("Ctrl+");
            let alt = chars_of("Alt+");
            if chars_start_with(&chars, &ctrl) || chars_start_with(&chars, &alt) {
                let mut out: Vec<char> = Vec::new();
                for i in 0..chars.len()
                    invariant
                        out@ == replace_char(chars@.take(i as int), '+', '-'),
                {
                    let c = if chars[i] == '+' {
                        '-'
                    } else {
                        chars[i]
                    };
                    out.push(c);
                    assert(chars@.take(i + 1) =~= chars@.take(i as int).push(chars@[i as int]));
                    assert(out@ =~= replace_char(chars@.take(i + 1), '+', '-'));
                }
                assert(chars@.take(chars.len() as int) =~= chars@);
                string_from_chars(&out)
            } else {
                owned(key)
            }
        }
    }

    /// How the first key of a list is displayed; `"?"` when there is none.
    pub fn format_first_key(&self, keys: &[String]) -> (r: String)
        ensures
            r@ == display_first(keys@),
    {
        match keys.first() {
            Some(k) => self.format_key_display(k.as_str()),
            None => owned("?"),
        }
    }

    /// The first keys of two lists shown as a pair, such as `j/k`.
    pub fn format_key_pair(&self, down: &[String], up: &[String]) -> (r: String)
        ensures
            r@ == display_pair(down@, up@),
    {
        let mut out = self.format_first_key(down);
        push_str(&mut out, "/");
        let second = self.format_first_key(up);
        push_str(&mut out, second.as_str());
        out
    }

    fn generate_task_list_help(&self) -> (r: String)
        ensures
            r@ == self.help_text(ViewType::TaskList),
    {
        let t = &self.task_list;
        let mut out = self.format_key_pair(t.down.as_slice(), t.up.as_slice());
        push_str(&mut out, ":移動 ");
        let k = self.format_first_key(t.open_tree.as_slice());
        push_str(&mut out, k.as_str());
        push_str(&mut out, ":ツリー ");
        let k = self.format_first_key(t.create_task.as_slice());
        push_str(&mut out, k.as_str());
        push_str(&mut out, ":新規 ");
        let k = self.format_first_key(t.create_subtask.as_slice());
        push_str(&mut out, k.as_str());
        push_str(&mut out, ":子タスク ");
        let k = self.format_first_key(t.edit_task.as_slice());
        push_str(&mut out, k.as_str());
        push_str(&mut out, ":編集 ");
        let k = self.format_first_key(t.add_comment.as_slice());
        push_str(&mut out, k.as_str());
        push_str(&mut out, ":コメント ");
        let k = self.format_first_key(t.open_comment_viewer.as_slice());
        push_str(&mut out, k.as_str());
        push_str(&mut out, ":コメント表示 ");
        let k = self.format_first_key(t.open_description_viewer.as_slice());
        push_str(&mut out, k.as_str());
        push_str(&mut out, ":説明表示 ");
        let k = self.format_first_key(t.refresh.as_slice());
        push_str(&mut out, k.as_str());
        push_str(&mut out, ":再読込 ");
        let k = self.format_first_key(t.jump_to_parent.as_slice());
        push_str(&mut out, k.as_str());
        push_str(&mut out, ":親へ ");
        let k = self.format_first_key(t.copy_task_id.as_slice());
        push_str(&mut out, k.as_str());
        push_str(&mut out, ":IDコピー ");
        let k = self.format_first_key(t.open_state_picker.as_slice());
        push_str(&mut out, k.as_str());
        push_str(&mut out, ":状態 ");
        let k = self.format_first_key(t.edit_filter.as_slice());
        push_str(&mut out, k.as_str());
        push_str(&mut out, ":フィルタ ");
        let k = self.format_first_key(t.quit.as_slice());
        push_str(&mut out, k.as_str());
        push_str(&mut out, ":終了");
        out
    }

    fn generate_tree_view_help(&self) -> (r: String)
        ensures
            r@ == self.help_text(ViewType::TreeView),
    {
        let t = &self.tree_view;
        let mut out = self.format_key_pair(t.down.as_slice(), t.up.as_slice());
        push_str(&mut out, ":移動 ");
        let k = self.format_first_key(t.collapse.as_slice());
        push_str(&mut out, k.as_str());
        push_str(&mut out, ":閉じる ");
        let k = self.format_first_key(t.expand.as_slice());
        push_str(&mut out, k.as_str());
        push_str(&mut out, ":開く ");
        let k = self.format_first_key(t.jump.as_slice());
        push_str(&mut out, k.as_str());
        push_str(&mut out, ":ジャンプ ");
        let k = self.format_first_key(t.close.as_slice());
        push_str(&mut out, k.as_str());
        push_str(&mut out, ":閉じる");
        out
    }

    fn generate_state_picker_help(&self) -> (r: String)
        ensures
            r@ == self.help_text(ViewType::StatePicker),
    {
        let t = &self.state_picker;
        let mut out = self.format_key_pair(t.down.as_slice(), t.up.as_slice());
        push_str(&mut out, ":移動 ");
        let k = self.format_first_key(t.select.as_slice());
        push_str(&mut out, k.as_str());
        push_str(&mut out, ":決定 ");
        let k = self.format_first_key(t.close.as_slice());
        push_str(&mut out, k.as_str());
        push_str(&mut out, ":キャンセル");
        out
    }

    fn generate_viewer_help(&self, t: &ViewerKeyBindings) -> (r: String)
        ensures
            r@ == viewer_help(*t),
    {
        let mut out = self.format_key_pair(t.scroll_down.as_slice(), t.scroll_up.as_slice());
        push_str(&mut out, ":スクロール ");
        let k = self.format_first_key(t.scroll_down_fast.as_slice());
        push_str(&mut out, k.as_str());
        push_str(&mut out, "/");
        let k = self.format_first_key(t.scroll_up_fast.as_slice());
        push_str(&mut out, k.as_str());
        push_str(&mut out, ":半画面スクロール ");
        let k = self.format_first_key(t.close.as_slice());
        push_str(&mut out, k.as_str());
        push_str(&mut out, ":閉じる");
        out
    }

    /// The help line of a view, listing its keys.
    pub fn generate_help_text(&self, view: ViewType) -> (r: String)
        ensures
            r@ == self.help_text(view),
    {
        match view {
            ViewType::TaskList => self.generate_task_list_help(),
            ViewType::TreeView => self.generate_tree_view_help(),
            ViewType::StatePicker => self.generate_state_picker_help(),
            ViewType::CommentViewer => self.generate_viewer_help(&self.comment_viewer),
            ViewType::DescriptionViewer => self.generate_viewer_help(&self.description_viewer),
        }
    }
}


/// Where the keybindings file is written: the given path, or else the
/// default configuration path; an error when neither is known.
pub fn init_keybindings(output: Option<String>, default_path: Option<String>) -> (r: Result<
    String,
    String,
>)
    ensures
        match output {
            Some(o) => r matches Ok(p) && p@ == o@,
            None => match default_path {
                Some(d) => r matches Ok(p) && p@ == d@,
                None => r matches Err(m) && m@ == "設定ディレクトリを特定できませんでした"@,
            },
        },
{
    match output {
        Some(o) => Ok(o),
        None => match default_path {
            Some(d) => Ok(d),
            None => Err(crate::text::owned("設定ディレクトリを特定できませんでした")),
        },
    }
}

/// Whether an answer to the overwrite question agrees: `y` or `yes` in any
/// case, around blanks.
pub open spec fn agrees(answer: Seq<char>) -> bool {
    let a = crate::text::trim(answer).map_values(|c: char| crate::editor::ascii_lower(c));
    a == "y"@ || a == "yes"@
}

/// Whether an answer to the overwrite question agrees.
pub fn confirms_overwrite(answer: &str) -> (r: bool)
    ensures
        r == agrees(answer@),
{
    let chars = crate::text::chars_of(answer);
    let t = crate::text::trim_chars(&chars);
    let mut lower: Vec<char> = Vec::new();
    let mut i: usize = 0;
    while i < t.len()
        invariant
            i <= t@.len(),
            lower@ == t@.take(i as int).map_values(|c: char| crate::editor::ascii_lower(c)),
        decreases t@.len() - i,
    {
        let c = t[i];
        let l = if c >= 'A' && c <= 'Z' {
            ((c as u32) + 32) as u8 as char
        } else {
            c
        };
        lower.push(l);
        assert(t@.take(i + 1).map_values(|c: char| crate::editor::ascii_lower(c)) =~= t@.take(
            i as int,
        ).map_values(|c: char| crate::editor::ascii_lower(c)).push(crate::editor::ascii_lower(c)));
        i = i + 1;
    }
    assert(t@.take(t@.len() as int) =~= t@);
    crate::text::chars_eq(&lower, &crate::text::chars_of("y")) || crate::text::chars_eq(
        &lower,
        &crate::text::chars_of("yes"),
    )
}

/// Whether the keybindings file is written: when it does not exist yet, when
/// overwriting is forced, or when the user agrees to overwrite it.
pub fn should_write_keybindings(file_exists: bool, force: bool, answer: Option<&str>) -> (r: bool)
    ensures
        r == (!file_exists || force || match answer {
            Some(a) => agrees(a@),
            None => false,
        }),
{
    if !file_exists || force {
        return true;
    }
    match answer {
        Some(a) => confirms_overwrite(a),
        None => false,
    }
}


/// The debug form of a list of names: each quoted, separated by `, `, in
/// brackets.
pub open spec fn quoted_list(names: Seq<Seq<char>>) -> Seq<char> {
    "["@ + crate::text::join(names.map_values(|n: Seq<char>| "\""@ + n + "\""@), ", "@) + "]"@
}

/// The text of a configuration error.
pub open spec fn config_error_text(e: ConfigErrorView) -> Seq<char> {
    match e {
        ConfigErrorView::EmptyBinding(field) => field + " must have at least one key binding"@,
        ConfigErrorView::InvalidKey(key, field, _) => "Invalid key '"@ + key + "' in "@ + field,
        ConfigErrorView::KeyConflict(key, view, actions) => "Key '"@ + key
            + "' is bound to multiple actions in "@ + view + ": "@ + quoted_list(actions),
    }
}

impl ConfigError {
    /// A human-readable description.
    pub fn message(&self) -> (r: String)
        ensures
            r@ == config_error_text(self@),
    {
        match self {
            ConfigError::EmptyBinding { field } => crate::text::concat2(
                field.as_str(),
                " must have at least one key binding",
            ),
            ConfigError::InvalidKey { key, field, .. } => {
                let mut out = crate::text::concat3("Invalid key '", key.as_str(), "' in ");
                crate::text::push_str(&mut out, field.as_str());
                out
            },
            ConfigError::KeyConflict { key, view, actions } => {
                let mut out = crate::text::concat3("Key '", key.as_str(), "' is bound to multiple actions in ");
                crate::text::push_str(&mut out, view.as_str());
                crate::text::push_str(&mut out, ": ");
                let mut quoted: Vec<String> = Vec::new();
                let mut i: usize = 0;
                while i < actions.len()
                    invariant
                        i <= actions@.len(),
                        views(quoted@) == views(actions@).take(i as int).map_values(
                            |n: Seq<char>| "\""@ + n + "\""@,
                        ),
                    decreases actions@.len() - i,
                {
                    let ghost before = views(quoted@);
                    let q = crate::text::concat3("\"", actions[i].as_str(), "\"");
                    quoted.push(q);
                    assert(views(quoted@) =~= before.push(q@));
                    assert(views(actions@).take(i + 1) =~= views(actions@).take(i as int).push(
                        actions@[i as int]@,
                    ));
                    assert(views(quoted@) =~= views(actions@).take(i + 1).map_values(
                        |n: Seq<char>| "\""@ + n + "\""@,
                    ));
                    i = i + 1;
                }
                assert(views(actions@).take(actions@.len() as int) =~= views(actions@));
                crate::text::push_str(&mut out, "[");
                crate::text::push_str(&mut out, crate::text::join_strings(&quoted, ", ").as_str());
                crate::text::push_str(&mut out, "]");
                out
            },
        }
    }
}

} // verus!
