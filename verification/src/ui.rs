//! The terminal interface's state and its response to keys: which popup has
//! the focus, what a key does there, and what the caller must do in turn
//! (reload, copy, store a state change, open an editor).
use vstd::prelude::*;

use crate::config::WorkflowConfig;
use crate::keybindings::{Action, KeyBindingsConfig, ViewType};
use crate::keys::{KeyCode, KeyEvent};
use crate::sets::to_sorted_set;
use crate::task::{opt_view, TaskId};
use crate::task_cache::{position_of, TaskCache};
use crate::text::{owned, str_eq, views};
use crate::tree_view::{TreeNode, TreeViewState};
use crate::visibility::{TaskView, TaskVisibility};

verus! {

/// Which part of the interface has the focus.
#[derive(Clone, Copy, Debug, PartialEq, Eq, Structural)]
pub enum DetailFocus {
    /// The task list.
    TaskList,
    /// The tree view popup.
    TreeView,
    /// The state picker popup.
    StatePicker,
    /// The comment viewer popup.
    CommentViewer,
    /// The description viewer popup.
    DescriptionViewer,
}

/// The keybinding view that a focus reads its keys from.
pub open spec fn focus_view(focus: DetailFocus) -> ViewType {
    match focus {
        DetailFocus::TaskList => ViewType::TaskList,
        DetailFocus::TreeView => ViewType::TreeView,
        DetailFocus::StatePicker => ViewType::StatePicker,
        DetailFocus::CommentViewer => ViewType::CommentViewer,
        DetailFocus::DescriptionViewer => ViewType::DescriptionViewer,
    }
}

/// The actions a focus checks a key against, in the order they are tried.
pub open spec fn dispatch_order(focus: DetailFocus) -> Seq<Action> {
    match focus {
        DetailFocus::TaskList => seq![
            Action::Quit,
            Action::Down,
            Action::Up,
            Action::OpenTree,
            Action::JumpToParent,
            Action::Refresh,
            Action::AddComment,
            Action::EditTask,
            Action::CreateTask,
            Action::CreateSubtask,
            Action::CopyTaskId,
            Action::OpenStatePicker,
            Action::OpenCommentViewer,
            Action::OpenDescriptionViewer,
            Action::EditFilter,
        ],
        DetailFocus::TreeView => seq![
            Action::Close,
            Action::Down,
            Action::Up,
            Action::Collapse,
            Action::Expand,
            Action::Jump,
        ],
        DetailFocus::StatePicker => Seq::<Action>::empty(),
        DetailFocus::CommentViewer => seq![
            Action::Close,
            Action::ScrollDown,
            Action::ScrollUp,
            Action::ScrollDownFast,
            Action::ScrollUpFast,
        ],
        DetailFocus::DescriptionViewer => seq![
            Action::Close,
            Action::ScrollDown,
            Action::ScrollUp,
            Action::ScrollDownFast,
            Action::ScrollUpFast,
        ],
    }
}

/// The first of `actions`, from position `i` on, that `key` is bound to in
/// `view`.
pub open spec fn first_bound(
    config: KeyBindingsConfig,
    view: ViewType,
    actions: Seq<Action>,
    key: KeyEvent,
    i: int,
) -> Option<Action>
    decreases actions.len() - i,
{
    if i < 0 || i >= actions.len() {
        None
    } else if config.spec_matches(view, actions[i], key) {
        Some(actions[i])
    } else {
        first_bound(config, view, actions, key, i + 1)
    }
}

/// The state picker's fixed keys: `q`, `Q` or Esc close it, Down, `j` or
/// `J` move down, Up, `k` or `K` move up, Enter applies the choice;
/// modifiers are not looked at.
pub open spec fn picker_action(key: KeyEvent) -> Option<Action> {
    match key.code {
        KeyCode::Char(c) => if c == 'q' || c == 'Q' {
            Some(Action::Close)
        } else if c == 'j' || c == 'J' {
            Some(Action::Down)
        } else if c == 'k' || c == 'K' {
            Some(Action::Up)
        } else {
            None
        },
        KeyCode::Esc => Some(Action::Close),
        KeyCode::Down => Some(Action::Down),
        KeyCode::Up => Some(Action::Up),
        KeyCode::Enter => Some(Action::Select),
        _ => None,
    }
}

/// The action a key press stands for under the focus.
pub open spec fn key_action_for(config: KeyBindingsConfig, focus: DetailFocus, key: KeyEvent) -> Option<
    Action,
> {
    match focus {
        DetailFocus::StatePicker => picker_action(key),
        _ => first_bound(config, focus_view(focus), dispatch_order(focus), key, 0),
    }
}

fn dispatch_actions(focus: DetailFocus) -> (r: Vec<Action>)
    ensures
        r@ == dispatch_order(focus),
{
    let r = match focus {
        DetailFocus::TaskList => vec![
            Action::Quit,
            Action::Down,
            Action::Up,
            Action::OpenTree,
            Action::JumpToParent,
            Action::Refresh,
            Action::AddComment,
            Action::EditTask,
            Action::CreateTask,
            Action::CreateSubtask,
            Action::CopyTaskId,
            Action::OpenStatePicker,
            Action::OpenCommentViewer,
            Action::OpenDescriptionViewer,
            Action::EditFilter,
        ],
        DetailFocus::TreeView => vec![
            Action::Close,
            Action::Down,
            Action::Up,
            Action::Collapse,
            Action::Expand,
            Action::Jump,
        ],
        DetailFocus::StatePicker => Vec::new(),
        DetailFocus::CommentViewer => vec![
            Action::Close,
            Action::ScrollDown,
            Action::ScrollUp,
            Action::ScrollDownFast,
            Action::ScrollUpFast,
        ],
        DetailFocus::DescriptionViewer => vec![
            Action::Close,
            Action::ScrollDown,
            Action::ScrollUp,
            Action::ScrollDownFast,
            Action::ScrollUpFast,
        ],
    };
    assert(r@ =~= dispatch_order(focus));
    r
}

fn view_of(focus: DetailFocus) -> (r: ViewType)
    ensures
        r == focus_view(focus),
{
    match focus {
        DetailFocus::TaskList => ViewType::TaskList,
        DetailFocus::TreeView => ViewType::TreeView,
        DetailFocus::StatePicker => ViewType::StatePicker,
        DetailFocus::CommentViewer => ViewType::CommentViewer,
        DetailFocus::DescriptionViewer => ViewType::DescriptionViewer,
    }
}

/// The action a key press stands for under the focus: the first action of
/// the focus, in its fixed order, that the key is bound to; in the state
/// picker, its fixed keys.
pub fn key_action(config: &KeyBindingsConfig, focus: DetailFocus, key: &KeyEvent) -> (r: Option<
    Action,
>)
    ensures
        r == key_action_for(*config, focus, *key),
{
    if focus == DetailFocus::StatePicker {
        return match key.code {
            KeyCode::Char(c) => if c == 'q' || c == 'Q' {
                Some(Action::Close)
            } else if c == 'j' || c == 'J' {
                Some(Action::Down)
            } else if c == 'k' || c == 'K' {
                Some(Action::Up)
            } else {
                None
            },
            KeyCode::Esc => Some(Action::Close),
            KeyCode::Down => Some(Action::Down),
            KeyCode::Up => Some(Action::Up),
            KeyCode::Enter => Some(Action::Select),
            _ => None,
        };
    }
    let actions = dispatch_actions(focus);
    let view = view_of(focus);
    let mut i: usize = 0;
    while i < actions.len()
        invariant
            i <= actions@.len(),
            actions@ == dispatch_order(focus),
            view == focus_view(focus),
            focus != DetailFocus::StatePicker,
            first_bound(*config, view, actions@, *key, 0) == first_bound(
                *config,
                view,
                actions@,
                *key,
                i as int,
            ),
        decreases actions@.len() - i,
    {
        if config.matches(view, actions[i], key) {
            return Some(actions[i]);
        }
        i = i + 1;
    }
    None
}

} // verus!
