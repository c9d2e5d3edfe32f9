//! The interface state and what each action does to it.
use vstd::prelude::*;

use crate::config::WorkflowConfig;
use crate::editor::{
    comment_body, new_task_result, parse_comment_editor_output, parse_new_task_editor_output,
    NewTaskData, NewTaskView,
};
use crate::event_log::Actor;
use crate::filter::{filter_error, filter_result_ok, filter_summary, parse_filter_editor_output, TaskFilter};
use crate::keybindings::{Action, KeyBindingsConfig};
use crate::keys::KeyEvent;
use crate::sets::{sort_set, to_sorted_set};
use crate::task::TaskId;
use crate::task_cache::{children_ids, parents_of, position_of, resolve_ids, TaskCache};
use crate::text::{concat2, join, owned, str_eq, views};
use crate::tree_view::{forest_found, forest_rows, rows_view, TreeNode, TreeViewState};
use crate::ui::{key_action, key_action_for, DetailFocus};
use crate::visibility::{last_position, TaskView, TaskVisibility};

verus! {

/// How a status message is shown.
#[derive(Clone, Copy, Debug, PartialEq, Eq, Structural)]
pub enum MessageLevel {
    Info,
    Error,
}

/// A status message.
#[derive(Debug)]
pub struct UiMessage {
    pub text: String,
    pub level: MessageLevel,
}

/// A request that needs an editor.
#[derive(Clone, Copy, Debug, PartialEq, Eq, Structural)]
pub enum UiAction {
    AddComment { task: TaskId },
    EditTask { task: TaskId },
    CreateTask,
    CreateSubtask { parent: TaskId },
    EditFilter,
}

/// What the caller must do after a key.
#[derive(Debug)]
pub enum KeyOutcome {
    /// Nothing more.
    Done,
    /// Open an editor for the request.
    Request(UiAction),
    /// Reload the tasks, then report it.
    Reload,
    /// Copy the identifier of the task to the clipboard, then report it.
    CopyTaskId(TaskId),
    /// Store the new state of the task, then report it.
    ApplyState { task: TaskId, state: Option<String> },
}

/// A scrollable popup showing one task.
#[derive(Clone, Copy, Debug, PartialEq, Eq, Structural)]
pub struct ViewerState {
    pub task_id: TaskId,
    pub scroll_offset: u16,
}

/// One choice of the state picker; none clears the state.
#[derive(Debug, Clone)]
pub struct StatePickerOption {
    pub value: Option<String>,
}

/// The state picker popup.
#[derive(Debug)]
pub struct StatePickerState {
    pub task_id: TaskId,
    pub options: Vec<StatePickerOption>,
    pub selected: usize,
}

/// The value of a choice.
pub open spec fn option_value(o: StatePickerOption) -> Option<Seq<char>> {
    match o.value {
        Some(v) => Some(v@),
        None => None,
    }
}

impl StatePickerOption {
    /// A choice of the given value.
    pub fn new(value: Option<String>) -> (r: StatePickerOption)
        ensures
            r.value == value,
    {
        StatePickerOption { value }
    }

    /// Whether the choice is the given state (or, for none, no state).
    pub fn matches(&self, other: Option<&str>) -> (r: bool)
        ensures
            r == (option_value(*self) == match other {
                Some(o) => Some(o@),
                None => None,
            }),
    {
        match (&self.value, other) {
            (None, None) => true,
            (Some(left), Some(right)) => str_eq(left.as_str(), right),
            _ => false,
        }
    }
}

/// The states of the tasks that have one, in list order.
pub open spec fn task_states(tasks: Seq<TaskView>) -> Seq<Seq<char>>
    decreases tasks.len(),
{
    if tasks.len() == 0 {
        Seq::<Seq<char>>::empty()
    } else {
        let before = task_states(tasks.drop_last());
        match tasks.last().snapshot.state {
            Some(s) => before.push(s@),
            None => before,
        }
    }
}

/// Each value as a choice.
pub open spec fn as_choices(values: Seq<Seq<char>>) -> Seq<Option<Seq<char>>> {
    values.map_values(|v: Seq<char>| Some(v))
}

/// The choices of the state picker for a task in state `current`: no state,
/// then the configured states (or, with none configured, the distinct
/// states of the tasks, sorted), then the current state when it is not
/// among them.
pub open spec fn picker_choices(
    workflow: WorkflowConfig,
    tasks: Seq<TaskView>,
    current: Option<Seq<char>>,
) -> Seq<Option<Seq<char>>> {
    let base = seq![None::<Seq<char>>] + if workflow.states@.len() > 0 {
        as_choices(workflow.values())
    } else {
        as_choices(sort_set(task_states(tasks)))
    };
    match current {
        Some(c) => if base.contains(Some(c)) {
            base
        } else {
            base.push(Some(c))
        },
        None => base,
    }
}

/// The values of a list of choices.
pub open spec fn choice_values(options: Seq<StatePickerOption>) -> Seq<Option<Seq<char>>> {
    options.map_values(|o: StatePickerOption| option_value(o))
}

/// The first position, from `i` on, of the choice `value`.
pub open spec fn first_choice(values: Seq<Option<Seq<char>>>, value: Option<Seq<char>>, i: int) -> Option<
    int,
>
    decreases values.len() - i,
{
    if i < 0 || i >= values.len() {
        None
    } else if values[i] == value {
        Some(i)
    } else {
        first_choice(values, value, i + 1)
    }
}

fn push_choices(options: &mut Vec<StatePickerOption>, values: &Vec<String>)
    ensures
        choice_values(final(options)@) == choice_values(old(options)@) + as_choices(views(values@)),
{
    let ghost start = choice_values(options@);
    let mut i: usize = 0;
    while i < values.len()
        invariant
            i <= values@.len(),
            choice_values(options@) == start + as_choices(views(values@.take(i as int))),
        decreases values@.len() - i,
    {
        let ghost before = options@;
        let o = StatePickerOption::new(Some(owned(values[i].as_str())));
        assert(option_value(o) == Some(values@[i as int]@));
        options.push(o);
        assert(choice_values(options@) =~= choice_values(before).push(Some(values@[i as int]@)));
        assert(views(values@.take(i + 1)) =~= views(values@.take(i as int)).push(values@[i as int]@));
        assert(choice_values(options@) =~= start + as_choices(views(values@.take(i + 1))));
        i = i + 1;
    }
    assert(values@.take(values@.len() as int) =~= values@);
}

fn state_values(tasks: &Vec<TaskView>) -> (r: Vec<String>)
    ensures
        views(r@) == task_states(tasks@),
{
    let mut out: Vec<String> = Vec::new();
    let mut i: usize = 0;
    while i < tasks.len()
        invariant
            i <= tasks@.len(),
            views(out@) == task_states(tasks@.take(i as int)),
        decreases tasks@.len() - i,
    {
        let ghost t = tasks@.take(i + 1);
        assert(t.drop_last() =~= tasks@.take(i as int));
        assert(t.last() == tasks@[i as int]);
        match &tasks[i].snapshot.state {
            Some(s) => {
                out.push(owned(s.as_str()));
                assert(views(out@) =~= task_states(t));
            },
            None => {},
        }
        i = i + 1;
    }
    assert(tasks@.take(tasks@.len() as int) =~= tasks@);
    out
}

fn configured_values(workflow: &WorkflowConfig) -> (r: Vec<String>)
    ensures
        views(r@) == workflow.values(),
{
    let mut out: Vec<String> = Vec::new();
    let mut i: usize = 0;
    while i < workflow.states.len()
        invariant
            i <= workflow.states@.len(),
            views(out@) == workflow.values().take(i as int),
        decreases workflow.states@.len() - i,
    {
        let ghost before = out@;
        out.push(owned(workflow.states[i].value.as_str()));
        assert(workflow.values()[i as int] == workflow.states@[i as int].value@);
        assert(views(out@) =~= views(before).push(workflow.states@[i as int].value@));
        assert(workflow.values().take(i + 1) =~= workflow.values().take(i as int).push(
            workflow.values()[i as int],
        ));
        assert(views(out@) =~= workflow.values().take(i + 1));
        i = i + 1;
    }
    assert(workflow.values().take(workflow.states@.len() as int) =~= workflow.values());
    out
}

/// The choices of the state picker for a task in state `current`.
pub fn state_picker_options(
    workflow: &WorkflowConfig,
    tasks: &Vec<TaskView>,
    current: Option<&str>,
) -> (r: Vec<StatePickerOption>)
    ensures
        choice_values(r@) == picker_choices(
            *workflow,
            tasks@,
            match current {
                Some(c) => Some(c@),
                None => None,
            },
        ),
{
    let mut options: Vec<StatePickerOption> = Vec::new();
    options.push(StatePickerOption::new(None));
    assert(choice_values(options@) =~= seq![None::<Seq<char>>]);
    if workflow.is_restricted() {
        let values = configured_values(workflow);
        push_choices(&mut options, &values);
    } else {
        let values = to_sorted_set(&state_values(tasks));
        push_choices(&mut options, &values);
    }
    let ghost base = choice_values(options@);
    match current {
        Some(c) => {
            let mut found = false;
            let mut i: usize = 0;
            while i < options.len()
                invariant
                    i <= options@.len(),
                    found <==> exists|k: int| 0 <= k < i && choice_values(options@)[k] == Some(c@),
                decreases options@.len() - i,
            {
                if options[i].matches(Some(c)) {
                    assert(choice_values(options@)[i as int] == Some(c@));
                    found = true;
                }
                i = i + 1;
            }
            if !found {
                proof {
                    if base.contains(Some(c@)) {
                        let k = choose|k: int| 0 <= k < base.len() && base[k] == Some(c@);
                        assert(choice_values(options@)[k] == Some(c@));
                    }
                }
                options.push(StatePickerOption::new(Some(owned(c))));
                assert(choice_values(options@) =~= base.push(Some(c@)));
            } else {
                let ghost k = choose|k: int| 0 <= k < options@.len() && choice_values(options@)[k]
                    == Some(c@);
                assert(base.contains(Some(c@)));
            }
        },
        None => {},
    }
    options
}

/// The first position of the choice `value`.
fn position_of_choice(options: &Vec<StatePickerOption>, value: Option<&str>) -> (r: Option<usize>)
    ensures
        r matches Some(k) ==> first_choice(
            choice_values(options@),
            match value {
                Some(v) => Some(v@),
                None => None,
            },
            0,
        ) == Some(k as int),
        r is None ==> first_choice(
            choice_values(options@),
            match value {
                Some(v) => Some(v@),
                None => None,
            },
            0,
        ) is None,
{
    let ghost vs = choice_values(options@);
    let ghost target = match value {
        Some(v) => Some(v@),
        None => None,
    };
    let mut i: usize = 0;
    while i < options.len()
        invariant
            i <= options@.len(),
            vs == choice_values(options@),
            target == match value {
                Some(v) => Some(v@),
                None => None,
            },
            first_choice(vs, target, 0) == first_choice(vs, target, i as int),
        decreases options@.len() - i,
    {
        if options[i].matches(value) {
            return Some(i);
        }
        i = i + 1;
    }
    None
}


/// The selected task, if a task is visible.
pub open spec fn selected_of(visibility: TaskVisibility, tasks: Seq<TaskView>) -> Option<TaskView> {
    if visibility.positions().len() > 0 && visibility.positions()[visibility.selection()]
        < tasks.len() {
        Some(tasks[visibility.positions()[visibility.selection()] as int])
    } else {
        None
    }
}

/// Whether `m` is a message of the given text and level.
pub open spec fn message_is(m: Option<UiMessage>, text: Seq<char>, level: MessageLevel) -> bool {
    m matches Some(x) && x.text@ == text && x.level == level
}

/// The key hints shown under a focus; those of the task list end with the
/// actor's name and email.
pub open spec fn instructions_text(focus: DetailFocus, actor: Actor) -> Seq<char> {
    match focus {
        DetailFocus::TaskList => "j/k:移動 ↵:ツリー n:新規 s:子タスク e:編集 c:コメント v:コメント表示 d:説明表示 r:再読込 p:親へ y:IDコピー t:状態 f:フィルタ q:終了"@
            + " ["@ + actor.name@ + " <"@ + actor.email@ + ">]"@,
        DetailFocus::TreeView => "j/k:移動 h:閉じる l:開く ↵:ジャンプ q/Esc:閉じる"@,
        DetailFocus::StatePicker => "j/k:移動 ↵:決定 q/Esc:キャンセル"@,
        DetailFocus::CommentViewer | DetailFocus::DescriptionViewer => "j/k:スクロール Ctrl-d/Ctrl-u:半画面スクロール q/Esc:閉じる"@,
    }
}

/// The key hints shown under a focus.
pub fn instructions(focus: DetailFocus, actor: &Actor) -> (r: String)
    ensures
        r@ == instructions_text(focus, *actor),
{
    match focus {
        DetailFocus::TaskList => {
            let mut out = owned(
                "j/k:移動 ↵:ツリー n:新規 s:子タスク e:編集 c:コメント v:コメント表示 d:説明表示 r:再読込 p:親へ y:IDコピー t:状態 f:フィルタ q:終了",
            );
            crate::text::push_str(&mut out, " [");
            crate::text::push_str(&mut out, actor.name.as_str());
            crate::text::push_str(&mut out, " <");
            crate::text::push_str(&mut out, actor.email.as_str());
            crate::text::push_str(&mut out, ">]");
            out
        },
        DetailFocus::TreeView => owned("j/k:移動 h:閉じる l:開く ↵:ジャンプ q/Esc:閉じる"),
        DetailFocus::StatePicker => owned("j/k:移動 ↵:決定 q/Esc:キャンセル"),
        DetailFocus::CommentViewer | DetailFocus::DescriptionViewer => owned(
            "j/k:スクロール Ctrl-d/Ctrl-u:半画面スクロール q/Esc:閉じる",
        ),
    }
}

/// The first row shown in a viewport of `height` rows over `total` rows so
/// that row `selected` stays about half a page from the top: none scrolled
/// when everything fits, and never past the last full page.
pub open spec fn scroll_offset(total: int, selected: int, height: int) -> int {
    if height == 0 || total <= height {
        0
    } else {
        let desired = if selected > height / 2 {
            selected - height / 2
        } else {
            0
        };
        if desired > total - height {
            total - height
        } else {
            desired
        }
    }
}

/// One line when `present`, none otherwise.
pub open spec fn line_if(present: bool, line: Seq<char>) -> Seq<Seq<char>> {
    if present {
        seq![line]
    } else {
        Seq::<Seq<char>>::empty()
    }
}

/// The titles of tasks, each shortened to `max` grapheme clusters.
pub open spec fn short_titles(ts: Seq<TaskView>, max: nat) -> Seq<Seq<char>> {
    ts.map_values(|t: TaskView| crate::display::truncated(t.snapshot.title@, max))
}

/// The parents line of the detail pane: the parents' titles, shortened to
/// 15 grapheme clusters, or, when the list has none of them, their number.
pub open spec fn parents_line(tasks: Seq<TaskView>, t: TaskView) -> Seq<char> {
    let ps = parent_tasks(tasks, t.snapshot.id);
    if ps.len() == 0 {
        "親: "@ + crate::display::decimal(t.snapshot.parents@.len()) + " 件（未読込）"@
    } else {
        "親: "@ + join(short_titles(ps, 15), ", "@)
    }
}

/// The first lines of the detail pane of task `t`, whose state the workflow
/// shows as `state_label`: title, identifier and state, then labels,
/// assignees and parents when there are any.
pub open spec fn detail_head(tasks: Seq<TaskView>, t: TaskView, state_label: Seq<char>) -> Seq<
    Seq<char>,
> {
    let s = t.snapshot;
    seq![s.title@, "ID: "@ + crate::task::uuid_text(s.id.value), "状態: "@ + state_label]
        + line_if(s.labels@.len() > 0, "ラベル: "@ + join(views(s.labels@), ", "@))
        + line_if(s.assignees@.len() > 0, "担当者: "@ + join(views(s.assignees@), ", "@))
        + line_if(s.parents@.len() > 0, parents_line(tasks, t))
}

/// The description lines of the detail pane.
pub open spec fn description_part(description: Seq<char>) -> Seq<Seq<char>> {
    if description.len() == 0 {
        seq!["説明はまだありません。"@]
    } else {
        crate::text::lines(description)
    }
}

/// The last lines of the detail pane of task `t`: the number of children
/// when there are any, the last update when known, then the description.
pub open spec fn detail_tail(tasks: Seq<TaskView>, t: TaskView) -> Seq<Seq<char>> {
    let children = resolve_ids(tasks, children_ids(tasks, t.snapshot.id)).len();
    line_if(children > 0, "子タスク: "@ + crate::display::decimal(children) + " 件"@) + match t.last_updated {
        Some(u) => seq!["更新: "@ + crate::display::event_time_text(u)],
        None => Seq::<Seq<char>>::empty(),
    } + seq![Seq::<char>::empty(), "説明:"@] + description_part(t.snapshot.description@)
}

/// The lines of the detail pane of task `t`, whose state the workflow shows
/// as `state_label`.
pub open spec fn detail_pane(tasks: Seq<TaskView>, t: TaskView, state_label: Seq<char>) -> Seq<
    Seq<char>,
> {
    detail_head(tasks, t, state_label) + detail_tail(tasks, t)
}

/// The breadcrumb of a task: `Home`, the titles of its parents shortened to
/// 20 grapheme clusters, and `現在`, separated by ` > `.
pub open spec fn breadcrumb_text(tasks: Seq<TaskView>, id: TaskId) -> Seq<char> {
    join(seq!["Home"@] + short_titles(parent_tasks(tasks, id), 20) + seq!["現在"@], " > "@)
}

/// The titles of tasks, each shortened.
fn shortened_titles(ts: &Vec<&TaskView>, max: usize) -> (r: Vec<String>)
    ensures
        views(r@) == short_titles(ts@.map_values(|t: &TaskView| *t), max as nat),
{
    let ghost tv = ts@.map_values(|t: &TaskView| *t);
    let mut out: Vec<String> = Vec::new();
    let mut i: usize = 0;
    while i < ts.len()
        invariant
            i <= ts@.len(),
            tv == ts@.map_values(|t: &TaskView| *t),
            views(out@) == short_titles(tv.take(i as int), max as nat),
        decreases ts@.len() - i,
    {
        let t = crate::display::truncate_with_ellipsis(ts[i].snapshot.title.as_str(), max);
        let ghost before = views(out@);
        let title = owned(t.as_str());
        assert(tv[i as int] == *ts@[i as int]);
        assert(title@ == crate::display::truncated(tv[i as int].snapshot.title@, max as nat));
        out.push(title);
        assert(tv.take(i + 1) =~= tv.take(i as int).push(tv[i as int]));
        assert(views(out@) =~= before.push(title@));
        assert(views(out@) =~= short_titles(tv.take(i + 1), max as nat));
        i = i + 1;
    }
    assert(tv.take(ts@.len() as int) =~= tv);
    out
}

/// Everything but the status message is as it was.
pub open spec fn only_message_changed(before: Ui, after: Ui) -> bool {
    (Ui { message: before.message, ..after }) == before
}

/// The form data of a task created in the editor, placed under `parent`
/// when one is given.
pub open spec fn under_parent(v: NewTaskView, parent: Option<TaskId>) -> NewTaskView {
    match parent {
        Some(p) => NewTaskView { parent: Some(p), ..v },
        None => v,
    }
}

/// The terminal interface's state.
#[derive(Debug)]
pub struct Ui {
    /// The loaded tasks.
    pub cache: TaskCache,
    /// The visible tasks and the selection.
    pub visibility: TaskVisibility,
    /// The workflow configuration.
    pub workflow: WorkflowConfig,
    /// The keybindings.
    pub keybindings: KeyBindingsConfig,
    /// The status message, if any.
    pub message: Option<UiMessage>,
    /// Whether the interface should close.
    pub should_quit: bool,
    /// Which part has the focus.
    pub detail_focus: DetailFocus,
    /// The tree view.
    pub tree_state: TreeViewState,
    /// The state picker, when open.
    pub state_picker: Option<StatePickerState>,
    /// The comment viewer, when open.
    pub comment_viewer: Option<ViewerState>,
    /// The description viewer, when open.
    pub description_viewer: Option<ViewerState>,
    /// The filter of the task list.
    pub filter: TaskFilter,
}

impl Ui {
    /// The interface is consistent: its visibility is well formed.
    pub open spec fn wf(&self) -> bool {
        self.visibility.wf()
    }

    /// The selected task, if a task is visible.
    pub open spec fn selected(&self) -> Option<TaskView> {
        selected_of(self.visibility, self.cache.tasks@)
    }

    /// A fresh interface over the tasks under `filter`, showing those the
    /// filter results keep (all of them when there are none), with the first
    /// selected.
    pub fn new(
        cache: TaskCache,
        workflow: WorkflowConfig,
        keybindings: KeyBindingsConfig,
        filter: TaskFilter,
        results: Option<&[bool]>,
    ) -> (r: Ui)
        ensures
            r.wf(),
            r.cache == cache,
            r.workflow == workflow,
            r.keybindings == keybindings,
            r.filter == filter,
            r.message is None,
            !r.should_quit,
            r.detail_focus == DetailFocus::TaskList,
            r.state_picker is None,
            r.comment_viewer is None,
            r.description_viewer is None,
            r.visibility.selection() == 0,
    {
        let mut visibility = TaskVisibility::new();
        visibility.rebuild(cache.tasks.as_slice(), results, None);
        Ui {
            cache,
            visibility,
            workflow,
            keybindings,
            message: None,
            should_quit: false,
            detail_focus: DetailFocus::TaskList,
            tree_state: TreeViewState::new(),
            state_picker: None,
            comment_viewer: None,
            description_viewer: None,
            filter,
        }
    }

    /// The text of the status line: the message, or a note that there is
    /// none.
    pub fn status_text(&self) -> (r: &str)
        ensures
            r@ == match self.message {
                Some(m) => m.text@,
                None => "ステータスメッセージはありません"@,
            },
    {
        match &self.message {
            Some(m) => m.text.as_str(),
            None => "ステータスメッセージはありません",
        }
    }

    /// The first tree row shown in a viewport of `viewport_height` rows,
    /// capped to what a `u16` holds.
    pub fn tree_scroll_offset(&self, viewport_height: u16) -> (r: u16)
        ensures
            r == if scroll_offset(
                self.tree_state.visible_nodes@.len() as int,
                self.tree_state.selected as int,
                viewport_height as int,
            ) > u16::MAX {
                u16::MAX as int
            } else {
                scroll_offset(
                    self.tree_state.visible_nodes@.len() as int,
                    self.tree_state.selected as int,
                    viewport_height as int,
                )
            },
    {
        if viewport_height == 0 {
            return 0;
        }
        let total_rows = self.tree_state.visible_nodes.len();
        let capacity = viewport_height as usize;
        if total_rows <= capacity {
            return 0;
        }
        let selected = self.tree_state.selected;
        let half_page = capacity / 2;
        let mut desired = selected.saturating_sub(half_page);
        let max_offset = total_rows - capacity;
        if desired > max_offset {
            desired = max_offset;
        }
        if desired > 65535 {
            65535
        } else {
            desired as u16
        }
    }

    /// The selected task, if a task is visible.
    pub fn selected_task(&self) -> (r: Option<&TaskView>)
        requires
            self.wf(),
        ensures
            r is Some <==> self.selected() is Some,
            r matches Some(t) ==> self.selected() == Some(*t),
    {
        self.visibility.selected_task(self.cache.tasks.as_slice())
    }

    /// The identifier of the selected task, if a task is visible.
    pub fn selected_task_id(&self) -> (r: Option<TaskId>)
        requires
            self.wf(),
        ensures
            r is Some <==> self.selected() is Some,
            r matches Some(id) ==> self.selected()->0.snapshot.id == id,
    {
        self.visibility.selected_task_id(self.cache.tasks.as_slice())
    }

    /// Recompute the visible tasks from new filter results, keeping the
    /// selected task selected when it stays visible.
    pub fn refilter(&mut self, results: Option<&[bool]>)
        requires
            old(self).wf(),
        ensures
            final(self).wf(),
            final(self).cache == old(self).cache,
            final(self).detail_focus == old(self).detail_focus,
            (Ui { visibility: old(self).visibility, ..*final(self) }) == *old(self),
            crate::visibility::rebuilt(
                old(self).visibility,
                final(self).visibility,
                old(self).cache.tasks@,
                match results {
                    Some(m) => Some(m@),
                    None => None,
                },
                match old(self).selected() {
                    Some(t) => Some(t.snapshot.id),
                    None => None,
                },
            ),
    {
        let keep = self.selected_task_id();
        self.visibility.rebuild(self.cache.tasks.as_slice(), results, keep);
    }

    /// Replace the tasks by freshly loaded ones, keeping `preferred` (or
    /// else the task selected so far) selected when it is visible.
    pub fn reload(&mut self, cache: TaskCache, results: Option<&[bool]>, preferred: Option<TaskId>)
        requires
            old(self).wf(),
        ensures
            final(self).wf(),
            final(self).cache == cache,
            final(self).detail_focus == old(self).detail_focus,
            (Ui { visibility: old(self).visibility, cache: old(self).cache, ..*final(self) })
                == *old(self),
            crate::visibility::rebuilt(
                old(self).visibility,
                final(self).visibility,
                cache.tasks@,
                match results {
                    Some(m) => Some(m@),
                    None => None,
                },
                match preferred {
                    Some(id) => Some(id),
                    None => match old(self).selected() {
                        Some(t) => Some(t.snapshot.id),
                        None => None,
                    },
                },
            ),
    {
        let keep = match preferred {
            Some(id) => Some(id),
            None => self.selected_task_id(),
        };
        self.cache = cache;
        self.visibility.rebuild(self.cache.tasks.as_slice(), results, keep);
    }

    /// Show an information message.
    pub fn info(&mut self, text: String)
        ensures
            message_is(final(self).message, text@, MessageLevel::Info),
            only_message_changed(*old(self), *final(self)),
            final(self).cache == old(self).cache,
            final(self).visibility == old(self).visibility,
            final(self).detail_focus == old(self).detail_focus,
            final(self).state_picker == old(self).state_picker,
            final(self).comment_viewer == old(self).comment_viewer,
            final(self).description_viewer == old(self).description_viewer,
            final(self).should_quit == old(self).should_quit,
    {
        self.message = Some(UiMessage { text, level: MessageLevel::Info });
    }

    /// Show an error message.
    pub fn error(&mut self, text: String)
        ensures
            message_is(final(self).message, text@, MessageLevel::Error),
            only_message_changed(*old(self), *final(self)),
            final(self).cache == old(self).cache,
            final(self).visibility == old(self).visibility,
            final(self).detail_focus == old(self).detail_focus,
            final(self).state_picker == old(self).state_picker,
            final(self).comment_viewer == old(self).comment_viewer,
            final(self).description_viewer == old(self).description_viewer,
            final(self).should_quit == old(self).should_quit,
    {
        self.message = Some(UiMessage { text, level: MessageLevel::Error });
    }

    /// Clear the message once it has been shown for `ttl_secs` seconds.
    pub fn tick(&mut self, elapsed_secs: u64, ttl_secs: u64)
        ensures
            final(self).message is None <==> old(self).message is None || elapsed_secs >= ttl_secs,
            elapsed_secs < ttl_secs ==> final(self).message == old(self).message,
            final(self).cache == old(self).cache,
            final(self).visibility == old(self).visibility,
            final(self).detail_focus == old(self).detail_focus,
    {
        if self.message.is_some() && elapsed_secs >= ttl_secs {
            self.message = None;
        }
    }

    /// Open the comment viewer on the selected task.
    pub fn open_comment_viewer(&mut self)
        requires
            old(self).wf(),
        ensures
            comment_viewer_opened(*old(self), *final(self)),
    {
        match self.selected_task_id() {
            Some(id) => {
                self.comment_viewer = Some(ViewerState { task_id: id, scroll_offset: 0 });
                self.detail_focus = DetailFocus::CommentViewer;
            },
            None => {
                self.error(owned("コメントを表示するタスクが選択されていません"));
            },
        }
    }

    /// Open the description viewer on the selected task.
    pub fn open_description_viewer(&mut self)
        requires
            old(self).wf(),
        ensures
            description_viewer_opened(*old(self), *final(self)),
    {
        match self.selected_task_id() {
            Some(id) => {
                self.description_viewer = Some(ViewerState { task_id: id, scroll_offset: 0 });
                self.detail_focus = DetailFocus::DescriptionViewer;
            },
            None => {
                self.error(owned("説明を表示するタスクが選択されていません"));
            },
        }
    }

    /// Close the comment viewer and return to the task list.
    pub fn close_comment_viewer(&mut self)
        ensures
            *final(self) == (Ui { comment_viewer: None, detail_focus: DetailFocus::TaskList, ..*old(self) }),
    {
        self.comment_viewer = None;
        self.detail_focus = DetailFocus::TaskList;
    }

    /// Close the description viewer and return to the task list.
    pub fn close_description_viewer(&mut self)
        ensures
            *final(self) == (Ui {
                description_viewer: None,
                detail_focus: DetailFocus::TaskList,
                ..*old(self)
            }),
    {
        self.description_viewer = None;
        self.detail_focus = DetailFocus::TaskList;
    }

    /// Scroll the comment viewer, when open, by `lines` (negative: up),
    /// stopping at the top and at the largest offset.
    pub fn scroll_comment_viewer(&mut self, lines: u16, down: bool)
        ensures
            *final(self) == (Ui {
                comment_viewer: scrolled(old(self).comment_viewer, lines, down),
                ..*old(self)
            }),
    {
        match self.comment_viewer {
            Some(v) => {
                let offset = if down {
                    v.scroll_offset.saturating_add(lines)
                } else {
                    v.scroll_offset.saturating_sub(lines)
                };
                self.comment_viewer = Some(ViewerState { task_id: v.task_id, scroll_offset: offset });
            },
            None => {},
        }
    }

    /// Scroll the description viewer, when open, by `lines`, stopping at the
    /// top and at the largest offset.
    pub fn scroll_description_viewer(&mut self, lines: u16, down: bool)
        ensures
            *final(self) == (Ui {
                description_viewer: scrolled(old(self).description_viewer, lines, down),
                ..*old(self)
            }),
    {
        match self.description_viewer {
            Some(v) => {
                let offset = if down {
                    v.scroll_offset.saturating_add(lines)
                } else {
                    v.scroll_offset.saturating_sub(lines)
                };
                self.description_viewer = Some(
                    ViewerState { task_id: v.task_id, scroll_offset: offset },
                );
            },
            None => {},
        }
    }
}


impl Ui {
    /// Open the state picker on the selected task, with its current state
    /// chosen (or else the first choice).
    pub fn open_state_picker(&mut self)
        requires
            old(self).wf(),
        ensures
            state_picker_opened(*old(self), *final(self)),
    {
        let (task_id, options) = match self.selected_task() {
            Some(t) => {
                let current = match &t.snapshot.state {
                    Some(s) => Some(s.as_str()),
                    None => None,
                };
                let options = state_picker_options(&self.workflow, &self.cache.tasks, current);
                let selected = match position_of_choice(&options, current) {
                    Some(k) => k,
                    None => 0,
                };
                (t.snapshot.id, (options, selected))
            },
            None => {
                self.error(owned("ステータスを変更するタスクが選択されていません"));
                return;
            },
        };
        let (options, selected) = options;
        if options.len() == 0 {
            self.error(owned("ステータス候補が見つかりません"));
            return;
        }
        self.state_picker = Some(StatePickerState { task_id, options, selected });
        self.detail_focus = DetailFocus::StatePicker;
    }

    /// Move the picker's choice down, staying on the last one.
    pub fn state_picker_down(&mut self)
        ensures
            *final(self) == (Ui { state_picker: picker_down(old(self).state_picker), ..*old(self) }),
    {
        let mut picker = match self.state_picker.take() {
            Some(p) => p,
            None => return,
        };
        if picker.options.len() > 0 {
            let max_index = picker.options.len() - 1;
            picker.selected = if picker.selected < max_index {
                picker.selected + 1
            } else {
                max_index
            };
        }
        self.state_picker = Some(picker);
    }

    /// Move the picker's choice up, staying on the first one.
    pub fn state_picker_up(&mut self)
        ensures
            *final(self) == (Ui { state_picker: picker_up(old(self).state_picker), ..*old(self) }),
    {
        let mut picker = match self.state_picker.take() {
            Some(p) => p,
            None => return,
        };
        if picker.options.len() > 0 && picker.selected > 0 {
            picker.selected = picker.selected - 1;
        }
        self.state_picker = Some(picker);
    }

    /// Close the state picker and return to the task list.
    pub fn close_state_picker(&mut self)
        ensures
            *final(self) == (Ui { state_picker: None, detail_focus: DetailFocus::TaskList, ..*old(self) }),
    {
        self.state_picker = None;
        self.detail_focus = DetailFocus::TaskList;
    }

    /// Close the state picker and ask for the chosen state to be stored.
    pub fn apply_state_picker_selection(&mut self) -> (r: KeyOutcome)
        ensures
            picker_selection_applied(*old(self), *final(self), r),
    {
        let picker = match self.state_picker.take() {
            Some(p) => p,
            None => return KeyOutcome::Done,
        };
        self.detail_focus = DetailFocus::TaskList;
        if picker.selected < picker.options.len() {
            let value = match &picker.options[picker.selected].value {
                Some(v) => Some(owned(v.as_str())),
                None => None,
            };
            KeyOutcome::ApplyState { task: picker.task_id, state: value }
        } else {
            self.error(owned("ステータス候補が見つかりません"));
            KeyOutcome::Done
        }
    }

    /// Report the outcome of storing a state change: whether the state
    /// changed, or why it failed.
    pub fn report_state_change(&mut self, result: Result<bool, String>)
        ensures
            match result {
                Ok(true) => message_is(final(self).message, "ステータスを更新しました"@, MessageLevel::Info),
                Ok(false) => message_is(
                    final(self).message,
                    "ステータスは変更されませんでした"@,
                    MessageLevel::Info,
                ),
                Err(e) => message_is(
                    final(self).message,
                    "ステータス更新に失敗しました: "@ + e@,
                    MessageLevel::Error,
                ),
            },
            final(self).cache == old(self).cache,
            final(self).visibility == old(self).visibility,
            final(self).detail_focus == old(self).detail_focus,
    {
        match result {
            Ok(true) => self.info(owned("ステータスを更新しました")),
            Ok(false) => self.info(owned("ステータスは変更されませんでした")),
            Err(e) => self.error(concat2("ステータス更新に失敗しました: ", e.as_str())),
        }
    }

    /// Report the outcome of copying a task identifier.
    pub fn report_copy(&mut self, id_text: &str, result: Result<(), String>)
        ensures
            match result {
                Ok(()) => message_is(
                    final(self).message,
                    "タスクIDをコピーしました: "@ + id_text@,
                    MessageLevel::Info,
                ),
                Err(e) => message_is(
                    final(self).message,
                    "タスクIDのコピーに失敗しました: "@ + e@,
                    MessageLevel::Error,
                ),
            },
            final(self).cache == old(self).cache,
            final(self).visibility == old(self).visibility,
            final(self).detail_focus == old(self).detail_focus,
    {
        match result {
            Ok(()) => self.info(concat2("タスクIDをコピーしました: ", id_text)),
            Err(e) => self.error(concat2("タスクIDのコピーに失敗しました: ", e.as_str())),
        }
    }
}


/// The first parents of a task that the list has, as tasks.
pub open spec fn parent_tasks(tasks: Seq<TaskView>, id: TaskId) -> Seq<TaskView> {
    match parents_of(tasks, id) {
        Some(ps) => resolve_ids(tasks, ps),
        None => Seq::<TaskView>::empty(),
    }
}

/// The title shown for the task `id`: that of its first occurrence, or a
/// placeholder.
pub open spec fn title_of(tasks: Seq<TaskView>, id: TaskId) -> Seq<char> {
    match crate::task_cache::first_position(tasks, id, 0) {
        Some(i) => tasks[i].snapshot.title@,
        None => "不明"@,
    }
}

/// Whether a task is visible.
pub open spec fn is_shown(ids: Seq<TaskId>, t: TaskView) -> bool {
    ids.contains(t.snapshot.id)
}

/// The visible children of the task `id`, in list order.
pub open spec fn shown_children(tasks: Seq<TaskView>, ids: Seq<TaskId>, id: TaskId) -> Seq<TaskId> {
    resolve_ids(tasks, children_ids(tasks, id)).filter(|t: TaskView| is_shown(ids, t)).map_values(
        |t: TaskView| t.snapshot.id,
    )
}

/// The subtree of `node` is the tree of visible children of its task,
/// `fuel` levels deep, with every node below it collapsed.
pub open spec fn is_built(tasks: Seq<TaskView>, ids: Seq<TaskId>, node: TreeNode, fuel: nat) -> bool
    decreases fuel,
{
    &&& node.children@.map_values(|c: TreeNode| c.task_id) == if fuel > 0 {
        shown_children(tasks, ids, node.task_id)
    } else {
        Seq::<TaskId>::empty()
    }
    &&& forall|i: int| 0 <= i < node.children@.len() ==> !(#[trigger] node.children@[i]).expanded
    &&& fuel > 0 ==> forall|i: int|
        0 <= i < node.children@.len() ==> is_built(tasks, ids, #[trigger] node.children@[i], (fuel - 1) as nat)
}

impl Ui {
    /// Select the first parent of the selected task that the list has, and
    /// say so; say when the task has none.
    pub fn jump_to_parent(&mut self)
        requires
            old(self).wf(),
        ensures
            parent_jumped(*old(self), *final(self)),
    {
        let id = match self.selected_task_id() {
            Some(id) => id,
            None => return,
        };
        let parent_id = {
            let parents = self.cache.get_parents(id);
            if parents.len() > 0 {
                Some(parents[0].snapshot.id)
            } else {
                None
            }
        };
        match parent_id {
            Some(pid) => {
                self.visibility.jump_to_task(pid);
                let title = match self.cache.find_task(pid) {
                    Some(t) => concat2("親タスクへジャンプ: ", t.snapshot.title.as_str()),
                    None => concat2("親タスクへジャンプ: ", "不明"),
                };
                self.info(title);
            },
            None => self.error(owned("親タスクがありません")),
        }
    }
}


impl Ui {
    /// The nodes of the visible children of the task `parent`, `fuel`
    /// levels deep, collapsed.
    fn build_children_nodes(&self, parent: TaskId, fuel: usize) -> (r: Vec<TreeNode>)
        requires
            self.wf(),
        ensures
            r@.map_values(|c: TreeNode| c.task_id) == if fuel > 0 {
                shown_children(self.cache.tasks@, self.visibility.ids(), parent)
            } else {
                Seq::<TaskId>::empty()
            },
            forall|i: int| 0 <= i < r@.len() ==> !(#[trigger] r@[i]).expanded,
            fuel > 0 ==> forall|i: int|
                0 <= i < r@.len() ==> is_built(
                    self.cache.tasks@,
                    self.visibility.ids(),
                    #[trigger] r@[i],
                    (fuel - 1) as nat,
                ),
        decreases fuel,
    {
        let mut out: Vec<TreeNode> = Vec::new();
        if fuel == 0 {
            assert(out@.map_values(|c: TreeNode| c.task_id) =~= Seq::<TaskId>::empty());
            return out;
        }
        let ghost ids = self.visibility.ids();
        let ghost keep = |t: TaskView| is_shown(ids, t);
        let children = self.cache.get_children(parent);
        let ghost kids = children@.map_values(|t: &TaskView| *t);
        let mut i: usize = 0;
        while i < children.len()
            invariant
                self.wf(),
                ids == self.visibility.ids(),
                keep == (|t: TaskView| is_shown(ids, t)),
                kids == children@.map_values(|t: &TaskView| *t),
                kids == resolve_ids(self.cache.tasks@, children_ids(self.cache.tasks@, parent)),
                i <= children@.len(),
                fuel > 0,
                out@.map_values(|c: TreeNode| c.task_id) == kids.take(i as int).filter(keep).map_values(
                    |t: TaskView| t.snapshot.id,
                ),
                forall|k: int| 0 <= k < out@.len() ==> !(#[trigger] out@[k]).expanded,
                forall|k: int|
                    0 <= k < out@.len() ==> is_built(
                        self.cache.tasks@,
                        ids,
                        #[trigger] out@[k],
                        (fuel - 1) as nat,
                    ),
            decreases children@.len() - i,
        {
            let child = children[i];
            let ghost before = out@;
            proof {
                assert(kids.take(i + 1) =~= kids.take(i as int).push(kids[i as int]));
                kids.take(i as int).lemma_filter_push(kids[i as int], keep);
                assert(kids[i as int] == *child);
            }
            if self.visibility.contains(child.snapshot.id) {
                let grand = self.build_children_nodes(child.snapshot.id, fuel - 1);
                let node = TreeNode { task_id: child.snapshot.id, children: grand, expanded: false };
                proof {
                    assert(is_built(self.cache.tasks@, ids, node, (fuel - 1) as nat));
                }
                out.push(node);
                assert(out@.map_values(|c: TreeNode| c.task_id) =~= before.map_values(
                    |c: TreeNode| c.task_id,
                ).push(child.snapshot.id));
            }
            assert(out@.map_values(|c: TreeNode| c.task_id) =~= kids.take(i + 1).filter(
                keep,
            ).map_values(|t: TaskView| t.snapshot.id));
            i = i + 1;
        }
        assert(kids.take(children@.len() as int) =~= kids);
        out
    }

    /// The expanded tree of the visible task `root` and its visible
    /// descendants, as many levels deep as the list has tasks (which any
    /// chain of parent links without a cycle fits in); none when the list does
    /// not have the task or it is not visible.
    pub fn build_tree_from_root(&self, root: TaskId) -> (r: Option<TreeNode>)
        requires
            self.wf(),
        ensures
            r is Some <==> crate::task_cache::first_position(self.cache.tasks@, root, 0) is Some
                && self.visibility.ids().contains(root),
            r matches Some(n) ==> n.task_id == root && n.expanded && is_built(
                self.cache.tasks@,
                self.visibility.ids(),
                n,
                self.cache.tasks@.len(),
            ),
    {
        let view = match self.cache.find_task(root) {
            Some(v) => v,
            None => return None,
        };
        if !self.visibility.contains(root) {
            return None;
        }
        proof {
            crate::task_cache::lemma_first_position(self.cache.tasks@, root, 0);
        }
        let children = self.build_children_nodes(root, self.cache.tasks.len());
        Some(TreeNode { task_id: root, children, expanded: true })
    }
}


/// The first row, from `i` on, of the task `id`.
pub open spec fn first_row(rows: Seq<(usize, TaskId)>, id: TaskId, i: int) -> Option<int>
    decreases rows.len() - i,
{
    if i < 0 || i >= rows.len() {
        None
    } else if rows[i].1 == id {
        Some(i)
    } else {
        first_row(rows, id, i + 1)
    }
}

/// The first row of the task `id`.
fn row_of(rows: &Vec<(usize, TaskId)>, id: TaskId) -> (r: Option<usize>)
    ensures
        r matches Some(k) ==> first_row(rows@, id, 0) == Some(k as int),
        r is None ==> first_row(rows@, id, 0) is None,
{
    let mut i: usize = 0;
    while i < rows.len()
        invariant
            i <= rows@.len(),
            first_row(rows@, id, 0) == first_row(rows@, id, i as int),
        decreases rows@.len() - i,
    {
        if rows[i].1 == id {
            return Some(i);
        }
        i = i + 1;
    }
    None
}

/// A first row found is a row of the task.
pub proof fn lemma_first_row(rows: Seq<(usize, TaskId)>, id: TaskId, i: int)
    ensures
        first_row(rows, id, i) matches Some(k) ==> i <= k < rows.len() && rows[k].1 == id,
        0 <= i ==> (first_row(rows, id, i) is None <==> forall|k: int| i <= k < rows.len() ==> rows[k].1 != id),
    decreases rows.len() - i,
{
    if 0 <= i < rows.len() && rows[i].1 != id {
        lemma_first_row(rows, id, i + 1);
    }
}

impl Ui {
    /// Open the tree view on the tree of the selected task's topmost
    /// ancestor, with the path to the selected task expanded and its row
    /// selected.
    pub fn open_tree_view(&mut self)
        requires
            old(self).wf(),
        ensures
            tree_view_opened(*old(self), *final(self)),
    {
        let current = match self.selected_task_id() {
            Some(id) => id,
            None => {
                self.error(owned("タスクが選択されていません"));
                return;
            },
        };
        let root_id = match self.cache.get_root(current) {
            Some(root) => root.snapshot.id,
            None => {
                self.error(owned("ルートタスクが見つかりません"));
                return;
            },
        };
        let tree = match self.build_tree_from_root(root_id) {
            Some(t) => t,
            None => {
                self.error(owned("ツリーの構築に失敗しました"));
                return;
            },
        };
        let mut roots: Vec<TreeNode> = Vec::new();
        roots.push(tree);
        self.tree_state.roots = roots;
        let ghost held = crate::tree_view::forest_holds(self.tree_state.roots@, current);
        assert(self.tree_state.roots@[0].expanded);
        self.tree_state.expand_to_task(current);
        proof {
            if held {
                assert(crate::tree_view::shows(forest_rows(self.tree_state.roots@, 0), current));
            }
        }
        self.tree_state.rebuild_visible_nodes();
        proof {
            lemma_first_row(self.tree_state.visible_nodes@, current, 0);
            if held {
                let rows = self.tree_state.visible_nodes@;
                let f = forest_rows(self.tree_state.roots@, 0);
                let k = choose|k: int| 0 <= k < f.len() && (#[trigger] f[k]).1 == current;
                assert(rows_view(rows)[k] == f[k]);
                assert(rows[k].1 == current);
            }
        }
        match row_of(&self.tree_state.visible_nodes, current) {
            Some(index) => self.tree_state.selected = index,
            None => {},
        }
        self.detail_focus = DetailFocus::TreeView;
    }

    /// Move the tree selection one row down, staying on the last row.
    pub fn tree_view_down(&mut self)
        ensures
            tree_moved_down(*old(self), *final(self)),
    {
        if self.tree_state.selected < self.tree_state.visible_nodes.len()
            && self.tree_state.selected + 1 < self.tree_state.visible_nodes.len() {
            self.tree_state.selected = self.tree_state.selected + 1;
        }
    }

    /// Move the tree selection one row up, staying on the first row.
    pub fn tree_view_up(&mut self)
        ensures
            tree_moved_up(*old(self), *final(self)),
    {
        if self.tree_state.selected > 0 {
            self.tree_state.selected = self.tree_state.selected - 1;
        }
    }

    /// Select the row of the first parent (that the list has) of the task
    /// `id`, when the tree shows it.
    fn move_to_parent_in_tree(&mut self, id: TaskId)
        ensures
            tree_moved_to_parent(*old(self), *final(self), id),
    {
        let parent = {
            let parents = self.cache.get_parents(id);
            if parents.len() > 0 {
                Some(parents[0].snapshot.id)
            } else {
                None
            }
        };
        match parent {
            Some(p) => match row_of(&self.tree_state.visible_nodes, p) {
                Some(index) => self.tree_state.selected = index,
                None => {},
            },
            None => {},
        }
    }

    /// Collapse the selected node when it is expanded and has children;
    /// otherwise select its parent's row.
    pub fn tree_view_collapse(&mut self)
        ensures
            tree_collapsed(*old(self), *final(self)),
    {
        let id = match self.tree_state.selected_task_id() {
            Some(id) => id,
            None => return,
        };
        let collapse = match self.tree_state.find_node(id) {
            Some(node) => Some(node.expanded && node.children.len() > 0),
            None => None,
        };
        proof {
            crate::tree_view::lemma_forest_found(self.tree_state.roots@, id);
        }
        match collapse {
            Some(true) => {
                self.tree_state.set_node_expanded(id, false);
                self.tree_state.rebuild_visible_nodes();
            },
            Some(false) => self.move_to_parent_in_tree(id),
            None => {},
        }
    }

    /// Expand the selected node when the task has children and the node is
    /// collapsed; when it is expanded, move one row down.
    pub fn tree_view_expand(&mut self)
        ensures
            tree_expanded(*old(self), *final(self)),
    {
        let id = match self.tree_state.selected_task_id() {
            Some(id) => id,
            None => return,
        };
        let has_children = self.cache.get_children(id).len() > 0;
        proof {
            if children_ids(self.cache.tasks@, id).len() == 0 {
                assert(resolve_ids(self.cache.tasks@, children_ids(self.cache.tasks@, id)).len() == 0);
            }
        }
        if !has_children {
            return;
        }
        let expanded = match self.tree_state.find_node(id) {
            Some(node) => Some(node.expanded),
            None => None,
        };
        proof {
            crate::tree_view::lemma_forest_found(self.tree_state.roots@, id);
        }
        match expanded {
            Some(true) => {
                if self.tree_state.selected < self.tree_state.visible_nodes.len()
                    && self.tree_state.selected + 1 < self.tree_state.visible_nodes.len() {
                    self.tree_state.selected = self.tree_state.selected + 1;
                }
            },
            Some(false) => {
                self.tree_state.set_node_expanded(id, true);
                self.tree_state.rebuild_visible_nodes();
            },
            None => {},
        }
    }

    /// Select the tree's selected task in the task list, close the tree
    /// view, and say so.
    pub fn tree_view_jump(&mut self)
        requires
            old(self).wf(),
        ensures
            tree_jumped(*old(self), *final(self)),
    {
        let id = match self.tree_state.selected_task_id() {
            Some(id) => id,
            None => return,
        };
        self.visibility.jump_to_task(id);
        self.detail_focus = DetailFocus::TaskList;
        let title = match self.selected_task() {
            Some(t) => Some(concat2("タスクへジャンプ: ", t.snapshot.title.as_str())),
            None => None,
        };
        match title {
            Some(text) => self.info(text),
            None => {},
        }
    }
}


/// The message shown when an action needs a selected task and none is.
pub open spec fn no_selection_message(action: Action) -> Seq<char> {
    match action {
        Action::AddComment => "コメント対象のタスクが選択されていません"@,
        Action::EditTask => "編集対象のタスクが選択されていません"@,
        Action::CreateSubtask => "子タスクを作成する親タスクが選択されていません"@,
        _ => "コピー対象のタスクが選択されていません"@,
    }
}

/// A viewer scrolled by `lines` (down or up), when open, stopping at the
/// top and at the largest offset.
pub open spec fn scrolled(v: Option<ViewerState>, lines: u16, down: bool) -> Option<ViewerState> {
    match v {
        Some(v) => Some(
            ViewerState {
                task_id: v.task_id,
                scroll_offset: if down {
                    v.scroll_offset.saturating_add(lines)
                } else {
                    v.scroll_offset.saturating_sub(lines)
                },
            },
        ),
        None => None,
    }
}

/// The picker with its choice moved down, staying on the last one.
pub open spec fn picker_down(p: Option<StatePickerState>) -> Option<StatePickerState> {
    match p {
        Some(p) => Some(
            StatePickerState {
                selected: if p.options@.len() == 0 {
                    p.selected
                } else if p.selected + 1 < p.options@.len() {
                    (p.selected + 1) as usize
                } else {
                    (p.options@.len() - 1) as usize
                },
                ..p
            },
        ),
        None => None,
    }
}

/// The picker with its choice moved up, staying on the first one.
pub open spec fn picker_up(p: Option<StatePickerState>) -> Option<StatePickerState> {
    match p {
        Some(p) => Some(
            StatePickerState {
                selected: if p.options@.len() > 0 && p.selected > 0 {
                    (p.selected - 1) as usize
                } else {
                    p.selected
                },
                ..p
            },
        ),
        None => None,
    }
}

/// The comment viewer opened on the selected task, at the top, with the
/// focus on it; with no task selected, only the message says so.
pub open spec fn comment_viewer_opened(before: Ui, after: Ui) -> bool {
    match before.selected() {
        Some(t) => after == (Ui {
            comment_viewer: Some(ViewerState { task_id: t.snapshot.id, scroll_offset: 0 }),
            detail_focus: DetailFocus::CommentViewer,
            ..before
        }),
        None => only_message_changed(before, after) && message_is(
            after.message,
            "コメントを表示するタスクが選択されていません"@,
            MessageLevel::Error,
        ),
    }
}

/// The description viewer opened on the selected task, at the top, with the
/// focus on it; with no task selected, only the message says so.
pub open spec fn description_viewer_opened(before: Ui, after: Ui) -> bool {
    match before.selected() {
        Some(t) => after == (Ui {
            description_viewer: Some(ViewerState { task_id: t.snapshot.id, scroll_offset: 0 }),
            detail_focus: DetailFocus::DescriptionViewer,
            ..before
        }),
        None => only_message_changed(before, after) && message_is(
            after.message,
            "説明を表示するタスクが選択されていません"@,
            MessageLevel::Error,
        ),
    }
}

/// The state picker opened on the selected task, offering the picker's
/// choices with the task's state chosen (or else the first choice), with
/// the focus on it; with no task selected, only the message says so.
pub open spec fn state_picker_opened(before: Ui, after: Ui) -> bool {
    &&& after.wf()
    &&& after.cache == before.cache
    &&& after.visibility == before.visibility
    &&& match before.selected() {
        Some(t) => after.detail_focus == DetailFocus::StatePicker && (after.state_picker matches Some(p)
            && p.task_id == t.snapshot.id && choice_values(p.options@) == picker_choices(
            before.workflow,
            before.cache.tasks@,
            crate::task::opt_view(t.snapshot.state),
        ) && p.selected == match first_choice(
            choice_values(p.options@),
            crate::task::opt_view(t.snapshot.state),
            0,
        ) {
            Some(k) => k,
            None => 0,
        }),
        None => only_message_changed(before, after) && message_is(
            after.message,
            "ステータスを変更するタスクが選択されていません"@,
            MessageLevel::Error,
        ),
    }
}

/// The state picker closed with its choice asked to be stored: the task and
/// the chosen value, with the focus back on the task list; with no choice
/// in range, the message says so; with no picker open, nothing changes.
pub open spec fn picker_selection_applied(before: Ui, after: Ui, r: KeyOutcome) -> bool {
    match before.state_picker {
        None => r is Done && after == before,
        Some(p) => {
            let closed = Ui { state_picker: None, detail_focus: DetailFocus::TaskList, ..before };
            if p.selected < p.options@.len() {
                &&& after == closed
                &&& r matches KeyOutcome::ApplyState { task, state } && task == p.task_id
                    && crate::task::opt_view(state) == option_value(p.options@[p.selected as int])
            } else {
                &&& r is Done
                &&& only_message_changed(closed, after)
                &&& message_is(after.message, "ステータス候補が見つかりません"@, MessageLevel::Error)
            }
        },
    }
}

/// The task list selection moved to the first parent (that the list has) of
/// the selected task, saying so; with no parent, the message says so; with
/// no task selected, nothing changes.
pub open spec fn parent_jumped(before: Ui, after: Ui) -> bool {
    match before.selected() {
        None => after == before,
        Some(t) => {
            let ps = parent_tasks(before.cache.tasks@, t.snapshot.id);
            if ps.len() > 0 {
                let pid = ps[0].snapshot.id;
                &&& after.wf()
                &&& only_message_changed(Ui { visibility: after.visibility, ..before }, after)
                &&& after.visibility.positions() == before.visibility.positions()
                &&& after.visibility.selection() == match last_position(before.visibility.ids(), pid) {
                    Some(k) => k,
                    None => before.visibility.selection(),
                }
                &&& message_is(
                    after.message,
                    "親タスクへジャンプ: "@ + title_of(before.cache.tasks@, pid),
                    MessageLevel::Info,
                )
            } else {
                only_message_changed(before, after) && message_is(
                    after.message,
                    "親タスクがありません"@,
                    MessageLevel::Error,
                )
            }
        },
    }
}

/// The tree view opened on the selected task: the root is the task the
/// breadth-first walk up its parents finds; when that root is visible, the
/// tree becomes one expanded node of the root, the path to the selected
/// task expanded, its rows shown and the task's row selected, with the
/// focus on the tree; otherwise only the message changes, saying that no
/// task is selected, that no root was found, or that the tree could not be
/// built.
pub open spec fn tree_view_opened(before: Ui, after: Ui) -> bool {
    let tasks = before.cache.tasks@;
    match before.selected() {
        None => only_message_changed(before, after) && message_is(
            after.message,
            "タスクが選択されていません"@,
            MessageLevel::Error,
        ),
        Some(t) => match crate::task_cache::root_position(tasks, t.snapshot.id) {
            None => only_message_changed(before, after) && message_is(
                after.message,
                "ルートタスクが見つかりません"@,
                MessageLevel::Error,
            ),
            Some(ri) => {
                let root = tasks[ri].snapshot.id;
                if crate::task_cache::first_position(tasks, root, 0) is Some
                    && before.visibility.ids().contains(root) {
                    let rows = after.tree_state.visible_nodes@;
                    let current = t.snapshot.id;
                    &&& after == (Ui {
                        tree_state: after.tree_state,
                        detail_focus: DetailFocus::TreeView,
                        ..before
                    })
                    &&& after.tree_state.roots@.len() == 1
                    &&& after.tree_state.roots@[0].task_id == root
                    &&& after.tree_state.roots@[0].expanded
                    &&& rows_view(rows) == forest_rows(after.tree_state.roots@, 0)
                    &&& first_row(rows, current, 0) matches Some(k) ==> after.tree_state.selected == k
                    &&& crate::tree_view::forest_holds(after.tree_state.roots@, current) ==> first_row(
                        rows,
                        current,
                        0,
                    ) is Some
                } else {
                    only_message_changed(before, after) && message_is(
                        after.message,
                        "ツリーの構築に失敗しました"@,
                        MessageLevel::Error,
                    )
                }
            },
        },
    }
}

/// The interface with the tree's selected row set to `k`.
pub open spec fn with_tree_row(ui: Ui, k: usize) -> Ui {
    Ui { tree_state: TreeViewState { selected: k, ..ui.tree_state }, ..ui }
}

/// The tree selection moved one row down, staying on the last row.
pub open spec fn tree_moved_down(before: Ui, after: Ui) -> bool {
    let t = before.tree_state;
    after == with_tree_row(
        before,
        if t.selected + 1 < t.visible_nodes@.len() {
            (t.selected + 1) as usize
        } else {
            t.selected
        },
    )
}

/// The tree selection moved one row up, staying on the first row.
pub open spec fn tree_moved_up(before: Ui, after: Ui) -> bool {
    let t = before.tree_state;
    after == with_tree_row(
        before,
        if t.selected > 0 {
            (t.selected - 1) as usize
        } else {
            0
        },
    )
}

/// The tree selection moved to the row of the first parent (that the list
/// has) of the task `id`, when the tree shows it.
pub open spec fn tree_moved_to_parent(before: Ui, after: Ui, id: TaskId) -> bool {
    let ps = parent_tasks(before.cache.tasks@, id);
    after == if ps.len() > 0 {
        match first_row(before.tree_state.visible_nodes@, ps[0].snapshot.id, 0) {
            Some(k) => with_tree_row(before, k as usize),
            None => before,
        }
    } else {
        before
    }
}

/// The selected tree node collapsed when it is expanded and has children,
/// the rows rebuilt; otherwise its parent's row selected.
pub open spec fn tree_collapsed(before: Ui, after: Ui) -> bool {
    let t = before.tree_state;
    let id = t.visible_nodes@[t.selected as int].1;
    &&& after.cache == before.cache
    &&& after.visibility == before.visibility
    &&& after.detail_focus == before.detail_focus
    &&& t.selected >= t.visible_nodes@.len() ==> after == before
    &&& t.selected < t.visible_nodes@.len() ==> match forest_found(t.roots@, id) {
        Some(n) => if n.expanded && n.children@.len() > 0 {
            &&& forest_found(after.tree_state.roots@, id) matches Some(m) && !m.expanded && m.children
                == n.children
            &&& rows_view(after.tree_state.visible_nodes@) == forest_rows(after.tree_state.roots@, 0)
        } else {
            tree_moved_to_parent(before, after, id)
        },
        None => after == before,
    }
}

/// The selected tree node expanded when its task has children and it is
/// collapsed, the rows rebuilt; when it is expanded, the selection moved one
/// row down; when its task has no children, nothing changes.
pub open spec fn tree_expanded(before: Ui, after: Ui) -> bool {
    let t = before.tree_state;
    let id = t.visible_nodes@[t.selected as int].1;
    &&& after.cache == before.cache
    &&& after.visibility == before.visibility
    &&& after.detail_focus == before.detail_focus
    &&& t.selected >= t.visible_nodes@.len() ==> after == before
    &&& t.selected < t.visible_nodes@.len() && resolve_ids(
        before.cache.tasks@,
        children_ids(before.cache.tasks@, id),
    ).len() == 0 ==> after == before
    &&& t.selected < t.visible_nodes@.len() && resolve_ids(
        before.cache.tasks@,
        children_ids(before.cache.tasks@, id),
    ).len() > 0 ==> match forest_found(t.roots@, id) {
        Some(n) => if !n.expanded {
            &&& forest_found(after.tree_state.roots@, id) matches Some(m) && m.expanded && m.children
                == n.children
            &&& rows_view(after.tree_state.visible_nodes@) == forest_rows(after.tree_state.roots@, 0)
        } else {
            tree_moved_down(before, after)
        },
        None => after == before,
    }
}

/// The task list selection moved to the task of the tree's selected row,
/// the tree view closed, and the jump reported with the title of the task
/// then selected.
pub open spec fn tree_jumped(before: Ui, after: Ui) -> bool {
    let t = before.tree_state;
    let id = t.visible_nodes@[t.selected as int].1;
    &&& after.wf()
    &&& t.selected >= t.visible_nodes@.len() ==> after == before
    &&& t.selected < t.visible_nodes@.len() ==> {
        &&& after.cache == before.cache
        &&& after.detail_focus == DetailFocus::TaskList
        &&& after.visibility.positions() == before.visibility.positions()
        &&& after.visibility.selection() == match last_position(before.visibility.ids(), id) {
            Some(k) => k,
            None => before.visibility.selection(),
        }
        &&& match after.selected() {
            Some(s) => message_is(
                after.message,
                "タスクへジャンプ: "@ + s.snapshot.title@,
                MessageLevel::Info,
            ),
            None => after.message == before.message,
        }
    }
}

/// The selection moved down (staying on the last visible task), nothing
/// else changing.
pub open spec fn list_moved_down(before: Ui, after: Ui) -> bool {
    let v = before.visibility;
    &&& after == (Ui { visibility: after.visibility, ..before })
    &&& after.wf()
    &&& after.visibility.positions() == v.positions()
    &&& after.visibility.selection() == if v.selection() + 1 < v.positions().len() {
        v.selection() + 1
    } else {
        v.selection()
    }
}

/// The selection moved up (staying on the first visible task), nothing else
/// changing.
pub open spec fn list_moved_up(before: Ui, after: Ui) -> bool {
    let v = before.visibility;
    &&& after == (Ui { visibility: after.visibility, ..before })
    &&& after.wf()
    &&& after.visibility.positions() == v.positions()
    &&& after.visibility.selection() == if v.selection() > 0 {
        v.selection() - 1
    } else {
        v.selection()
    }
}

/// What an action does in the task list.
pub open spec fn task_list_step(before: Ui, after: Ui, action: Action, r: KeyOutcome) -> bool {
    match action {
        Action::Quit => r is Done && after == (Ui { should_quit: true, ..before }),
        Action::Down => r is Done && list_moved_down(before, after),
        Action::Up => r is Done && list_moved_up(before, after),
        Action::OpenTree => r is Done && tree_view_opened(before, after),
        Action::JumpToParent => r is Done && parent_jumped(before, after),
        Action::Refresh => r is Reload && after == before,
        Action::CreateTask => r == KeyOutcome::Request(UiAction::CreateTask) && after == before,
        Action::EditFilter => r == KeyOutcome::Request(UiAction::EditFilter) && after == before,
        Action::AddComment | Action::EditTask | Action::CreateSubtask | Action::CopyTaskId => match before.selected() {
            Some(t) => after == before && r == match action {
                Action::AddComment => KeyOutcome::Request(UiAction::AddComment { task: t.snapshot.id }),
                Action::EditTask => KeyOutcome::Request(UiAction::EditTask { task: t.snapshot.id }),
                Action::CreateSubtask => KeyOutcome::Request(
                    UiAction::CreateSubtask { parent: t.snapshot.id },
                ),
                _ => KeyOutcome::CopyTaskId(t.snapshot.id),
            },
            None => r is Done && only_message_changed(before, after) && message_is(
                after.message,
                no_selection_message(action),
                MessageLevel::Error,
            ),
        },
        Action::OpenStatePicker => r is Done && state_picker_opened(before, after),
        Action::OpenCommentViewer => r is Done && comment_viewer_opened(before, after),
        Action::OpenDescriptionViewer => r is Done && description_viewer_opened(before, after),
        _ => r is Done && after == before,
    }
}

/// What an action does in the tree view.
pub open spec fn tree_view_step(before: Ui, after: Ui, action: Action) -> bool {
    match action {
        Action::Close => after == (Ui { detail_focus: DetailFocus::TaskList, ..before }),
        Action::Down => tree_moved_down(before, after),
        Action::Up => tree_moved_up(before, after),
        Action::Collapse => tree_collapsed(before, after),
        Action::Expand => tree_expanded(before, after),
        Action::Jump => tree_jumped(before, after),
        _ => after == before,
    }
}

/// What an action does in the state picker.
pub open spec fn state_picker_step(before: Ui, after: Ui, action: Action, r: KeyOutcome) -> bool {
    match action {
        Action::Close => r is Done && after == (Ui {
            state_picker: None,
            detail_focus: DetailFocus::TaskList,
            ..before
        }),
        Action::Down => r is Done && after == (Ui { state_picker: picker_down(before.state_picker), ..before }),
        Action::Up => r is Done && after == (Ui { state_picker: picker_up(before.state_picker), ..before }),
        Action::Select => picker_selection_applied(before, after, r),
        _ => r is Done && after == before,
    }
}

/// The lines a viewer action scrolls by, and whether down.
pub open spec fn scroll_of(action: Action) -> Option<(u16, bool)> {
    match action {
        Action::ScrollDown => Some((1u16, true)),
        Action::ScrollUp => Some((1u16, false)),
        Action::ScrollDownFast => Some((10u16, true)),
        Action::ScrollUpFast => Some((10u16, false)),
        _ => None,
    }
}

/// What an action does in the comment viewer: close it, or scroll by one
/// line or by ten.
pub open spec fn comment_viewer_step(before: Ui, after: Ui, action: Action) -> bool {
    if action == Action::Close {
        after == (Ui { comment_viewer: None, detail_focus: DetailFocus::TaskList, ..before })
    } else {
        match scroll_of(action) {
            Some((lines, down)) => after == (Ui {
                comment_viewer: scrolled(before.comment_viewer, lines, down),
                ..before
            }),
            None => after == before,
        }
    }
}

/// What an action does in the description viewer: close it, or scroll by
/// one line or by ten.
pub open spec fn description_viewer_step(before: Ui, after: Ui, action: Action) -> bool {
    if action == Action::Close {
        after == (Ui { description_viewer: None, detail_focus: DetailFocus::TaskList, ..before })
    } else {
        match scroll_of(action) {
            Some((lines, down)) => after == (Ui {
                description_viewer: scrolled(before.description_viewer, lines, down),
                ..before
            }),
            None => after == before,
        }
    }
}

/// What a key press does: the action the key stands for under the focus,
/// done there; a key that stands for no action changes nothing.
pub open spec fn key_step(before: Ui, after: Ui, key: KeyEvent, r: KeyOutcome) -> bool {
    match key_action_for(before.keybindings, before.detail_focus, key) {
        None => r is Done && after == before,
        Some(action) => match before.detail_focus {
            DetailFocus::TaskList => task_list_step(before, after, action, r),
            DetailFocus::TreeView => r is Done && tree_view_step(before, after, action),
            DetailFocus::StatePicker => state_picker_step(before, after, action, r),
            DetailFocus::CommentViewer => r is Done && comment_viewer_step(before, after, action),
            DetailFocus::DescriptionViewer => r is Done && description_viewer_step(before, after, action),
        },
    }
}

/// Taking the text of a filter editor session: on an error, only the
/// message changes, saying why; otherwise the filter becomes the one read,
/// the result says whether it changed, and when it did not, only the
/// message changes, saying so.
pub open spec fn filter_output_applied(before: Ui, after: Ui, raw: Seq<char>, r: bool) -> bool {
    match filter_error(raw) {
        Some(e) => !r && message_is(after.message, "フィルタの解析に失敗しました: "@ + e, MessageLevel::Error)
            && only_message_changed(before, after),
        None => {
            &&& filter_result_ok(raw, after.filter@)
            &&& r == (after.filter@ != before.filter@)
            &&& !r ==> message_is(after.message, "フィルタに変更はありません"@, MessageLevel::Info)
                && only_message_changed(before, after)
            &&& r ==> (Ui { filter: before.filter, ..after }) == before
        },
    }
}

/// Saving the filter editor's text for the current filter unchanged
/// changes nothing but the message, which says that the filter did not
/// change.
pub proof fn lemma_unchanged_filter_form_keeps_filter(before: Ui, after: Ui, r: bool)
    requires
        crate::filter_form::filter_form_carries(before.filter@),
        filter_output_applied(before, after, crate::filter::filter_template(before.filter@), r),
    ensures
        !r,
        only_message_changed(before, after),
        message_is(after.message, "フィルタに変更はありません"@, MessageLevel::Info),
{
    crate::filter_form::lemma_filter_form_round_trip(before.filter@);
}

impl Ui {
    /// Finish a reload: take the freshly loaded tasks and say so.
    pub fn finish_reload(&mut self, cache: TaskCache, results: Option<&[bool]>)
        requires
            old(self).wf(),
        ensures
            final(self).wf(),
            final(self).cache == cache,
            final(self).detail_focus == old(self).detail_focus,
            message_is(final(self).message, "タスクを再読込しました"@, MessageLevel::Info),
    {
        self.reload(cache, results, None);
        self.info(owned("タスクを再読込しました"));
    }

    /// What an action does in the task list.
    pub fn handle_task_list_action(&mut self, action: Action) -> (r: KeyOutcome)
        requires
            old(self).wf(),
        ensures
            final(self).wf(),
            task_list_step(*old(self), *final(self), action, r),
    {
        match action {
            Action::Quit => {
                self.should_quit = true;
                KeyOutcome::Done
            },
            Action::Down => {
                self.visibility.select_next();
                KeyOutcome::Done
            },
            Action::Up => {
                self.visibility.select_prev();
                KeyOutcome::Done
            },
            Action::OpenTree => {
                self.open_tree_view();
                KeyOutcome::Done
            },
            Action::JumpToParent => {
                self.jump_to_parent();
                KeyOutcome::Done
            },
            Action::Refresh => KeyOutcome::Reload,
            Action::AddComment => match self.selected_task_id() {
                Some(task) => KeyOutcome::Request(UiAction::AddComment { task }),
                None => {
                    self.error(owned("コメント対象のタスクが選択されていません"));
                    KeyOutcome::Done
                },
            },
            Action::EditTask => match self.selected_task_id() {
                Some(task) => KeyOutcome::Request(UiAction::EditTask { task }),
                None => {
                    self.error(owned("編集対象のタスクが選択されていません"));
                    KeyOutcome::Done
                },
            },
            Action::CreateTask => KeyOutcome::Request(UiAction::CreateTask),
            Action::CreateSubtask => match self.selected_task_id() {
                Some(parent) => KeyOutcome::Request(UiAction::CreateSubtask { parent }),
                None => {
                    self.error(owned("子タスクを作成する親タスクが選択されていません"));
                    KeyOutcome::Done
                },
            },
            Action::CopyTaskId => match self.selected_task_id() {
                Some(task) => KeyOutcome::CopyTaskId(task),
                None => {
                    self.error(owned("コピー対象のタスクが選択されていません"));
                    KeyOutcome::Done
                },
            },
            Action::OpenStatePicker => {
                self.open_state_picker();
                KeyOutcome::Done
            },
            Action::OpenCommentViewer => {
                self.open_comment_viewer();
                KeyOutcome::Done
            },
            Action::OpenDescriptionViewer => {
                self.open_description_viewer();
                KeyOutcome::Done
            },
            Action::EditFilter => KeyOutcome::Request(UiAction::EditFilter),
            _ => KeyOutcome::Done,
        }
    }

    /// What an action does in the tree view.
    pub fn handle_tree_view_action(&mut self, action: Action)
        requires
            old(self).wf(),
        ensures
            final(self).wf(),
            tree_view_step(*old(self), *final(self), action),
    {
        match action {
            Action::Close => self.detail_focus = DetailFocus::TaskList,
            Action::Down => self.tree_view_down(),
            Action::Up => self.tree_view_up(),
            Action::Collapse => self.tree_view_collapse(),
            Action::Expand => self.tree_view_expand(),
            Action::Jump => self.tree_view_jump(),
            _ => {},
        }
    }

    /// What an action does in the state picker.
    pub fn handle_state_picker_action(&mut self, action: Action) -> (r: KeyOutcome)
        ensures
            state_picker_step(*old(self), *final(self), action, r),
    {
        match action {
            Action::Close => {
                self.close_state_picker();
                KeyOutcome::Done
            },
            Action::Down => {
                self.state_picker_down();
                KeyOutcome::Done
            },
            Action::Up => {
                self.state_picker_up();
                KeyOutcome::Done
            },
            Action::Select => self.apply_state_picker_selection(),
            _ => KeyOutcome::Done,
        }
    }

    /// What an action does in the comment viewer: close it, or scroll by one
    /// line or by ten.
    pub fn handle_comment_viewer_action(&mut self, action: Action)
        ensures
            comment_viewer_step(*old(self), *final(self), action),
    {
        match action {
            Action::Close => self.close_comment_viewer(),
            Action::ScrollDown => self.scroll_comment_viewer(1, true),
            Action::ScrollUp => self.scroll_comment_viewer(1, false),
            Action::ScrollDownFast => self.scroll_comment_viewer(10, true),
            Action::ScrollUpFast => self.scroll_comment_viewer(10, false),
            _ => {},
        }
    }

    /// What an action does in the description viewer: close it, or scroll
    /// by one line or by ten.
    pub fn handle_description_viewer_action(&mut self, action: Action)
        ensures
            description_viewer_step(*old(self), *final(self), action),
    {
        match action {
            Action::Close => self.close_description_viewer(),
            Action::ScrollDown => self.scroll_description_viewer(1, true),
            Action::ScrollUp => self.scroll_description_viewer(1, false),
            Action::ScrollDownFast => self.scroll_description_viewer(10, true),
            Action::ScrollUpFast => self.scroll_description_viewer(10, false),
            _ => {},
        }
    }

    /// Respond to a key press: find the action the key stands for under the
    /// focus, and do it; a key that stands for no action changes nothing.
    pub fn handle_key(&mut self, key: &KeyEvent) -> (r: KeyOutcome)
        requires
            old(self).wf(),
        ensures
            final(self).wf(),
            key_step(*old(self), *final(self), *key, r),
    {
        match key_action(&self.keybindings, self.detail_focus, key) {
            None => KeyOutcome::Done,
            Some(action) => match self.detail_focus {
                DetailFocus::TaskList => self.handle_task_list_action(action),
                DetailFocus::TreeView => {
                    self.handle_tree_view_action(action);
                    KeyOutcome::Done
                },
                DetailFocus::StatePicker => self.handle_state_picker_action(action),
                DetailFocus::CommentViewer => {
                    self.handle_comment_viewer_action(action);
                    KeyOutcome::Done
                },
                DetailFocus::DescriptionViewer => {
                    self.handle_description_viewer_action(action);
                    KeyOutcome::Done
                },
            },
        }
    }
}

impl Ui {
    /// The initial text of the editor for editing the task `task`, with the
    /// workflow's states as hint; when the list does not have the task, none,
    /// and the interface says so.
    pub fn edit_task_template(&mut self, task: TaskId) -> (r: Option<String>)
        ensures
            match crate::task_cache::first_position(old(self).cache.tasks@, task, 0) {
                Some(i) => r matches Some(t) && t@ == crate::display::edit_task_template(
                    old(self).cache.tasks@[i],
                    old(self).workflow.hint(),
                ) && *final(self) == *old(self),
                None => r is None && message_is(
                    final(self).message,
                    "編集対象のタスクが見つかりません"@,
                    MessageLevel::Error,
                ) && only_message_changed(*old(self), *final(self)),
            },
    {
        let hint = self.workflow.state_hint();
        let template = match self.cache.find_task(task) {
            Some(view) => Some(
                crate::display::edit_task_editor_template(
                    view,
                    match &hint {
                        Some(h) => Some(h.as_str()),
                        None => None,
                    },
                ),
            ),
            None => None,
        };
        if template.is_none() {
            self.error(owned("編集対象のタスクが見つかりません"));
        }
        template
    }

    /// The initial text of the editor for a new task, under the task
    /// `parent` when one is given, with the workflow's states as hint and its
    /// default state filled in.
    pub fn new_task_template(&self, parent: Option<TaskId>) -> (r: String)
        ensures
            r@ == crate::display::new_task_template(
                match parent {
                    Some(p) => match crate::task_cache::first_position(self.cache.tasks@, p, 0) {
                        Some(i) => Some(self.cache.tasks@[i]),
                        None => None,
                    },
                    None => None,
                },
                self.workflow.hint(),
                crate::task::opt_view(self.workflow.default_state),
            ),
    {
        let hint = self.workflow.state_hint();
        let parent_view = match parent {
            Some(p) => self.cache.find_task(p),
            None => None,
        };
        crate::display::new_task_editor_template(
            parent_view,
            match &hint {
                Some(h) => Some(h.as_str()),
                None => None,
            },
            self.workflow.default_state(),
        )
    }

    /// Read a comment from the editor output: its body; a blank comment is
    /// cancelled, and the interface says so.
    pub fn comment_input(&mut self, raw: &str) -> (r: Option<String>)
        ensures
            match comment_body(raw@) {
                Some(b) => r matches Some(s) && s@ == b && *final(self) == *old(self),
                None => r is None && message_is(
                    final(self).message,
                    "コメントをキャンセルしました"@,
                    MessageLevel::Info,
                ) && only_message_changed(*old(self), *final(self)),
            },
    {
        let body = parse_comment_editor_output(raw);
        if body.is_none() {
            self.info(owned("コメントをキャンセルしました"));
        }
        body
    }

    /// Read a new task from the editor output, placed under `parent` when
    /// one is given; an empty form is cancelled and a form that cannot be
    /// read is refused, and the interface says which.
    pub fn new_task_input(&mut self, raw: &str, parent: Option<TaskId>) -> (r: Option<NewTaskData>)
        ensures
            match new_task_result(raw@) {
                Ok(Some(v)) => r matches Some(d) && d@ == under_parent(v, parent) && *final(self)
                    == *old(self),
                Ok(None) => r is None && message_is(
                    final(self).message,
                    "タスク作成をキャンセルしました"@,
                    MessageLevel::Info,
                ) && only_message_changed(*old(self), *final(self)),
                Err(e) => r is None && message_is(final(self).message, e, MessageLevel::Error)
                    && only_message_changed(*old(self), *final(self)),
            },
    {
        match parse_new_task_editor_output(raw) {
            Ok(Some(data)) => {
                let mut data = data;
                match parent {
                    Some(p) => data.parent = Some(p),
                    None => {},
                }
                Some(data)
            },
            Ok(None) => {
                self.info(owned("タスク作成をキャンセルしました"));
                None
            },
            Err(msg) => {
                self.error(msg);
                None
            },
        }
    }

    /// Read the edited fields of a task from the editor output; an empty
    /// form is cancelled and a form that cannot be read is refused, and the
    /// interface says which.
    pub fn edit_task_input(&mut self, raw: &str) -> (r: Option<NewTaskData>)
        ensures
            match new_task_result(raw@) {
                Ok(Some(v)) => r matches Some(d) && d@ == v && *final(self) == *old(self),
                Ok(None) => r is None && message_is(
                    final(self).message,
                    "タスク編集をキャンセルしました"@,
                    MessageLevel::Info,
                ) && only_message_changed(*old(self), *final(self)),
                Err(e) => r is None && message_is(final(self).message, e, MessageLevel::Error)
                    && only_message_changed(*old(self), *final(self)),
            },
    {
        match parse_new_task_editor_output(raw) {
            Ok(Some(data)) => Some(data),
            Ok(None) => {
                self.info(owned("タスク編集をキャンセルしました"));
                None
            },
            Err(msg) => {
                self.error(msg);
                None
            },
        }
    }

    /// Say that a comment was added.
    pub fn report_comment_added(&mut self)
        ensures
            message_is(final(self).message, "コメントを追加しました"@, MessageLevel::Info),
            only_message_changed(*old(self), *final(self)),
    {
        self.info(owned("コメントを追加しました"));
    }

    /// Say that a task, or a subtask, was created.
    pub fn report_task_created(&mut self, id: TaskId, subtask: bool)
        ensures
            message_is(
                final(self).message,
                if subtask {
                    "子タスクを作成しました: "@
                } else {
                    "タスクを作成しました: "@
                } + crate::task::uuid_text(id.value),
                MessageLevel::Info,
            ),
            only_message_changed(*old(self), *final(self)),
    {
        let prefix = if subtask {
            "子タスクを作成しました: "
        } else {
            "タスクを作成しました: "
        };
        self.info(concat2(prefix, id.to_text().as_str()));
    }

    /// Say whether an edit changed the task.
    pub fn report_task_updated(&mut self, updated: bool)
        ensures
            message_is(
                final(self).message,
                if updated {
                    "タスクを更新しました"@
                } else {
                    "変更はありませんでした"@
                },
                MessageLevel::Info,
            ),
            only_message_changed(*old(self), *final(self)),
    {
        if updated {
            self.info(owned("タスクを更新しました"));
        } else {
            self.info(owned("変更はありませんでした"));
        }
    }

    /// Say that an editor session failed, and why.
    pub fn report_editor_error(&mut self, cause: &str)
        ensures
            message_is(
                final(self).message,
                "エディタ処理中に失敗しました: "@ + cause@,
                MessageLevel::Error,
            ),
            only_message_changed(*old(self), *final(self)),
    {
        self.error(concat2("エディタ処理中に失敗しました: ", cause));
    }

    /// Read the filter form from the editor output. A form that cannot be
    /// read is refused and a form equal to the current filter changes
    /// nothing, and the interface says which; otherwise the read filter
    /// replaces the current one and `true` asks the caller to recompute the
    /// filter results.
    pub fn apply_filter_editor_output(&mut self, raw: &str) -> (r: bool)
        ensures
            filter_output_applied(*old(self), *final(self), raw@, r),
    {
        match parse_filter_editor_output(raw) {
            Err(e) => {
                self.error(concat2("フィルタの解析に失敗しました: ", e.as_str()));
                false
            },
            Ok(filter) => {
                if filter.same_as(&self.filter) {
                    self.info(owned("フィルタに変更はありません"));
                    false
                } else {
                    self.filter = filter;
                    true
                }
            },
        }
    }

    /// Show the tasks that the new filter's results keep, keeping the
    /// selected task selected when it stays visible, and say that the filter
    /// changed, with its summary, and whether any task matches.
    pub fn finish_filter_update(&mut self, results: Option<&[bool]>)
        requires
            old(self).wf(),
        ensures
            final(self).wf(),
            final(self).cache == old(self).cache,
            final(self).filter == old(self).filter,
            final(self).detail_focus == old(self).detail_focus,
            message_is(
                final(self).message,
                if final(self).visibility.positions().len() > 0 {
                    "フィルタを更新しました: "@
                } else {
                    "フィルタを更新しました（該当なし）: "@
                } + filter_summary(old(self).filter@),
                MessageLevel::Info,
            ),
    {
        self.refilter(results);
        let summary = self.filter.summarize();
        if self.visibility.has_visible_tasks() {
            self.info(concat2("フィルタを更新しました: ", summary.as_str()));
        } else {
            self.info(concat2("フィルタを更新しました（該当なし）: ", summary.as_str()));
        }
    }
}

impl Ui {
    /// The parents line of the detail pane of a task.
    fn parents_line_text(&self, task: &TaskView) -> (r: String)
        ensures
            r@ == parents_line(self.cache.tasks@, *task),
    {
        let parents = self.cache.get_parents(task.snapshot.id);
        if parents.len() == 0 {
            let mut l = concat2("親: ", crate::display::decimal_text(task.snapshot.parents.len()).as_str());
            crate::text::push_str(&mut l, " 件（未読込）");
            l
        } else {
            let titles = shortened_titles(&parents, 15);
            concat2("親: ", crate::text::join_strings(&titles, ", ").as_str())
        }
    }

    /// The first lines of the detail pane of a task.
    fn detail_head_lines(&self, task: &TaskView, state_label: &str) -> (r: Vec<String>)
        ensures
            views(r@) == detail_head(self.cache.tasks@, *task, state_label@),
    {
        let s = &task.snapshot;
        let mut out: Vec<String> = Vec::new();
        out.push(owned(s.title.as_str()));
        out.push(concat2("ID: ", s.id.to_text().as_str()));
        out.push(concat2("状態: ", state_label));
        let ghost head = views(out@);
        if s.labels.len() > 0 {
            out.push(concat2("ラベル: ", crate::text::join_strings(&s.labels, ", ").as_str()));
        }
        let ghost with_labels = views(out@);
        if s.assignees.len() > 0 {
            out.push(concat2("担当者: ", crate::text::join_strings(&s.assignees, ", ").as_str()));
        }
        let ghost with_assignees = views(out@);
        if s.parents.len() > 0 {
            out.push(self.parents_line_text(task));
        }
        proof {
            assert(head =~= seq![s.title@, "ID: "@ + crate::task::uuid_text(s.id.value), "状態: "@ + state_label@]);
            assert(with_labels =~= head + line_if(s.labels@.len() > 0, "ラベル: "@ + join(views(s.labels@), ", "@)));
            assert(with_assignees =~= with_labels + line_if(
                s.assignees@.len() > 0,
                "担当者: "@ + join(views(s.assignees@), ", "@),
            ));
            assert(views(out@) =~= with_assignees + line_if(
                s.parents@.len() > 0,
                parents_line(self.cache.tasks@, *task),
            ));
        }
        out
    }

    /// The last lines of the detail pane of a task.
    fn detail_tail_lines(&self, task: &TaskView) -> (r: Vec<String>)
        ensures
            views(r@) == detail_tail(self.cache.tasks@, *task),
    {
        let s = &task.snapshot;
        let children = self.cache.get_children(s.id);
        let child_count = children.len();
        let mut out: Vec<String> = Vec::new();
        if child_count > 0 {
            let mut l = concat2("子タスク: ", crate::display::decimal_text(child_count).as_str());
            crate::text::push_str(&mut l, " 件");
            out.push(l);
        }
        let ghost with_children = views(out@);
        match task.last_updated {
            Some(u) => {
                let time = match crate::filter::display_datetime(u) {
                    Some(t) => t,
                    None => String::new(),
                };
                out.push(concat2("更新: ", time.as_str()));
            },
            None => {},
        }
        let ghost with_time = views(out@);
        out.push(String::new());
        out.push(owned("説明:"));
        let ghost with_heading = views(out@);
        let mut desc = if s.description.as_str().is_empty() {
            let mut v: Vec<String> = Vec::new();
            v.push(owned("説明はまだありません。"));
            assert(views(v@) =~= seq!["説明はまだありません。"@]);
            v
        } else {
            crate::display::text_lines(s.description.as_str())
        };
        let ghost d = views(desc@);
        out.append(&mut desc);
        proof {
            let tasks = self.cache.tasks@;
            assert(child_count == resolve_ids(tasks, children_ids(tasks, s.id)).len());
            assert(d == description_part(s.description@));
            assert(with_heading =~= with_time + seq![Seq::<char>::empty(), "説明:"@]);
            assert(views(out@) =~= with_heading + d);
        }
        out
    }

    /// The lines of the detail pane of a task, whose state the workflow
    /// shows as `state_label`: title, identifier and state; labels,
    /// assignees, parents and the number of children when there are any;
    /// the last update when known; then the description.
    pub fn detail_lines(&self, task: &TaskView, state_label: &str) -> (r: Vec<String>)
        ensures
            views(r@) == detail_pane(self.cache.tasks@, *task, state_label@),
    {
        let mut out = self.detail_head_lines(task, state_label);
        let mut tail = self.detail_tail_lines(task);
        let ghost a = views(out@);
        let ghost b = views(tail@);
        out.append(&mut tail);
        assert(views(out@) =~= a + b);
        out
    }

    /// The breadcrumb of the task `id`: `Home`, its parents' shortened
    /// titles, and `現在`.
    pub fn breadcrumb(&self, id: TaskId) -> (r: String)
        ensures
            r@ == breadcrumb_text(self.cache.tasks@, id),
    {
        let parents = self.cache.get_parents(id);
        let mut parts: Vec<String> = Vec::new();
        parts.push(owned("Home"));
        let mut titles = shortened_titles(&parents, 20);
        let ghost a = views(parts@);
        let ghost b = views(titles@);
        parts.append(&mut titles);
        parts.push(owned("現在"));
        assert(views(parts@) =~= seq!["Home"@] + short_titles(parent_tasks(self.cache.tasks@, id), 20)
            + seq!["現在"@]);
        crate::text::join_strings(&parts, " > ")
    }
}

} // verus!
