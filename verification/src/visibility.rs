//! Which tasks the task list shows, and which of them is selected.
use vstd::prelude::*;

use crate::event_log::Actor;
use crate::task::{TaskId, TaskSnapshot};

verus! {

/// Actor-written comment on a task.
#[derive(Debug, Clone)]
pub struct TaskComment {
    /// Actor who authored the comment.
    pub actor: Actor,
    /// Comment body in Markdown.
    pub body: String,
    /// Event time, in nanoseconds since the Unix epoch (UTC).
    pub ts: i128,
}

/// Materialized view of a task for rendering.
#[derive(Debug, Clone)]
pub struct TaskView {
    /// Current snapshot.
    pub snapshot: TaskSnapshot,
    /// Chronological comment history.
    pub comments: Vec<TaskComment>,
    /// Time of the most recent event, in nanoseconds since the Unix epoch.
    pub last_updated: Option<i128>,
}

/// The identifiers of a list of tasks.
pub open spec fn task_ids(tasks: Seq<TaskView>) -> Seq<TaskId> {
    tasks.map_values(|t: TaskView| t.snapshot.id)
}

/// Whether the filter result `matches` keeps task `i`; with no filter,
/// every task is kept, and a task beyond the results is not.
pub open spec fn is_kept(matches: Option<Seq<bool>>, i: int) -> bool {
    match matches {
        None => true,
        Some(m) => 0 <= i < m.len() && m[i],
    }
}

/// The positions, among the first `n` tasks, that are kept, in order.
pub open spec fn kept_positions(matches: Option<Seq<bool>>, n: nat) -> Seq<usize>
    decreases n,
{
    if n == 0 {
        Seq::<usize>::empty()
    } else {
        let before = kept_positions(matches, (n - 1) as nat);
        if is_kept(matches, n - 1) {
            before.push((n - 1) as usize)
        } else {
            before
        }
    }
}

/// The last position of `id` in `ids`, if it occurs.
pub open spec fn last_position(ids: Seq<TaskId>, id: TaskId) -> Option<int>
    decreases ids.len(),
{
    if ids.len() == 0 {
        None
    } else if ids.last() == id {
        Some(ids.len() - 1)
    } else {
        last_position(ids.drop_last(), id)
    }
}

/// A found last position is a position of `id`, and nothing after it is.
pub proof fn lemma_last_position(ids: Seq<TaskId>, id: TaskId)
    ensures
        last_position(ids, id) is None <==> !ids.contains(id),
        last_position(ids, id) matches Some(k) ==> 0 <= k < ids.len() && ids[k] == id && forall|
            j: int,
        |
            k < j < ids.len() ==> ids[j] != id,
    decreases ids.len(),
{
    if ids.len() > 0 {
        let rest = ids.drop_last();
        lemma_last_position(rest, id);
        if ids.last() != id {
            if ids.contains(id) {
                let j = choose|j: int| 0 <= j < ids.len() && ids[j] == id;
                assert(rest[j] == id);
            }
            if rest.contains(id) {
                let j = choose|j: int| 0 <= j < rest.len() && rest[j] == id;
                assert(ids[j] == id);
            }
            match last_position(rest, id) {
                Some(k) => {
                    assert(ids[k] == rest[k]);
                    assert forall|j: int| k < j < ids.len() implies ids[j] != id by {
                        if j < ids.len() - 1 {
                            assert(ids[j] == rest[j]);
                        }
                    }
                },
                None => {},
            }
        } else {
            assert(ids[ids.len() - 1] == id);
        }
    }
}

/// Every kept position is below `n`, and they ascend.
pub proof fn lemma_kept_positions(matches: Option<Seq<bool>>, n: nat)
    requires
        n <= usize::MAX,
    ensures
        kept_positions(matches, n).len() <= n,
        forall|k: int|
            0 <= k < kept_positions(matches, n).len() ==> #[trigger] kept_positions(matches, n)[k]
                < n && is_kept(matches, kept_positions(matches, n)[k] as int),
        forall|a: int, b: int|
            0 <= a < b < kept_positions(matches, n).len() ==> #[trigger] kept_positions(matches, n)[a]
                < #[trigger] kept_positions(matches, n)[b],
        forall|i: int| 0 <= i < n && is_kept(matches, i) ==> kept_positions(matches, n).contains(i as usize),
    decreases n,
{
    if n > 0 {
        lemma_kept_positions(matches, (n - 1) as nat);
        let before = kept_positions(matches, (n - 1) as nat);
        if is_kept(matches, n - 1) {
            let now = kept_positions(matches, n);
            assert(now == before.push((n - 1) as usize));
            assert(now[before.len() as int] == (n - 1) as usize);
            assert forall|k: int| 0 <= k < before.len() implies now[k] == before[k] by {}
            assert forall|i: int| 0 <= i < n && is_kept(matches, i) implies kept_positions(
                matches,
                n,
            ).contains(i as usize) by {
                if i < n - 1 {
                    let k = choose|k: int| 0 <= k < before.len() && before[k] == i as usize;
                    assert(kept_positions(matches, n)[k] == i as usize);
                } else {
                    assert(kept_positions(matches, n)[before.len() as int] == i as usize);
                }
            }
        }
    }
}

/// Task visibility under the current filter, and the selection among the
/// visible tasks.
#[derive(Debug)]
pub struct TaskVisibility {
    visible: Vec<usize>,
    visible_ids: Vec<TaskId>,
    selected: usize,
}

/// The visibility recomputed over `tasks` from filter results: every task
/// when there are none, otherwise the tasks whose result is `true`, in list
/// order; the selection on the last visible position of `preferred` when it
/// is visible, otherwise where it was, within the visible tasks.
pub open spec fn rebuilt(
    before: TaskVisibility,
    after: TaskVisibility,
    tasks: Seq<TaskView>,
    results: Option<Seq<bool>>,
    preferred: Option<TaskId>,
) -> bool {
    &&& after.positions() == kept_positions(results, tasks.len())
    &&& forall|k: int|
        0 <= k < after.ids().len() ==> #[trigger] after.ids()[k] == tasks[after.positions()[k] as int].snapshot.id
    &&& after.selection() == if after.positions().len() == 0 {
        0
    } else {
        match preferred {
            Some(id) => match last_position(after.ids(), id) {
                Some(k) => k,
                None => if before.selection() < after.positions().len() {
                    before.selection()
                } else {
                    after.positions().len() - 1
                },
            },
            None => if before.selection() < after.positions().len() {
                before.selection()
            } else {
                after.positions().len() - 1
            },
        }
    }
}

impl TaskVisibility {
    /// The positions, in the task list, of the visible tasks.
    pub closed spec fn positions(&self) -> Seq<usize> {
        self.visible@
    }

    /// The identifiers of the visible tasks.
    pub closed spec fn ids(&self) -> Seq<TaskId> {
        self.visible_ids@
    }

    /// The selected position among the visible tasks.
    pub closed spec fn selection(&self) -> int {
        self.selected as int
    }

    /// The selection is a visible position, or zero when nothing is visible,
    /// and every visible task has an identifier.
    pub closed spec fn wf(&self) -> bool {
        &&& self.visible@.len() == self.visible_ids@.len()
        &&& self.visible@.len() == 0 ==> self.selected == 0
        &&& self.visible@.len() > 0 ==> self.selected < self.visible@.len()
    }

    /// The selection stays within the visible tasks.
    pub proof fn lemma_wf(&self)
        requires
            self.wf(),
        ensures
            self.ids().len() == self.positions().len(),
            self.positions().len() == 0 ==> self.selection() == 0,
            self.positions().len() > 0 ==> 0 <= self.selection() < self.positions().len(),
    {
    }

    /// Nothing visible, nothing selected.
    pub fn new() -> (r: TaskVisibility)
        ensures
            r.wf(),
            r.positions().len() == 0,
            r.selection() == 0,
    {
        TaskVisibility { visible: Vec::new(), visible_ids: Vec::new(), selected: 0 }
    }

    /// Recompute the visible tasks: every task when `results` is `None` (no
    /// filter), otherwise the tasks whose filter result is `true`, in list
    /// order. The selection moves to the last visible position of
    /// `preferred` when it is visible, otherwise it stays where it was,
    /// within the visible tasks.
    pub fn rebuild(&mut self, tasks: &[TaskView], results: Option<&[bool]>, preferred: Option<TaskId>)
        requires
            old(self).wf(),
        ensures
            final(self).wf(),
            rebuilt(
                *old(self),
                *final(self),
                tasks@,
                match results {
                    Some(m) => Some(m@),
                    None => None,
                },
                preferred,
            ),
    {
        let ghost m = match results {
            Some(m) => Some(m@),
            None => None,
        };
        let mut visible: Vec<usize> = Vec::new();
        let mut ids: Vec<TaskId> = Vec::new();
        let mut i: usize = 0;
        while i < tasks.len()
            invariant
                i <= tasks@.len(),
                m == match results {
                    Some(mm) => Some(mm@),
                    None => None,
                },
                visible@ == kept_positions(m, i as nat),
                ids@.len() == visible@.len(),
                forall|k: int|
                    0 <= k < ids@.len() ==> #[trigger] ids@[k] == tasks@[visible@[k] as int].snapshot.id,
            decreases tasks@.len() - i,
        {
            let keep = match results {
                None => true,
                Some(mm) => i < mm.len() && mm[i],
            };
            if keep {
                visible.push(i);
                ids.push(tasks[i].snapshot.id);
            }
            i = i + 1;
        }
        let old_selected = self.selected;
        self.visible = visible;
        self.visible_ids = ids;
        if self.visible.len() == 0 {
            self.selected = 0;
            return;
        }
        let found = match preferred {
            Some(id) => self.last_position_of(id),
            None => None,
        };
        proof {
            match preferred {
                Some(id) => lemma_last_position(self.visible_ids@, id),
                None => {},
            }
        }
        self.selected = match found {
            Some(k) => k,
            None => if old_selected < self.visible.len() {
                old_selected
            } else {
                self.visible.len() - 1
            },
        };
    }

    /// The last visible position of `id`, if it is visible.
    fn last_position_of(&self, id: TaskId) -> (r: Option<usize>)
        requires
            self.visible@.len() == self.visible_ids@.len(),
        ensures
            r matches Some(k) ==> last_position(self.visible_ids@, id) == Some(k as int),
            r is None ==> last_position(self.visible_ids@, id) is None,
    {
        let mut k: usize = self.visible_ids.len();
        assert(self.visible_ids@.take(k as int) =~= self.visible_ids@);
        while k > 0
            invariant
                k <= self.visible_ids@.len(),
                last_position(self.visible_ids@, id) == last_position(
                    self.visible_ids@.take(k as int),
                    id,
                ),
            decreases k,
        {
            let ghost t = self.visible_ids@.take(k as int);
            assert(t.last() == self.visible_ids@[k - 1]);
            assert(t.drop_last() =~= self.visible_ids@.take(k - 1));
            if self.visible_ids[k - 1] == id {
                return Some(k - 1);
            }
            k = k - 1;
        }
        None
    }

    /// Whether any task is visible.
    pub fn has_visible_tasks(&self) -> (r: bool)
        ensures
            r == (self.positions().len() > 0),
    {
        self.visible.len() > 0
    }

    /// The positions of the visible tasks in the task list.
    pub fn visible_indexes(&self) -> (r: &[usize])
        ensures
            r@ == self.positions(),
    {
        self.visible.as_slice()
    }

    /// The visible tasks, in order; positions beyond `tasks` are skipped.
    pub fn visible_tasks<'a>(&self, tasks: &'a [TaskView]) -> (r: Vec<&'a TaskView>)
        ensures
            r@ == self.positions().filter(|p: usize| p < tasks@.len()).map_values(
                |p: usize| &tasks@[p as int],
            ),
    {
        let ghost keep = |p: usize| p < tasks@.len();
        let mut out: Vec<&'a TaskView> = Vec::new();
        let mut i: usize = 0;
        while i < self.visible.len()
            invariant
                i <= self.visible@.len(),
                keep == (|p: usize| p < tasks@.len()),
                out@ == self.visible@.take(i as int).filter(keep).map_values(
                    |p: usize| &tasks@[p as int],
                ),
            decreases self.visible@.len() - i,
        {
            let p = self.visible[i];
            proof {
                assert(self.visible@.take(i + 1) =~= self.visible@.take(i as int).push(p));
                self.visible@.take(i as int).lemma_filter_push(p, keep);
            }
            if p < tasks.len() {
                out.push(&tasks[p]);
                assert(out@ =~= self.visible@.take(i + 1).filter(keep).map_values(
                    |p: usize| &tasks@[p as int],
                ));
            } else {
                assert(out@ =~= self.visible@.take(i + 1).filter(keep).map_values(
                    |p: usize| &tasks@[p as int],
                ));
            }
            i = i + 1;
        }
        assert(self.visible@.take(self.visible@.len() as int) =~= self.visible@);
        out
    }

    /// Whether the task `id` is visible.
    pub fn contains(&self, id: TaskId) -> (r: bool)
        requires
            self.wf(),
        ensures
            r == self.ids().contains(id),
    {
        let r = self.last_position_of(id);
        proof {
            lemma_last_position(self.visible_ids@, id);
        }
        r.is_some()
    }

    /// The selected position among the visible tasks.
    pub fn selected_index(&self) -> (r: usize)
        ensures
            r == self.selection(),
    {
        self.selected
    }

    /// The selected task, if a task is visible.
    pub fn selected_task<'a>(&self, tasks: &'a [TaskView]) -> (r: Option<&'a TaskView>)
        requires
            self.wf(),
        ensures
            r is Some <==> self.positions().len() > 0 && self.positions()[self.selection()]
                < tasks@.len(),
            r matches Some(t) ==> *t == tasks@[self.positions()[self.selection()] as int],
    {
        if self.selected < self.visible.len() {
            let p = self.visible[self.selected];
            if p < tasks.len() {
                return Some(&tasks[p]);
            }
        }
        None
    }

    /// The identifier of the selected task, if a task is visible.
    pub fn selected_task_id(&self, tasks: &[TaskView]) -> (r: Option<TaskId>)
        requires
            self.wf(),
        ensures
            r is Some <==> self.positions().len() > 0 && self.positions()[self.selection()]
                < tasks@.len(),
            r matches Some(id) ==> id == tasks@[self.positions()[self.selection()] as int].snapshot.id,
    {
        match self.selected_task(tasks) {
            Some(t) => Some(t.snapshot.id),
            None => None,
        }
    }

    /// Move the selection one task down, staying on the last task.
    pub fn select_next(&mut self)
        requires
            old(self).wf(),
        ensures
            final(self).wf(),
            final(self).positions() == old(self).positions(),
            final(self).ids() == old(self).ids(),
            final(self).selection() == if old(self).selection() + 1 < old(self).positions().len() {
                old(self).selection() + 1
            } else {
                old(self).selection()
            },
    {
        if self.visible.len() == 0 {
            return;
        }
        if self.selected + 1 < self.visible.len() {
            self.selected = self.selected + 1;
        }
    }

    /// Move the selection one task up, staying on the first task.
    pub fn select_prev(&mut self)
        requires
            old(self).wf(),
        ensures
            final(self).wf(),
            final(self).positions() == old(self).positions(),
            final(self).ids() == old(self).ids(),
            final(self).selection() == if old(self).selection() > 0 {
                old(self).selection() - 1
            } else {
                old(self).selection()
            },
    {
        if self.visible.len() == 0 {
            return;
        }
        if self.selected > 0 {
            self.selected = self.selected - 1;
        }
    }

    /// Select the task `id` when it is visible (its last visible position);
    /// otherwise keep the selection.
    pub fn jump_to_task(&mut self, id: TaskId)
        requires
            old(self).wf(),
        ensures
            final(self).wf(),
            final(self).positions() == old(self).positions(),
            final(self).ids() == old(self).ids(),
            final(self).selection() == match last_position(old(self).ids(), id) {
                Some(k) => k,
                None => old(self).selection(),
            },
    {
        proof {
            lemma_last_position(self.visible_ids@, id);
        }
        match self.last_position_of(id) {
            Some(k) => self.selected = k,
            None => {},
        }
    }
}

impl Default for TaskVisibility {
    fn default() -> (r: Self)
        ensures
            r.wf(),
            r.positions().len() == 0,
            r.selection() == 0,
    {
        TaskVisibility::new()
    }
}

/// Moving down and then up returns to the same task, unless the selection
/// was already on the last visible task.
pub proof fn lemma_next_then_prev(before: TaskVisibility, moved: TaskVisibility, back: TaskVisibility)
    requires
        before.wf(),
        moved.positions() == before.positions(),
        moved.selection() == if before.selection() + 1 < before.positions().len() {
            before.selection() + 1
        } else {
            before.selection()
        },
        back.selection() == if moved.selection() > 0 {
            moved.selection() - 1
        } else {
            moved.selection()
        },
        before.selection() + 1 < before.positions().len(),
    ensures
        back.selection() == before.selection(),
{
}

/// After jumping to a visible task, that task is the selected one.
pub proof fn lemma_jump_selects(v: TaskVisibility, id: TaskId)
    requires
        v.wf(),
        v.ids().contains(id),
    ensures
        last_position(v.ids(), id) matches Some(k) && v.ids()[k] == id,
{
    lemma_last_position(v.ids(), id);
}

} // verus!
