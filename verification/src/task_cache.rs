//! The loaded task list: its order, and the parent and child relations
//! between its tasks.
use vstd::prelude::*;

use crate::task::TaskId;
use crate::visibility::{last_position, lemma_last_position, task_ids, TaskView};

verus! {

broadcast use vstd::seq_lib::group_to_multiset_ensures;

/// Whether task `a` comes strictly before task `b` in the task list: the
/// more recently updated first, tasks never updated last, and among those
/// the smaller identifier first.
pub open spec fn precedes(a: TaskView, b: TaskView) -> bool {
    match (a.last_updated, b.last_updated) {
        (Some(x), Some(y)) => x > y,
        (Some(_), None) => true,
        (None, Some(_)) => false,
        (None, None) => a.snapshot.id.value < b.snapshot.id.value,
    }
}

/// No task comes after a task that should follow it.
pub open spec fn in_list_order(s: Seq<TaskView>) -> bool {
    forall|i: int, j: int| 0 <= i < j < s.len() ==> !precedes(#[trigger] s[j], #[trigger] s[i])
}

/// `precedes` is a strict order.
pub proof fn lemma_precedes_strict(a: TaskView, b: TaskView, c: TaskView)
    ensures
        !precedes(a, a),
        precedes(a, b) ==> !precedes(b, a),
        precedes(a, b) && precedes(b, c) ==> precedes(a, c),
{
}

/// Whether `a` comes strictly before `b`.
pub fn task_precedes(a: &TaskView, b: &TaskView) -> (r: bool)
    ensures
        r == precedes(*a, *b),
{
    match (a.last_updated, b.last_updated) {
        (Some(x), Some(y)) => x > y,
        (Some(_), None) => true,
        (None, Some(_)) => false,
        (None, None) => a.snapshot.id.value < b.snapshot.id.value,
    }
}

/// Put the tasks in list order: most recently updated first, tasks never
/// updated last, ordered among themselves by identifier.
pub fn sort_task_views(views: Vec<TaskView>) -> (r: Vec<TaskView>)
    ensures
        in_list_order(r@),
        r@.to_multiset() == views@.to_multiset(),
{
    let mut rest = views;
    let mut out: Vec<TaskView> = Vec::new();
    let ghost all = rest@;
    while rest.len() > 0
        invariant
            in_list_order(out@),
            out@.to_multiset().add(rest@.to_multiset()) == all.to_multiset(),
        decreases rest@.len(),
    {
        let ghost rest0 = rest@;
        let x = rest.remove(0);
        proof {
            assert(rest0.remove(0) == rest@);
            assert(rest0[0] == x);
        }
        let mut p: usize = 0;
        while p < out.len()
            invariant
                p <= out@.len(),
                in_list_order(out@),
                forall|k: int| 0 <= k < p ==> !precedes(x, #[trigger] out@[k]),
            ensures
                p <= out@.len(),
                forall|k: int| 0 <= k < p ==> !precedes(x, #[trigger] out@[k]),
                p < out@.len() ==> precedes(x, out@[p as int]),
            decreases out@.len() - p,
        {
            if task_precedes(&x, &out[p]) {
                break;
            }
            p = p + 1;
        }
        let ghost before = out@;
        proof {
            assert forall|k: int| p <= k < before.len() implies !precedes(#[trigger] before[k], x) by {
                lemma_precedes_strict(before[k], x, before[p as int]);
                if k > p {
                    assert(!precedes(before[k], before[p as int]));
                }
            }
        }
        out.insert(p, x);
        proof {
            assert(out@ == before.insert(p as int, x));
            assert forall|i: int, j: int| 0 <= i < j < out@.len() implies !precedes(
                #[trigger] out@[j],
                #[trigger] out@[i],
            ) by {
                if j < p {
                    assert(out@[i] == before[i] && out@[j] == before[j]);
                } else if j == p {
                    assert(out@[i] == before[i]);
                    lemma_precedes_strict(x, before[i], x);
                } else if i == p {
                    assert(out@[j] == before[j - 1]);
                } else if i < p {
                    assert(out@[i] == before[i] && out@[j] == before[j - 1]);
                } else {
                    assert(out@[i] == before[i - 1] && out@[j] == before[j - 1]);
                }
            }
            vstd::seq_lib::to_multiset_insert(before, p as int, x);
            vstd::seq_lib::to_multiset_remove(rest0, 0);
            assert(rest0.to_multiset() == rest@.to_multiset().insert(x)) by {
                assert(rest0.to_multiset().remove(x).insert(x) =~= rest0.to_multiset());
            }
            assert(out@.to_multiset().add(rest@.to_multiset()) =~= before.to_multiset().add(
                rest0.to_multiset(),
            ));
        }
    }
    proof {
        assert(rest@.to_multiset() =~= vstd::multiset::Multiset::<TaskView>::empty());
        assert(out@.to_multiset().add(rest@.to_multiset()) =~= out@.to_multiset());
    }
    out
}

/// The position of the task `id` in the list: its last occurrence.
pub open spec fn position_of(tasks: Seq<TaskView>, id: TaskId) -> Option<int> {
    last_position(task_ids(tasks), id)
}


/// The first position, from `i` on, of the task `id`.
pub open spec fn first_position(tasks: Seq<TaskView>, id: TaskId, i: int) -> Option<int>
    decreases tasks.len() - i,
{
    if i < 0 || i >= tasks.len() {
        None
    } else if tasks[i].snapshot.id == id {
        Some(i)
    } else {
        first_position(tasks, id, i + 1)
    }
}


/// A first position found is a position of the task.
pub proof fn lemma_first_position(tasks: Seq<TaskView>, id: TaskId, i: int)
    ensures
        first_position(tasks, id, i) matches Some(k) ==> i <= k < tasks.len() && tasks[k].snapshot.id
            == id,
    decreases tasks.len() - i,
{
    if 0 <= i < tasks.len() && tasks[i].snapshot.id != id {
        lemma_first_position(tasks, id, i + 1);
    }
}

/// The parents recorded for the task `id`, if the list has it.
pub open spec fn parents_of(tasks: Seq<TaskView>, id: TaskId) -> Option<Seq<TaskId>> {
    match position_of(tasks, id) {
        Some(i) => Some(tasks[i].snapshot.parents@),
        None => None,
    }
}

/// The tasks, in list order, that name `id` among their parents.
pub open spec fn children_ids(tasks: Seq<TaskView>, id: TaskId) -> Seq<TaskId>
    decreases tasks.len(),
{
    if tasks.len() == 0 {
        Seq::<TaskId>::empty()
    } else {
        let before = children_ids(tasks.drop_last(), id);
        if tasks.last().snapshot.parents@.contains(id) {
            before.push(tasks.last().snapshot.id)
        } else {
            before
        }
    }
}

/// The tasks at the positions of the given identifiers that the list has.
pub open spec fn resolve_ids(tasks: Seq<TaskView>, ids: Seq<TaskId>) -> Seq<TaskView>
    decreases ids.len(),
{
    if ids.len() == 0 {
        Seq::<TaskView>::empty()
    } else {
        let before = resolve_ids(tasks, ids.drop_last());
        match position_of(tasks, ids.last()) {
            Some(i) => before.push(tasks[i]),
            None => before,
        }
    }
}

/// `b` is a parent of `a` in the list.
pub open spec fn parent_edge(tasks: Seq<TaskView>, a: TaskId, b: TaskId) -> bool {
    match parents_of(tasks, a) {
        Some(ps) => ps.contains(b),
        None => false,
    }
}

/// `p` is a chain of parent links.
pub open spec fn is_parent_chain(tasks: Seq<TaskView>, p: Seq<TaskId>) -> bool {
    forall|k: int| 0 <= k < p.len() - 1 ==> parent_edge(tasks, #[trigger] p[k], p[k + 1])
}

/// `b` is `a` or one of its ancestors.
pub open spec fn is_ancestor_or_self(tasks: Seq<TaskView>, a: TaskId, b: TaskId) -> bool {
    exists|p: Seq<TaskId>|
        p.len() >= 1 && p[0] == a && p.last() == b && #[trigger] is_parent_chain(tasks, p)
}

/// A task with no recorded parent.
pub open spec fn is_top(tasks: Seq<TaskView>, id: TaskId) -> bool {
    match parents_of(tasks, id) {
        Some(ps) => ps.len() == 0,
        None => true,
    }
}


/// The number of `true` entries.
pub open spec fn count_true(s: Seq<bool>) -> nat
    decreases s.len(),
{
    if s.len() == 0 {
        0
    } else {
        count_true(s.drop_last()) + if s.last() {
            1nat
        } else {
            0nat
        }
    }
}

pub proof fn lemma_count_true(s: Seq<bool>, i: int)
    requires
        0 <= i < s.len(),
        !s[i],
    ensures
        count_true(s) < s.len(),
        count_true(s.update(i, true)) == count_true(s) + 1,
    decreases s.len(),
{
    let t = s.update(i, true);
    if i < s.len() - 1 {
        lemma_count_true(s.drop_last(), i);
        assert(t.drop_last() =~= s.drop_last().update(i, true));
    } else {
        assert(t.drop_last() =~= s.drop_last());
        lemma_count_true_bound(s.drop_last());
    }
}

proof fn lemma_count_zero(s: Seq<bool>)
    requires
        forall|k: int| 0 <= k < s.len() ==> !s[k],
    ensures
        count_true(s) == 0,
    decreases s.len(),
{
    if s.len() > 0 {
        lemma_count_zero(s.drop_last());
    }
}

proof fn lemma_count_true_bound(s: Seq<bool>)
    ensures
        count_true(s) <= s.len(),
    decreases s.len(),
{
    if s.len() > 0 {
        lemma_count_true_bound(s.drop_last());
    }
}

/// The breadth-first walk up the parent links: `queue` holds the tasks
/// met so far in order, `head` the next one to visit and `seen` the
/// positions visited. Visiting a task the list does not have ends the walk
/// with none; a task visited before is passed over; a task without parents
/// is the result; otherwise its parents join the end of the queue.
pub open spec fn root_walk(tasks: Seq<TaskView>, queue: Seq<TaskId>, head: int, seen: Seq<bool>) -> Option<int>
    decreases tasks.len() - count_true(seen), queue.len() - head,
    when seen.len() == tasks.len() && 0 <= head
{
    if head >= queue.len() {
        None
    } else {
        match position_of(tasks, queue[head]) {
            None => None,
            Some(i) => if 0 <= i < seen.len() && !seen[i] {
                if tasks[i].snapshot.parents@.len() == 0 {
                    Some(i)
                } else {
                    proof {
                        lemma_count_true(seen, i);
                    }
                    root_walk(tasks, queue + tasks[i].snapshot.parents@, head + 1, seen.update(i, true))
                }
            } else {
                root_walk(tasks, queue, head + 1, seen)
            },
        }
    }
}

/// Nothing visited yet, over `n` positions.
pub open spec fn none_seen(n: nat) -> Seq<bool> {
    Seq::new(n, |k: int| false)
}

/// The position of the root the walk from the task `id` finds, if any.
pub open spec fn root_position(tasks: Seq<TaskView>, id: TaskId) -> Option<int> {
    root_walk(tasks, seq![id], 0, none_seen(tasks.len()))
}

/// Extending a chain of parent links to `current` by a parent of `current`.
proof fn lemma_extend_chain(tasks: Seq<TaskView>, id: TaskId, current: TaskId, p: TaskId)
    requires
        is_ancestor_or_self(tasks, id, current),
        parent_edge(tasks, current, p),
    ensures
        is_ancestor_or_self(tasks, id, p),
{
    let w = choose|w: Seq<TaskId>|
        w.len() >= 1 && w[0] == id && w.last() == current && #[trigger] is_parent_chain(tasks, w);
    let w2 = w.push(p);
    assert forall|k: int| 0 <= k < w2.len() - 1 implies parent_edge(tasks, #[trigger] w2[k], w2[k + 1]) by {
        if k < w.len() - 1 {
            assert(w2[k] == w[k] && w2[k + 1] == w[k + 1]);
        } else {
            assert(w2[k] == current && w2[k + 1] == p);
        }
    }
    assert(is_parent_chain(tasks, w2));
}

/// A task is its own ancestor-or-self.
proof fn lemma_self_chain(tasks: Seq<TaskView>, id: TaskId)
    ensures
        is_ancestor_or_self(tasks, id, id),
{
    let w = seq![id];
    assert(is_parent_chain(tasks, w));
}

/// The loaded tasks in list order, with their relations.
#[derive(Debug)]
pub struct TaskCache {
    /// The tasks, most recently updated first.
    pub tasks: Vec<TaskView>,
}

impl TaskCache {
    /// Order the given tasks into a list.
    pub fn from_views(views: Vec<TaskView>) -> (r: TaskCache)
        ensures
            in_list_order(r.tasks@),
            r.tasks@.to_multiset() == views@.to_multiset(),
    {
        TaskCache { tasks: sort_task_views(views) }
    }

    /// The position of the task `id`.
    pub fn index_of(&self, id: TaskId) -> (r: Option<usize>)
        ensures
            r matches Some(i) ==> position_of(self.tasks@, id) == Some(i as int),
            r is None ==> position_of(self.tasks@, id) is None,
    {
        let ghost ids = task_ids(self.tasks@);
        let mut k: usize = self.tasks.len();
        assert(ids.take(k as int) =~= ids);
        while k > 0
            invariant
                k <= self.tasks@.len(),
                ids == task_ids(self.tasks@),
                last_position(ids, id) == last_position(ids.take(k as int), id),
            decreases k,
        {
            let ghost t = ids.take(k as int);
            assert(t.drop_last() =~= ids.take(k - 1));
            assert(t.last() == self.tasks@[k - 1].snapshot.id);
            if self.tasks[k - 1].snapshot.id == id {
                return Some(k - 1);
            }
            k = k - 1;
        }
        None
    }


    /// The first task of the list with the identifier `id`.
    pub fn find_task(&self, id: TaskId) -> (r: Option<&TaskView>)
        ensures
            r is None <==> first_position(self.tasks@, id, 0) is None,
            r matches Some(t) ==> (first_position(self.tasks@, id, 0) matches Some(i) && *t
                == self.tasks@[i]),
    {
        let mut i: usize = 0;
        while i < self.tasks.len()
            invariant
                i <= self.tasks@.len(),
                first_position(self.tasks@, id, 0) == first_position(self.tasks@, id, i as int),
            decreases self.tasks@.len() - i,
        {
            if self.tasks[i].snapshot.id == id {
                return Some(&self.tasks[i]);
            }
            i = i + 1;
        }
        None
    }

    /// The parents recorded for the task `id`, if the list has it.
    pub fn parents_of(&self, id: TaskId) -> (r: Option<&Vec<TaskId>>)
        ensures
            r is Some <==> parents_of(self.tasks@, id) is Some,
            r matches Some(ps) ==> Some(ps@) == parents_of(self.tasks@, id),
    {
        match self.index_of(id) {
            Some(i) => {
                proof {
                    lemma_last_position(task_ids(self.tasks@), id);
                }
                Some(&self.tasks[i].snapshot.parents)
            },
            None => None,
        }
    }

    /// The identifiers of the tasks, in list order, that name `id` among
    /// their parents.
    pub fn children_of(&self, id: TaskId) -> (r: Vec<TaskId>)
        ensures
            r@ == children_ids(self.tasks@, id),
    {
        let mut out: Vec<TaskId> = Vec::new();
        let mut i: usize = 0;
        while i < self.tasks.len()
            invariant
                i <= self.tasks@.len(),
                out@ == children_ids(self.tasks@.take(i as int), id),
            decreases self.tasks@.len() - i,
        {
            let ghost t = self.tasks@.take(i + 1);
            assert(t.drop_last() =~= self.tasks@.take(i as int));
            assert(t.last() == self.tasks@[i as int]);
            let ps = &self.tasks[i].snapshot.parents;
            let mut found = false;
            let mut j: usize = 0;
            while j < ps.len()
                invariant
                    j <= ps@.len(),
                    found <==> exists|k: int| 0 <= k < j && ps@[k] == id,
                decreases ps@.len() - j,
            {
                if ps[j] == id {
                    found = true;
                }
                j = j + 1;
            }
            if found {
                let ghost k = choose|k: int| 0 <= k < ps@.len() && ps@[k] == id;
                assert(ps@.contains(id));
            }
            if found {
                out.push(self.tasks[i].snapshot.id);
            }
            i = i + 1;
        }
        assert(self.tasks@.take(self.tasks@.len() as int) =~= self.tasks@);
        out
    }

    /// The tasks, in order, for those of the identifiers that the list has.
    fn resolve<'a>(&'a self, ids: &Vec<TaskId>) -> (r: Vec<&'a TaskView>)
        ensures
            r@.map_values(|t: &TaskView| *t) == resolve_ids(self.tasks@, ids@),
    {
        let mut out: Vec<&'a TaskView> = Vec::new();
        let mut i: usize = 0;
        while i < ids.len()
            invariant
                i <= ids@.len(),
                out@.map_values(|t: &TaskView| *t) == resolve_ids(self.tasks@, ids@.take(i as int)),
            decreases ids@.len() - i,
        {
            let ghost t = ids@.take(i + 1);
            assert(t.drop_last() =~= ids@.take(i as int));
            assert(t.last() == ids@[i as int]);
            let ghost before = out@;
            match self.index_of(ids[i]) {
                Some(k) => {
                    proof {
                        lemma_last_position(task_ids(self.tasks@), ids@[i as int]);
                    }
                    out.push(&self.tasks[k]);
                    assert(out@.map_values(|t: &TaskView| *t) =~= before.map_values(
                        |t: &TaskView| *t,
                    ).push(self.tasks@[k as int]));
                },
                None => {},
            }
            i = i + 1;
        }
        assert(ids@.take(ids@.len() as int) =~= ids@);
        out
    }

    /// The parent tasks of the task `id` that the list has.
    pub fn get_parents(&self, id: TaskId) -> (r: Vec<&TaskView>)
        ensures
            r@.map_values(|t: &TaskView| *t) == match parents_of(self.tasks@, id) {
                Some(ps) => resolve_ids(self.tasks@, ps),
                None => Seq::<TaskView>::empty(),
            },
    {
        match self.parents_of(id) {
            Some(ps) => self.resolve(ps),
            None => {
                let v: Vec<&TaskView> = Vec::new();
                assert(v@.map_values(|t: &TaskView| *t) =~= Seq::<TaskView>::empty());
                v
            },
        }
    }

    /// The child tasks of the task `id`, in list order.
    pub fn get_children(&self, id: TaskId) -> (r: Vec<&TaskView>)
        ensures
            r@.map_values(|t: &TaskView| *t) == resolve_ids(self.tasks@, children_ids(self.tasks@, id)),
    {
        let ids = self.children_of(id);
        self.resolve(&ids)
    }

    /// The topmost ancestor of the task `id`, searching parent links breadth
    /// first and stopping at the first task met that has no parent: the task
    /// itself when it has none. No task is returned when the search meets
    /// a parent the list does not have, or when every ancestor has a parent
    /// (a cycle).
    pub fn get_root(&self, id: TaskId) -> (r: Option<&TaskView>)
        ensures
            match root_position(self.tasks@, id) {
                Some(i) => r matches Some(t) && *t == self.tasks@[i],
                None => r is None,
            },
            r matches Some(t) ==> exists|x: TaskId|
                #![trigger is_ancestor_or_self(self.tasks@, id, x)]
                is_ancestor_or_self(self.tasks@, id, x) && is_top(self.tasks@, x) && (
                position_of(self.tasks@, x) matches Some(i) && *t == self.tasks@[i]),
            is_top(self.tasks@, id) ==> match position_of(self.tasks@, id) {
                Some(i) => r matches Some(t) && *t == self.tasks@[i],
                None => r is None,
            },
    {
        let ghost tasks = self.tasks@;
        let n = self.tasks.len();
        let mut seen: Vec<bool> = Vec::new();
        while seen.len() < n
            invariant
                seen@.len() <= n,
                forall|k: int| 0 <= k < seen@.len() ==> !seen@[k],
            decreases n - seen@.len(),
        {
            seen.push(false);
        }
        proof {
            assert(count_true(seen@) == 0) by {
                lemma_count_zero(seen@);
            }
            lemma_self_chain(tasks, id);
            assert(seen@ =~= none_seen(n as nat));
        }
        let mut unseen: usize = n;
        let mut queue: Vec<TaskId> = Vec::new();
        queue.push(id);
        assert(queue@ =~= seq![id]);
        let mut head: usize = 0;
        while head < queue.len()
            invariant
                root_position(tasks, id) == root_walk(tasks, queue@, head as int, seen@),
                tasks == self.tasks@,
                n == tasks.len(),
                seen@.len() == n,
                unseen + count_true(seen@) == n,
                head <= queue@.len(),
                queue@.len() >= 1,
                queue@[0] == id,
                head > 0 ==> !is_top(tasks, id),
                head == 0 ==> forall|k: int| 0 <= k < seen@.len() ==> !seen@[k],
                forall|k: int| 0 <= k < queue@.len() ==> is_ancestor_or_self(tasks, id, #[trigger] queue@[k]),
            decreases unseen, queue@.len() - head,
        {
            let current = queue[head];
            let ghost q0 = queue@;
            let ghost h0 = head as int;
            let ghost s0 = seen@;
            head = head + 1;
            let found = self.index_of(current);
            proof {
                lemma_last_position(task_ids(tasks), current);
            }
            let i = match found {
                None => return None,
                Some(i) => i,
            };
            if seen[i] {
                continue;
            }
            proof {
                lemma_count_true(seen@, i as int);
            }
            seen.set(i, true);
            unseen = unseen - 1;
            let ps = &self.tasks[i].snapshot.parents;
            if ps.len() == 0 {
                return Some(&self.tasks[i]);
            }
            let mut j: usize = 0;
            while j < ps.len()
                invariant
                    queue@ == q0 + ps@.take(j as int),
                    tasks == self.tasks@,
                    ps@ == tasks[i as int].snapshot.parents@,
                    position_of(tasks, current) == Some(i as int),
                    is_ancestor_or_self(tasks, id, current),
                    j <= ps@.len(),
                    head <= queue@.len(),
                    queue@.len() >= 1,
                    queue@[0] == id,
                    forall|k: int| 0 <= k < queue@.len() ==> is_ancestor_or_self(tasks, id, #[trigger] queue@[k]),
                decreases ps@.len() - j,
            {
                proof {
                    assert(ps@.contains(ps@[j as int]));
                    lemma_extend_chain(tasks, id, current, ps@[j as int]);
                }
                queue.push(ps[j]);
                assert(q0 + ps@.take(j + 1) =~= (q0 + ps@.take(j as int)).push(ps@[j as int]));
                j = j + 1;
            }
            assert(ps@.take(ps@.len() as int) =~= ps@);
            assert(seen@ == s0.update(i as int, true));
            assert(root_walk(tasks, q0, h0, s0) == root_walk(tasks, queue@, head as int, seen@));
        }
        None
    }
}

} // verus!
