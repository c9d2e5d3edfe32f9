//! The task tree shown in the tree view: nodes that can be expanded, and the
//! rows that the expanded nodes show.
use vstd::prelude::*;

use crate::task::TaskId;

verus! {

/// Tree node for hierarchical task display.
#[derive(Debug)]
pub struct TreeNode {
    /// Task ID.
    pub task_id: TaskId,
    /// Child nodes.
    pub children: Vec<TreeNode>,
    /// Whether this node is expanded.
    pub expanded: bool,
}

/// One level deeper; the depth of a row is held in a `usize`, which no tree
/// that fits in memory reaches the end of.
pub open spec fn deeper(depth: int) -> int {
    if depth < usize::MAX {
        depth + 1
    } else {
        depth
    }
}

/// The rows a node shows at `depth`: itself, then, when expanded, the rows
/// of its children one level deeper.
pub open spec fn node_rows(node: TreeNode, depth: int) -> Seq<(int, TaskId)>
    decreases node,
{
    seq![(depth, node.task_id)] + if node.expanded {
        forest_rows(node.children@, deeper(depth))
    } else {
        Seq::<(int, TaskId)>::empty()
    }
}

/// The rows of a list of nodes at `depth`, one node after the other.
pub open spec fn forest_rows(nodes: Seq<TreeNode>, depth: int) -> Seq<(int, TaskId)>
    decreases nodes,
{
    if nodes.len() == 0 {
        Seq::<(int, TaskId)>::empty()
    } else {
        forest_rows(nodes.drop_last(), depth) + node_rows(nodes.last(), depth)
    }
}

/// Whether the subtree of `node` holds the task `id`.
pub open spec fn holds(node: TreeNode, id: TaskId) -> bool
    decreases node,
{
    node.task_id == id || forest_holds(node.children@, id)
}

/// Whether one of the subtrees holds the task `id`.
pub open spec fn forest_holds(nodes: Seq<TreeNode>, id: TaskId) -> bool
    decreases nodes,
{
    if nodes.len() == 0 {
        false
    } else {
        forest_holds(nodes.drop_last(), id) || holds(nodes.last(), id)
    }
}

/// The first of the subtrees, from position `i` on, that holds `id`.
pub open spec fn first_holding(nodes: Seq<TreeNode>, id: TaskId, i: int) -> Option<int>
    decreases nodes.len() - i,
{
    if i < 0 || i >= nodes.len() {
        None
    } else if holds(nodes[i], id) {
        Some(i)
    } else {
        first_holding(nodes, id, i + 1)
    }
}

/// Whether the rows show the task `id`.
pub open spec fn shows(rows: Seq<(int, TaskId)>, id: TaskId) -> bool {
    exists|k: int| 0 <= k < rows.len() && (#[trigger] rows[k]).1 == id
}


/// A list of subtrees holds `id` exactly when one of them does.
pub proof fn lemma_forest_holds(nodes: Seq<TreeNode>, id: TaskId)
    ensures
        forest_holds(nodes, id) <==> exists|i: int| 0 <= i < nodes.len() && holds(#[trigger] nodes[i], id),
    decreases nodes.len(),
{
    if nodes.len() > 0 {
        lemma_forest_holds(nodes.drop_last(), id);
        if forest_holds(nodes.drop_last(), id) {
            let i = choose|i: int| 0 <= i < nodes.len() - 1 && holds(#[trigger] nodes.drop_last()[i], id);
            assert(nodes[i] == nodes.drop_last()[i]);
        }
        if exists|i: int| 0 <= i < nodes.len() && holds(#[trigger] nodes[i], id) {
            let i = choose|i: int| 0 <= i < nodes.len() && holds(#[trigger] nodes[i], id);
            if i < nodes.len() - 1 {
                assert(nodes.drop_last()[i] == nodes[i]);
            }
        }
    }
}

/// Whether the subtree of `node` holds the task `id`.
pub fn holds_task(node: &TreeNode, id: TaskId) -> (r: bool)
    ensures
        r == holds(*node, id),
    decreases *node,
{
    if node.task_id == id {
        return true;
    }
    let mut i: usize = 0;
    while i < node.children.len()
        invariant
            i <= node.children@.len(),
            forest_holds(node.children@.take(i as int), id) == false,
        decreases node.children@.len() - i,
    {
        let ghost t = node.children@.take(i + 1);
        assert(t.drop_last() =~= node.children@.take(i as int));
        assert(t.last() == node.children@[i as int]);
        if holds_task(&node.children[i], id) {
            proof {
                lemma_forest_holds(node.children@, id);
                assert(holds(node.children@[i as int], id));
            }
            return true;
        }
        i = i + 1;
    }
    assert(node.children@.take(node.children@.len() as int) =~= node.children@);
    false
}

/// The position of the first subtree that holds `id`, if one does.
fn first_holding_position(nodes: &Vec<TreeNode>, id: TaskId) -> (r: Option<usize>)
    ensures
        r is None <==> !forest_holds(nodes@, id),
        r matches Some(i) ==> i < nodes@.len() && holds(nodes@[i as int], id) && forall|k: int|
            0 <= k < i ==> !holds(#[trigger] nodes@[k], id),
{
    let mut i: usize = 0;
    while i < nodes.len()
        invariant
            i <= nodes@.len(),
            forall|k: int| 0 <= k < i ==> !holds(#[trigger] nodes@[k], id),
        decreases nodes@.len() - i,
    {
        if holds_task(&nodes[i], id) {
            proof {
                lemma_forest_holds(nodes@, id);
                assert(holds(nodes@[i as int], id));
            }
            return Some(i);
        }
        i = i + 1;
    }
    proof {
        lemma_forest_holds(nodes@, id);
    }
    None
}

/// Expand the nodes on the path to the first node of `id` below `node`, so
/// that the node's rows show it. Returns whether the subtree holds `id`; a
/// subtree that does not is left as it was.
pub fn expand_path_to_task(node: &mut TreeNode, id: TaskId) -> (r: bool)
    ensures
        r == holds(*old(node), id),
        !r ==> *final(node) == *old(node),
        final(node).task_id == old(node).task_id,
        old(node).expanded ==> final(node).expanded,
        r ==> forall|d: int| #[trigger] shows(node_rows(*final(node), d), id),
    decreases *old(node),
{
    if node.task_id == id {
        proof {
            assert forall|d: int| #[trigger] shows(node_rows(*node, d), id) by {
                assert(node_rows(*node, d)[0] == (d, id));
            }
        }
        return true;
    }
    let found = first_holding_position(&node.children, id);
    let i = match found {
        None => return false,
        Some(i) => i,
    };
    let mut child = node.children.remove(i);
    let inner = expand_path_to_task(&mut child, id);
    let ghost c = child;
    node.children.insert(i, child);
    node.expanded = true;
    proof {
        assert(node.children@[i as int] == c);
        assert forall|d: int| #[trigger] shows(node_rows(*node, d), id) by {
            assert(shows(node_rows(c, deeper(d)), id));
            lemma_forest_rows_part(node.children@, deeper(d), i as int, id);
            let rest = forest_rows(node.children@, deeper(d));
            let k = choose|k: int| 0 <= k < rest.len() && (#[trigger] rest[k]).1 == id;
            let all = node_rows(*node, d);
            assert(all == seq![(d, node.task_id)] + rest);
            assert(all[k + 1] == rest[k]);
        }
    }
    true
}


/// The first node of the task `id` in the subtree of `node`, in depth-first
/// order.
pub open spec fn found_in(node: TreeNode, id: TaskId) -> Option<TreeNode>
    decreases node,
{
    if node.task_id == id {
        Some(node)
    } else {
        forest_found(node.children@, id)
    }
}

/// The first node of the task `id` in a list of subtrees, in depth-first
/// order.
pub open spec fn forest_found(nodes: Seq<TreeNode>, id: TaskId) -> Option<TreeNode>
    decreases nodes,
{
    if nodes.len() == 0 {
        None
    } else {
        match forest_found(nodes.drop_last(), id) {
            Some(n) => Some(n),
            None => found_in(nodes.last(), id),
        }
    }
}

/// A node is found exactly when the subtree holds the task, and a found
/// node is a node of the task.
pub proof fn lemma_found_in(node: TreeNode, id: TaskId)
    ensures
        found_in(node, id) is Some <==> holds(node, id),
        found_in(node, id) matches Some(n) ==> n.task_id == id,
    decreases node, 0nat,
{
    if node.task_id != id {
        lemma_forest_found(node.children@, id);
    }
}

/// The forest version of [`lemma_found_in`].
pub proof fn lemma_forest_found(nodes: Seq<TreeNode>, id: TaskId)
    ensures
        forest_found(nodes, id) is Some <==> forest_holds(nodes, id),
        forest_found(nodes, id) matches Some(n) ==> n.task_id == id,
    decreases nodes, 1nat,
{
    if nodes.len() > 0 {
        lemma_forest_found(nodes.drop_last(), id);
        lemma_found_in(nodes.last(), id);
    }
}

/// Replacing the first subtree that holds `id` by one whose first node of
/// `id` is `n` makes `n` the first node of `id` of the list.
proof fn lemma_forest_found_update(nodes: Seq<TreeNode>, id: TaskId, i: int, c: TreeNode, n: TreeNode)
    requires
        0 <= i < nodes.len(),
        forall|k: int| 0 <= k < i ==> !holds(#[trigger] nodes[k], id),
        found_in(c, id) == Some(n),
    ensures
        forest_found(nodes.update(i, c), id) == Some(n),
    decreases nodes.len(),
{
    let u = nodes.update(i, c);
    if i == nodes.len() - 1 {
        assert(u.drop_last() =~= nodes.drop_last());
        assert(!forest_holds(nodes.drop_last(), id)) by {
            lemma_forest_holds(nodes.drop_last(), id);
            if forest_holds(nodes.drop_last(), id) {
                let k = choose|k: int| 0 <= k < nodes.len() - 1 && holds(#[trigger] nodes.drop_last()[k], id);
                assert(nodes[k] == nodes.drop_last()[k]);
            }
        }
        lemma_forest_found(nodes.drop_last(), id);
    } else {
        assert(u.drop_last() =~= nodes.drop_last().update(i, c));
        assert forall|k: int| 0 <= k < i implies !holds(#[trigger] nodes.drop_last()[k], id) by {
            assert(nodes.drop_last()[k] == nodes[k]);
        }
        lemma_forest_found_update(nodes.drop_last(), id, i, c, n);
    }
}

/// Set the expansion of the first node of `id` below `node`. Returns whether
/// the subtree holds `id`; a subtree that does not is left as it was.
fn set_expanded_in(node: &mut TreeNode, id: TaskId, expanded: bool) -> (r: bool)
    ensures
        r == holds(*old(node), id),
        !r ==> *final(node) == *old(node),
        r ==> (found_in(*final(node), id) matches Some(n) && found_in(*old(node), id) matches Some(
            o,
        ) && n.task_id == id && n.expanded == expanded && n.children == o.children),
    decreases *old(node),
{
    if node.task_id == id {
        node.expanded = expanded;
        return true;
    }
    let found = first_holding_position(&node.children, id);
    let i = match found {
        None => return false,
        Some(i) => i,
    };
    let ghost before = node.children@;
    let mut child = node.children.remove(i);
    let inner = set_expanded_in(&mut child, id, expanded);
    let ghost c = child;
    node.children.insert(i, child);
    proof {
        assert(node.children@ =~= before.update(i as int, c));
        let n = found_in(c, id)->0;
        lemma_forest_found_update(before, id, i as int, c, n);
        lemma_forest_found_update(before, id, i as int, before[i as int], found_in(before[i as int], id)->0);
        assert(before.update(i as int, before[i as int]) =~= before);
    }
    true
}


/// The first node of `id` below `node`, in depth-first order.
fn find_in<'a>(node: &'a TreeNode, id: TaskId) -> (r: Option<&'a TreeNode>)
    ensures
        r is None <==> found_in(*node, id) is None,
        r matches Some(n) ==> found_in(*node, id) == Some(*n),
    decreases *node,
{
    if node.task_id == id {
        return Some(node);
    }
    proof {
        lemma_forest_found(node.children@, id);
    }
    match first_holding_position(&node.children, id) {
        None => None,
        Some(i) => {
            proof {
                lemma_found_in(node.children@[i as int], id);
                let c = node.children@[i as int];
                lemma_forest_found_update(node.children@, id, i as int, c, found_in(c, id)->0);
                assert(node.children@.update(i as int, c) =~= node.children@);
            }
            find_in(&node.children[i], id)
        },
    }
}

/// State for tree view navigation.
#[derive(Debug)]
pub struct TreeViewState {
    /// Root nodes of the tree.
    pub roots: Vec<TreeNode>,
    /// The visible rows: depth and task of each.
    pub visible_nodes: Vec<(usize, TaskId)>,
    /// Currently selected row.
    pub selected: usize,
}

/// The rows as depths and tasks.
pub open spec fn rows_view(rows: Seq<(usize, TaskId)>) -> Seq<(int, TaskId)> {
    rows.map_values(|r: (usize, TaskId)| (r.0 as int, r.1))
}

/// The rows of a list of nodes contain those of each node.
proof fn lemma_forest_rows_part(nodes: Seq<TreeNode>, depth: int, i: int, id: TaskId)
    requires
        0 <= i < nodes.len(),
        shows(node_rows(nodes[i], depth), id),
    ensures
        shows(forest_rows(nodes, depth), id),
    decreases nodes.len(),
{
    let before = forest_rows(nodes.drop_last(), depth);
    let last = node_rows(nodes.last(), depth);
    assert(forest_rows(nodes, depth) == before + last);
    if i == nodes.len() - 1 {
        let k = choose|k: int| 0 <= k < last.len() && (#[trigger] last[k]).1 == id;
        assert((before + last)[before.len() + k] == last[k]);
    } else {
        assert(nodes.drop_last()[i] == nodes[i]);
        lemma_forest_rows_part(nodes.drop_last(), depth, i, id);
        let k = choose|k: int| 0 <= k < before.len() && (#[trigger] before[k]).1 == id;
        assert((before + last)[k] == before[k]);
    }
}

impl TreeViewState {
    /// An empty tree.
    pub fn new() -> (r: TreeViewState)
        ensures
            r.roots@.len() == 0,
            r.visible_nodes@.len() == 0,
            r.selected == 0,
    {
        TreeViewState { roots: Vec::new(), visible_nodes: Vec::new(), selected: 0 }
    }

    /// Recompute the visible rows from the roots.
    pub fn rebuild_visible_nodes(&mut self)
        ensures
            final(self).roots == old(self).roots,
            final(self).selected == old(self).selected,
            rows_view(final(self).visible_nodes@) == forest_rows(old(self).roots@, 0),
    {
        let mut rows: Vec<(usize, TaskId)> = Vec::new();
        collect_forest_rows(&self.roots, 0, &mut rows);
        assert(rows_view(rows@) =~= forest_rows(self.roots@, 0));
        self.visible_nodes = rows;
    }

    /// Expand the ancestors of the first node of `id` so that the rows of
    /// the tree show it, when the tree holds it; otherwise leave the tree.
    pub fn expand_to_task(&mut self, id: TaskId)
        ensures
            final(self).visible_nodes == old(self).visible_nodes,
            final(self).selected == old(self).selected,
            final(self).roots@.len() == old(self).roots@.len(),
            forall|i: int|
                0 <= i < old(self).roots@.len() && (#[trigger] old(self).roots@[i]).expanded
                    ==> final(self).roots@[i].expanded,
            forall|i: int|
                0 <= i < old(self).roots@.len() ==> (#[trigger] final(self).roots@[i]).task_id == old(
                    self,
                ).roots@[i].task_id,
            forest_holds(old(self).roots@, id) ==> shows(forest_rows(final(self).roots@, 0), id),
            !forest_holds(old(self).roots@, id) ==> final(self).roots@ == old(self).roots@,
    {
        let found = first_holding_position(&self.roots, id);
        let i = match found {
            None => return,
            Some(i) => i,
        };
        let ghost before = self.roots@;
        let mut root = self.roots.remove(i);
        let r = expand_path_to_task(&mut root, id);
        let ghost c = root;
        self.roots.insert(i, root);
        proof {
            assert(self.roots@[i as int] == c);
            assert(shows(node_rows(c, 0), id));
            lemma_forest_rows_part(self.roots@, 0, i as int, id);
            assert(self.roots@ =~= before.update(i as int, c));
        }
    }

    /// The first node of `id` in the tree, in depth-first order.
    pub fn find_node(&self, id: TaskId) -> (r: Option<&TreeNode>)
        ensures
            r is None <==> forest_found(self.roots@, id) is None,
            r matches Some(n) ==> forest_found(self.roots@, id) == Some(*n),
    {
        proof {
            lemma_forest_found(self.roots@, id);
        }
        match first_holding_position(&self.roots, id) {
            None => None,
            Some(i) => {
                proof {
                    lemma_found_in(self.roots@[i as int], id);
                    let c = self.roots@[i as int];
                    lemma_forest_found_update(self.roots@, id, i as int, c, found_in(c, id)->0);
                    assert(self.roots@.update(i as int, c) =~= self.roots@);
                }
                find_in(&self.roots[i], id)
            },
        }
    }

    /// Expand or collapse the first node of `id` in the tree. Returns
    /// whether the tree holds `id`; a tree that does not is left as it was.
    pub fn set_node_expanded(&mut self, id: TaskId, expanded: bool) -> (r: bool)
        ensures
            final(self).visible_nodes == old(self).visible_nodes,
            final(self).selected == old(self).selected,
            r == forest_holds(old(self).roots@, id),
            !r ==> final(self).roots@ == old(self).roots@,
            r ==> (forest_found(final(self).roots@, id) matches Some(n) && forest_found(
                old(self).roots@,
                id,
            ) matches Some(o) && n.task_id == id && n.expanded == expanded && n.children
                == o.children),
    {
        let found = first_holding_position(&self.roots, id);
        let i = match found {
            None => return false,
            Some(i) => i,
        };
        let ghost before = self.roots@;
        let mut root = self.roots.remove(i);
        let inner = set_expanded_in(&mut root, id, expanded);
        let ghost c = root;
        self.roots.insert(i, root);
        proof {
            assert(self.roots@ =~= before.update(i as int, c));
            lemma_forest_found_update(before, id, i as int, c, found_in(c, id)->0);
            lemma_forest_found_update(
                before,
                id,
                i as int,
                before[i as int],
                found_in(before[i as int], id)->0,
            );
            assert(before.update(i as int, before[i as int]) =~= before);
        }
        true
    }

    /// The task of the selected row, if any.
    pub fn selected_task_id(&self) -> (r: Option<TaskId>)
        ensures
            r is Some <==> self.selected < self.visible_nodes@.len(),
            r matches Some(id) ==> id == self.visible_nodes@[self.selected as int].1,
    {
        if self.selected < self.visible_nodes.len() {
            Some(self.visible_nodes[self.selected].1)
        } else {
            None
        }
    }
}

fn collect_forest_rows(nodes: &Vec<TreeNode>, depth: usize, rows: &mut Vec<(usize, TaskId)>)
    ensures
        rows_view(final(rows)@) == rows_view(old(rows)@) + forest_rows(nodes@, depth as int),
    decreases nodes@, 1nat,
{
    let ghost start = rows_view(rows@);
    let mut i: usize = 0;
    while i < nodes.len()
        invariant
            i <= nodes@.len(),
            rows_view(rows@) == start + forest_rows(nodes@.take(i as int), depth as int),
        decreases nodes@.len() - i,
    {
        let ghost t = nodes@.take(i + 1);
        assert(t.drop_last() =~= nodes@.take(i as int));
        assert(t.last() == nodes@[i as int]);
        collect_node_rows(&nodes[i], depth, rows);
        i = i + 1;
    }
    assert(nodes@.take(nodes@.len() as int) =~= nodes@);
}

fn collect_node_rows(node: &TreeNode, depth: usize, rows: &mut Vec<(usize, TaskId)>)
    ensures
        rows_view(final(rows)@) == rows_view(old(rows)@) + node_rows(*node, depth as int),
    decreases *node, 0nat,
{
    let ghost start = rows@;
    rows.push((depth, node.task_id));
    assert(rows_view(rows@) =~= rows_view(start) + seq![(depth as int, node.task_id)]);
    if node.expanded {
        let next = if depth < usize::MAX {
            depth + 1
        } else {
            depth
        };
        collect_forest_rows(&node.children, next, rows);
    }
}

} // verus!
