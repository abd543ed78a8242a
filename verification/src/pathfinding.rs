//! Grid pathfinding over discovered terrain knowledge.
//!
//! `find_path` is an exact breadth-first search over the 4-connected grid in
//! which a cell is traversable iff it is known-empty (the goal itself is
//! always considered traversable, so an agent can plan a move adjacent to a
//! still-solid target). It returns a shortest path: no valid path through
//! the known terrain is shorter than the one returned, and whenever some
//! valid path exists one is found. `find_partial_path` is a depth-bounded
//! best-effort search that, when the goal is unreachable, leads toward the
//! visited cell closest to the goal by squared Euclidean distance; it too is
//! owed a result exactly when some cell within its depth bound improves on
//! the start's distance, and its endpoint is as close to the goal as
//! anything the bounded search can reach.

use vstd::prelude::*;

use crate::grid::{adjacent, dist_sq, distance, in_world, GridPos};
use crate::knowledge::WorldKnowledge;

verus! {

/// Depth bound of the best-effort search.
pub const PARTIAL_PATH_MAX_DEPTH: usize = 20;

/// One enqueued cell of a breadth-first search, linked to the cell it was
/// reached from. `depth` is its distance from the start in the search tree.
struct SearchNode {
    pos: GridPos,
    parent: usize,
    depth: usize,
}

/// A non-empty 4-connected walk that starts next to `start`, avoids `start`,
/// ends at `goal`, and crosses only known-empty cells (with `goal` itself
/// exempted).
pub open spec fn valid_path(
    k: &WorldKnowledge,
    start: GridPos,
    goal: GridPos,
    path: Seq<GridPos>,
) -> bool {
    &&& path.len() > 0
    &&& adjacent(start, path[0])
    &&& forall|i: int| 0 <= i < path.len() - 1 ==> adjacent(path[i], #[trigger] path[i + 1])
    &&& forall|i: int| 0 <= i < path.len() ==> #[trigger] path[i] == goal || k.is_empty_at(path[i])
    &&& !path.contains(start)
    &&& path[path.len() - 1] == goal
}

/// `p` is a valid path from `start` to `goal` of minimal length.
pub open spec fn shortest_path_ok(
    k: &WorldKnowledge,
    start: GridPos,
    goal: GridPos,
    p: Seq<GridPos>,
) -> bool {
    &&& valid_path(k, start, goal, p)
    &&& forall|q: Seq<GridPos>| #[trigger] valid_path(k, start, goal, q) ==> p.len() <= q.len()
}

/// Cell `c` can be reached from `a` in at most `d` orthogonal steps, each
/// onto a known-empty cell.
pub open spec fn reachable_within(k: &WorldKnowledge, a: GridPos, c: GridPos, d: nat) -> bool
    decreases d,
{
    if a == c {
        true
    } else if d == 0 {
        false
    } else {
        exists|b: GridPos|
            adjacent(a, b) && k.is_empty_at(b) && reachable_within(k, b, c, (d - 1) as nat)
    }
}

/// Some cell within the bounded search's reach is strictly closer to `goal`
/// than `start` is: the best-effort search is owed a result exactly then.
pub open spec fn partial_progress_possible(
    k: &WorldKnowledge,
    start: GridPos,
    goal: GridPos,
) -> bool {
    exists|c: GridPos|
        reachable_within(k, start, c, PARTIAL_PATH_MAX_DEPTH as nat) && dist_sq(c, goal) < dist_sq(
            start,
            goal,
        )
}

/// Everything the bounded best-effort search promises of a non-empty result
/// `p`: a duplicate-free 4-connected walk over known-empty cells, no longer
/// than the depth bound, that is a shortest route to its endpoint, and whose
/// endpoint is strictly closer to `goal` than `start` and at least as close
/// as every cell the bounded search can reach at all.
pub open spec fn partial_path_ok(
    k: &WorldKnowledge,
    start: GridPos,
    goal: GridPos,
    p: Seq<GridPos>,
) -> bool {
    &&& p.len() > 0
    &&& adjacent(start, p[0])
    &&& forall|i: int| 0 <= i < p.len() - 1 ==> adjacent(p[i], #[trigger] p[i + 1])
    &&& forall|i: int| 0 <= i < p.len() ==> k.is_empty_at(#[trigger] p[i])
    &&& !p.contains(start)
    &&& p.no_duplicates()
    &&& p.len() <= PARTIAL_PATH_MAX_DEPTH
    &&& dist_sq(p[p.len() - 1], goal) < dist_sq(start, goal)
    &&& reachable_within(k, start, p[p.len() - 1], PARTIAL_PATH_MAX_DEPTH as nat)
    &&& forall|c: GridPos|
        reachable_within(k, start, c, PARTIAL_PATH_MAX_DEPTH as nat) ==> dist_sq(
            p[p.len() - 1],
            goal,
        ) <= dist_sq(c, goal)
    &&& forall|q: Seq<GridPos>|
        #[trigger] valid_path(k, start, p[p.len() - 1], q) ==> p.len() <= q.len()
}

/// A bounded search whose goal is reachable within the depth bound ends
/// exactly at the goal: the endpoint minimizes the squared distance over
/// everything reachable, and only the goal itself is at distance zero. Its
/// length is then minimal among all valid paths to the goal, like the exact
/// search's.
pub proof fn lemma_partial_reaches_reachable_goal(
    k: &WorldKnowledge,
    start: GridPos,
    goal: GridPos,
    p: Seq<GridPos>,
)
    requires
        partial_path_ok(k, start, goal, p),
        reachable_within(k, start, goal, PARTIAL_PATH_MAX_DEPTH as nat),
    ensures
        p[p.len() - 1] == goal,
        forall|q: Seq<GridPos>| #[trigger] valid_path(k, start, goal, q) ==> p.len() <= q.len(),
{
    let end = p[p.len() - 1];
    assert(dist_sq(end, goal) <= dist_sq(goal, goal));
    assert(end.x == goal.x && end.y == goal.y) by (nonlinear_arith)
        requires
            (end.x - goal.x) * (end.x - goal.x) + (end.y - goal.y) * (end.y - goal.y) <= 0,
    ;
    assert(end == goal);
}

/// Reachability is monotone in the step bound.
proof fn lemma_reachable_monotone(k: &WorldKnowledge, a: GridPos, c: GridPos, d1: nat, d2: nat)
    requires
        reachable_within(k, a, c, d1),
        d1 <= d2,
    ensures
        reachable_within(k, a, c, d2),
    decreases d1,
{
    if a == c {
    } else {
        let b = choose|b: GridPos|
            adjacent(a, b) && k.is_empty_at(b) && reachable_within(k, b, c, (d1 - 1) as nat);
        lemma_reachable_monotone(k, b, c, (d1 - 1) as nat, (d2 - 1) as nat);
    }
}

/// A step appended at the far end keeps reachability.
proof fn lemma_reachable_step(k: &WorldKnowledge, a: GridPos, b: GridPos, c: GridPos, d: nat)
    requires
        reachable_within(k, a, b, d),
        adjacent(b, c),
        k.is_empty_at(c),
    ensures
        reachable_within(k, a, c, d + 1),
    decreases d,
{
    if a == b {
        assert(reachable_within(k, c, c, d));
    } else {
        let x = choose|x: GridPos|
            adjacent(a, x) && k.is_empty_at(x) && reachable_within(k, x, b, (d - 1) as nat);
        lemma_reachable_step(k, x, b, c, (d - 1) as nat);
    }
}

/// Whether the search may step onto `c`.
spec fn traversable(k: &WorldKnowledge, goal: GridPos, empty_only: bool, c: GridPos) -> bool {
    if empty_only {
        k.is_empty_at(c)
    } else {
        c == goal || k.is_empty_at(c)
    }
}

/// The node at index `i` was reached from an earlier node, one orthogonal
/// step away, over a traversable cell other than the start.
spec fn node_linked(
    nodes: Seq<SearchNode>,
    i: int,
    start: GridPos,
    goal: GridPos,
    k: &WorldKnowledge,
) -> bool {
    &&& nodes[i].parent < i
    &&& adjacent(nodes[nodes[i].parent as int].pos, nodes[i].pos)
    &&& (nodes[i].pos == goal || k.is_empty_at(nodes[i].pos))
    &&& nodes[i].pos != start
    &&& nodes[i].depth == nodes[nodes[i].parent as int].depth + 1
    &&& nodes[i].depth <= i
}

/// Structural invariant of the search vector: entry 0 is the start cell, and
/// every later entry was reached from an earlier one, one orthogonal step
/// away, over a traversable cell never seen twice.
spec fn bfs_wf(nodes: Seq<SearchNode>, start: GridPos, goal: GridPos, k: &WorldKnowledge) -> bool {
    &&& nodes.len() >= 1
    &&& nodes[0].pos == start
    &&& nodes[0].parent == 0
    &&& nodes[0].depth == 0
    &&& forall|i: int| 1 <= i < nodes.len() ==> #[trigger] node_linked(nodes, i, start, goal, k)
    &&& forall|i: int, j: int|
        0 <= i < nodes.len() && 0 <= j < nodes.len() && i != j ==> (#[trigger] nodes[i].pos) != (
        #[trigger] nodes[j].pos)
    &&& forall|i: int| 0 <= i < nodes.len() ==> in_world(#[trigger] nodes[i].pos)
}

/// Search-tree depths never decrease along the queue.
spec fn depths_monotone(nodes: Seq<SearchNode>) -> bool {
    forall|i: int, j: int|
        0 <= i <= j < nodes.len() ==> (#[trigger] nodes[i].depth) <= (#[trigger] nodes[j].depth)
}

/// The newest entry is at most one level deeper than the entry being
/// processed.
spec fn frontier_bounded(nodes: Seq<SearchNode>, cur: int) -> bool {
    nodes[nodes.len() - 1].depth <= nodes[cur].depth + 1
}

/// Some node covers position `q` at depth at most `d`.
spec fn covered(nodes: Seq<SearchNode>, q: GridPos, d: int) -> bool {
    exists|j: int| 0 <= j < nodes.len() && nodes[j].pos == q && nodes[j].depth <= d
}

/// Every traversable neighbour of node `i` is covered one level deeper: the
/// node has been fully expanded.
spec fn expanded(nodes: Seq<SearchNode>, i: int, goal: GridPos, k: &WorldKnowledge) -> bool {
    forall|q: GridPos|
        adjacent(nodes[i].pos, q) && (q == goal || k.is_empty_at(q)) ==> #[trigger] covered(
            nodes,
            q,
            nodes[i].depth + 1,
        )
}

/// Coverage survives appending nodes.
proof fn lemma_covered_monotone(pre: Seq<SearchNode>, post: Seq<SearchNode>, q: GridPos, d: int)
    requires
        covered(pre, q, d),
        pre.len() <= post.len(),
        forall|i: int| 0 <= i < pre.len() ==> post[i] == pre[i],
    ensures
        covered(post, q, d),
{
    let j = choose|j: int| 0 <= j < pre.len() && pre[j].pos == q && pre[j].depth <= d;
    assert(post[j] == pre[j]);
}

/// Expansion of a node survives appending nodes.
proof fn lemma_expanded_monotone(
    pre: Seq<SearchNode>,
    post: Seq<SearchNode>,
    i: int,
    goal: GridPos,
    k: &WorldKnowledge,
)
    requires
        0 <= i < pre.len(),
        expanded(pre, i, goal, k),
        pre.len() <= post.len(),
        forall|j: int| 0 <= j < pre.len() ==> post[j] == pre[j],
    ensures
        expanded(post, i, goal, k),
{
    assert(post[i] == pre[i]);
    assert forall|q: GridPos|
        adjacent(post[i].pos, q) && (q == goal || k.is_empty_at(q)) implies #[trigger] covered(
        post,
        q,
        post[i].depth + 1,
    ) by {
        assert(covered(pre, q, pre[i].depth + 1));
        lemma_covered_monotone(pre, post, q, pre[i].depth + 1);
    }
}

/// Every known-empty neighbour of node `i` is covered one level deeper: the
/// node has been fully expanded by the bounded search.
spec fn expanded_empty(nodes: Seq<SearchNode>, i: int, k: &WorldKnowledge) -> bool {
    forall|q: GridPos|
        adjacent(nodes[i].pos, q) && k.is_empty_at(q) ==> #[trigger] covered(
            nodes,
            q,
            nodes[i].depth + 1,
        )
}

/// Bounded expansion of a node survives appending nodes.
proof fn lemma_expanded_empty_monotone(
    pre: Seq<SearchNode>,
    post: Seq<SearchNode>,
    i: int,
    k: &WorldKnowledge,
)
    requires
        0 <= i < pre.len(),
        expanded_empty(pre, i, k),
        pre.len() <= post.len(),
        forall|j: int| 0 <= j < pre.len() ==> post[j] == pre[j],
    ensures
        expanded_empty(post, i, k),
{
    assert(post[i] == pre[i]);
    assert forall|q: GridPos|
        adjacent(post[i].pos, q) && k.is_empty_at(q) implies #[trigger] covered(
        post,
        q,
        post[i].depth + 1,
    ) by {
        assert(covered(pre, q, pre[i].depth + 1));
        lemma_covered_monotone(pre, post, q, pre[i].depth + 1);
    }
}

/// Each node's cell is reachable from the start within its search depth
/// (soundness of the search tree).
proof fn lemma_node_reachable(
    nodes: Seq<SearchNode>,
    i: int,
    start: GridPos,
    goal: GridPos,
    k: &WorldKnowledge,
)
    requires
        bfs_wf(nodes, start, goal, k),
        forall|j: int| 1 <= j < nodes.len() ==> k.is_empty_at((#[trigger] nodes[j]).pos),
        0 <= i < nodes.len(),
    ensures
        reachable_within(k, start, nodes[i].pos, nodes[i].depth as nat),
    decreases i,
{
    if i > 0 {
        assert(node_linked(nodes, i, start, goal, k));
        let p = nodes[i].parent as int;
        lemma_node_reachable(nodes, p, start, goal, k);
        lemma_reachable_step(k, start, nodes[p].pos, nodes[i].pos, nodes[p].depth as nat);
    }
}

/// Completeness of the bounded search: once the queue is exhausted, every
/// cell reachable within the remaining depth budget from some node is
/// covered within that budget.
proof fn lemma_reachable_covered(
    nodes: Seq<SearchNode>,
    start: GridPos,
    goal: GridPos,
    k: &WorldKnowledge,
    j: int,
    c: GridPos,
    d: nat,
)
    requires
        bfs_wf(nodes, start, goal, k),
        forall|i: int|
            0 <= i < nodes.len() && (#[trigger] nodes[i]).depth < PARTIAL_PATH_MAX_DEPTH
                ==> expanded_empty(nodes, i, k),
        0 <= j < nodes.len(),
        reachable_within(k, nodes[j].pos, c, d),
        nodes[j].depth + d <= PARTIAL_PATH_MAX_DEPTH,
    ensures
        covered(nodes, c, nodes[j].depth + d),
    decreases d,
{
    if nodes[j].pos == c {
        assert(covered(nodes, c, nodes[j].depth + d));
    } else {
        let b = choose|b: GridPos|
            adjacent(nodes[j].pos, b) && k.is_empty_at(b) && reachable_within(
                k,
                b,
                c,
                (d - 1) as nat,
            );
        assert(nodes[j].depth < PARTIAL_PATH_MAX_DEPTH);
        assert(expanded_empty(nodes, j, k));
        assert(covered(nodes, b, nodes[j].depth + 1));
        let l = choose|l: int|
            0 <= l < nodes.len() && nodes[l].pos == b && nodes[l].depth <= nodes[j].depth + 1;
        lemma_reachable_covered(nodes, start, goal, k, l, c, (d - 1) as nat);
        let m = choose|m: int|
            0 <= m < nodes.len() && nodes[m].pos == c && nodes[m].depth <= nodes[l].depth + (d - 1);
        assert(nodes[m].depth <= nodes[j].depth + d);
    }
}

/// Once every node shallower than the depth bound is expanded, each prefix
/// of an all-empty walk is covered one level deeper than its index, as long
/// as it stays within the bound.
proof fn lemma_empty_path_covered(
    nodes: Seq<SearchNode>,
    start: GridPos,
    goal: GridPos,
    k: &WorldKnowledge,
    p: Seq<GridPos>,
    t: int,
)
    requires
        bfs_wf(nodes, start, goal, k),
        forall|i: int|
            0 <= i < nodes.len() && (#[trigger] nodes[i]).depth < PARTIAL_PATH_MAX_DEPTH
                ==> expanded_empty(nodes, i, k),
        p.len() > 0,
        adjacent(start, p[0]),
        forall|i: int| 0 <= i < p.len() - 1 ==> adjacent(p[i], #[trigger] p[i + 1]),
        forall|i: int| 0 <= i < p.len() ==> k.is_empty_at(#[trigger] p[i]),
        0 <= t < p.len(),
        t + 1 <= PARTIAL_PATH_MAX_DEPTH,
    ensures
        covered(nodes, p[t], t + 1),
    decreases t,
{
    if t == 0 {
        assert(nodes[0].depth < PARTIAL_PATH_MAX_DEPTH);
        assert(expanded_empty(nodes, 0, k));
        assert(covered(nodes, p[0], nodes[0].depth + 1));
    } else {
        lemma_empty_path_covered(nodes, start, goal, k, p, t - 1);
        let j = choose|j: int| 0 <= j < nodes.len() && nodes[j].pos == p[t - 1] && nodes[j].depth
            <= t;
        assert(nodes[j].depth < PARTIAL_PATH_MAX_DEPTH);
        assert(expanded_empty(nodes, j, k));
        assert(adjacent(p[t - 1], p[t]));
        assert(covered(nodes, p[t], nodes[j].depth + 1));
        let l = choose|l: int|
            0 <= l < nodes.len() && nodes[l].pos == p[t] && nodes[l].depth <= nodes[j].depth + 1;
        assert(nodes[l].depth <= t + 1);
    }
}

/// Once every node of an exhausted search is expanded, each prefix of a
/// valid path is covered one level deeper than its index.
proof fn lemma_path_covered(
    nodes: Seq<SearchNode>,
    start: GridPos,
    goal: GridPos,
    k: &WorldKnowledge,
    p: Seq<GridPos>,
    t: int,
)
    requires
        bfs_wf(nodes, start, goal, k),
        forall|i: int| 0 <= i < nodes.len() ==> #[trigger] expanded(nodes, i, goal, k),
        valid_path(k, start, goal, p),
        0 <= t < p.len(),
    ensures
        covered(nodes, p[t], t + 1),
    decreases t,
{
    if t == 0 {
        assert(expanded(nodes, 0, goal, k));
        assert(p[0] == goal || k.is_empty_at(p[0]));
        assert(covered(nodes, p[0], nodes[0].depth + 1));
    } else {
        lemma_path_covered(nodes, start, goal, k, p, t - 1);
        let j = choose|j: int| 0 <= j < nodes.len() && nodes[j].pos == p[t - 1] && nodes[j].depth
            <= t;
        assert(expanded(nodes, j, goal, k));
        assert(adjacent(p[t - 1], p[t]));
        assert(p[t] == goal || k.is_empty_at(p[t]));
        assert(covered(nodes, p[t], nodes[j].depth + 1));
        let l = choose|l: int|
            0 <= l < nodes.len() && nodes[l].pos == p[t] && nodes[l].depth <= nodes[j].depth + 1;
        assert(nodes[l].depth <= t + 1);
    }
}

/// A no-duplicates sequence whose elements all lie in a base sequence plus
/// two extra cells is no longer than that base plus two.
proof fn lemma_nodes_bound(s: Seq<GridPos>, e: Seq<GridPos>, start: GridPos, goal: GridPos)
    requires
        s.no_duplicates(),
        forall|i: int| 0 <= i < s.len() ==> #[trigger] s[i] == start || s[i] == goal || e.contains(
            s[i],
        ),
    ensures
        s.len() <= e.len() + 2,
{
    broadcast use vstd::seq_lib::seq_to_set_is_finite;
    broadcast use vstd::set::group_set_axioms;

    let t = e.to_set().insert(start).insert(goal);
    s.unique_seq_to_set();
    e.lemma_cardinality_of_set();
    assert forall|p: GridPos| s.to_set().contains(p) implies t.contains(p) by {
        let i = choose|i: int| 0 <= i < s.len() && s[i] == p;
    }
    vstd::set_lib::lemma_len_subset(s.to_set(), t);
    assert(t.len() <= e.to_set().len() + 2);
}

/// Whether some node already covers position `p`.
fn node_pos_seen(nodes: &Vec<SearchNode>, p: GridPos) -> (r: bool)
    ensures
        r == exists|i: int| 0 <= i < nodes@.len() && (#[trigger] nodes@[i]).pos == p,
{
    let mut i: usize = 0;
    while i < nodes.len()
        invariant
            i <= nodes@.len(),
            forall|j: int| 0 <= j < i ==> (#[trigger] nodes@[j]).pos != p,
        decreases nodes@.len() - i,
    {
        if nodes[i].pos == p {
            return true;
        }
        i = i + 1;
    }
    false
}

/// Index of the node covering position `p`, if any.
fn node_pos_index(nodes: &Vec<SearchNode>, p: GridPos) -> (r: Option<usize>)
    ensures
        r matches Some(i) ==> i < nodes@.len() && nodes@[i as int].pos == p,
        r is None ==> forall|i: int| 0 <= i < nodes@.len() ==> (#[trigger] nodes@[i]).pos != p,
{
    let mut i: usize = 0;
    while i < nodes.len()
        invariant
            i <= nodes@.len(),
            forall|j: int| 0 <= j < i ==> (#[trigger] nodes@[j]).pos != p,
        decreases nodes@.len() - i,
    {
        if nodes[i].pos == p {
            return Some(i);
        }
        i = i + 1;
    }
    None
}

/// Enqueue the neighbour `n` of node `cur` unless it is not traversable or
/// already seen. Afterwards `n`, if traversable, is covered one level below
/// `cur`.
#[verifier::rlimit(50)]
fn try_enqueue(
    nodes: &mut Vec<SearchNode>,
    cur: usize,
    n: GridPos,
    start: GridPos,
    goal: GridPos,
    k: &WorldKnowledge,
    empty_only: bool,
)
    requires
        k.wf(),
        bfs_wf(old(nodes)@, start, goal, k),
        depths_monotone(old(nodes)@),
        frontier_bounded(old(nodes)@, cur as int),
        cur < old(nodes)@.len(),
        adjacent(old(nodes)@[cur as int].pos, n),
        in_world(goal),
    ensures
        bfs_wf(final(nodes)@, start, goal, k),
        depths_monotone(final(nodes)@),
        frontier_bounded(final(nodes)@, cur as int),
        old(nodes)@.len() <= final(nodes)@.len() <= old(nodes)@.len() + 1,
        forall|i: int| 0 <= i < old(nodes)@.len() ==> final(nodes)@[i] == old(nodes)@[i],
        traversable(k, goal, empty_only, n) ==> covered(
            final(nodes)@,
            n,
            old(nodes)@[cur as int].depth + 1,
        ),
        final(nodes)@.len() == old(nodes)@.len() + 1 ==> {
            &&& final(nodes)@[final(nodes)@.len() - 1].pos == n
            &&& final(nodes)@[final(nodes)@.len() - 1].depth == old(nodes)@[cur as int].depth + 1
            &&& (empty_only ==> k.is_empty_at(n))
        },
        forall|i: int|
            0 <= i < final(nodes)@.len() ==> #[trigger] final(nodes)@[i].pos == start
                || final(nodes)@[i].pos == goal || k.empty_seq().contains(final(nodes)@[i].pos),
{
    proof {
        assert forall|i: int| 0 <= i < nodes@.len() implies #[trigger] nodes@[i].pos == start
            || nodes@[i].pos == goal || k.empty_seq().contains(nodes@[i].pos) by {
            if 1 <= i && nodes@[i].pos != goal {
                assert(node_linked(nodes@, i, start, goal, k));
                assert(k.is_empty_at(nodes@[i].pos));
            }
        }
    }
    let traversable_here = if empty_only {
        k.is_empty(n)
    } else {
        n == goal || k.is_empty(n)
    };
    if traversable_here && !node_pos_seen(nodes, n) {
        proof {
            if !k.is_empty_at(n) {
                assert(n == goal);
            } else {
                assert(k.is_discovered(n));
            }
            assert(in_world(n));
        }
        let depth = nodes[cur].depth;
        proof {
            vstd::std_specs::vec::axiom_spec_len(nodes);
            if cur > 0 {
                assert(node_linked(nodes@, cur as int, start, goal, k));
            }
            assert(depth <= cur);
            assert(cur < nodes@.len() <= usize::MAX);
        }
        let ghost pre = nodes@;
        nodes.push(SearchNode { pos: n, parent: cur, depth: depth + 1 });
        proof {
            let s = nodes@;
            assert(s[s.len() - 1] == SearchNode { pos: n, parent: cur, depth: (depth + 1) as usize });
            assert forall|i: int| 0 <= i < s.len() - 1 implies s[i] == pre[i] by {}
            assert forall|i: int| 1 <= i < s.len() implies #[trigger] node_linked(
                s,
                i,
                start,
                goal,
                k,
            ) by {
                if i < s.len() - 1 {
                    assert(node_linked(pre, i, start, goal, k));
                    assert(s[i] == pre[i]);
                    assert(s[pre[i].parent as int] == pre[pre[i].parent as int]);
                } else {
                    assert(s[i].parent == cur);
                    assert(s[cur as int] == pre[cur as int]);
                    if cur > 0 {
                        assert(node_linked(pre, cur as int, start, goal, k));
                    }
                    assert(s[i].pos != start) by {
                        assert(pre[0].pos == start);
                    }
                }
            }
            assert forall|i: int, j: int|
                0 <= i < s.len() && 0 <= j < s.len() && i != j implies (#[trigger] s[i].pos) != (
            #[trigger] s[j].pos) by {
                if i < s.len() - 1 && j < s.len() - 1 {
                    assert(s[i] == pre[i] && s[j] == pre[j]);
                } else if j == s.len() - 1 {
                    assert(s[i] == pre[i]);
                } else {
                    assert(s[j] == pre[j]);
                }
            }
            assert forall|i: int| 0 <= i < s.len() implies in_world(#[trigger] s[i].pos) by {
                if i < s.len() - 1 {
                    assert(s[i] == pre[i]);
                }
            }
            assert(bfs_wf(s, start, goal, k));
            assert forall|i: int, j: int|
                0 <= i <= j < s.len() implies (#[trigger] s[i].depth) <= (
            #[trigger] s[j].depth) by {
                if j < s.len() - 1 {
                    assert(s[i] == pre[i] && s[j] == pre[j]);
                } else if i < s.len() - 1 {
                    assert(s[i] == pre[i]);
                    assert(pre[i].depth <= pre[pre.len() - 1].depth);
                }
            }
            assert(covered(s, n, pre[cur as int].depth + 1)) by {
                assert(s[s.len() - 1].pos == n);
            }
        }
    } else {
        proof {
            if traversable(k, goal, empty_only, n) {
                let j = choose|j: int| 0 <= j < nodes@.len() && nodes@[j].pos == n;
                assert(nodes@[j].depth <= nodes@[nodes@.len() - 1].depth);
                assert(nodes@[j].depth <= nodes@[cur as int].depth + 1);
                assert(covered(nodes@, n, nodes@[cur as int].depth + 1));
            }
        }
    }
}

/// Walk the parent links from `nodes[gi]` back to the start node and return
/// the visited cells in start-to-target order; the result has exactly as
/// many cells as the target node's search depth.
fn build_path(
    nodes: &Vec<SearchNode>,
    gi: usize,
    start: GridPos,
    goal: GridPos,
    k: &WorldKnowledge,
) -> (r: Vec<GridPos>)
    requires
        bfs_wf(nodes@, start, goal, k),
        0 < gi < nodes@.len(),
    ensures
        r@.len() > 0,
        r@.len() == nodes@[gi as int].depth,
        adjacent(start, r@[0]),
        forall|i: int| 0 <= i < r@.len() - 1 ==> adjacent(r@[i], #[trigger] r@[i + 1]),
        forall|i: int|
            0 <= i < r@.len() ==> exists|j: int|
                1 <= j < nodes@.len() && #[trigger] r@[i] == nodes@[j].pos,
        !r@.contains(start),
        r@.no_duplicates(),
        r@[r@.len() - 1] == nodes@[gi as int].pos,
{
    let mut rev: Vec<GridPos> = Vec::new();
    let mut i: usize = gi;
    while i != 0
        invariant
            bfs_wf(nodes@, start, goal, k),
            i < nodes@.len(),
            rev@.len() + nodes@[i as int].depth == nodes@[gi as int].depth,
            rev@.len() == 0 ==> i == gi,
            rev@.len() > 0 ==> rev@[0] == nodes@[gi as int].pos,
            rev@.len() > 0 ==> adjacent(nodes@[i as int].pos, rev@[rev@.len() - 1]),
            forall|j: int| 0 <= j < rev@.len() - 1 ==> adjacent(#[trigger] rev@[j + 1], rev@[j]),
            forall|j: int|
                0 <= j < rev@.len() ==> exists|l: int|
                    i < l < nodes@.len() && #[trigger] rev@[j] == nodes@[l].pos,
            forall|j1: int, j2: int|
                0 <= j1 < j2 < rev@.len() ==> (#[trigger] rev@[j1]) != (#[trigger] rev@[j2]),
            i == 0 ==> rev@.len() > 0,
        decreases i,
    {
        proof {
            assert(node_linked(nodes@, i as int, start, goal, k));
            assert forall|j: int| 0 <= j < rev@.len() implies rev@[j] != nodes@[i as int].pos by {
                let l = choose|l: int| i < l < nodes@.len() && rev@[j] == nodes@[l].pos;
                assert(nodes@[l].pos != nodes@[i as int].pos);
            }
        }
        let ghost rev_pre = rev@;
        let ghost i_pre = i as int;
        rev.push(nodes[i].pos);
        i = nodes[i].parent;
        proof {
            assert(rev@[rev@.len() - 1] == nodes@[i_pre].pos);
            assert forall|j: int| 0 <= j < rev@.len() - 1 implies rev@[j] == rev_pre[j] by {}
            assert forall|j: int|
                0 <= j < rev@.len() implies exists|l: int|
                i < l < nodes@.len() && #[trigger] rev@[j] == nodes@[l].pos by {
                if j < rev@.len() - 1 {
                    let l = choose|l: int| i_pre < l < nodes@.len() && rev_pre[j] == nodes@[l].pos;
                    assert(rev@[j] == nodes@[l].pos);
                } else {
                    assert(rev@[j] == nodes@[i_pre].pos);
                }
            }
        }
    }
    // rev holds the cells from the target back to (but excluding) the start;
    // emit them in forward order.
    let mut r: Vec<GridPos> = Vec::new();
    let n = rev.len();
    let mut j: usize = 0;
    while j < n
        invariant
            n == rev@.len(),
            j <= n,
            r@.len() == j,
            forall|l: int| 0 <= l < j ==> #[trigger] r@[l] == rev@[n - 1 - l],
        decreases n - j,
    {
        let ghost r_pre = r@;
        r.push(rev[n - 1 - j]);
        proof {
            assert forall|l: int| 0 <= l < r@.len() - 1 implies r@[l] == r_pre[l] by {}
        }
        j = j + 1;
    }
    proof {
        assert(r@[r@.len() - 1] == rev@[0]);
        assert(r@[0] == rev@[rev@.len() - 1]);
        assert forall|l: int|
            0 <= l < r@.len() - 1 implies adjacent(r@[l], #[trigger] r@[l + 1]) by {
            assert(r@[l] == rev@[n - 1 - l]);
            assert(r@[l + 1] == rev@[n - 1 - (l + 1)]);
            assert(adjacent(rev@[(n - 1 - l - 1) + 1], rev@[n - 1 - l - 1]));
        }
        assert forall|l: int|
            0 <= l < r@.len() implies exists|m: int|
            1 <= m < nodes@.len() && #[trigger] r@[l] == nodes@[m].pos by {
            assert(r@[l] == rev@[n - 1 - l]);
            let m = choose|m: int| 0 < m < nodes@.len() && rev@[n - 1 - l] == nodes@[m].pos;
        }
        assert forall|l1: int, l2: int|
            0 <= l1 < l2 < r@.len() implies r@[l1] != r@[l2] by {
            assert(r@[l1] == rev@[n - 1 - l1]);
            assert(r@[l2] == rev@[n - 1 - l2]);
            assert(rev@[n - 1 - l2] != rev@[n - 1 - l1]);
        }
        assert(r@.no_duplicates());
        if r@.contains(start) {
            let l = choose|l: int| 0 <= l < r@.len() && r@[l] == start;
            let m = choose|m: int| 1 <= m < nodes@.len() && r@[l] == nodes@[m].pos;
            assert(node_linked(nodes@, m, start, goal, k));
            assert(nodes@[m].pos != start);
            assert(false);
        }
    }
    r
}

/// Exact breadth-first search from `start` to `goal` over the 4-connected
/// grid, where a cell is traversable iff it is known-empty (the goal is
/// always traversable). Returns the cells of the path from `start` to `goal`
/// in order, excluding `start` and including `goal`; the empty vector means
/// `start == goal` or that no path exists. When any valid path through the
/// known terrain exists, one of minimal length is returned.
pub fn find_path(start: GridPos, goal: GridPos, knowledge: &WorldKnowledge) -> (r: Vec<GridPos>)
    requires
        knowledge.wf(),
        in_world(start),
        in_world(goal),
    ensures
        start == goal ==> r@.len() == 0,
        r@.len() > 0 ==> (shortest_path_ok(knowledge, start, goal, r@) && r@.no_duplicates()),
        start != goal ==> forall|p: Seq<GridPos>|
            #[trigger] valid_path(knowledge, start, goal, p) ==> 0 < r@.len() <= p.len(),
{
    if start == goal {
        return Vec::new();
    }
    let mut nodes: Vec<SearchNode> = Vec::new();
    nodes.push(SearchNode { pos: start, parent: 0, depth: 0 });
    let mut head: usize = 0;
    let ghost e = knowledge.empty_seq();
    while head < nodes.len()
        invariant
            knowledge.wf(),
            in_world(start),
            in_world(goal),
            start != goal,
            bfs_wf(nodes@, start, goal, knowledge),
            depths_monotone(nodes@),
            head <= nodes@.len(),
            head < nodes@.len() ==> frontier_bounded(nodes@, head as int),
            forall|i: int| 0 <= i < head ==> #[trigger] expanded(nodes@, i, goal, knowledge),
            nodes@.len() <= e.len() + 2,
            e == knowledge.empty_seq(),
            forall|i: int|
                0 <= i < nodes@.len() ==> #[trigger] nodes@[i].pos == start || nodes@[i].pos
                    == goal || e.contains(nodes@[i].pos),
        decreases e.len() + 2 - head,
    {
        let ghost n0 = nodes@;
        let cur = nodes[head].pos;
        try_enqueue(&mut nodes, head, GridPos { x: cur.x + 1, y: cur.y }, start, goal, knowledge, false);
        let ghost n1 = nodes@;
        try_enqueue(&mut nodes, head, GridPos { x: cur.x, y: cur.y + 1 }, start, goal, knowledge, false);
        let ghost n2 = nodes@;
        try_enqueue(&mut nodes, head, GridPos { x: cur.x - 1, y: cur.y }, start, goal, knowledge, false);
        let ghost n3 = nodes@;
        try_enqueue(&mut nodes, head, GridPos { x: cur.x, y: cur.y - 1 }, start, goal, knowledge, false);
        proof {
            let s = nodes@;
            let h = head as int;
            let d = n0[h].depth + 1;
            assert(s[h] == n0[h]);
            assert forall|q: GridPos|
                adjacent(s[h].pos, q) && (q == goal || knowledge.is_empty_at(
                    q,
                )) implies #[trigger] covered(s, q, s[h].depth + 1) by {
                if q == crate::grid::east(cur) {
                    lemma_covered_monotone(n1, s, q, d);
                } else if q == crate::grid::north(cur) {
                    lemma_covered_monotone(n2, s, q, d);
                } else if q == crate::grid::west(cur) {
                    lemma_covered_monotone(n3, s, q, d);
                } else {
                    assert(q == crate::grid::south(cur));
                }
            }
            assert(expanded(s, h, goal, knowledge));
            assert forall|i: int| 0 <= i < h + 1 implies #[trigger] expanded(
                s,
                i,
                goal,
                knowledge,
            ) by {
                if i < h {
                    lemma_expanded_monotone(n0, s, i, goal, knowledge);
                }
            }
            // Re-establish the frontier bound for the next head.
            if h + 1 < s.len() {
                assert(s[h + 1].depth >= s[h].depth);
            }
            let ps = s.map_values(|nd: SearchNode| nd.pos);
            assert forall|i: int, j: int|
                0 <= i < ps.len() && 0 <= j < ps.len() && i != j implies ps[i] != ps[j] by {
                assert(ps[i] == s[i].pos && ps[j] == s[j].pos);
            }
            assert forall|i: int| 0 <= i < ps.len() implies #[trigger] ps[i] == start || ps[i]
                == goal || e.contains(ps[i]) by {
                assert(ps[i] == s[i].pos);
            }
            lemma_nodes_bound(ps, e, start, goal);
        }
        head = head + 1;
    }
    match node_pos_index(&nodes, goal) {
        Some(gi) => {
            // goal != start, so the goal node cannot be the root.
            let r = build_path(&nodes, gi, start, goal, knowledge);
            proof {
                assert forall|i: int| 0 <= i < r@.len() implies #[trigger] r@[i] == goal
                    || knowledge.is_empty_at(r@[i]) by {
                    let j = choose|j: int| 1 <= j < nodes@.len() && r@[i] == nodes@[j].pos;
                    assert(node_linked(nodes@, j, start, goal, knowledge));
                }
                assert forall|p: Seq<GridPos>| #[trigger] valid_path(
                    knowledge,
                    start,
                    goal,
                    p,
                ) implies 0 < r@.len() <= p.len() by {
                    lemma_path_covered(nodes@, start, goal, knowledge, p, p.len() - 1);
                    let j = choose|j: int|
                        0 <= j < nodes@.len() && nodes@[j].pos == p[p.len() - 1] && nodes@[j].depth
                            <= p.len();
                    assert(nodes@[j].pos == goal);
                    if j != gi {
                        assert(nodes@[j].pos != nodes@[gi as int].pos);
                        assert(false);
                    }
                    assert(r@.len() == nodes@[gi as int].depth <= p.len());
                }
            }
            r
        },
        None => {
            proof {
                assert forall|p: Seq<GridPos>| !valid_path(knowledge, start, goal, p) by {
                    if valid_path(knowledge, start, goal, p) {
                        lemma_path_covered(nodes@, start, goal, knowledge, p, p.len() - 1);
                        let j = choose|j: int|
                            0 <= j < nodes@.len() && nodes@[j].pos == p[p.len() - 1]
                                && nodes@[j].depth <= p.len();
                        assert(nodes@[j].pos == goal);
                        assert(false);
                    }
                }
            }
            Vec::new()
        },
    }
}

/// Depth-bounded breadth-first search from `start` over known-empty cells
/// that leads toward the reachable cell closest to `goal` by squared
/// Euclidean distance (earliest-enqueued cell on ties). The result is empty
/// exactly when no cell within the depth bound improves on the start's own
/// distance; a non-empty result is a shortest, duplicate-free path to an
/// endpoint that is at least as close to `goal` as anything the bounded
/// search can reach.
pub fn find_partial_path(start: GridPos, goal: GridPos, knowledge: &WorldKnowledge) -> (r: Vec<
    GridPos,
>)
    requires
        knowledge.wf(),
        in_world(start),
        in_world(goal),
    ensures
        r@.len() > 0 <==> partial_progress_possible(knowledge, start, goal),
        r@.len() > 0 ==> partial_path_ok(knowledge, start, goal, r@),
{
    let mut nodes: Vec<SearchNode> = Vec::new();
    nodes.push(SearchNode { pos: start, parent: 0, depth: 0 });
    let mut head: usize = 0;
    let mut best_idx: usize = 0;
    let mut best_d: i64 = distance(start, goal);
    let ghost e = knowledge.empty_seq();
    while head < nodes.len()
        invariant
            knowledge.wf(),
            in_world(start),
            in_world(goal),
            bfs_wf(nodes@, start, goal, knowledge),
            depths_monotone(nodes@),
            head <= nodes@.len(),
            head < nodes@.len() ==> frontier_bounded(nodes@, head as int),
            nodes@.len() <= e.len() + 2,
            e == knowledge.empty_seq(),
            forall|i: int|
                0 <= i < nodes@.len() ==> #[trigger] nodes@[i].pos == start || nodes@[i].pos
                    == goal || e.contains(nodes@[i].pos),
            forall|i: int| 1 <= i < nodes@.len() ==> knowledge.is_empty_at(
                (#[trigger] nodes@[i]).pos,
            ),
            forall|i: int| 0 <= i < nodes@.len() ==> (#[trigger] nodes@[i]).depth
                <= PARTIAL_PATH_MAX_DEPTH,
            forall|i: int|
                0 <= i < head && (#[trigger] nodes@[i]).depth < PARTIAL_PATH_MAX_DEPTH
                    ==> expanded_empty(nodes@, i, knowledge),
            forall|i: int| 0 <= i < head ==> best_d <= dist_sq((#[trigger] nodes@[i]).pos, goal),
            best_idx < nodes@.len(),
            best_d == dist_sq(nodes@[best_idx as int].pos, goal),
            best_d <= dist_sq(start, goal),
            best_idx != 0 ==> best_d < dist_sq(start, goal),
        decreases e.len() + 2 - head,
    {
        let ghost n0 = nodes@;
        let cur = nodes[head].pos;
        let d = distance(cur, goal);
        if d < best_d {
            best_d = d;
            best_idx = head;
        }
        let ghost expand_here = nodes@[head as int].depth < PARTIAL_PATH_MAX_DEPTH;
        if nodes[head].depth < PARTIAL_PATH_MAX_DEPTH {
            try_enqueue(&mut nodes, head, GridPos { x: cur.x + 1, y: cur.y }, start, goal, knowledge, true);
            let ghost n1 = nodes@;
            try_enqueue(&mut nodes, head, GridPos { x: cur.x, y: cur.y + 1 }, start, goal, knowledge, true);
            let ghost n2 = nodes@;
            try_enqueue(&mut nodes, head, GridPos { x: cur.x - 1, y: cur.y }, start, goal, knowledge, true);
            let ghost n3 = nodes@;
            try_enqueue(&mut nodes, head, GridPos { x: cur.x, y: cur.y - 1 }, start, goal, knowledge, true);
            proof {
                let s = nodes@;
                let h = head as int;
                let dd = n0[h].depth + 1;
                assert(s[h] == n0[h]);
                assert(n1[h] == n0[h] && n2[h] == n0[h] && n3[h] == n0[h]);
                assert forall|q: GridPos|
                    adjacent(s[h].pos, q) && knowledge.is_empty_at(q) implies #[trigger] covered(
                    s,
                    q,
                    s[h].depth + 1,
                ) by {
                    if q == crate::grid::east(cur) {
                        lemma_covered_monotone(n1, s, q, dd);
                    } else if q == crate::grid::north(cur) {
                        lemma_covered_monotone(n2, s, q, dd);
                    } else if q == crate::grid::west(cur) {
                        lemma_covered_monotone(n3, s, q, dd);
                    } else {
                        assert(q == crate::grid::south(cur));
                    }
                }
                assert(expanded_empty(s, h, knowledge));
            }
        }
        proof {
            let s = nodes@;
            let h = head as int;
            assert forall|i: int|
                0 <= i < h + 1 && (#[trigger] s[i]).depth
                    < PARTIAL_PATH_MAX_DEPTH implies expanded_empty(s, i, knowledge) by {
                if i < h {
                    lemma_expanded_empty_monotone(n0, s, i, knowledge);
                } else {
                    assert(expand_here);
                }
            }
            assert forall|i: int| 0 <= i < h + 1 implies best_d <= dist_sq(
                (#[trigger] s[i]).pos,
                goal,
            ) by {
                if i < h {
                    assert(s[i] == n0[i]);
                }
            }
            if h + 1 < s.len() {
                assert(s[h + 1].depth >= s[h].depth);
            }
            let ps = s.map_values(|nd: SearchNode| nd.pos);
            assert forall|i: int, j: int|
                0 <= i < ps.len() && 0 <= j < ps.len() && i != j implies ps[i] != ps[j] by {
                assert(ps[i] == s[i].pos && ps[j] == s[j].pos);
            }
            assert forall|i: int| 0 <= i < ps.len() implies #[trigger] ps[i] == start || ps[i]
                == goal || e.contains(ps[i]) by {
                assert(ps[i] == s[i].pos);
            }
            lemma_nodes_bound(ps, e, start, goal);
        }
        head = head + 1;
    }
    if best_idx == 0 {
        proof {
            assert forall|c: GridPos|
                reachable_within(
                    knowledge,
                    start,
                    c,
                    PARTIAL_PATH_MAX_DEPTH as nat,
                ) implies dist_sq(start, goal) <= dist_sq(c, goal) by {
                lemma_reachable_covered(
                    nodes@,
                    start,
                    goal,
                    knowledge,
                    0,
                    c,
                    PARTIAL_PATH_MAX_DEPTH as nat,
                );
                let m = choose|m: int|
                    0 <= m < nodes@.len() && nodes@[m].pos == c
                        && nodes@[m].depth <= nodes@[0].depth + PARTIAL_PATH_MAX_DEPTH;
                assert(best_d <= dist_sq(nodes@[m].pos, goal));
            }
        }
        return Vec::new();
    }
    let r = build_path(&nodes, best_idx, start, goal, knowledge);
    proof {
        let bi = best_idx as int;
        let end = r@[r@.len() - 1];
        assert(end == nodes@[bi].pos);
        assert(knowledge.is_empty_at(end));
        assert forall|i: int| 0 <= i < r@.len() implies knowledge.is_empty_at(
            #[trigger] r@[i],
        ) by {
            let j = choose|j: int| 1 <= j < nodes@.len() && r@[i] == nodes@[j].pos;
        }
        lemma_node_reachable(nodes@, bi, start, goal, knowledge);
        lemma_reachable_monotone(
            knowledge,
            start,
            end,
            nodes@[bi].depth as nat,
            PARTIAL_PATH_MAX_DEPTH as nat,
        );
        assert forall|c: GridPos|
            reachable_within(knowledge, start, c, PARTIAL_PATH_MAX_DEPTH as nat) implies dist_sq(
            end,
            goal,
        ) <= dist_sq(c, goal) by {
            lemma_reachable_covered(
                nodes@,
                start,
                goal,
                knowledge,
                0,
                c,
                PARTIAL_PATH_MAX_DEPTH as nat,
            );
            let m = choose|m: int|
                0 <= m < nodes@.len() && nodes@[m].pos == c && nodes@[m].depth <= nodes@[0].depth
                    + PARTIAL_PATH_MAX_DEPTH;
            assert(best_d <= dist_sq(nodes@[m].pos, goal));
        }
        assert forall|q: Seq<GridPos>| #[trigger] valid_path(
            knowledge,
            start,
            end,
            q,
        ) implies r@.len() <= q.len() by {
            if q.len() < r@.len() {
                assert forall|i: int| 0 <= i < q.len() implies knowledge.is_empty_at(
                    #[trigger] q[i],
                ) by {
                    if q[i] == end {
                        assert(knowledge.is_empty_at(end));
                    }
                }
                lemma_empty_path_covered(nodes@, start, goal, knowledge, q, q.len() - 1);
                let m = choose|m: int|
                    0 <= m < nodes@.len() && nodes@[m].pos == q[q.len() - 1] && nodes@[m].depth
                        <= q.len();
                assert(nodes@[m].pos == end);
                if m != bi {
                    assert(nodes@[m].pos != nodes@[bi].pos);
                }
                assert(nodes@[bi].depth <= q.len());
                assert(false);
            }
        }
        assert(partial_path_ok(knowledge, start, goal, r@));
        assert(partial_progress_possible(knowledge, start, goal));
    }
    r
}

} // verus!
