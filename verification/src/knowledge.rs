//! Aggregated terrain knowledge discovered by the robots.
//!
//! `WorldKnowledge` records which cells have ever been observed, which are
//! known to hold a solid (with its material tag) and which are known to be
//! freely walkable, plus a best-effort backlog of cells still to explore.
//! A cell is never simultaneously known solid and known empty, and the set of
//! discovered cells only grows.

use vstd::prelude::*;

use crate::grid::{in_world, GridPos};

verus! {

broadcast use vstd::seq_lib::group_seq_properties;

/// Everything the planning core knows about the terrain.
///
/// The structure is pure data: insertion keeps the invariant that the solid
/// and empty sets are disjoint and that every recorded position has been
/// discovered.
#[derive(Clone)]
pub struct WorldKnowledge {
    pub discovered_cells: Vec<GridPos>,
    pub discovered_solids: Vec<(GridPos, String)>,
    pub discovered_empty: Vec<GridPos>,
    pub exploration_queue: Vec<GridPos>,
}

impl WorldKnowledge {
    /// Whether `p` has ever been observed.
    pub open spec fn is_discovered(&self, p: GridPos) -> bool {
        self.discovered_cells@.contains(p)
    }

    /// Whether `p` is known to hold a solid.
    pub open spec fn has_solid(&self, p: GridPos) -> bool {
        seq_has_key(self.discovered_solids@, p)
    }

    /// Whether `p` is known to hold a solid whose material tag reads `m`.
    pub open spec fn has_solid_mat(&self, p: GridPos, m: Seq<char>) -> bool {
        seq_has_entry(self.discovered_solids@, p, m)
    }

    /// Whether `p` is known to be freely walkable.
    pub open spec fn is_empty_at(&self, p: GridPos) -> bool {
        self.discovered_empty@.contains(p)
    }

    /// The known-empty cells, in insertion order (used to bound searches).
    pub open spec fn empty_seq(&self) -> Seq<GridPos> {
        self.discovered_empty@
    }

    /// The known-solid entries, in insertion order.
    pub open spec fn solid_seq(&self) -> Seq<(GridPos, String)> {
        self.discovered_solids@
    }

    /// The ordered backlog of candidate cells to explore.
    pub open spec fn queue(&self) -> Seq<GridPos> {
        self.exploration_queue@
    }

    /// Structural invariant: no duplicate entries, solids and empties are
    /// disjoint, everything recorded is discovered, and all coordinates are
    /// within the world bound.
    pub open spec fn wf(&self) -> bool {
        &&& self.discovered_cells@.no_duplicates()
        &&& self.discovered_empty@.no_duplicates()
        &&& no_duplicate_keys(self.discovered_solids@)
        &&& forall|p: GridPos| self.has_solid(p) ==> !self.is_empty_at(p)
        &&& forall|p: GridPos| self.has_solid(p) ==> self.is_discovered(p)
        &&& forall|p: GridPos| self.is_empty_at(p) ==> self.is_discovered(p)
        &&& forall|p: GridPos| self.is_discovered(p) ==> in_world(p)
        &&& forall|i: int| 0 <= i < self.queue().len() ==> in_world(self.queue()[i])
    }

    /// Fresh, entirely unexplored knowledge.
    pub fn new() -> (r: WorldKnowledge)
        ensures
            r.wf(),
            forall|p: GridPos| !r.is_discovered(p),
            forall|p: GridPos| !r.has_solid(p),
            forall|p: GridPos| !r.is_empty_at(p),
            r.queue() == Seq::<GridPos>::empty(),
    {
        WorldKnowledge {
            discovered_cells: Vec::new(),
            discovered_solids: Vec::new(),
            discovered_empty: Vec::new(),
            exploration_queue: Vec::new(),
        }
    }

    /// Record that `pos` has been observed (in any state).
    pub fn mark_discovered(&mut self, pos: GridPos)
        requires
            old(self).wf(),
            in_world(pos),
        ensures
            final(self).wf(),
            forall|q: GridPos|
                final(self).is_discovered(q) == (old(self).is_discovered(q) || q == pos),
            final(self).solid_seq() == old(self).solid_seq(),
            final(self).empty_seq() == old(self).empty_seq(),
            final(self).queue() == old(self).queue(),
    {
        insert_pos(&mut self.discovered_cells, pos);
        proof {
            lemma_wf_after_cells_grow(old(self), self, pos);
        }
    }

    /// Record that `pos` is known to hold a solid with material tag
    /// `material`, removing any prior known-empty entry for `pos`.
    pub fn mark_solid(&mut self, pos: GridPos, material: String)
        requires
            old(self).wf(),
            in_world(pos),
        ensures
            final(self).wf(),
            forall|q: GridPos|
                final(self).is_discovered(q) == (old(self).is_discovered(q) || q == pos),
            forall|q: GridPos| final(self).has_solid(q) == (old(self).has_solid(q) || q == pos),
            forall|q: GridPos, m: Seq<char>|
                final(self).has_solid_mat(q, m) == if q == pos {
                    m == material@
                } else {
                    old(self).has_solid_mat(q, m)
                },
            forall|q: GridPos|
                final(self).is_empty_at(q) == (old(self).is_empty_at(q) && q != pos),
            final(self).queue() == old(self).queue(),
    {
        self.mark_discovered(pos);
        remove_pos_entry(&mut self.discovered_empty, pos);
        remove_solid_entry(&mut self.discovered_solids, pos);
        let ghost pre = self.discovered_solids@;
        self.discovered_solids.push((pos, material));
        proof {
            let s = self.discovered_solids@;
            assert(s == pre.push((pos, material)));
            assert(s[s.len() - 1] == (pos, material));
            assert forall|q: GridPos, m: Seq<char>| #[trigger] self.has_solid_mat(
                q,
                m,
            ) && q != pos implies old(self).has_solid_mat(q, m) by {
                let i = choose|i: int| 0 <= i < s.len() && s[i].0 == q && s[i].1@ == m;
                assert(i < s.len() - 1);
                assert(pre[i] == s[i]);
                assert(seq_has_entry(pre, q, m));
            }
            assert forall|q: GridPos, m: Seq<char>| #[trigger] self.has_solid_mat(q, m) && q
                == pos implies m == material@ by {
                let i = choose|i: int| 0 <= i < s.len() && s[i].0 == q && s[i].1@ == m;
                if i < s.len() - 1 {
                    assert(pre[i] == s[i]);
                    assert(false);
                }
            }
            assert forall|q: GridPos| #[trigger] self.has_solid(q) && q != pos implies old(
                self,
            ).has_solid(q) by {
                let i = choose|i: int| 0 <= i < s.len() && s[i].0 == q;
                assert(i < s.len() - 1);
                assert(pre[i] == s[i]);
                assert(seq_has_key(pre, q));
            }
            assert forall|q: GridPos, m: Seq<char>|
                q != pos && #[trigger] old(self).has_solid_mat(q, m) implies self.has_solid_mat(
                q,
                m,
            ) by {
                assert(seq_has_entry(pre, q, m));
                let i = choose|i: int| 0 <= i < pre.len() && pre[i].0 == q && pre[i].1@ == m;
                assert(s[i] == pre[i]);
            }
            assert forall|q: GridPos|
                q != pos && #[trigger] old(self).has_solid(q) implies self.has_solid(q) by {
                assert(seq_has_key(pre, q));
                let i = choose|i: int| 0 <= i < pre.len() && pre[i].0 == q;
                assert(s[i] == pre[i]);
            }
            assert(self.has_solid_mat(pos, material@));
            assert(self.has_solid(pos));
            assert forall|i: int, j: int|
                0 <= i < s.len() && 0 <= j < s.len() && i != j implies s[i].0 != s[j].0 by {
                if i < s.len() - 1 && j < s.len() - 1 {
                    assert(s[i] == pre[i]);
                    assert(s[j] == pre[j]);
                } else if j == s.len() - 1 {
                    assert(s[i] == pre[i]);
                } else {
                    assert(s[j] == pre[j]);
                }
            }
            lemma_wf_after_mark_solid(old(self), self, pos);
        }
    }

    /// Record that `pos` is known to be freely walkable, removing any prior
    /// known-solid entry for `pos`.
    pub fn mark_empty(&mut self, pos: GridPos)
        requires
            old(self).wf(),
            in_world(pos),
        ensures
            final(self).wf(),
            forall|q: GridPos|
                final(self).is_discovered(q) == (old(self).is_discovered(q) || q == pos),
            forall|q: GridPos|
                final(self).is_empty_at(q) == (old(self).is_empty_at(q) || q == pos),
            forall|q: GridPos| final(self).has_solid(q) == (old(self).has_solid(q) && q != pos),
            forall|q: GridPos, m: Seq<char>|
                final(self).has_solid_mat(q, m) == (old(self).has_solid_mat(q, m) && q != pos),
            final(self).queue() == old(self).queue(),
    {
        self.mark_discovered(pos);
        remove_solid_entry(&mut self.discovered_solids, pos);
        insert_pos(&mut self.discovered_empty, pos);
        proof {
            assert forall|q: GridPos| #[trigger] self.has_solid(q) implies (old(self).has_solid(q)
                && q != pos) by {
                assert(seq_has_key(self.discovered_solids@, q));
                let i = choose|i: int|
                    0 <= i < self.discovered_solids@.len() && self.discovered_solids@[i].0 == q;
            }
            lemma_wf_after_mark_empty(old(self), self, pos);
        }
    }

    /// Query: has `pos` ever been observed?
    pub fn is_discovered_cell(&self, pos: GridPos) -> (r: bool)
        ensures
            r == self.is_discovered(pos),
    {
        pos_index(&self.discovered_cells, pos).is_some()
    }

    /// Query: is `pos` known to be freely walkable?
    pub fn is_empty(&self, pos: GridPos) -> (r: bool)
        ensures
            r == self.is_empty_at(pos),
    {
        pos_index(&self.discovered_empty, pos).is_some()
    }

    /// Query: is `pos` known to hold a solid?
    pub fn is_solid(&self, pos: GridPos) -> (r: bool)
        ensures
            r == self.has_solid(pos),
    {
        solid_index(&self.discovered_solids, pos).is_some()
    }

    /// Query: the material tag of the solid known at `pos`, if any.
    pub fn solid_material(&self, pos: GridPos) -> (r: Option<String>)
        ensures
            r is Some <==> self.has_solid(pos),
            r matches Some(m) ==> self.has_solid_mat(pos, m@),
    {
        match solid_index(&self.discovered_solids, pos) {
            Some(i) => Some(self.discovered_solids[i].1.clone()),
            None => None,
        }
    }

    /// Append a candidate cell to the exploration backlog.
    pub fn push_exploration_cell(&mut self, pos: GridPos)
        requires
            old(self).wf(),
            in_world(pos),
        ensures
            final(self).wf(),
            final(self).queue() == old(self).queue().push(pos),
            final(self).solid_seq() == old(self).solid_seq(),
            final(self).empty_seq() == old(self).empty_seq(),
            forall|q: GridPos| final(self).is_discovered(q) == old(self).is_discovered(q),
    {
        self.exploration_queue.push(pos);
        proof {
            let s = self.exploration_queue@;
            let pre = old(self).exploration_queue@;
            assert forall|i: int| 0 <= i < s.len() implies in_world(s[i]) by {
                if i < s.len() - 1 {
                    assert(pre.push(pos)[i] == pre[i]);
                    assert(in_world(old(self).queue()[i]));
                } else {
                    assert(pre.push(pos)[i] == pos);
                }
            }
            lemma_wf_after_queue_change(old(self), self);
        }
    }

    /// Take the oldest candidate cell from the exploration backlog.
    pub fn take_next_exploration(&mut self) -> (r: Option<GridPos>)
        requires
            old(self).wf(),
        ensures
            final(self).wf(),
            old(self).queue().len() == 0 ==> r is None && *final(self) == *old(self),
            old(self).queue().len() > 0 ==> r == Some(old(self).queue()[0]) && final(self).queue()
                == old(self).queue().drop_first(),
            final(self).solid_seq() == old(self).solid_seq(),
            final(self).empty_seq() == old(self).empty_seq(),
            forall|q: GridPos| final(self).is_discovered(q) == old(self).is_discovered(q),
    {
        if self.exploration_queue.len() == 0 {
            None
        } else {
            let p = self.exploration_queue.remove(0);
            proof {
                assert(self.exploration_queue@ =~= old(self).exploration_queue@.drop_first());
                let s = self.exploration_queue@;
                assert forall|i: int| 0 <= i < s.len() implies in_world(s[i]) by {
                    assert(s[i] == old(self).exploration_queue@[i + 1]);
                    assert(in_world(old(self).queue()[i + 1]));
                }
                lemma_wf_after_queue_change(old(self), self);
            }
            Some(p)
        }
    }
}

/// Rebuild a knowledge value through the marking operations, dropping any
/// entry outside the world bound. The result is always well-formed; for a
/// snapshot that is already well-formed it records exactly the same facts.
/// This lets a consumer accept a snapshot from an untrusted producer without
/// assuming anything about it.
pub fn sanitize_knowledge(snapshot: &WorldKnowledge) -> (r: WorldKnowledge)
    ensures
        r.wf(),
        snapshot.wf() ==> {
            &&& forall|p: GridPos| #[trigger] r.is_discovered(p) == snapshot.is_discovered(p)
            &&& forall|p: GridPos| #[trigger] r.is_empty_at(p) == snapshot.is_empty_at(p)
            &&& forall|p: GridPos| #[trigger] r.has_solid(p) == snapshot.has_solid(p)
            &&& forall|p: GridPos, m: Seq<char>| #[trigger] r.has_solid_mat(p, m)
                == snapshot.has_solid_mat(p, m)
            &&& r.queue() == snapshot.queue()
        },
{
    let ghost snap_wf = snapshot.wf();
    let mut k = WorldKnowledge::new();
    let n_cells = snapshot.discovered_cells.len();
    let mut i: usize = 0;
    while i < n_cells
        invariant
            k.wf(),
            snap_wf == snapshot.wf(),
            n_cells == snapshot.discovered_cells@.len(),
            i <= n_cells,
            forall|p: GridPos| !k.has_solid(p),
            forall|p: GridPos| !k.is_empty_at(p),
            k.queue().len() == 0,
            snap_wf ==> forall|p: GridPos| #[trigger] k.is_discovered(p) == exists|j: int|
                0 <= j < i && snapshot.discovered_cells@[j] == p,
        decreases n_cells - i,
    {
        let c = snapshot.discovered_cells[i];
        let ghost k_pre = k;
        proof {
            if snap_wf {
                assert(snapshot.is_discovered(snapshot.discovered_cells@[i as int]));
                assert(in_world(c));
            }
        }
        if crate::grid::check_in_world(c) {
            k.mark_discovered(c);
        }
        proof {
            assert forall|p: GridPos| !(#[trigger] k.has_solid(p)) by {
                assert(k.discovered_solids@ == k_pre.discovered_solids@);
                assert(!k_pre.has_solid(p));
            }
            assert forall|p: GridPos| !(#[trigger] k.is_empty_at(p)) by {
                assert(k.discovered_empty@ == k_pre.discovered_empty@);
                assert(!k_pre.is_empty_at(p));
            }
            if snap_wf {
                assert forall|p: GridPos| #[trigger] k.is_discovered(p) implies (exists|j: int|
                    0 <= j < i + 1 && snapshot.discovered_cells@[j] == p) by {
                    if k_pre.is_discovered(p) {
                        let j = choose|j: int| 0 <= j < i && snapshot.discovered_cells@[j] == p;
                        assert(snapshot.discovered_cells@[j] == p);
                    } else {
                        assert(snapshot.discovered_cells@[i as int] == p);
                    }
                }
                assert forall|p: GridPos|
                    (exists|j: int|
                        0 <= j < i + 1 && snapshot.discovered_cells@[j]
                            == p) implies #[trigger] k.is_discovered(p) by {
                    let j = choose|j: int| 0 <= j < i + 1 && snapshot.discovered_cells@[j] == p;
                    if j < i {
                        assert(k_pre.is_discovered(p));
                    }
                }
            }
        }
        i = i + 1;
    }
    proof {
        if snap_wf {
            assert forall|p: GridPos| #[trigger] k.is_discovered(p)
                == snapshot.is_discovered(p) by {
                if snapshot.is_discovered(p) {
                    let j = choose|j: int|
                        0 <= j < snapshot.discovered_cells@.len()
                            && snapshot.discovered_cells@[j] == p;
                }
            }
        }
    }
    proof {
        assert forall|q: GridPos, m: Seq<char>| !(#[trigger] k.has_solid_mat(q, m)) by {
            if k.has_solid_mat(q, m) {
                let i = choose|i: int|
                    0 <= i < k.discovered_solids@.len() && k.discovered_solids@[i].0 == q
                        && k.discovered_solids@[i].1@ == m;
                assert(k.has_solid(q));
            }
        }
    }
    let n_solids = snapshot.discovered_solids.len();
    let mut i2: usize = 0;
    while i2 < n_solids
        invariant
            k.wf(),
            snap_wf == snapshot.wf(),
            n_solids == snapshot.discovered_solids@.len(),
            i2 <= n_solids,
            forall|p: GridPos| !k.is_empty_at(p),
            k.queue().len() == 0,
            snap_wf ==> forall|p: GridPos| #[trigger] k.is_discovered(p)
                == snapshot.is_discovered(p),
            snap_wf ==> forall|q: GridPos, m: Seq<char>| #[trigger] k.has_solid_mat(q, m)
                == exists|j: int|
                0 <= j < i2 && snapshot.discovered_solids@[j].0 == q
                    && snapshot.discovered_solids@[j].1@ == m,
        decreases n_solids - i2,
    {
        let c = snapshot.discovered_solids[i2].0;
        let m = snapshot.discovered_solids[i2].1.clone();
        let ghost k_pre = k;
        proof {
            if snap_wf {
                assert(snapshot.has_solid(snapshot.discovered_solids@[i2 as int].0));
                assert(snapshot.is_discovered(c));
                assert(in_world(c));
            }
        }
        if crate::grid::check_in_world(c) {
            k.mark_solid(c, m);
        }
        proof {
            if snap_wf {
                assert forall|q: GridPos, mm: Seq<char>| #[trigger] k.has_solid_mat(
                    q,
                    mm,
                ) implies (exists|j: int|
                    0 <= j < i2 + 1 && snapshot.discovered_solids@[j].0 == q
                        && snapshot.discovered_solids@[j].1@ == mm) by {
                    if q == c {
                        if mm == m@ {
                            assert(snapshot.discovered_solids@[i2 as int].0 == q
                                && snapshot.discovered_solids@[i2 as int].1@ == mm);
                        } else {
                            assert(false);
                        }
                    } else {
                        assert(k_pre.has_solid_mat(q, mm));
                        let j = choose|j: int|
                            0 <= j < i2 && snapshot.discovered_solids@[j].0 == q
                                && snapshot.discovered_solids@[j].1@ == mm;
                        assert(snapshot.discovered_solids@[j].0 == q);
                    }
                }
                assert forall|q: GridPos, mm: Seq<char>|
                    (exists|j: int|
                        0 <= j < i2 + 1 && snapshot.discovered_solids@[j].0 == q
                            && snapshot.discovered_solids@[j].1@
                            == mm) implies #[trigger] k.has_solid_mat(q, mm) by {
                    let j = choose|j: int|
                        0 <= j < i2 + 1 && snapshot.discovered_solids@[j].0 == q
                            && snapshot.discovered_solids@[j].1@ == mm;
                    if j < i2 {
                        assert(k_pre.has_solid_mat(q, mm));
                        if q == c {
                            assert(snapshot.discovered_solids@[j].0
                                == snapshot.discovered_solids@[i2 as int].0);
                            assert(false);
                        }
                    } else {
                        assert(q == c && mm == m@);
                    }
                }
            }
        }
        i2 = i2 + 1;
    }
    proof {
        if snap_wf {
            assert forall|q: GridPos, m: Seq<char>| #[trigger] k.has_solid_mat(q, m)
                == snapshot.has_solid_mat(q, m) by {}
        }
    }
    let n_empty = snapshot.discovered_empty.len();
    let mut i3: usize = 0;
    while i3 < n_empty
        invariant
            k.wf(),
            snap_wf == snapshot.wf(),
            n_empty == snapshot.discovered_empty@.len(),
            i3 <= n_empty,
            k.queue().len() == 0,
            snap_wf ==> forall|p: GridPos| #[trigger] k.is_discovered(p)
                == snapshot.is_discovered(p),
            snap_wf ==> forall|q: GridPos, m: Seq<char>| #[trigger] k.has_solid_mat(q, m)
                == snapshot.has_solid_mat(q, m),
            snap_wf ==> forall|q: GridPos| #[trigger] k.is_empty_at(q) == exists|j: int|
                0 <= j < i3 && snapshot.discovered_empty@[j] == q,
        decreases n_empty - i3,
    {
        let c = snapshot.discovered_empty[i3];
        let ghost k_pre = k;
        proof {
            if snap_wf {
                assert(snapshot.is_empty_at(snapshot.discovered_empty@[i3 as int]));
                assert(snapshot.is_discovered(c));
                assert(in_world(c));
                assert(!snapshot.has_solid(c));
            }
        }
        if crate::grid::check_in_world(c) {
            k.mark_empty(c);
        }
        proof {
            if snap_wf {
                assert forall|q: GridPos, mm: Seq<char>| #[trigger] k.has_solid_mat(q, mm)
                    == snapshot.has_solid_mat(q, mm) by {
                    if q == c {
                        if k.has_solid_mat(q, mm) {
                            assert(k_pre.has_solid_mat(q, mm));
                        }
                        if snapshot.has_solid_mat(q, mm) {
                            assert(snapshot.has_solid(q));
                            assert(false);
                        }
                    }
                }
                assert forall|q: GridPos| #[trigger] k.is_empty_at(q) implies (exists|j: int|
                    0 <= j < i3 + 1 && snapshot.discovered_empty@[j] == q) by {
                    if k_pre.is_empty_at(q) {
                        let j = choose|j: int| 0 <= j < i3 && snapshot.discovered_empty@[j] == q;
                        assert(snapshot.discovered_empty@[j] == q);
                    } else {
                        assert(snapshot.discovered_empty@[i3 as int] == q);
                    }
                }
                assert forall|q: GridPos|
                    (exists|j: int|
                        0 <= j < i3 + 1 && snapshot.discovered_empty@[j]
                            == q) implies #[trigger] k.is_empty_at(q) by {
                    let j = choose|j: int| 0 <= j < i3 + 1 && snapshot.discovered_empty@[j] == q;
                    if j < i3 {
                        assert(k_pre.is_empty_at(q));
                    }
                }
            }
        }
        i3 = i3 + 1;
    }
    proof {
        if snap_wf {
            assert forall|q: GridPos| #[trigger] k.is_empty_at(q) == snapshot.is_empty_at(q) by {
                if snapshot.is_empty_at(q) {
                    let j = choose|j: int|
                        0 <= j < snapshot.discovered_empty@.len() && snapshot.discovered_empty@[j]
                            == q;
                }
            }
        }
    }
    let n_queue = snapshot.exploration_queue.len();
    let mut i4: usize = 0;
    while i4 < n_queue
        invariant
            k.wf(),
            snap_wf == snapshot.wf(),
            n_queue == snapshot.exploration_queue@.len(),
            i4 <= n_queue,
            snap_wf ==> forall|p: GridPos| #[trigger] k.is_discovered(p)
                == snapshot.is_discovered(p),
            snap_wf ==> forall|q: GridPos, m: Seq<char>| #[trigger] k.has_solid_mat(q, m)
                == snapshot.has_solid_mat(q, m),
            snap_wf ==> forall|q: GridPos| #[trigger] k.is_empty_at(q) == snapshot.is_empty_at(q),
            snap_wf ==> k.queue() == snapshot.queue().take(i4 as int),
        decreases n_queue - i4,
    {
        let c = snapshot.exploration_queue[i4];
        proof {
            if snap_wf {
                assert(in_world(snapshot.queue()[i4 as int]));
            }
        }
        let ghost k_pre = k;
        if crate::grid::check_in_world(c) {
            k.push_exploration_cell(c);
        }
        proof {
            assert forall|q: GridPos, m: Seq<char>| #[trigger] k.has_solid_mat(q, m)
                == k_pre.has_solid_mat(q, m) by {
                assert(k.discovered_solids@ == k_pre.discovered_solids@);
            }
            assert forall|q: GridPos| #[trigger] k.is_empty_at(q) == k_pre.is_empty_at(q) by {
                assert(k.discovered_empty@ == k_pre.discovered_empty@);
            }
            if snap_wf {
                assert(k.queue() =~= snapshot.queue().take(i4 + 1));
            }
        }
        i4 = i4 + 1;
    }
    proof {
        if snap_wf {
            assert(k.queue() =~= snapshot.queue());
            assert forall|q: GridPos| #[trigger] k.is_empty_at(q) == snapshot.is_empty_at(q) by {
                if snapshot.is_empty_at(q) {
                    let j = choose|j: int|
                        0 <= j < snapshot.discovered_empty@.len() && snapshot.discovered_empty@[j]
                            == q;
                }
            }
            assert forall|p: GridPos| #[trigger] k.has_solid(p) == snapshot.has_solid(p) by {
                if k.has_solid(p) {
                    let i = choose|i: int|
                        0 <= i < k.discovered_solids@.len() && k.discovered_solids@[i].0 == p;
                    assert(k.has_solid_mat(p, k.discovered_solids@[i].1@));
                    assert(snapshot.has_solid_mat(p, k.discovered_solids@[i].1@));
                }
                if snapshot.has_solid(p) {
                    let i = choose|i: int|
                        0 <= i < snapshot.discovered_solids@.len()
                            && snapshot.discovered_solids@[i].0 == p;
                    assert(snapshot.has_solid_mat(p, snapshot.discovered_solids@[i].1@));
                    assert(k.has_solid_mat(p, snapshot.discovered_solids@[i].1@));
                }
            }
        }
    }
    k
}

impl Default for WorldKnowledge {
    fn default() -> (r: WorldKnowledge)
        ensures
            r.wf(),
            forall|p: GridPos| !r.is_discovered(p),
            forall|p: GridPos| !r.has_solid(p),
            forall|p: GridPos| !r.is_empty_at(p),
            r.queue() == Seq::<GridPos>::empty(),
    {
        WorldKnowledge::new()
    }
}

/// No two entries share a key position.
pub open spec fn no_duplicate_keys(s: Seq<(GridPos, String)>) -> bool {
    forall|i: int, j: int|
        0 <= i < s.len() && 0 <= j < s.len() && i != j ==> s[i].0 != s[j].0
}

/// Some entry of `s` is keyed by `q`.
pub open spec fn seq_has_key(s: Seq<(GridPos, String)>, q: GridPos) -> bool {
    exists|i: int| 0 <= i < s.len() && s[i].0 == q
}

/// Some entry of `s` is keyed by `q` with a value that reads `m`.
pub open spec fn seq_has_entry(s: Seq<(GridPos, String)>, q: GridPos, m: Seq<char>) -> bool {
    exists|i: int| 0 <= i < s.len() && s[i].0 == q && s[i].1@ == m
}

/// Growing the discovered-cell set (only) preserves well-formedness.
proof fn lemma_wf_after_cells_grow(pre: &WorldKnowledge, post: &WorldKnowledge, pos: GridPos)
    requires
        pre.wf(),
        in_world(pos),
        post.discovered_cells@.no_duplicates(),
        forall|q: GridPos|
            #[trigger] post.is_discovered(q) == (pre.is_discovered(q) || q == pos),
        post.discovered_solids@ == pre.discovered_solids@,
        post.discovered_empty@ == pre.discovered_empty@,
        post.exploration_queue@ == pre.exploration_queue@,
    ensures
        post.wf(),
{
    assert forall|p: GridPos| #[trigger] post.has_solid(p) implies !post.is_empty_at(p)
        && post.is_discovered(p) by {
        assert(pre.has_solid(p));
    }
    assert forall|p: GridPos| #[trigger] post.is_empty_at(p) implies post.is_discovered(p) by {
        assert(pre.is_empty_at(p));
    }
    assert forall|p: GridPos| #[trigger] post.is_discovered(p) implies in_world(p) by {
        if pre.is_discovered(p) {
        } else {
            assert(p == pos);
        }
    }
    assert forall|i: int| 0 <= i < post.queue().len() implies in_world(post.queue()[i]) by {
        assert(post.queue()[i] == pre.queue()[i]);
    }
}

/// Marking a cell solid preserves well-formedness.
proof fn lemma_wf_after_mark_solid(pre: &WorldKnowledge, post: &WorldKnowledge, pos: GridPos)
    requires
        pre.wf(),
        in_world(pos),
        post.discovered_cells@.no_duplicates(),
        post.discovered_empty@.no_duplicates(),
        no_duplicate_keys(post.discovered_solids@),
        forall|q: GridPos|
            #[trigger] post.is_discovered(q) == (pre.is_discovered(q) || q == pos),
        forall|q: GridPos| #[trigger] post.is_empty_at(q) == (pre.is_empty_at(q) && q != pos),
        forall|q: GridPos| #[trigger] post.has_solid(q) == (pre.has_solid(q) || q == pos),
        post.exploration_queue@ == pre.exploration_queue@,
    ensures
        post.wf(),
{
    assert forall|p: GridPos| #[trigger] post.has_solid(p) implies !post.is_empty_at(p)
        && post.is_discovered(p) by {
        if p != pos {
            assert(pre.has_solid(p));
        }
    }
    assert forall|p: GridPos| #[trigger] post.is_empty_at(p) implies post.is_discovered(p) by {
        assert(pre.is_empty_at(p));
    }
    assert forall|p: GridPos| #[trigger] post.is_discovered(p) implies in_world(p) by {
        if pre.is_discovered(p) {
        } else {
            assert(p == pos);
        }
    }
    assert forall|i: int| 0 <= i < post.queue().len() implies in_world(post.queue()[i]) by {
        assert(post.queue()[i] == pre.queue()[i]);
    }
}

/// Marking a cell empty preserves well-formedness.
proof fn lemma_wf_after_mark_empty(pre: &WorldKnowledge, post: &WorldKnowledge, pos: GridPos)
    requires
        pre.wf(),
        in_world(pos),
        post.discovered_cells@.no_duplicates(),
        post.discovered_empty@.no_duplicates(),
        no_duplicate_keys(post.discovered_solids@),
        forall|q: GridPos|
            #[trigger] post.is_discovered(q) == (pre.is_discovered(q) || q == pos),
        forall|q: GridPos| #[trigger] post.is_empty_at(q) == (pre.is_empty_at(q) || q == pos),
        forall|q: GridPos| #[trigger] post.has_solid(q) == (pre.has_solid(q) && q != pos),
        post.exploration_queue@ == pre.exploration_queue@,
    ensures
        post.wf(),
{
    assert forall|p: GridPos| #[trigger] post.has_solid(p) implies !post.is_empty_at(p)
        && post.is_discovered(p) by {
        assert(pre.has_solid(p));
    }
    assert forall|p: GridPos| #[trigger] post.is_empty_at(p) implies post.is_discovered(p) by {
        if p != pos {
            assert(pre.is_empty_at(p));
        }
    }
    assert forall|p: GridPos| #[trigger] post.is_discovered(p) implies in_world(p) by {
        if pre.is_discovered(p) {
        } else {
            assert(p == pos);
        }
    }
    assert forall|i: int| 0 <= i < post.queue().len() implies in_world(post.queue()[i]) by {
        assert(post.queue()[i] == pre.queue()[i]);
    }
}

/// Changing only the exploration backlog preserves well-formedness as long as
/// the new backlog stays within the world bound.
proof fn lemma_wf_after_queue_change(pre: &WorldKnowledge, post: &WorldKnowledge)
    requires
        pre.wf(),
        post.discovered_cells@ == pre.discovered_cells@,
        post.discovered_empty@ == pre.discovered_empty@,
        post.discovered_solids@ == pre.discovered_solids@,
        forall|i: int| 0 <= i < post.queue().len() ==> in_world(post.queue()[i]),
    ensures
        post.wf(),
{
    assert forall|p: GridPos| #[trigger] post.has_solid(p) implies !post.is_empty_at(p)
        && post.is_discovered(p) by {
        assert(pre.has_solid(p));
    }
    assert forall|p: GridPos| #[trigger] post.is_empty_at(p) implies post.is_discovered(p) by {
        assert(pre.is_empty_at(p));
    }
    assert forall|p: GridPos| #[trigger] post.is_discovered(p) implies in_world(p) by {
        assert(pre.is_discovered(p));
    }
}

/// Knowledge invariant: after any sequence of `mark_solid` / `mark_empty`
/// calls (each of which preserves `wf`), no position is simultaneously in the
/// known-solid and known-empty sets.
pub proof fn lemma_solid_empty_disjoint(k: &WorldKnowledge, p: GridPos)
    requires
        k.wf(),
    ensures
        !(k.has_solid(p) && k.is_empty_at(p)),
{
}

/// Index of `p` in a position vector, if present.
fn pos_index(v: &Vec<GridPos>, p: GridPos) -> (r: Option<usize>)
    ensures
        r matches Some(i) ==> i < v@.len() && v@[i as int] == p,
        r is None ==> !v@.contains(p),
{
    let mut i: usize = 0;
    while i < v.len()
        invariant
            i <= v@.len(),
            forall|j: int| 0 <= j < i ==> v@[j] != p,
        decreases v@.len() - i,
    {
        if v[i] == p {
            return Some(i);
        }
        i = i + 1;
    }
    None
}

/// Index of the entry keyed by `p` in a solid-entry vector, if present.
fn solid_index(v: &Vec<(GridPos, String)>, p: GridPos) -> (r: Option<usize>)
    ensures
        r matches Some(i) ==> i < v@.len() && v@[i as int].0 == p,
        r is None ==> forall|j: int| 0 <= j < v@.len() ==> v@[j].0 != p,
{
    let mut i: usize = 0;
    while i < v.len()
        invariant
            i <= v@.len(),
            forall|j: int| 0 <= j < i ==> v@[j].0 != p,
        decreases v@.len() - i,
    {
        if v[i].0 == p {
            return Some(i);
        }
        i = i + 1;
    }
    None
}

/// Append `p` unless it is already present.
fn insert_pos(v: &mut Vec<GridPos>, p: GridPos)
    requires
        old(v)@.no_duplicates(),
    ensures
        final(v)@.no_duplicates(),
        forall|q: GridPos| #[trigger] final(v)@.contains(q) == (old(v)@.contains(q) || q == p),
{
    if pos_index(v, p).is_none() {
        let ghost pre = v@;
        v.push(p);
        proof {
            let s = v@;
            assert forall|i: int, j: int|
                0 <= i < s.len() && 0 <= j < s.len() && i != j implies s[i] != s[j] by {
                if i < s.len() - 1 && j < s.len() - 1 {
                    assert(s[i] == pre[i]);
                    assert(s[j] == pre[j]);
                } else if j == s.len() - 1 {
                    assert(s[i] == pre[i]);
                    assert(pre.contains(pre[i]));
                } else {
                    assert(s[j] == pre[j]);
                    assert(pre.contains(pre[j]));
                }
            }
            assert forall|q: GridPos| #[trigger] s.contains(q) implies (pre.contains(q) || q
                == p) by {
                let i = choose|i: int| 0 <= i < s.len() && s[i] == q;
                if i < s.len() - 1 {
                    assert(s[i] == pre[i]);
                    assert(pre.contains(pre[i]));
                }
            }
            assert forall|q: GridPos| pre.contains(q) || q == p implies #[trigger] s.contains(
                q,
            ) by {
                if pre.contains(q) {
                    let i = choose|i: int| 0 <= i < pre.len() && pre[i] == q;
                    assert(s[i] == pre[i]);
                } else {
                    assert(s[s.len() - 1] == p);
                }
            }
        }
    }
}

/// Remove every occurrence of `p`, preserving the order of the rest.
fn remove_pos_entry(v: &mut Vec<GridPos>, p: GridPos)
    requires
        old(v)@.no_duplicates(),
    ensures
        final(v)@.no_duplicates(),
        forall|q: GridPos| #[trigger] final(v)@.contains(q) == (old(v)@.contains(q) && q != p),
{
    let mut out: Vec<GridPos> = Vec::new();
    let mut i: usize = 0;
    while i < v.len()
        invariant
            i <= v@.len(),
            v@.no_duplicates(),
            out@.no_duplicates(),
            forall|q: GridPos| #[trigger] out@.contains(q) == (v@.take(i as int).contains(q) && q
                != p),
        decreases v@.len() - i,
    {
        let x = v[i];
        if x != p {
            proof {
                if out@.contains(x) {
                    assert(v@.take(i as int).contains(x));
                    let j = choose|j: int|
                        0 <= j < v@.take(i as int).len() && v@.take(i as int)[j] == x;
                    assert(v@[j] == x);
                    assert(false);
                }
            }
            out.push(x);
        }
        proof {
            assert(v@.take(i + 1) =~= v@.take(i as int).push(v@[i as int]));
        }
        i = i + 1;
    }
    proof {
        assert(v@.take(v@.len() as int) =~= v@);
    }
    *v = out;
}

/// Remove every entry keyed by `p`, preserving the order of the rest.
fn remove_solid_entry(v: &mut Vec<(GridPos, String)>, p: GridPos)
    requires
        no_duplicate_keys(old(v)@),
    ensures
        no_duplicate_keys(final(v)@),
        forall|i: int| 0 <= i < final(v)@.len() ==> final(v)@[i].0 != p,
        forall|q: GridPos|
            q != p ==> (#[trigger] seq_has_key(final(v)@, q) <==> seq_has_key(old(v)@, q)),
        forall|q: GridPos, m: Seq<char>|
            q != p ==> (#[trigger] seq_has_entry(final(v)@, q, m) <==> seq_has_entry(
                old(v)@,
                q,
                m,
            )),
{
    let ghost orig = v@;
    let mut out: Vec<(GridPos, String)> = Vec::new();
    let mut i: usize = 0;
    while i < v.len()
        invariant
            i <= v@.len(),
            v@ == orig,
            no_duplicate_keys(orig),
            no_duplicate_keys(out@),
            forall|j: int| 0 <= j < out@.len() ==> #[trigger] out@[j].0 != p,
            forall|j: int|
                0 <= j < out@.len() ==> exists|l: int|
                    0 <= l < i && orig[l] == #[trigger] out@[j],
            forall|l: int|
                0 <= l < i && #[trigger] orig[l].0 != p ==> exists|j: int|
                    0 <= j < out@.len() && out@[j] == orig[l],
        decreases v@.len() - i,
    {
        let x0 = v[i].0;
        let x1 = v[i].1.clone();
        proof {
            assert((x0, x1) == orig[i as int]);
        }
        if x0 != p {
            let ghost out_pre = out@;
            proof {
                assert forall|j: int| 0 <= j < out@.len() implies #[trigger] out@[j].0 != x0 by {
                    let l = choose|l: int| 0 <= l < i && orig[l] == out@[j];
                    assert(orig[l].0 != orig[i as int].0);
                }
            }
            out.push((x0, x1));
            proof {
                assert forall|l: int|
                    0 <= l < i + 1 && #[trigger] orig[l].0 != p implies exists|j: int|
                        0 <= j < out@.len() && out@[j] == orig[l] by {
                    if l < i {
                        let j = choose|j: int| 0 <= j < out_pre.len() && out_pre[j] == orig[l];
                        assert(out@[j] == orig[l]);
                    } else {
                        assert(out@[out@.len() - 1] == orig[l]);
                    }
                }
            }
        }
        i = i + 1;
    }
    *v = out;
    proof {
        let s = v@;
        assert forall|q: GridPos, m: Seq<char>|
            q != p && seq_has_entry(orig, q, m) implies #[trigger] seq_has_entry(s, q, m) by {
            let i = choose|i: int| 0 <= i < orig.len() && orig[i].0 == q && orig[i].1@ == m;
            let j = choose|j: int| 0 <= j < s.len() && s[j] == orig[i];
            assert(s[j].0 == q && s[j].1@ == m);
        }
        assert forall|q: GridPos|
            q != p && seq_has_key(orig, q) implies #[trigger] seq_has_key(s, q) by {
            let i = choose|i: int| 0 <= i < orig.len() && orig[i].0 == q;
            let j = choose|j: int| 0 <= j < s.len() && s[j] == orig[i];
            assert(s[j].0 == q);
        }
        assert forall|q: GridPos, m: Seq<char>|
            q != p && #[trigger] seq_has_entry(s, q, m) implies seq_has_entry(orig, q, m) by {
            let j = choose|j: int| 0 <= j < s.len() && s[j].0 == q && s[j].1@ == m;
            let l = choose|l: int| 0 <= l < orig.len() && orig[l] == s[j];
            assert(orig[l].0 == q && orig[l].1@ == m);
        }
        assert forall|q: GridPos|
            q != p && #[trigger] seq_has_key(s, q) implies seq_has_key(orig, q) by {
            let j = choose|j: int| 0 <= j < s.len() && s[j].0 == q;
            let l = choose|l: int| 0 <= l < orig.len() && orig[l] == s[j];
            assert(orig[l].0 == q);
        }
    }
}

} // verus!
