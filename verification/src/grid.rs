//! Uniform spatial hash grid.
//!
//! Positions are partitioned into square cells of a fixed size; the grid is
//! rebuilt wholesale each frame and queried for the 3-by-3 block of cells
//! around a point.  A query returns a broad-phase candidate set: provably a
//! superset of every entity within one cell width of the query point in each
//! axis, with no ordering guarantee, so callers still apply exact distance
//! tests.

use vstd::prelude::*;
use crate::fixed::div_floor;
use crate::types::wf_coord;

verus! {

/// Grid cell holding the entity indices whose position falls in it.
pub struct GridCell {
    pub cx: i64,
    pub cy: i64,
    pub indices: Vec<usize>,
}

/// Uniform-cell partition of 2D positions, rebuilt every frame.
pub struct EnemyGrid {
    pub cell_size: i64,
    pub cells: Vec<GridCell>,
}

/// The cell coordinate a scalar falls in: floor division by the cell size.
pub open spec fn cell_of(cs: int, v: int) -> int {
    v / cs
}

/// Whether one of the first `n` buckets files index `i` under cell
/// `(cx, cy)`.
pub open spec fn grid_has_upto(g: EnemyGrid, n: int, cx: int, cy: int, i: usize) -> bool {
    exists|k: int|
        0 <= k < n && (#[trigger] g.cells@[k]).cx == cx && g.cells@[k].cy == cy
            && g.cells@[k].indices@.contains(i)
}

/// Whether the grid files index `i` under cell `(cx, cy)`.
pub open spec fn grid_has(g: EnemyGrid, cx: int, cy: int, i: usize) -> bool {
    grid_has_upto(g, g.cells@.len() as int, cx, cy, i)
}

/// Whether one of the first `n` buckets lies in the 3-by-3 window around
/// cell `(cx0, cy0)` and files index `i`.
pub open spec fn window_has_upto(g: EnemyGrid, n: int, cx0: int, cy0: int, i: usize) -> bool {
    exists|k: int|
        0 <= k < n && cx0 - 1 <= (#[trigger] g.cells@[k]).cx <= cx0 + 1 && cy0 - 1
            <= g.cells@[k].cy <= cy0 + 1 && g.cells@[k].indices@.contains(i)
}

/// Whether the grid files index `i` in the 3-by-3 window around cell
/// `(cx0, cy0)`.
pub open spec fn window_has(g: EnemyGrid, cx0: int, cy0: int, i: usize) -> bool {
    window_has_upto(g, g.cells@.len() as int, cx0, cy0, i)
}

/// A cell size the grid accepts.
pub open spec fn wf_cell_size(cs: int) -> bool {
    1 <= cs <= 1000000000000
}

impl EnemyGrid {
    /// An empty grid with the given cell size.
    pub fn new(cell_size: i64) -> (g: EnemyGrid)
        requires
            wf_cell_size(cell_size as int),
        ensures
            g.cell_size == cell_size,
            g.cells@.len() == 0,
    {
        EnemyGrid { cell_size, cells: Vec::new() }
    }

    /// Clears all cells and re-inserts every entity index keyed by the cell
    /// its position falls in: afterwards the grid files exactly the indices
    /// of `positions`, each under its own cell.
    pub fn rebuild(&mut self, positions: &Vec<(i64, i64)>)
        requires
            wf_cell_size(old(self).cell_size as int),
            forall|i: int| 0 <= i < positions@.len() ==> wf_coord(#[trigger] positions@[i].0 as int)
                && wf_coord(positions@[i].1 as int),
        ensures
            final(self).cell_size == old(self).cell_size,
            forall|i: int| 0 <= i < positions@.len() ==> grid_has(
                *final(self),
                cell_of(old(self).cell_size as int, #[trigger] positions@[i].0 as int),
                cell_of(old(self).cell_size as int, positions@[i].1 as int),
                i as usize,
            ),
            forall|cx: int, cy: int, i: usize| grid_has(*final(self), cx, cy, i) ==> 0 <= (
            i as int) < positions@.len() && cx == cell_of(
                final(self).cell_size as int,
                positions@[i as int].0 as int,
            ) && cy == cell_of(final(self).cell_size as int, positions@[i as int].1 as int),
    {
        let ghost cs = self.cell_size as int;
        self.cells = Vec::new();
        let mut i: usize = 0;
        while i < positions.len()
            invariant
                0 <= i <= positions@.len(),
                wf_cell_size(self.cell_size as int),
                self.cell_size as int == cs,
                forall|j: int| 0 <= j < positions@.len() ==> wf_coord(
                    #[trigger] positions@[j].0 as int,
                ) && wf_coord(positions@[j].1 as int),
                forall|j: int| 0 <= j < i ==> grid_has(
                    *self,
                    cell_of(cs, #[trigger] positions@[j].0 as int),
                    cell_of(cs, positions@[j].1 as int),
                    j as usize,
                ),
                forall|cx: int, cy: int, idx: usize| grid_has(*self, cx, cy, idx) ==> 0
                    <= (idx as int) < i && cx == cell_of(cs, positions@[idx as int].0 as int) && cy
                    == cell_of(cs, positions@[idx as int].1 as int),
            decreases positions@.len() - i,
        {
            let pos = positions[i];
            let cx: i64 = div_floor(pos.0, self.cell_size);
            let cy: i64 = div_floor(pos.1, self.cell_size);
            self.insert_index(cx, cy, i);
            i = i + 1;
        }
    }

    /// Files index `i` under cell `(cx, cy)`, appending to the cell's bucket
    /// or opening a new one.
    fn insert_index(&mut self, cx: i64, cy: i64, i: usize)
        ensures
            final(self).cell_size == old(self).cell_size,
            grid_has(*final(self), cx as int, cy as int, i),
            forall|ax: int, ay: int, idx: usize| grid_has(*old(self), ax, ay, idx) ==> grid_has(
                *final(self),
                ax,
                ay,
                idx,
            ),
            forall|ax: int, ay: int, idx: usize| grid_has(*final(self), ax, ay, idx) ==> grid_has(
                *old(self),
                ax,
                ay,
                idx,
            ) || (ax == cx as int && ay == cy as int && idx == i),
    {
        let mut k: usize = 0;
        while k < self.cells.len()
            invariant
                0 <= k <= self.cells@.len(),
                *self == *old(self),
                forall|m: int| 0 <= m < k ==> !((#[trigger] self.cells@[m]).cx == cx
                    && self.cells@[m].cy == cy),
            decreases self.cells@.len() - k,
        {
            if self.cells[k].cx == cx && self.cells[k].cy == cy {
                let ghost before = *self;
                let cell = &mut self.cells[k];
                cell.indices.push(i);
                proof {
                    assert(self.cells@[k as int].indices@ == before.cells@[k as int].indices@.push(
                        i,
                    ));
                    assert(grid_has(*self, cx as int, cy as int, i)) by {
                        assert(self.cells@[k as int].indices@.contains(i)) by {
                            assert(self.cells@[k as int].indices@.last() == i);
                        }
                    }
                    assert forall|ax: int, ay: int, idx: usize| grid_has(
                        before,
                        ax,
                        ay,
                        idx,
                    ) implies grid_has(*self, ax, ay, idx) by {
                        let m = choose|m: int|
                            0 <= m < before.cells@.len() && (#[trigger] before.cells@[m]).cx == ax
                                && before.cells@[m].cy == ay && before.cells@[m].indices@.contains(
                                idx,
                            );
                        if m == k as int {
                            assert(self.cells@[m].indices@.contains(idx)) by {
                                let pos = choose|pp: int|
                                    0 <= pp < before.cells@[m].indices@.len()
                                        && before.cells@[m].indices@[pp] == idx;
                                assert(self.cells@[m].indices@[pos] == idx);
                            }
                        } else {
                            assert(self.cells@[m].indices@.contains(idx));
                        }
                    }
                    assert forall|ax: int, ay: int, idx: usize| grid_has(
                        *self,
                        ax,
                        ay,
                        idx,
                    ) implies grid_has(before, ax, ay, idx) || (ax == cx as int && ay == cy as int
                        && idx == i) by {
                        let m = choose|m: int|
                            0 <= m < self.cells@.len() && (#[trigger] self.cells@[m]).cx == ax
                                && self.cells@[m].cy == ay && self.cells@[m].indices@.contains(idx);
                        if m == k as int {
                            let pos = choose|pp: int|
                                0 <= pp < self.cells@[m].indices@.len()
                                    && self.cells@[m].indices@[pp] == idx;
                            if pos < before.cells@[m].indices@.len() {
                                assert(before.cells@[m].indices@[pos] == idx);
                            }
                        }
                    }
                }
                return ;
            }
            k = k + 1;
        }
        let ghost before = *self;
        let mut fresh: Vec<usize> = Vec::new();
        fresh.push(i);
        self.cells.push(GridCell { cx, cy, indices: fresh });
        proof {
            let n = self.cells@.len() as int;
            assert(self.cells@[n - 1].indices@[0] == i);
            assert(self.cells@[n - 1].indices@.contains(i));
            assert(grid_has(*self, cx as int, cy as int, i));
            assert forall|ax: int, ay: int, idx: usize| grid_has(before, ax, ay, idx) implies
                grid_has(*self, ax, ay, idx) by {
                let m = choose|m: int|
                    0 <= m < before.cells@.len() && (#[trigger] before.cells@[m]).cx == ax
                        && before.cells@[m].cy == ay && before.cells@[m].indices@.contains(idx);
                assert(self.cells@[m].cx == ax && self.cells@[m].cy == ay
                    && self.cells@[m].indices@.contains(idx));
            }
            assert forall|ax: int, ay: int, idx: usize| grid_has(*self, ax, ay, idx) implies
                grid_has(before, ax, ay, idx) || (ax == cx as int && ay == cy as int && idx
                == i) by {
                let m = choose|m: int|
                    0 <= m < self.cells@.len() && (#[trigger] self.cells@[m]).cx == ax
                        && self.cells@[m].cy == ay && self.cells@[m].indices@.contains(idx);
                if m < n - 1 {
                    assert(before.cells@[m].indices@.contains(idx));
                } else {
                    assert(self.cells@[m].indices@[0] == i);
                    assert(self.cells@[m].indices@.len() == 1);
                }
            }
        }
    }

    /// Union of the entity indices filed in the 3-by-3 block of cells around
    /// `(x, y)`: every index filed in one of those cells appears, and only
    /// such indices appear; no order is promised.
    pub fn query_neighbors(&self, x: i64, y: i64) -> (r: Vec<usize>)
        requires
            wf_cell_size(self.cell_size as int),
            wf_coord(x as int),
            wf_coord(y as int),
        ensures
            forall|i: usize| window_has(
                *self,
                cell_of(self.cell_size as int, x as int),
                cell_of(self.cell_size as int, y as int),
                i,
            ) ==> r@.contains(i),
            forall|k: int| 0 <= k < r@.len() ==> window_has(
                *self,
                cell_of(self.cell_size as int, x as int),
                cell_of(self.cell_size as int, y as int),
                #[trigger] r@[k],
            ),
    {
        let cx0: i64 = div_floor(x, self.cell_size);
        let cy0: i64 = div_floor(y, self.cell_size);
        let mut out: Vec<usize> = Vec::new();
        let mut k: usize = 0;
        while k < self.cells.len()
            invariant
                0 <= k <= self.cells@.len(),
                cx0 as int == cell_of(self.cell_size as int, x as int),
                cy0 as int == cell_of(self.cell_size as int, y as int),
                -1000000000000 <= cx0 <= 1000000000000,
                -1000000000000 <= cy0 <= 1000000000000,
                forall|i: usize| window_has_upto(
                    *self,
                    k as int,
                    cx0 as int,
                    cy0 as int,
                    i,
                ) ==> out@.contains(i),
                forall|m: int| 0 <= m < out@.len() ==> window_has(
                    *self,
                    cx0 as int,
                    cy0 as int,
                    #[trigger] out@[m],
                ),
            decreases self.cells@.len() - k,
        {
            let in_x: bool = cx0 - 1 <= self.cells[k].cx && self.cells[k].cx <= cx0 + 1;
            let in_y: bool = cy0 - 1 <= self.cells[k].cy && self.cells[k].cy <= cy0 + 1;
            if in_x && in_y {
                let mut m: usize = 0;
                while m < self.cells[k].indices.len()
                    invariant
                        0 <= m <= self.cells@[k as int].indices@.len(),
                        0 <= k < self.cells@.len(),
                        cx0 - 1 <= self.cells@[k as int].cx <= cx0 + 1,
                        cy0 - 1 <= self.cells@[k as int].cy <= cy0 + 1,
                        forall|i: usize| window_has_upto(
                            *self,
                            k as int,
                            cx0 as int,
                            cy0 as int,
                            i,
                        ) ==> out@.contains(i),
                        forall|j: int| 0 <= j < m ==> out@.contains(
                            #[trigger] self.cells@[k as int].indices@[j],
                        ),
                        forall|mm: int| 0 <= mm < out@.len() ==> window_has(
                            *self,
                            cx0 as int,
                            cy0 as int,
                            #[trigger] out@[mm],
                        ),
                    decreases self.cells@[k as int].indices@.len() - m,
                {
                    let idx = self.cells[k].indices[m];
                    let ghost prev_out = out@;
                    out.push(idx);
                    proof {
                        assert(out@ == prev_out.push(idx));
                        assert forall|q: usize| prev_out.contains(q) implies out@.contains(q) by {
                            let pp = choose|pp: int|
                                0 <= pp < prev_out.len() && prev_out[pp] == q;
                            assert(out@[pp] == q);
                        }
                        assert(out@[out@.len() - 1] == idx);
                        assert(out@.contains(idx));
                        assert(self.cells@[k as int].indices@[m as int] == idx);
                        assert(self.cells@[k as int].indices@.contains(idx));
                        assert(window_has(*self, cx0 as int, cy0 as int, idx));
                        assert forall|i: usize| window_has_upto(
                            *self,
                            k as int,
                            cx0 as int,
                            cy0 as int,
                            i,
                        ) implies out@.contains(i) by {
                            assert(prev_out.contains(i));
                        }
                    }
                    m = m + 1;
                }
                proof {
                    assert forall|i: usize| window_has_upto(
                        *self,
                        k as int + 1,
                        cx0 as int,
                        cy0 as int,
                        i,
                    ) implies out@.contains(i) by {
                        if window_has_upto(*self, k as int, cx0 as int, cy0 as int, i) {
                        } else {
                            let kk = choose|kk: int|
                                0 <= kk < k as int + 1 && cx0 - 1 <= (
                                #[trigger] self.cells@[kk]).cx <= cx0 + 1 && cy0 - 1
                                    <= self.cells@[kk].cy <= cy0 + 1
                                    && self.cells@[kk].indices@.contains(i);
                            assert(kk == k as int);
                            let j = choose|j: int|
                                0 <= j < self.cells@[kk].indices@.len()
                                    && self.cells@[kk].indices@[j] == i;
                        }
                    }
                }
            } else {
                proof {
                    assert forall|i: usize| window_has_upto(
                        *self,
                        k as int + 1,
                        cx0 as int,
                        cy0 as int,
                        i,
                    ) implies out@.contains(i) by {
                        if !window_has_upto(*self, k as int, cx0 as int, cy0 as int, i) {
                            let kk = choose|kk: int|
                                0 <= kk < k as int + 1 && cx0 - 1 <= (
                                #[trigger] self.cells@[kk]).cx <= cx0 + 1 && cy0 - 1
                                    <= self.cells@[kk].cy <= cy0 + 1
                                    && self.cells@[kk].indices@.contains(i);
                            assert(kk == k as int);
                            assert(false);
                        }
                    }
                }
            }
            k = k + 1;
        }
        out
    }
}

/// Crossing at most one cell width moves the cell coordinate by at most one:
/// the 3-by-3 neighborhood of a query covers every position within a cell
/// width in each axis.
pub proof fn lemma_neighbor_cell(cs: int, a: int, b: int)
    requires
        1 <= cs,
        -cs <= a - b <= cs,
    ensures
        cell_of(cs, b) - 1 <= cell_of(cs, a) <= cell_of(cs, b) + 1,
{
    vstd::arithmetic::div_mod::lemma_div_is_ordered(b - cs, a, cs);
    vstd::arithmetic::div_mod::lemma_div_is_ordered(a, b + cs, cs);
    vstd::arithmetic::div_mod::lemma_div_plus_one(b, cs);
    vstd::arithmetic::div_mod::lemma_div_minus_one(b, cs);
}

/// The broad-phase guarantee of the grid: after a rebuild, a neighbor query
/// returns every entity whose position lies within one cell width of the
/// query point in each axis.
pub proof fn lemma_grid_roundtrip(
    g: EnemyGrid,
    positions: Seq<(i64, i64)>,
    x: int,
    y: int,
    i: int,
    r: Seq<usize>,
)
    requires
        wf_cell_size(g.cell_size as int),
        0 <= i < positions.len(),
        // the grid files every position under its cell, as rebuild ensures
        forall|j: int| 0 <= j < positions.len() ==> grid_has(
            g,
            cell_of(g.cell_size as int, #[trigger] positions[j].0 as int),
            cell_of(g.cell_size as int, positions[j].1 as int),
            j as usize,
        ),
        // the query returned every index filed in the 3-by-3 window, as
        // query_neighbors ensures
        forall|idx: usize| window_has(g, cell_of(g.cell_size as int, x), cell_of(
            g.cell_size as int,
            y,
        ), idx) ==> r.contains(idx),
        // the entity lies within one cell width of the query point
        -(g.cell_size as int) <= positions[i].0 - x <= g.cell_size as int,
        -(g.cell_size as int) <= positions[i].1 - y <= g.cell_size as int,
    ensures
        r.contains(i as usize),
{
    lemma_neighbor_cell(g.cell_size as int, positions[i].0 as int, x);
    lemma_neighbor_cell(g.cell_size as int, positions[i].1 as int, y);
}

} // verus!
