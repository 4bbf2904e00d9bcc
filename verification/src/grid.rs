//! Uniform-grid spatial index: maps a quantized cell coordinate to the
//! bucket of actor handles currently in that cell, and answers "who is near
//! point P" by visiting the cell containing P and its eight neighbours.
//!
//! The index is rebuilt from current positions each frame and is never the
//! system of record for actor existence.  Its central guarantee is
//! completeness: a query never misses an actor that is truly within the
//! query radius, as long as the radius does not exceed one cell (false
//! positives from coarse cell membership are filtered by true distance).

use vstd::prelude::*;
use crate::vec2::{Vec2I, dist_sq, distance_sq, in_world, lemma_comp_le_sqrt, lemma_square_nonneg};

verus! {

/// Cell edge length in milli-units (128 units): a 3x3 neighbourhood spans
/// every interaction radius the configuration allows.
pub const GRID_CELL: i64 = 128_000;

/// One actor as the index stores it: an opaque handle and the position it
/// was inserted at.
#[derive(Clone, Copy, Debug, PartialEq, Eq, Structural)]
pub struct GridEntry {
    pub handle: u64,
    pub pos: Vec2I,
}

/// Quantized cell coordinate of one axis, clamped to the 32-cell span the
/// grid covers.
pub open spec fn cell_coord(c: int) -> int {
    let t = c + 2_048_000;
    if t < 0 {
        0
    } else if t / 128_000 > 31 {
        31
    } else {
        t / 128_000
    }
}

/// Linear bucket number of a position.
pub open spec fn bucket_of(pos: Vec2I) -> int {
    cell_coord(pos.x as int) * 32 + cell_coord(pos.y as int)
}

/// A frame-local spatial index over a uniform 32 x 32 cell grid.
pub struct SpatialGrid {
    items: Vec<GridEntry>,
    buckets: Vec<Vec<usize>>,
}

impl SpatialGrid {
    /// Everything the index holds, in insertion order.
    pub closed spec fn entries(self) -> Seq<GridEntry> {
        self.items@
    }

    /// Internal consistency: 1024 buckets; every bucket member indexes an
    /// item that quantizes to that bucket; every item is found in the
    /// bucket its position quantizes to.
    pub closed spec fn wf(self) -> bool {
        &&& self.items@.len() <= 1_000_000
        &&& self.buckets@.len() == 1024
        &&& forall|b: int, k: int|
            0 <= b < 1024 && 0 <= k < self.buckets@[b]@.len() ==> {
                &&& #[trigger] self.buckets@[b]@[k] < self.items@.len()
                &&& bucket_of(self.items@[self.buckets@[b]@[k] as int].pos) == b
            }
        &&& forall|i: int|
            0 <= i < self.items@.len() ==> {
                &&& in_world(#[trigger] self.items@[i].pos)
                &&& self.buckets@[bucket_of(self.items@[i].pos)]@.contains(i as usize)
            }
    }

    /// An empty index.
    pub fn new() -> (g: SpatialGrid)
        ensures
            g.wf(),
            g.entries().len() == 0,
    {
        let mut buckets: Vec<Vec<usize>> = Vec::new();
        let mut n: usize = 0;
        while n < 1024
            invariant
                buckets@.len() == n,
                n <= 1024,
                forall|b: int| 0 <= b < n ==> #[trigger] buckets@[b]@.len() == 0,
            decreases 1024 - n,
        {
            buckets.push(Vec::new());
            n = n + 1;
        }
        SpatialGrid { items: Vec::new(), buckets }
    }

    /// Number of entries held.
    pub fn len(&self) -> (n: usize)
        ensures
            n == self.entries().len(),
    {
        self.items.len()
    }

    /// Add an actor to the index for the current frame.
    pub fn insert_enemy(&mut self, handle: u64, pos: Vec2I)
        requires
            old(self).wf(),
            in_world(pos),
            old(self).entries().len() < 1_000_000,
        ensures
            final(self).wf(),
            final(self).entries() == old(self).entries().push(GridEntry { handle, pos }),
    {
        let idx = self.items.len();
        self.items.push(GridEntry { handle, pos });
        let b = bucket_index(pos);
        let ghost old_buckets = self.buckets@;
        let ghost old_items_len = self.items@.len() - 1;
        let bucket = crate::vec2::vec_mut(&mut self.buckets, b);
        bucket.push(idx);
        proof {
            let items = self.items@;
            let buckets = self.buckets@;
            assert forall|bb: int, k: int|
                0 <= bb < 1024 && 0 <= k < buckets[bb]@.len() implies {
                    &&& #[trigger] buckets[bb]@[k] < items.len()
                    &&& bucket_of(items[buckets[bb]@[k] as int].pos) == bb
                } by {
                if bb == b {
                    if k < old_buckets[bb]@.len() {
                        assert(buckets[bb]@[k] == old_buckets[bb]@[k]);
                    } else {
                        assert(buckets[bb]@[k] == idx);
                    }
                } else {
                    assert(buckets[bb] == old_buckets[bb]);
                }
            }
            assert forall|i: int| 0 <= i < items.len() implies {
                &&& in_world(#[trigger] items[i].pos)
                &&& buckets[bucket_of(items[i].pos)]@.contains(i as usize)
            } by {
                if i < old_items_len {
                    let ob = bucket_of(items[i].pos);
                    assert(old_buckets[ob]@.contains(i as usize));
                    let k = choose|k: int|
                        0 <= k < old_buckets[ob]@.len() && old_buckets[ob]@[k] == i as usize;
                    assert(buckets[ob]@[k] == i as usize);
                } else {
                    assert(items[i] == GridEntry { handle, pos });
                    let nb = bucket_of(pos);
                    assert(buckets[nb]@[buckets[nb]@.len() - 1] == idx);
                }
            }
        }
    }

    /// All actors in the 3x3 cell neighbourhood of `p`: a superset of every
    /// actor within one cell length of `p`, and nothing that was not
    /// inserted.
    pub fn get_nearby_enemies(&self, p: Vec2I) -> (result: Vec<GridEntry>)
        requires
            self.wf(),
            in_world(p),
        ensures
            forall|i: int|
                0 <= i < self.entries().len() && dist_sq(#[trigger] self.entries()[i].pos, p)
                    <= GRID_CELL * GRID_CELL ==> result@.contains(self.entries()[i]),
            forall|j: int| 0 <= j < result@.len() ==> self.entries().contains(#[trigger] result@[j]),
    {
        let cx = cell_coord_exec(p.x);
        let cy = cell_coord_exec(p.y);
        let lo_x = if cx == 0 { 0 } else { cx - 1 };
        let hi_x = if cx >= 31 { 31 } else { cx + 1 };
        let lo_y = if cy == 0 { 0 } else { cy - 1 };
        let hi_y = if cy >= 31 { 31 } else { cy + 1 };
        let mut result: Vec<GridEntry> = Vec::new();
        let mut bx = lo_x;
        while bx <= hi_x
            invariant
                self.wf(),
                in_world(p),
                lo_x as int == if cell_coord(p.x as int) == 0 {
                    0int
                } else {
                    cell_coord(p.x as int) - 1
                },
                hi_x as int == if cell_coord(p.x as int) >= 31 {
                    31int
                } else {
                    cell_coord(p.x as int) + 1
                },
                lo_y as int == if cell_coord(p.y as int) == 0 {
                    0int
                } else {
                    cell_coord(p.y as int) - 1
                },
                hi_y as int == if cell_coord(p.y as int) >= 31 {
                    31int
                } else {
                    cell_coord(p.y as int) + 1
                },
                lo_x <= bx <= hi_x + 1,
                0 <= lo_x <= hi_x <= 31,
                0 <= lo_y <= hi_y <= 31,
                forall|i: int|
                    0 <= i < self.entries().len() && lo_x <= cell_coord(
                        #[trigger] self.entries()[i].pos.x as int,
                    ) < bx && lo_y <= cell_coord(self.entries()[i].pos.y as int) <= hi_y
                    ==> result@.contains(self.entries()[i]),
                forall|j: int|
                    0 <= j < result@.len() ==> self.entries().contains(#[trigger] result@[j]),
            decreases hi_x + 1 - bx,
        {
            let mut by = lo_y;
            while by <= hi_y
                invariant
                    self.wf(),
                    in_world(p),
                    lo_x <= bx <= hi_x,
                    lo_y <= by <= hi_y + 1,
                    0 <= lo_x <= hi_x <= 31,
                    0 <= lo_y <= hi_y <= 31,
                    forall|i: int|
                        0 <= i < self.entries().len() && lo_x <= cell_coord(
                            #[trigger] self.entries()[i].pos.x as int,
                        ) < bx && lo_y <= cell_coord(self.entries()[i].pos.y as int) <= hi_y
                        ==> result@.contains(self.entries()[i]),
                    forall|i: int|
                        0 <= i < self.entries().len() && cell_coord(
                            #[trigger] self.entries()[i].pos.x as int,
                        ) == bx && lo_y <= cell_coord(self.entries()[i].pos.y as int) < by
                        ==> result@.contains(self.entries()[i]),
                    forall|j: int|
                        0 <= j < result@.len() ==> self.entries().contains(#[trigger] result@[j]),
                decreases hi_y + 1 - by,
            {
                let b: usize = (bx * 32 + by) as usize;
                let bucket_len = self.buckets[b].len();
                let mut k: usize = 0;
                while k < bucket_len
                    invariant
                        self.wf(),
                        0 <= bx <= 31,
                        0 <= by <= 31,
                        b == bx * 32 + by,
                        b < 1024,
                        bucket_len == self.buckets@[b as int]@.len(),
                        k <= bucket_len,
                        forall|kk: int|
                            0 <= kk < k ==> result@.contains(
                                self.entries()[#[trigger] self.buckets@[b as int]@[kk] as int],
                            ),
                        forall|i: int|
                            0 <= i < self.entries().len() && lo_x <= cell_coord(
                                #[trigger] self.entries()[i].pos.x as int,
                            ) < bx && lo_y <= cell_coord(self.entries()[i].pos.y as int) <= hi_y
                            ==> result@.contains(self.entries()[i]),
                        forall|i: int|
                            0 <= i < self.entries().len() && cell_coord(
                                #[trigger] self.entries()[i].pos.x as int,
                            ) == bx && lo_y <= cell_coord(self.entries()[i].pos.y as int) < by
                            ==> result@.contains(self.entries()[i]),
                        forall|j: int|
                            0 <= j < result@.len() ==> self.entries().contains(
                                #[trigger] result@[j],
                            ),
                    decreases bucket_len - k,
                {
                    let idx = self.buckets[b][k];
                    let entry = self.items[idx];
                    let ghost prev = result@;
                    result.push(entry);
                    proof {
                        assert forall|j: int| 0 <= j < result@.len() implies self.entries()
                            .contains(#[trigger] result@[j]) by {
                            if j < prev.len() {
                                assert(result@[j] == prev[j]);
                            } else {
                                assert(result@[j] == self.entries()[idx as int]);
                            }
                        }
                        assert forall|s: Seq<GridEntry>, e: GridEntry, x: GridEntry|
                            s.contains(x) || e == x implies #[trigger] s.push(e).contains(x) by {
                            if s.contains(x) {
                                let w = choose|w: int| 0 <= w < s.len() && s[w] == x;
                                assert(s.push(e)[w] == x);
                            } else {
                                assert(s.push(e)[s.len() as int] == x);
                            }
                        }
                    }
                    k = k + 1;
                }
                proof {
                    // every item whose cell is exactly (bx, by) sits in this
                    // bucket, and the whole bucket has been pushed
                    assert forall|i: int|
                        0 <= i < self.entries().len() && cell_coord(
                            #[trigger] self.entries()[i].pos.x as int,
                        ) == bx && cell_coord(self.entries()[i].pos.y as int) == by
                        implies result@.contains(self.entries()[i]) by {
                        assert(self.items@[i] == self.entries()[i]);
                        assert(in_world(self.items@[i].pos));
                        assert(bucket_of(self.entries()[i].pos) == b);
                        let bseq = self.buckets@[b as int]@;
                        assert(bseq.contains(i as usize));
                        let kk = choose|kk: int| 0 <= kk < bseq.len() && bseq[kk] == i as usize;
                        assert(result@.contains(self.entries()[bseq[kk] as int]));
                    }
                }
                by = by + 1;
            }
            bx = bx + 1;
        }
        proof {
            assert forall|i: int|
                0 <= i < self.entries().len() && dist_sq(#[trigger] self.entries()[i].pos, p)
                    <= GRID_CELL * GRID_CELL implies result@.contains(self.entries()[i]) by {
                let q = self.entries()[i].pos;
                lemma_within_cell_neighbourhood(q, p);
            }
        }
        result
    }

    /// All actors within `radius` of `point`: every such actor is returned
    /// (no false negatives), and every returned handle belongs to an
    /// inserted actor truly within `radius`.  Querying an empty index
    /// returns an empty sequence, never an error.
    pub fn query(&self, point: Vec2I, radius: i64) -> (result: Vec<u64>)
        requires
            self.wf(),
            in_world(point),
            0 <= radius <= GRID_CELL,
        ensures
            forall|i: int|
                0 <= i < self.entries().len() && dist_sq(#[trigger] self.entries()[i].pos, point)
                    <= radius * radius ==> result@.contains(self.entries()[i].handle),
            forall|h: u64|
                #![trigger result@.contains(h)]
                result@.contains(h) ==> exists|i: int|
                    #![trigger self.entries()[i]]
                    0 <= i < self.entries().len() && h == self.entries()[i].handle && dist_sq(
                        self.entries()[i].pos,
                        point,
                    ) <= radius * radius,
    {
        let candidates = self.get_nearby_enemies(point);
        proof {
            crate::vec2::lemma_prod_bound(radius as int, radius as int, GRID_CELL as int);
        }
        let rsq = radius * radius;
        let mut result: Vec<u64> = Vec::new();
        let ghost mut wit: Seq<int> = Seq::empty();
        let mut j: usize = 0;
        while j < candidates.len()
            invariant
                self.wf(),
                in_world(point),
                0 <= radius <= GRID_CELL,
                rsq == radius * radius,
                j <= candidates@.len(),
                forall|jj: int|
                    0 <= jj < candidates@.len() ==> self.entries().contains(
                        #[trigger] candidates@[jj],
                    ),
                forall|jj: int|
                    0 <= jj < j && dist_sq(#[trigger] candidates@[jj].pos, point) <= radius
                        * radius ==> result@.contains(candidates@[jj].handle),
                wit.len() == result@.len(),
                forall|m: int|
                    #![trigger wit[m]]
                    0 <= m < wit.len() ==> {
                        &&& 0 <= wit[m] < self.entries().len()
                        &&& result@[m] == self.entries()[wit[m]].handle
                        &&& dist_sq(self.entries()[wit[m]].pos, point) <= radius * radius
                    },
            decreases candidates@.len() - j,
        {
            let e = candidates[j];
            proof {
                assert(self.entries().contains(e));
                let w = choose|w: int| 0 <= w < self.entries().len() && self.entries()[w] == e;
                assert(self.items@[w] == self.entries()[w]);
                assert(in_world(self.items@[w].pos));
                assert(in_world(e.pos));
            }
            let d = distance_sq(e.pos, point);
            if d <= rsq {
                let ghost prev = result@;
                result.push(e.handle);
                proof {
                    let w = choose|w: int| 0 <= w < self.entries().len() && self.entries()[w] == e;
                    wit = wit.push(w);
                    assert forall|m: int| #![trigger wit[m]] 0 <= m < wit.len() implies {
                        &&& 0 <= wit[m] < self.entries().len()
                        &&& result@[m] == self.entries()[wit[m]].handle
                        &&& dist_sq(self.entries()[wit[m]].pos, point) <= radius * radius
                    } by {
                        if m < prev.len() {
                            assert(wit[m] == wit.drop_last()[m]);
                            assert(result@[m] == prev[m]);
                        } else {
                            assert(wit[m] == w);
                            assert(result@[m] == e.handle);
                        }
                    }
                    assert forall|jj: int|
                        0 <= jj < j + 1 && dist_sq(#[trigger] candidates@[jj].pos, point) <= radius
                            * radius implies result@.contains(candidates@[jj].handle) by {
                        if jj < j {
                            let v = choose|v: int|
                                0 <= v < prev.len() && prev[v] == candidates@[jj].handle;
                            assert(result@[v] == candidates@[jj].handle);
                        } else {
                            assert(result@[prev.len() as int] == e.handle);
                        }
                    }
                }
            } else {
                proof {
                    assert forall|jj: int|
                        0 <= jj < j + 1 && dist_sq(#[trigger] candidates@[jj].pos, point) <= radius
                            * radius implies result@.contains(candidates@[jj].handle) by {
                        assert(jj < j || candidates@[jj] == e);
                    }
                }
            }
            j = j + 1;
        }
        proof {
            assert forall|i: int|
                0 <= i < self.entries().len() && dist_sq(#[trigger] self.entries()[i].pos, point)
                    <= radius * radius implies result@.contains(self.entries()[i].handle) by {
                crate::vec2::lemma_sq_le(radius as int, GRID_CELL as int);
                assert(dist_sq(self.entries()[i].pos, point) <= GRID_CELL * GRID_CELL);
                assert(candidates@.contains(self.entries()[i]));
                let w = choose|w: int|
                    0 <= w < candidates@.len() && candidates@[w] == self.entries()[i];
                assert(dist_sq(candidates@[w].pos, point) <= radius * radius);
                assert(result@.contains(candidates@[w].handle));
            }
            assert forall|h: u64| #![trigger result@.contains(h)] result@.contains(h)
                implies exists|i: int|
                #![trigger self.entries()[i]]
                0 <= i < self.entries().len() && h == self.entries()[i].handle && dist_sq(
                    self.entries()[i].pos,
                    point,
                ) <= radius * radius by {
                let k = choose|k: int| 0 <= k < result@.len() && result@[k] == h;
                let iw = wit[k];
                assert(0 <= iw < self.entries().len() && result@[k] == self.entries()[iw].handle
                    && dist_sq(self.entries()[iw].pos, point) <= radius * radius);
            }
        }
        result
    }
}

/// Exec computation of one axis' cell coordinate.
pub fn cell_coord_exec(c: i64) -> (r: i64)
    requires
        -100_000_000 <= c <= 100_000_000,
    ensures
        r == cell_coord(c as int),
        0 <= r <= 31,
{
    let t = c + 2_048_000;
    if t < 0 {
        0
    } else {
        let q = t / 128_000;
        if q > 31 {
            31
        } else {
            q
        }
    }
}

/// Exec computation of the bucket number.
pub fn bucket_index(pos: Vec2I) -> (b: usize)
    requires
        in_world(pos),
    ensures
        b == bucket_of(pos),
        b < 1024,
{
    let cx = cell_coord_exec(pos.x);
    let cy = cell_coord_exec(pos.y);
    (cx * 32 + cy) as usize
}

/// Quantization moves by at most one cell when the coordinate moves by at
/// most one cell length.
proof fn lemma_cell_lipschitz(a: int, b: int)
    requires
        -128_000 <= a - b <= 128_000,
    ensures
        -1 <= cell_coord(a) - cell_coord(b) <= 1,
{
    lemma_cell_mono_step(a, b);
    lemma_cell_mono_step(b, a);
}

/// One direction of the Lipschitz bound: moving up by at most one cell
/// length raises the cell coordinate by at most one, and quantization is
/// monotone.
proof fn lemma_cell_mono_step(a: int, b: int)
    requires
        a - b <= 128_000,
    ensures
        cell_coord(a) <= cell_coord(b) + 1,
{
    let ta = a + 2_048_000;
    let tb = b + 2_048_000;
    if ta < 0 {
        // cell_coord(a) == 0
    } else if tb < 0 {
        // ta >= 0 and ta <= tb + 128_000 < 128_000, so ta / 128_000 == 0
        assert(ta < 128_000);
        assert(ta / 128_000 == 0);
    } else {
        vstd::arithmetic::div_mod::lemma_div_is_ordered(ta, tb + 128_000, 128_000);
        assert((tb + 128_000) / 128_000 == tb / 128_000 + 1) by {
            vstd::arithmetic::div_mod::lemma_div_plus_one(tb, 128_000);
        }
    }
}

/// A point within one cell length of `p` quantizes into the 3x3 clamped
/// neighbourhood of `p`'s cell.
proof fn lemma_within_cell_neighbourhood(q: Vec2I, p: Vec2I)
    requires
        dist_sq(q, p) <= GRID_CELL * GRID_CELL,
    ensures
        cell_coord(p.x as int) == 0 || cell_coord(q.x as int) >= cell_coord(p.x as int) - 1,
        cell_coord(p.x as int) >= 31 || cell_coord(q.x as int) <= cell_coord(p.x as int) + 1,
        cell_coord(p.y as int) == 0 || cell_coord(q.y as int) >= cell_coord(p.y as int) - 1,
        cell_coord(p.y as int) >= 31 || cell_coord(q.y as int) <= cell_coord(p.y as int) + 1,
        0 <= cell_coord(q.x as int) <= 31,
        0 <= cell_coord(q.y as int) <= 31,
{
    lemma_radius_within_cell(q, p, GRID_CELL as int);
    lemma_cell_lipschitz(q.x as int, p.x as int);
    lemma_cell_lipschitz(q.y as int, p.y as int);
}

/// From a squared-distance bound to per-axis bounds.
proof fn lemma_radius_within_cell(q: Vec2I, p: Vec2I, radius: int)
    requires
        0 <= radius <= GRID_CELL,
        dist_sq(q, p) <= radius * radius,
    ensures
        -radius <= q.x - p.x <= radius,
        -radius <= q.y - p.y <= radius,
{
    lemma_square_nonneg((q.x - p.x) as int);
    lemma_square_nonneg((q.y - p.y) as int);
    lemma_comp_le_sqrt((q.x - p.x) as int, radius);
    lemma_comp_le_sqrt((q.y - p.y) as int, radius);
}

} // verus!
