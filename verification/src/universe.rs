//! The grid engine: a fixed-size toroidal Game of Life universe with
//! double-buffered bit-packed cell storage and per-step delta lists.

use vstd::prelude::*;
use fixedbitset::FixedBitSet;
use crate::bits::fbs_bits;
use crate::bits::fbs_clear;
use crate::bits::fbs_get;
use crate::bits::fbs_new;
use crate::bits::fbs_set;
use crate::bits::fbs_toggle;
use crate::model::cell_index;
use crate::model::covered_by;
use crate::model::dead_grid;
use crate::model::deltas_upto;
use crate::model::lemma_cell_index_bounds;
use crate::model::life_rule;
use crate::model::neighbor_count;
use crate::model::next_gen;
use crate::model::pattern_covers;
use crate::model::stripe_grid;
use crate::model::wrap_dec;
use crate::model::wrap_inc;

verus! {

/// Row-major linear index of an in-range coordinate, as a machine
/// integer.
fn linear_index(width: u32, height: u32, row: u32, col: u32) -> (i: usize)
    requires
        width >= 1,
        height >= 1,
        width as int * height as int <= u32::MAX as int,
        row < height,
        col < width,
    ensures
        i == cell_index(row as int, col as int, width as int),
        i < width as int * height as int,
{
    proof {
        lemma_cell_index_bounds(row as int, col as int, width as int, height as int);
    }
    (row as usize) * (width as usize) + (col as usize)
}

/// How many of the eight toroidal neighbors of `(row, col)` are alive
/// in the buffer `cur`.
fn live_neighbor_count(cur: &FixedBitSet, width: u32, height: u32, row: u32, col: u32) -> (count:
    u8)
    requires
        width >= 1,
        height >= 1,
        width as int * height as int <= u32::MAX as int,
        fbs_bits(*cur).len() == width as int * height as int,
        row < height,
        col < width,
    ensures
        count as int == neighbor_count(
            fbs_bits(*cur),
            width as int,
            height as int,
            row as int,
            col as int,
        ),
{
    let north = if row == 0 {
        height - 1
    } else {
        row - 1
    };
    let south = if row == height - 1 {
        0
    } else {
        row + 1
    };
    let west = if col == 0 {
        width - 1
    } else {
        col - 1
    };
    let east = if col == width - 1 {
        0
    } else {
        col + 1
    };
    proof {
        assert(north == wrap_dec(row as int, height as int));
        assert(south == wrap_inc(row as int, height as int));
        assert(west == wrap_dec(col as int, width as int));
        assert(east == wrap_inc(col as int, width as int));
    }
    let mut count: u8 = 0;
    if fbs_get(cur, linear_index(width, height, north, west)) {
        count += 1;
    }
    if fbs_get(cur, linear_index(width, height, north, col)) {
        count += 1;
    }
    if fbs_get(cur, linear_index(width, height, north, east)) {
        count += 1;
    }
    if fbs_get(cur, linear_index(width, height, row, west)) {
        count += 1;
    }
    if fbs_get(cur, linear_index(width, height, row, east)) {
        count += 1;
    }
    if fbs_get(cur, linear_index(width, height, south, west)) {
        count += 1;
    }
    if fbs_get(cur, linear_index(width, height, south, col)) {
        count += 1;
    }
    if fbs_get(cur, linear_index(width, height, south, east)) {
        count += 1;
    }
    count
}

/// Computes the next generation of `cur` into `scratch` and records
/// every change in the two delta lists, in row-major scan order.
fn step_into(
    cur: &FixedBitSet,
    scratch: &mut FixedBitSet,
    width: u32,
    height: u32,
    d_alive: &mut Vec<u32>,
    d_dead: &mut Vec<u32>,
)
    requires
        width >= 1,
        height >= 1,
        width as int * height as int <= u32::MAX as int,
        fbs_bits(*cur).len() == width as int * height as int,
        fbs_bits(*old(scratch)).len() == width as int * height as int,
        old(d_alive)@ == Seq::<u32>::empty(),
        old(d_dead)@ == Seq::<u32>::empty(),
    ensures
        fbs_bits(*final(scratch)) == next_gen(fbs_bits(*cur), width as int, height as int),
        final(d_alive)@ == deltas_upto(
            fbs_bits(*cur),
            next_gen(fbs_bits(*cur), width as int, height as int),
            width as int * height as int,
            true,
        ),
        final(d_dead)@ == deltas_upto(
            fbs_bits(*cur),
            next_gen(fbs_bits(*cur), width as int, height as int),
            width as int * height as int,
            false,
        ),
        forall|j: int|
            0 <= j < final(d_alive)@.len() ==> final(d_alive)@[j] < width as int * height as int,
        forall|j: int|
            0 <= j < final(d_dead)@.len() ==> final(d_dead)@[j] < width as int * height as int,
{
    let ghost g0 = fbs_bits(*cur);
    let ghost ng = next_gen(g0, width as int, height as int);
    let mut row: u32 = 0;
    while row < height
        invariant
            row <= height,
            width >= 1,
            height >= 1,
            width as int * height as int <= u32::MAX as int,
            g0 == fbs_bits(*cur),
            g0.len() == width as int * height as int,
            ng == next_gen(g0, width as int, height as int),
            fbs_bits(*scratch).len() == g0.len(),
            forall|i: int|
                0 <= i < row as int * width as int ==> fbs_bits(*scratch)[i] == ng[i],
            d_alive@ == deltas_upto(g0, ng, row as int * width as int, true),
            d_dead@ == deltas_upto(g0, ng, row as int * width as int, false),
            forall|j: int|
                0 <= j < d_alive@.len() ==> d_alive@[j] < width as int * height as int,
            forall|j: int|
                0 <= j < d_dead@.len() ==> d_dead@[j] < width as int * height as int,
        decreases height - row,
    {
        let mut col: u32 = 0;
        proof {
            assert(row as int * width as int <= (height as int - 1) * width as int)
                by (nonlinear_arith)
                requires
                    row < height,
                    width >= 1,
            ;
        }
        while col < width
            invariant
                col <= width,
                row < height,
                width >= 1,
                height >= 1,
                width as int * height as int <= u32::MAX as int,
                g0 == fbs_bits(*cur),
                g0.len() == width as int * height as int,
                ng == next_gen(g0, width as int, height as int),
                fbs_bits(*scratch).len() == g0.len(),
                forall|i: int|
                    0 <= i < row as int * width as int + col as int ==> fbs_bits(*scratch)[i]
                        == ng[i],
                d_alive@ == deltas_upto(g0, ng, row as int * width as int + col as int, true),
                d_dead@ == deltas_upto(g0, ng, row as int * width as int + col as int, false),
                forall|j: int|
                    0 <= j < d_alive@.len() ==> d_alive@[j] < width as int * height as int,
                forall|j: int|
                    0 <= j < d_dead@.len() ==> d_dead@[j] < width as int * height as int,
            decreases width - col,
        {
            let idx = linear_index(width, height, row, col);
            let cell = fbs_get(cur, idx);
            let live = live_neighbor_count(cur, width, height, row, col);
            let value = if cell {
                live == 2 || live == 3
            } else {
                live == 3
            };
            fbs_set(scratch, idx, value);
            if value != cell {
                if value {
                    d_alive.push(idx as u32);
                } else {
                    d_dead.push(idx as u32);
                }
            }
            proof {
                lemma_cell_index_bounds(row as int, col as int, width as int, height as int);
                assert(ng[idx as int] == life_rule(
                    g0[idx as int],
                    neighbor_count(g0, width as int, height as int, row as int, col as int),
                ));
                assert(ng[idx as int] == value);
                assert(deltas_upto(g0, ng, idx as int + 1, true) == if g0[idx as int] != ng[idx as int] && ng[idx as int] == true {
                    deltas_upto(g0, ng, idx as int, true).push(idx as u32)
                } else {
                    deltas_upto(g0, ng, idx as int, true)
                });
                assert(deltas_upto(g0, ng, idx as int + 1, false) == if g0[idx as int] != ng[idx as int] && ng[idx as int] == false {
                    deltas_upto(g0, ng, idx as int, false).push(idx as u32)
                } else {
                    deltas_upto(g0, ng, idx as int, false)
                });
            }
            col += 1;
        }
        proof {
            assert((row as int + 1) * width as int == row as int * width as int + width as int)
                by (nonlinear_arith);
        }
        row += 1;
    }
    proof {
        assert(height as int * width as int == width as int * height as int) by (nonlinear_arith);
        assert(fbs_bits(*scratch) =~= ng);
    }
}

/// Overwrites every bit of `buf` with the corresponding entry of `bits`.
fn fill_from(buf: &mut FixedBitSet, bits: &Vec<bool>)
    requires
        fbs_bits(*old(buf)).len() == bits@.len(),
    ensures
        fbs_bits(*final(buf)) == bits@,
{
    let mut i: usize = 0;
    while i < bits.len()
        invariant
            i <= bits@.len(),
            fbs_bits(*buf).len() == bits@.len(),
            forall|k: int| 0 <= k < i ==> fbs_bits(*buf)[k] == bits@[k],
        decreases bits@.len() - i,
    {
        let b = bits[i];
        fbs_set(buf, i, b);
        i += 1;
    }
    proof {
        assert(fbs_bits(*buf) =~= bits@);
    }
}


/// The relative live cells of the glider preset (3 x 3 bounding box).
pub open spec fn glider_offsets() -> Seq<(u32, u32)> {
    seq![(1u32, 0u32), (2u32, 1u32), (0u32, 2u32), (1u32, 2u32), (2u32, 2u32)]
}

/// The relative live cells of the pulsar preset (15 x 15 bounding box).
pub open spec fn pulsar_offsets() -> Seq<(u32, u32)> {
    seq![
        (1u32, 3u32), (1u32, 4u32), (1u32, 5u32), (1u32, 9u32), (1u32, 10u32), (1u32, 11u32),
        (6u32, 3u32), (6u32, 4u32), (6u32, 5u32), (6u32, 9u32), (6u32, 10u32), (6u32, 11u32),
        (8u32, 3u32), (8u32, 4u32), (8u32, 5u32), (8u32, 9u32), (8u32, 10u32), (8u32, 11u32),
        (13u32, 3u32), (13u32, 4u32), (13u32, 5u32), (13u32, 9u32), (13u32, 10u32), (13u32, 11u32),
        (3u32, 1u32), (4u32, 1u32), (5u32, 1u32), (9u32, 1u32), (10u32, 1u32), (11u32, 1u32),
        (3u32, 6u32), (4u32, 6u32), (5u32, 6u32), (9u32, 6u32), (10u32, 6u32), (11u32, 6u32),
        (3u32, 8u32), (4u32, 8u32), (5u32, 8u32), (9u32, 8u32), (10u32, 8u32), (11u32, 8u32),
        (3u32, 13u32), (4u32, 13u32), (5u32, 13u32), (9u32, 13u32), (10u32, 13u32), (11u32, 13u32),
    ]
}

/// The relative live cells of the lightweight spaceship preset
/// (4 x 5 bounding box).
pub open spec fn spaceship_offsets() -> Seq<(u32, u32)> {
    seq![
        (0u32, 1u32), (0u32, 4u32), (1u32, 0u32), (2u32, 0u32), (2u32, 4u32),
        (3u32, 0u32), (3u32, 1u32), (3u32, 2u32), (3u32, 3u32),
    ]
}

/// The two states a cell can be in. The engine stores cells as packed
/// booleans; this enum names the states for callers that prefer a
/// symbolic form.
#[derive(Clone, Copy, Debug, PartialEq, Eq, Structural)]
pub enum Cell {
    Dead,
    Alive,
}

/// The recoverable failures the engine reports. No operation that
/// returns one of these leaves the grid partially modified.
#[derive(Clone, Copy, Debug, PartialEq, Eq, Structural)]
pub enum GridError {
    /// A width or height of zero was given at construction or resize.
    InvalidDimensions,
    /// A coordinate lies outside `[0, width) x [0, height)`.
    OutOfBounds,
    /// A pattern's bounding box would exceed the grid at the given anchor.
    PatternDoesNotFit,
}

/// A toroidal Life grid. One of the two equally sized bit buffers is
/// current (selected by `now`); the other is the scratch buffer that a
/// step fills before the cursor flips. `d_alive` and `d_dead` record
/// which cells changed in the most recently completed step.
pub struct Universe {
    width: u32,
    height: u32,
    cells_a: FixedBitSet,
    cells_b: FixedBitSet,
    now: usize,
    d_alive: Vec<u32>,
    d_dead: Vec<u32>,
}

impl Universe {
    pub closed spec fn spec_width(&self) -> int {
        self.width as int
    }

    pub closed spec fn spec_height(&self) -> int {
        self.height as int
    }

    /// Number of cells in each buffer.
    pub open spec fn size(&self) -> int {
        self.spec_width() * self.spec_height()
    }

    /// The current generation, as the sequence of cell states in
    /// row-major order.
    pub closed spec fn grid(&self) -> Seq<bool> {
        if self.now == 0 {
            fbs_bits(self.cells_a)
        } else {
            fbs_bits(self.cells_b)
        }
    }

    /// The indices that turned alive in the most recent step.
    pub closed spec fn alive_deltas(&self) -> Seq<u32> {
        self.d_alive@
    }

    /// The indices that turned dead in the most recent step.
    pub closed spec fn dead_deltas(&self) -> Seq<u32> {
        self.d_dead@
    }

    /// Well-formedness: positive dimensions, every index representable
    /// as `u32`, both buffers sized `width * height`, a binary cursor,
    /// and delta entries that denote cells of the grid.
    pub closed spec fn wf(&self) -> bool {
        &&& self.width >= 1
        &&& self.height >= 1
        &&& self.size() <= u32::MAX
        &&& fbs_bits(self.cells_a).len() == self.size()
        &&& fbs_bits(self.cells_b).len() == self.size()
        &&& self.now <= 1
        &&& forall|j: int| 0 <= j < self.d_alive@.len() ==> self.d_alive@[j] < self.size()
        &&& forall|j: int| 0 <= j < self.d_dead@.len() ==> self.d_dead@[j] < self.size()
    }

    pub fn width(&self) -> (w: u32)
        ensures
            w as int == self.spec_width(),
    {
        self.width
    }

    pub fn height(&self) -> (h: u32)
        ensures
            h as int == self.spec_height(),
    {
        self.height
    }

    /// Whether the cell at linear index `idx` is alive in the current
    /// generation.
    pub fn is_alive(&self, idx: u32) -> (r: bool)
        requires
            self.wf(),
            idx < self.size(),
        ensures
            r == self.grid()[idx as int],
    {
        if self.now == 0 {
            fbs_get(&self.cells_a, idx as usize)
        } else {
            fbs_get(&self.cells_b, idx as usize)
        }
    }

    /// Read-only view of the current buffer's packed representation,
    /// valid until the next mutating call.
    pub fn cells(&self) -> (r: &FixedBitSet)
        ensures
            fbs_bits(*r) == self.grid(),
    {
        if self.now == 0 {
            &self.cells_a
        } else {
            &self.cells_b
        }
    }

    /// Read-only view of the indices that turned alive in the most
    /// recent step, valid until the next step or mutation.
    pub fn delta_a(&self) -> (r: &Vec<u32>)
        ensures
            r@ == self.alive_deltas(),
    {
        &self.d_alive
    }

    /// Read-only view of the indices that turned dead in the most
    /// recent step, valid until the next step or mutation.
    pub fn delta_d(&self) -> (r: &Vec<u32>)
        ensures
            r@ == self.dead_deltas(),
    {
        &self.d_dead
    }

    /// An empty (all-dead) universe of the given dimensions. Rejects a
    /// zero width or height.
    pub fn new_empty(width: u32, height: u32) -> (r: Result<Universe, GridError>)
        requires
            width as int * height as int <= u32::MAX as int,
        ensures
            (r is Ok) <==> (width >= 1 && height >= 1),
            r matches Ok(u) ==> u.wf() && u.spec_width() == width && u.spec_height() == height
                && u.grid() == dead_grid(width as int, height as int) && u.alive_deltas()
                == Seq::<u32>::empty() && u.dead_deltas() == Seq::<u32>::empty(),
            r matches Err(e) ==> e == GridError::InvalidDimensions,
    {
        if width == 0 || height == 0 {
            return Err(GridError::InvalidDimensions);
        }
        let size = (width as usize) * (height as usize);
        let u = Universe {
            width,
            height,
            cells_a: fbs_new(size),
            cells_b: fbs_new(size),
            now: 0,
            d_alive: Vec::with_capacity(size),
            d_dead: Vec::with_capacity(size),
        };
        proof {
            assert(u.grid() =~= dead_grid(width as int, height as int));
        }
        Ok(u)
    }

    /// A universe seeded with the deterministic demo stripe: cell `i`
    /// is alive iff `i % 2 == 0` or `i % 7 == 0`. Rejects a zero width
    /// or height.
    pub fn new_stripe(width: u32, height: u32) -> (r: Result<Universe, GridError>)
        requires
            width as int * height as int <= u32::MAX as int,
        ensures
            (r is Ok) <==> (width >= 1 && height >= 1),
            r matches Ok(u) ==> u.wf() && u.spec_width() == width && u.spec_height() == height
                && u.grid() == stripe_grid(width as int, height as int) && u.alive_deltas()
                == Seq::<u32>::empty() && u.dead_deltas() == Seq::<u32>::empty(),
            r matches Err(e) ==> e == GridError::InvalidDimensions,
    {
        if width == 0 || height == 0 {
            return Err(GridError::InvalidDimensions);
        }
        let size = (width as usize) * (height as usize);
        let mut a = fbs_new(size);
        let mut i: usize = 0;
        while i < size
            invariant
                i <= size,
                fbs_bits(a).len() == size,
                forall|k: int| 0 <= k < i ==> fbs_bits(a)[k] == (k % 2 == 0 || k % 7 == 0),
            decreases size - i,
        {
            let alive = i % 2 == 0 || i % 7 == 0;
            fbs_set(&mut a, i, alive);
            i += 1;
        }
        let u = Universe {
            width,
            height,
            cells_a: a,
            cells_b: fbs_new(size),
            now: 0,
            d_alive: Vec::with_capacity(size),
            d_dead: Vec::with_capacity(size),
        };
        proof {
            assert(u.grid() =~= stripe_grid(width as int, height as int));
        }
        Ok(u)
    }

    /// The default demo universe: 128 x 128, seeded with the
    /// deterministic stripe.
    pub fn new() -> (u: Universe)
        ensures
            u.wf(),
            u.spec_width() == 128,
            u.spec_height() == 128,
            u.grid() == stripe_grid(128, 128),
            u.alive_deltas() == Seq::<u32>::empty(),
            u.dead_deltas() == Seq::<u32>::empty(),
    {
        match Self::new_stripe(128, 128) {
            Ok(u) => u,
            Err(_) => vstd::pervasive::unreached(),
        }
    }

    /// A universe whose initial generation is given cell by cell, one
    /// boolean per cell in row-major order — the injection point for a
    /// caller-supplied random (or any other) seed. Rejects a zero
    /// width or height.
    pub fn new_seeded(width: u32, height: u32, bits: &Vec<bool>) -> (r: Result<
        Universe,
        GridError,
    >)
        requires
            width as int * height as int <= u32::MAX as int,
            bits@.len() == width as int * height as int,
        ensures
            (r is Ok) <==> (width >= 1 && height >= 1),
            r matches Ok(u) ==> u.wf() && u.spec_width() == width && u.spec_height() == height
                && u.grid() == bits@ && u.alive_deltas() == Seq::<u32>::empty() && u.dead_deltas()
                == Seq::<u32>::empty(),
            r matches Err(e) ==> e == GridError::InvalidDimensions,
    {
        if width == 0 || height == 0 {
            return Err(GridError::InvalidDimensions);
        }
        let size = (width as usize) * (height as usize);
        let mut a = fbs_new(size);
        fill_from(&mut a, bits);
        let u = Universe {
            width,
            height,
            cells_a: a,
            cells_b: fbs_new(size),
            now: 0,
            d_alive: Vec::with_capacity(size),
            d_dead: Vec::with_capacity(size),
        };
        Ok(u)
    }

    /// A 128 x 128 universe whose cells are seeded from the given
    /// boolean source, one entry per cell — the caller supplies the
    /// randomness.
    pub fn new_random(bits: &Vec<bool>) -> (u: Universe)
        requires
            bits@.len() == 128 * 128,
        ensures
            u.wf(),
            u.spec_width() == 128,
            u.spec_height() == 128,
            u.grid() == bits@,
            u.alive_deltas() == Seq::<u32>::empty(),
            u.dead_deltas() == Seq::<u32>::empty(),
    {
        match Self::new_seeded(128, 128, bits) {
            Ok(u) => u,
            Err(_) => vstd::pervasive::unreached(),
        }
    }

    /// Overwrite the whole current generation from the given boolean
    /// source, one entry per cell in row-major order — the injection
    /// point for caller-supplied random reseeding.
    pub fn reset_random(&mut self, bits: &Vec<bool>)
        requires
            old(self).wf(),
            bits@.len() == old(self).size(),
        ensures
            final(self).wf(),
            final(self).spec_width() == old(self).spec_width(),
            final(self).spec_height() == old(self).spec_height(),
            final(self).alive_deltas() == old(self).alive_deltas(),
            final(self).dead_deltas() == old(self).dead_deltas(),
            final(self).grid() == bits@,
    {
        if self.now == 0 {
            fill_from(&mut self.cells_a, bits);
        } else {
            fill_from(&mut self.cells_b, bits);
        }
    }

    /// Set the width of the universe. Both buffers are reallocated to
    /// the new size and every cell resets to dead; the delta lists are
    /// cleared, since their entries describe a grid that no longer
    /// exists. Rejects a zero width.
    pub fn set_width(&mut self, width: u32) -> (r: Result<(), GridError>)
        requires
            old(self).wf(),
            width as int * old(self).spec_height() <= u32::MAX as int,
        ensures
            (r is Ok) <==> width >= 1,
            r is Ok ==> final(self).wf() && final(self).spec_width() == width
                && final(self).spec_height() == old(self).spec_height()
                && final(self).grid() == dead_grid(
                width as int,
                old(self).spec_height(),
            ) && final(self).alive_deltas() == Seq::<u32>::empty() && final(self).dead_deltas()
                == Seq::<u32>::empty(),
            r is Err ==> r == Err::<(), GridError>(GridError::InvalidDimensions) && *final(self)
                == *old(self),
    {
        if width == 0 {
            return Err(GridError::InvalidDimensions);
        }
        let size = (width as usize) * (self.height as usize);
        self.width = width;
        self.cells_a = fbs_new(size);
        self.cells_b = fbs_new(size);
        self.d_alive.clear();
        self.d_dead.clear();
        proof {
            assert(self.grid() =~= dead_grid(width as int, self.spec_height()));
        }
        Ok(())
    }

    /// Set the height of the universe. Both buffers are reallocated to
    /// the new size and every cell resets to dead; the delta lists are
    /// cleared, since their entries describe a grid that no longer
    /// exists. Rejects a zero height.
    pub fn set_height(&mut self, height: u32) -> (r: Result<(), GridError>)
        requires
            old(self).wf(),
            old(self).spec_width() * height as int <= u32::MAX as int,
        ensures
            (r is Ok) <==> height >= 1,
            r is Ok ==> final(self).wf() && final(self).spec_width() == old(self).spec_width()
                && final(self).spec_height() == height && final(self).grid() == dead_grid(
                old(self).spec_width(),
                height as int,
            ) && final(self).alive_deltas() == Seq::<u32>::empty() && final(self).dead_deltas()
                == Seq::<u32>::empty(),
            r is Err ==> r == Err::<(), GridError>(GridError::InvalidDimensions) && *final(self)
                == *old(self),
    {
        if height == 0 {
            return Err(GridError::InvalidDimensions);
        }
        let size = (self.width as usize) * (height as usize);
        self.height = height;
        self.cells_a = fbs_new(size);
        self.cells_b = fbs_new(size);
        self.d_alive.clear();
        self.d_dead.clear();
        proof {
            assert(self.grid() =~= dead_grid(self.spec_width(), height as int));
        }
        Ok(())
    }

    /// Advance the universe one generation. The whole grid is
    /// recomputed into the scratch buffer from the current one, the
    /// delta lists are rebuilt from scratch, and only then does the
    /// cursor flip, so a reader never sees a partially updated
    /// generation.
    pub fn tick(&mut self)
        requires
            old(self).wf(),
        ensures
            final(self).wf(),
            final(self).spec_width() == old(self).spec_width(),
            final(self).spec_height() == old(self).spec_height(),
            final(self).grid() == next_gen(
                old(self).grid(),
                old(self).spec_width(),
                old(self).spec_height(),
            ),
            final(self).alive_deltas() == deltas_upto(
                old(self).grid(),
                final(self).grid(),
                old(self).size(),
                true,
            ),
            final(self).dead_deltas() == deltas_upto(
                old(self).grid(),
                final(self).grid(),
                old(self).size(),
                false,
            ),
    {
        self.d_alive.clear();
        self.d_dead.clear();
        let w = self.width;
        let h = self.height;
        if self.now == 0 {
            step_into(&self.cells_a, &mut self.cells_b, w, h, &mut self.d_alive, &mut self.d_dead);
            self.now = 1;
        } else {
            step_into(&self.cells_b, &mut self.cells_a, w, h, &mut self.d_alive, &mut self.d_dead);
            self.now = 0;
        }
    }

    /// Mark each listed `(row, col)` coordinate alive in the current
    /// generation. If any coordinate is out of range the whole call is
    /// rejected and the grid is left unmodified.
    pub fn set_cells(&mut self, cells: &[(u32, u32)]) -> (r: Result<(), GridError>)
        requires
            old(self).wf(),
        ensures
            final(self).wf(),
            final(self).spec_width() == old(self).spec_width(),
            final(self).spec_height() == old(self).spec_height(),
            final(self).alive_deltas() == old(self).alive_deltas(),
            final(self).dead_deltas() == old(self).dead_deltas(),
            (r is Ok) <==> (forall|j: int|
                0 <= j < cells@.len() ==> cells@[j].0 < old(self).spec_height() && cells@[j].1
                    < old(self).spec_width()),
            r is Ok ==> forall|i: int|
                0 <= i < final(self).size() ==> final(self).grid()[i] == (old(self).grid()[i]
                    || covered_by(cells@, cells@.len() as int, old(self).spec_width(), i)),
            r is Err ==> r == Err::<(), GridError>(GridError::OutOfBounds) && final(self).grid()
                == old(self).grid(),
    {
        let mut j: usize = 0;
        while j < cells.len()
            invariant
                j <= cells@.len(),
                forall|k: int|
                    0 <= k < j ==> cells@[k].0 < self.spec_height() && cells@[k].1
                        < self.spec_width(),
                self.wf(),
            decreases cells@.len() - j,
        {
            let (row, col) = cells[j];
            if row >= self.height || col >= self.width {
                return Err(GridError::OutOfBounds);
            }
            j += 1;
        }
        let ghost w = self.spec_width();
        let ghost g0 = self.grid();
        let mut j: usize = 0;
        while j < cells.len()
            invariant
                j <= cells@.len(),
                forall|k: int|
                    0 <= k < cells@.len() ==> cells@[k].0 < self.spec_height() && cells@[k].1
                        < self.spec_width(),
                self.wf(),
                self.spec_width() == old(self).spec_width(),
                self.spec_height() == old(self).spec_height(),
                self.alive_deltas() == old(self).alive_deltas(),
                self.dead_deltas() == old(self).dead_deltas(),
                w == self.spec_width(),
                g0 == old(self).grid(),
                g0.len() == self.size(),
                forall|i: int| #![trigger g0[i]]
                    0 <= i < self.size() ==> self.grid()[i] == (g0[i] || covered_by(
                        cells@,
                        j as int,
                        w,
                        i,
                    )),
            decreases cells@.len() - j,
        {
            let (row, col) = cells[j];
            let ghost pre = self.grid();
            let ghost j0 = j as int;
            proof {
                assert(forall|i: int| #![trigger g0[i]]
                    0 <= i < self.size() ==> pre[i] == (g0[i] || covered_by(
                        cells@,
                        j0,
                        w,
                        i,
                    )));
            }
            let idx = linear_index(self.width, self.height, row, col);
            if self.now == 0 {
                fbs_set(&mut self.cells_a, idx, true);
            } else {
                fbs_set(&mut self.cells_b, idx, true);
            }
            j += 1;
            proof {
                assert(self.grid() == pre.update(idx as int, true));
                assert(j as int == j0 + 1);
                assert forall|i: int| #![trigger g0[i]] 0 <= i < self.size() implies self.grid()[i] == (
                g0[i] || covered_by(cells@, j as int, w, i)) by {
                    assert(pre[i] == (g0[i] || covered_by(cells@, j0, w, i)));
                    if i == idx as int {
                        assert(self.grid()[i]);
                        assert(0 <= j0 < j as int && i == cell_index(
                            cells@[j0].0 as int,
                            cells@[j0].1 as int,
                            w,
                        ));
                        assert(covered_by(cells@, j as int, w, i));
                    } else {
                        assert(self.grid()[i] == pre[i]);
                        if covered_by(cells@, j0, w, i) {
                            let k = choose|k: int|
                                0 <= k < j0 && i == cell_index(
                                    cells@[k].0 as int,
                                    cells@[k].1 as int,
                                    w,
                                );
                            assert(0 <= k < j as int && i == cell_index(
                                cells@[k].0 as int,
                                cells@[k].1 as int,
                                w,
                            ));
                            assert(covered_by(cells@, j as int, w, i));
                        } else if covered_by(cells@, j as int, w, i) {
                            let k = choose|k: int|
                                0 <= k < j as int && i == cell_index(
                                    cells@[k].0 as int,
                                    cells@[k].1 as int,
                                    w,
                                );
                            if k == j0 {
                                assert(i == idx as int);
                                assert(false);
                            } else {
                                assert(covered_by(cells@, j0, w, i));
                                assert(false);
                            }
                        }
                    }
                }
            }
        }
        Ok(())
    }

    /// Flip the state of the cell at `(row, col)` in the current
    /// generation.
    pub fn toggle_cell(&mut self, row: u32, col: u32) -> (r: Result<(), GridError>)
        requires
            old(self).wf(),
        ensures
            final(self).wf(),
            final(self).spec_width() == old(self).spec_width(),
            final(self).spec_height() == old(self).spec_height(),
            final(self).alive_deltas() == old(self).alive_deltas(),
            final(self).dead_deltas() == old(self).dead_deltas(),
            (r is Ok) <==> (row < old(self).spec_height() && col < old(self).spec_width()),
            r is Ok ==> final(self).grid() == old(self).grid().update(
                cell_index(row as int, col as int, old(self).spec_width()),
                !old(self).grid()[cell_index(row as int, col as int, old(self).spec_width())],
            ),
            r is Err ==> r == Err::<(), GridError>(GridError::OutOfBounds) && final(self).grid()
                == old(self).grid(),
    {
        if row >= self.height || col >= self.width {
            return Err(GridError::OutOfBounds);
        }
        let idx = linear_index(self.width, self.height, row, col);
        if self.now == 0 {
            fbs_toggle(&mut self.cells_a, idx);
        } else {
            fbs_toggle(&mut self.cells_b, idx);
        }
        Ok(())
    }

    /// Set every cell of `pattern` alive at the given anchor. The
    /// pattern is a list of `(row_offset, col_offset)` live positions
    /// inside a `pat_height` x `pat_width` bounding box; if that box
    /// does not fit inside the grid at the anchor, the insertion is
    /// rejected and the grid is left unchanged.
    pub fn insert_pattern(
        &mut self,
        pattern: &Vec<(u32, u32)>,
        pat_height: u32,
        pat_width: u32,
        anchor_row: u32,
        anchor_col: u32,
    ) -> (r: Result<(), GridError>)
        requires
            old(self).wf(),
            forall|k: int|
                0 <= k < pattern@.len() ==> pattern@[k].0 < pat_height && pattern@[k].1
                    < pat_width,
        ensures
            final(self).wf(),
            final(self).spec_width() == old(self).spec_width(),
            final(self).spec_height() == old(self).spec_height(),
            final(self).alive_deltas() == old(self).alive_deltas(),
            final(self).dead_deltas() == old(self).dead_deltas(),
            (r is Ok) <==> (anchor_row + pat_height <= old(self).spec_height() && anchor_col
                + pat_width <= old(self).spec_width()),
            r is Ok ==> forall|i: int|
                0 <= i < final(self).size() ==> final(self).grid()[i] == (old(self).grid()[i]
                    || pattern_covers(
                    pattern@,
                    pattern@.len() as int,
                    anchor_row as int,
                    anchor_col as int,
                    old(self).spec_width(),
                    i,
                )),
            r is Err ==> r == Err::<(), GridError>(GridError::PatternDoesNotFit)
                && final(self).grid() == old(self).grid(),
    {
        if anchor_row as u64 + pat_height as u64 > self.height as u64 || anchor_col as u64
            + pat_width as u64 > self.width as u64 {
            return Err(GridError::PatternDoesNotFit);
        }
        let ghost w = self.spec_width();
        let ghost g0 = self.grid();
        let mut j: usize = 0;
        while j < pattern.len()
            invariant
                j <= pattern@.len(),
                forall|k: int|
                    0 <= k < pattern@.len() ==> pattern@[k].0 < pat_height && pattern@[k].1
                        < pat_width,
                anchor_row + pat_height <= self.spec_height(),
                anchor_col + pat_width <= self.spec_width(),
                self.wf(),
                self.spec_width() == old(self).spec_width(),
                self.spec_height() == old(self).spec_height(),
                self.alive_deltas() == old(self).alive_deltas(),
                self.dead_deltas() == old(self).dead_deltas(),
                w == self.spec_width(),
                g0 == old(self).grid(),
                g0.len() == self.size(),
                forall|i: int| #![trigger g0[i]]
                    0 <= i < self.size() ==> self.grid()[i] == (g0[i] || pattern_covers(
                        pattern@,
                        j as int,
                        anchor_row as int,
                        anchor_col as int,
                        w,
                        i,
                    )),
            decreases pattern@.len() - j,
        {
            let (pr, pc) = pattern[j];
            let row = anchor_row + pr;
            let col = anchor_col + pc;
            let ghost pre = self.grid();
            let ghost j0 = j as int;
            proof {
                assert(forall|i: int| #![trigger g0[i]]
                    0 <= i < self.size() ==> pre[i] == (g0[i] || pattern_covers(
                        pattern@,
                        j0,
                        anchor_row as int,
                        anchor_col as int,
                        w,
                        i,
                    )));
            }
            let idx = linear_index(self.width, self.height, row, col);
            if self.now == 0 {
                fbs_set(&mut self.cells_a, idx, true);
            } else {
                fbs_set(&mut self.cells_b, idx, true);
            }
            j += 1;
            proof {
                assert(self.grid() == pre.update(idx as int, true));
                assert(j as int == j0 + 1);
                assert forall|i: int| #![trigger g0[i]] 0 <= i < self.size() implies self.grid()[i] == (
                g0[i] || pattern_covers(pattern@, j as int, anchor_row as int, anchor_col as int, w, i)) by {
                    assert(pre[i] == (g0[i] || pattern_covers(
                        pattern@,
                        j0,
                        anchor_row as int,
                        anchor_col as int,
                        w,
                        i,
                    )));
                    if i == idx as int {
                        assert(self.grid()[i]);
                        assert(0 <= j0 < j as int && i == cell_index(
                            anchor_row + pattern@[j0].0 as int,
                            anchor_col + pattern@[j0].1 as int,
                            w,
                        ));
                        assert(pattern_covers(
                            pattern@,
                            j as int,
                            anchor_row as int,
                            anchor_col as int,
                            w,
                            i,
                        ));
                    } else {
                        assert(self.grid()[i] == pre[i]);
                        if pattern_covers(pattern@, j0, anchor_row as int, anchor_col as int, w, i) {
                            let k = choose|k: int|
                                0 <= k < j0 && i == cell_index(
                                    anchor_row + pattern@[k].0 as int,
                                    anchor_col + pattern@[k].1 as int,
                                    w,
                                );
                            assert(0 <= k < j as int && i == cell_index(
                                anchor_row + pattern@[k].0 as int,
                                anchor_col + pattern@[k].1 as int,
                                w,
                            ));
                            assert(pattern_covers(
                                pattern@,
                                j as int,
                                anchor_row as int,
                                anchor_col as int,
                                w,
                                i,
                            ));
                        } else if pattern_covers(
                            pattern@,
                            j as int,
                            anchor_row as int,
                            anchor_col as int,
                            w,
                            i,
                        ) {
                            let k = choose|k: int|
                                0 <= k < j as int && i == cell_index(
                                    anchor_row + pattern@[k].0 as int,
                                    anchor_col + pattern@[k].1 as int,
                                    w,
                                );
                            if k == j0 {
                                assert(i == idx as int);
                                assert(false);
                            } else {
                                assert(pattern_covers(
                                    pattern@,
                                    j0,
                                    anchor_row as int,
                                    anchor_col as int,
                                    w,
                                    i,
                                ));
                                assert(false);
                            }
                        }
                    }
                }
            }
        }
        Ok(())
    }


    /// Insert the glider preset with its top-left corner at
    /// `(row, col)`, rejecting anchors where its 3 x 3 bounding box
    /// would not fit.
    pub fn insert_glider(&mut self, row: u32, col: u32) -> (r: Result<(), GridError>)
        requires
            old(self).wf(),
        ensures
            final(self).wf(),
            final(self).spec_width() == old(self).spec_width(),
            final(self).spec_height() == old(self).spec_height(),
            final(self).alive_deltas() == old(self).alive_deltas(),
            final(self).dead_deltas() == old(self).dead_deltas(),
            (r is Ok) <==> (row + 3 <= old(self).spec_height() && col + 3 <= old(
                self,
            ).spec_width()),
            r is Ok ==> forall|i: int|
                0 <= i < final(self).size() ==> final(self).grid()[i] == (old(self).grid()[i]
                    || pattern_covers(
                    glider_offsets(),
                    glider_offsets().len() as int,
                    row as int,
                    col as int,
                    old(self).spec_width(),
                    i,
                )),
            r is Err ==> r == Err::<(), GridError>(GridError::PatternDoesNotFit)
                && final(self).grid() == old(self).grid(),
    {
        let mut pattern: Vec<(u32, u32)> = Vec::new();
        pattern.push((1, 0));
        pattern.push((2, 1));
        pattern.push((0, 2));
        pattern.push((1, 2));
        pattern.push((2, 2));
        proof {
            assert(pattern@ =~= glider_offsets());
        }
        self.insert_pattern(&pattern, 3, 3, row, col)
    }

    /// Insert the pulsar preset with its top-left corner at
    /// `(row, col)`, rejecting anchors where its 15 x 15 bounding box
    /// would not fit.
    #[verifier::rlimit(60)]
    pub fn insert_pulsar(&mut self, row: u32, col: u32) -> (r: Result<(), GridError>)
        requires
            old(self).wf(),
        ensures
            final(self).wf(),
            final(self).spec_width() == old(self).spec_width(),
            final(self).spec_height() == old(self).spec_height(),
            final(self).alive_deltas() == old(self).alive_deltas(),
            final(self).dead_deltas() == old(self).dead_deltas(),
            (r is Ok) <==> (row + 15 <= old(self).spec_height() && col + 15 <= old(
                self,
            ).spec_width()),
            r is Ok ==> forall|i: int|
                0 <= i < final(self).size() ==> final(self).grid()[i] == (old(self).grid()[i]
                    || pattern_covers(
                    pulsar_offsets(),
                    pulsar_offsets().len() as int,
                    row as int,
                    col as int,
                    old(self).spec_width(),
                    i,
                )),
            r is Err ==> r == Err::<(), GridError>(GridError::PatternDoesNotFit)
                && final(self).grid() == old(self).grid(),
    {
        let mut pattern: Vec<(u32, u32)> = Vec::new();
        pattern.push((1, 3));
        pattern.push((1, 4));
        pattern.push((1, 5));
        pattern.push((1, 9));
        pattern.push((1, 10));
        pattern.push((1, 11));
        pattern.push((6, 3));
        pattern.push((6, 4));
        pattern.push((6, 5));
        pattern.push((6, 9));
        pattern.push((6, 10));
        pattern.push((6, 11));
        pattern.push((8, 3));
        pattern.push((8, 4));
        pattern.push((8, 5));
        pattern.push((8, 9));
        pattern.push((8, 10));
        pattern.push((8, 11));
        pattern.push((13, 3));
        pattern.push((13, 4));
        pattern.push((13, 5));
        pattern.push((13, 9));
        pattern.push((13, 10));
        pattern.push((13, 11));
        pattern.push((3, 1));
        pattern.push((4, 1));
        pattern.push((5, 1));
        pattern.push((9, 1));
        pattern.push((10, 1));
        pattern.push((11, 1));
        pattern.push((3, 6));
        pattern.push((4, 6));
        pattern.push((5, 6));
        pattern.push((9, 6));
        pattern.push((10, 6));
        pattern.push((11, 6));
        pattern.push((3, 8));
        pattern.push((4, 8));
        pattern.push((5, 8));
        pattern.push((9, 8));
        pattern.push((10, 8));
        pattern.push((11, 8));
        pattern.push((3, 13));
        pattern.push((4, 13));
        pattern.push((5, 13));
        pattern.push((9, 13));
        pattern.push((10, 13));
        pattern.push((11, 13));
        proof {
            assert(pattern@ =~= pulsar_offsets());
        }
        self.insert_pattern(&pattern, 15, 15, row, col)
    }

    /// A 64 x 64 universe holding a single lightweight spaceship with
    /// its bounding box anchored at `(10, 10)`.
    pub fn new_spaceship() -> (u: Universe)
        ensures
            u.wf(),
            u.spec_width() == 64,
            u.spec_height() == 64,
            u.alive_deltas() == Seq::<u32>::empty(),
            u.dead_deltas() == Seq::<u32>::empty(),
            forall|i: int|
                0 <= i < u.size() ==> u.grid()[i] == pattern_covers(
                    spaceship_offsets(),
                    spaceship_offsets().len() as int,
                    10,
                    10,
                    64,
                    i,
                ),
    {
        let mut u = match Self::new_empty(64, 64) {
            Ok(u) => u,
            Err(_) => vstd::pervasive::unreached(),
        };
        let mut pattern: Vec<(u32, u32)> = Vec::new();
        pattern.push((0, 1));
        pattern.push((0, 4));
        pattern.push((1, 0));
        pattern.push((2, 0));
        pattern.push((2, 4));
        pattern.push((3, 0));
        pattern.push((3, 1));
        pattern.push((3, 2));
        pattern.push((3, 3));
        proof {
            assert(pattern@ =~= spaceship_offsets());
        }
        let r = u.insert_pattern(&pattern, 4, 5, 10, 10);
        match r {
            Ok(()) => u,
            Err(_) => vstd::pervasive::unreached(),
        }
    }

    /// Kill every cell of the current generation.
    pub fn reset_dead(&mut self)
        requires
            old(self).wf(),
        ensures
            final(self).wf(),
            final(self).spec_width() == old(self).spec_width(),
            final(self).spec_height() == old(self).spec_height(),
            final(self).alive_deltas() == old(self).alive_deltas(),
            final(self).dead_deltas() == old(self).dead_deltas(),
            final(self).grid() == dead_grid(old(self).spec_width(), old(self).spec_height()),
    {
        if self.now == 0 {
            fbs_clear(&mut self.cells_a);
        } else {
            fbs_clear(&mut self.cells_b);
        }
        proof {
            assert(self.grid() =~= dead_grid(old(self).spec_width(), old(self).spec_height()));
        }
    }
}

} // verus!
