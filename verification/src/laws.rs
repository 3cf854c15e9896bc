//! General laws of the model, stated and proved once for every grid:
//! the delta lists record exactly the changed cells; a step of the
//! all-dead grid changes nothing; a block is a still life; a blinker
//! oscillates with period two; and stepping commutes with toroidal
//! shifts, so a pattern straddling a border evolves exactly like the
//! same pattern moved to the interior.

use vstd::prelude::*;
use crate::model::bool_to_int;
use crate::model::cell_index;
use crate::model::dead_grid;
use crate::model::deltas_upto;
use crate::model::grid_of;
use crate::model::lemma_cell_index_bounds;
use crate::model::lemma_index_decompose;
use crate::model::life_rule;
use crate::model::neighbor_count;
use crate::model::next_gen;
use crate::model::wrap_dec;
use crate::model::wrap_inc;

verus! {

/// Population preservation of the deltas: every recorded index is a
/// real change below `n` in the stated direction, every change is
/// recorded in the list of its direction, each list is strictly
/// increasing (row-major scan order), and no index appears in both
/// lists.
pub proof fn lemma_deltas_characterize(before: Seq<bool>, after: Seq<bool>, n: int)
    requires
        0 <= n,
        n <= u32::MAX as int + 1,
        n <= before.len(),
        n <= after.len(),
    ensures
        forall|p: int|
            0 <= p < deltas_upto(before, after, n, true).len() ==> deltas_upto(
                before,
                after,
                n,
                true,
            )[p] < n && !before[deltas_upto(before, after, n, true)[p] as int] && after[deltas_upto(
                before,
                after,
                n,
                true,
            )[p] as int],
        forall|p: int|
            0 <= p < deltas_upto(before, after, n, false).len() ==> deltas_upto(
                before,
                after,
                n,
                false,
            )[p] < n && before[deltas_upto(before, after, n, false)[p] as int] && !after[
                deltas_upto(before, after, n, false)[p] as int],
        forall|i: int|
            0 <= i < n && !before[i] && after[i] ==> deltas_upto(before, after, n, true).contains(
                i as u32,
            ),
        forall|i: int|
            0 <= i < n && before[i] && !after[i] ==> deltas_upto(before, after, n, false).contains(
                i as u32,
            ),
        forall|p: int, q: int|
            0 <= p < q < deltas_upto(before, after, n, true).len() ==> deltas_upto(
                before,
                after,
                n,
                true,
            )[p] < deltas_upto(before, after, n, true)[q],
        forall|p: int, q: int|
            0 <= p < q < deltas_upto(before, after, n, false).len() ==> deltas_upto(
                before,
                after,
                n,
                false,
            )[p] < deltas_upto(before, after, n, false)[q],
        forall|p: int, q: int|
            0 <= p < deltas_upto(before, after, n, true).len() && 0 <= q < deltas_upto(
                before,
                after,
                n,
                false,
            ).len() ==> deltas_upto(before, after, n, true)[p] != deltas_upto(
                before,
                after,
                n,
                false,
            )[q],
    decreases n,
{
    if n > 0 {
        lemma_deltas_characterize(before, after, n - 1);
        let at = deltas_upto(before, after, n, true);
        let af = deltas_upto(before, after, n, false);
        let bt = deltas_upto(before, after, n - 1, true);
        let bf = deltas_upto(before, after, n - 1, false);
        assert forall|i: int|
            0 <= i < n && !before[i] && after[i] implies at.contains(i as u32) by {
            if i < n - 1 {
                assert(bt.contains(i as u32));
                let p = choose|p: int| 0 <= p < bt.len() && bt[p] == i as u32;
                assert(at[p] == i as u32);
            } else {
                assert(at == bt.push((n - 1) as u32));
                assert(at[bt.len() as int] == (n - 1) as u32);
            }
        }
        assert forall|i: int|
            0 <= i < n && before[i] && !after[i] implies af.contains(i as u32) by {
            if i < n - 1 {
                assert(bf.contains(i as u32));
                let p = choose|p: int| 0 <= p < bf.len() && bf[p] == i as u32;
                assert(af[p] == i as u32);
            } else {
                assert(af == bf.push((n - 1) as u32));
                assert(af[bf.len() as int] == (n - 1) as u32);
            }
        }
    }
}

/// The deltas of going from `after` back to `before` are the same
/// lists with the directions exchanged: the alive list of one step is
/// the dead list of the reverse step.
pub proof fn lemma_deltas_swap(before: Seq<bool>, after: Seq<bool>, n: int, to_alive: bool)
    ensures
        deltas_upto(before, after, n, to_alive) == deltas_upto(after, before, n, !to_alive),
    decreases n,
{
    if n > 0 {
        lemma_deltas_swap(before, after, n - 1, to_alive);
    }
}

/// A step that changes no cell below `n` leaves both delta lists
/// empty.
pub proof fn lemma_deltas_of_equal(before: Seq<bool>, after: Seq<bool>, n: int, to_alive: bool)
    requires
        forall|i: int| 0 <= i < n ==> before[i] == after[i],
    ensures
        deltas_upto(before, after, n, to_alive) == Seq::<u32>::empty(),
    decreases n,
{
    if n > 0 {
        lemma_deltas_of_equal(before, after, n - 1, to_alive);
    }
}

/// On a grid built from the cell predicate `p`, the neighbor count at
/// an in-range coordinate is the number of the eight wrapped neighbor
/// coordinates satisfying `p`.
pub proof fn lemma_neighbor_count_grid_of(
    p: spec_fn(int, int) -> bool,
    w: int,
    h: int,
    row: int,
    col: int,
)
    requires
        w >= 1,
        h >= 1,
        0 <= row < h,
        0 <= col < w,
    ensures
        neighbor_count(grid_of(p, w, h), w, h, row, col) == bool_to_int(
            p(wrap_dec(row, h), wrap_dec(col, w)),
        ) + bool_to_int(p(wrap_dec(row, h), col)) + bool_to_int(
            p(wrap_dec(row, h), wrap_inc(col, w)),
        ) + bool_to_int(p(row, wrap_dec(col, w))) + bool_to_int(p(row, wrap_inc(col, w)))
            + bool_to_int(p(wrap_inc(row, h), wrap_dec(col, w))) + bool_to_int(
            p(wrap_inc(row, h), col),
        ) + bool_to_int(p(wrap_inc(row, h), wrap_inc(col, w))),
{
    let g = grid_of(p, w, h);
    let north = wrap_dec(row, h);
    let south = wrap_inc(row, h);
    let west = wrap_dec(col, w);
    let east = wrap_inc(col, w);
    lemma_cell_index_bounds(north, west, w, h);
    lemma_cell_index_bounds(north, col, w, h);
    lemma_cell_index_bounds(north, east, w, h);
    lemma_cell_index_bounds(row, west, w, h);
    lemma_cell_index_bounds(row, east, w, h);
    lemma_cell_index_bounds(south, west, w, h);
    lemma_cell_index_bounds(south, col, w, h);
    lemma_cell_index_bounds(south, east, w, h);
    assert(g[cell_index(north, west, w)] == p(north, west));
    assert(g[cell_index(north, col, w)] == p(north, col));
    assert(g[cell_index(north, east, w)] == p(north, east));
    assert(g[cell_index(row, west, w)] == p(row, west));
    assert(g[cell_index(row, east, w)] == p(row, east));
    assert(g[cell_index(south, west, w)] == p(south, west));
    assert(g[cell_index(south, col, w)] == p(south, col));
    assert(g[cell_index(south, east, w)] == p(south, east));
}

/// Idempotence of no-op regions: one step of the all-dead grid is the
/// all-dead grid, with both delta lists empty.
pub proof fn lemma_dead_grid_fixed(w: int, h: int)
    requires
        w >= 1,
        h >= 1,
    ensures
        next_gen(dead_grid(w, h), w, h) == dead_grid(w, h),
        deltas_upto(dead_grid(w, h), next_gen(dead_grid(w, h), w, h), w * h, true)
            == Seq::<u32>::empty(),
        deltas_upto(dead_grid(w, h), next_gen(dead_grid(w, h), w, h), w * h, false)
            == Seq::<u32>::empty(),
{
    let p = (|r0: int, c0: int| false);
    let g = dead_grid(w, h);
    assert(g =~= grid_of(p, w, h));
    assert forall|i: int| 0 <= i < w * h implies next_gen(g, w, h)[i] == g[i] by {
        lemma_index_decompose(i, w, h);
        lemma_neighbor_count_grid_of(p, w, h, i / w, i % w);
        assert(neighbor_count(g, w, h, i / w, i % w) == 0);
    }
    assert(next_gen(g, w, h) =~= g);
    lemma_deltas_of_equal(g, next_gen(g, w, h), w * h, true);
    lemma_deltas_of_equal(g, next_gen(g, w, h), w * h, false);
}

/// The cell predicate of a 2 x 2 block anchored at `(r, c)`.
pub open spec fn block_cell(r0: int, c0: int, r: int, c: int) -> bool {
    (r0 == r || r0 == r + 1) && (c0 == c || c0 == c + 1)
}

/// A grid whose only live cells are a 2 x 2 block anchored at
/// `(r, c)`.
pub open spec fn block_grid(w: int, h: int, r: int, c: int) -> Seq<bool> {
    grid_of(|r0: int, c0: int| block_cell(r0, c0, r, c), w, h)
}

/// Stability law: a 2 x 2 block of live cells at an interior position
/// is a still life — one step reproduces the grid exactly and leaves
/// both delta lists empty.
#[verifier::rlimit(100)]
pub proof fn lemma_block_still_life(w: int, h: int, r: int, c: int)
    requires
        1 <= r,
        r + 2 <= h - 1,
        1 <= c,
        c + 2 <= w - 1,
    ensures
        next_gen(block_grid(w, h, r, c), w, h) == block_grid(w, h, r, c),
        deltas_upto(block_grid(w, h, r, c), next_gen(block_grid(w, h, r, c), w, h), w * h, true)
            == Seq::<u32>::empty(),
        deltas_upto(block_grid(w, h, r, c), next_gen(block_grid(w, h, r, c), w, h), w * h, false)
            == Seq::<u32>::empty(),
{
    let p = (|r0: int, c0: int| block_cell(r0, c0, r, c));
    let g = block_grid(w, h, r, c);
    assert(g =~= grid_of(p, w, h));
    assert forall|i: int| 0 <= i < w * h implies next_gen(g, w, h)[i] == g[i] by {
        lemma_index_decompose(i, w, h);
        lemma_neighbor_count_grid_of(p, w, h, i / w, i % w);
        assert(next_gen(g, w, h)[i] == life_rule(
            g[i],
            neighbor_count(g, w, h, i / w, i % w),
        ));
        assert(g[i] == p(i / w, i % w));
    }
    assert(next_gen(g, w, h) =~= g);
    lemma_deltas_of_equal(g, next_gen(g, w, h), w * h, true);
    lemma_deltas_of_equal(g, next_gen(g, w, h), w * h, false);
}

/// The cell predicate of a horizontal blinker: the three cells
/// `(r, c)`, `(r, c + 1)`, `(r, c + 2)`.
pub open spec fn hblinker_cell(r0: int, c0: int, r: int, c: int) -> bool {
    r0 == r && (c0 == c || c0 == c + 1 || c0 == c + 2)
}

/// The cell predicate of a vertical blinker on the same center: the
/// three cells `(r - 1, c + 1)`, `(r, c + 1)`, `(r + 1, c + 1)`.
pub open spec fn vblinker_cell(r0: int, c0: int, r: int, c: int) -> bool {
    (r0 == r - 1 || r0 == r || r0 == r + 1) && c0 == c + 1
}

/// A grid whose only live cells are a horizontal blinker with its
/// leftmost cell at `(r, c)`.
pub open spec fn hblinker_grid(w: int, h: int, r: int, c: int) -> Seq<bool> {
    grid_of(|r0: int, c0: int| hblinker_cell(r0, c0, r, c), w, h)
}

/// A grid whose only live cells are the vertical blinker sharing that
/// horizontal blinker's center.
pub open spec fn vblinker_grid(w: int, h: int, r: int, c: int) -> Seq<bool> {
    grid_of(|r0: int, c0: int| vblinker_cell(r0, c0, r, c), w, h)
}

/// One step turns an interior horizontal blinker into the vertical
/// blinker on the same center, and one more step turns it back.
#[verifier::rlimit(100)]
pub proof fn lemma_blinker_flips(w: int, h: int, r: int, c: int)
    requires
        2 <= r,
        r + 1 <= h - 2,
        1 <= c,
        c + 2 <= w - 2,
    ensures
        next_gen(hblinker_grid(w, h, r, c), w, h) == vblinker_grid(w, h, r, c),
        next_gen(vblinker_grid(w, h, r, c), w, h) == hblinker_grid(w, h, r, c),
{
    let ph = (|r0: int, c0: int| hblinker_cell(r0, c0, r, c));
    let pv = (|r0: int, c0: int| vblinker_cell(r0, c0, r, c));
    let gh = hblinker_grid(w, h, r, c);
    let gv = vblinker_grid(w, h, r, c);
    assert(gh =~= grid_of(ph, w, h));
    assert(gv =~= grid_of(pv, w, h));
    assert forall|i: int| 0 <= i < w * h implies next_gen(gh, w, h)[i] == gv[i] by {
        lemma_index_decompose(i, w, h);
        lemma_neighbor_count_grid_of(ph, w, h, i / w, i % w);
        assert(next_gen(gh, w, h)[i] == life_rule(
            gh[i],
            neighbor_count(gh, w, h, i / w, i % w),
        ));
        assert(gh[i] == ph(i / w, i % w));
        assert(gv[i] == pv(i / w, i % w));
    }
    assert(next_gen(gh, w, h) =~= gv);
    assert forall|i: int| 0 <= i < w * h implies next_gen(gv, w, h)[i] == gh[i] by {
        lemma_index_decompose(i, w, h);
        lemma_neighbor_count_grid_of(pv, w, h, i / w, i % w);
        assert(next_gen(gv, w, h)[i] == life_rule(
            gv[i],
            neighbor_count(gv, w, h, i / w, i % w),
        ));
        assert(gv[i] == pv(i / w, i % w));
        assert(gh[i] == ph(i / w, i % w));
    }
    assert(next_gen(gv, w, h) =~= gh);
}

/// Oscillator law: an interior blinker has period two. Two steps
/// reproduce the original grid exactly; each step changes some cells
/// in both directions; and the delta lists of the second step are
/// exactly those of the first step with the directions exchanged.
pub proof fn lemma_blinker_period_two(w: int, h: int, r: int, c: int)
    requires
        2 <= r,
        r + 1 <= h - 2,
        1 <= c,
        c + 2 <= w - 2,
        w * h <= u32::MAX,
    ensures
        next_gen(next_gen(hblinker_grid(w, h, r, c), w, h), w, h) == hblinker_grid(w, h, r, c),
        deltas_upto(hblinker_grid(w, h, r, c), vblinker_grid(w, h, r, c), w * h, true).len() > 0,
        deltas_upto(hblinker_grid(w, h, r, c), vblinker_grid(w, h, r, c), w * h, false).len() > 0,
        deltas_upto(vblinker_grid(w, h, r, c), hblinker_grid(w, h, r, c), w * h, true)
            == deltas_upto(hblinker_grid(w, h, r, c), vblinker_grid(w, h, r, c), w * h, false),
        deltas_upto(vblinker_grid(w, h, r, c), hblinker_grid(w, h, r, c), w * h, false)
            == deltas_upto(hblinker_grid(w, h, r, c), vblinker_grid(w, h, r, c), w * h, true),
{
    lemma_blinker_flips(w, h, r, c);
    let gh = hblinker_grid(w, h, r, c);
    let gv = vblinker_grid(w, h, r, c);
    lemma_deltas_swap(gv, gh, w * h, true);
    lemma_deltas_swap(gv, gh, w * h, false);
    lemma_deltas_characterize(gh, gv, w * h);
    lemma_cell_index_bounds(r, c, w, h);
    let die = cell_index(r, c, w);
    assert(gh[die] == hblinker_cell(r, c, r, c));
    assert(gv[die] == vblinker_cell(r, c, r, c));
    assert(deltas_upto(gh, gv, w * h, false).contains(die as u32));
    lemma_cell_index_bounds(r - 1, c + 1, w, h);
    let born = cell_index(r - 1, c + 1, w);
    assert(gh[born] == hblinker_cell(r - 1, c + 1, r, c));
    assert(gv[born] == vblinker_cell(r - 1, c + 1, r, c));
    assert(deltas_upto(gh, gv, w * h, true).contains(born as u32));
}

/// Wrapping one step toward zero commutes with shifting by `d` modulo
/// `n`.
pub proof fn lemma_wrap_dec_mod(i: int, d: int, n: int)
    requires
        n >= 1,
        0 <= i < n,
        d >= 0,
    ensures
        (wrap_dec(i, n) + d) % n == wrap_dec((i + d) % n, n),
{
    let x = i - 1 + d;
    if i == 0 {
        assert(wrap_dec(i, n) + d == n * 1 + x);
        vstd::arithmetic::div_mod::lemma_mod_multiples_vanish(1, x, n);
    } else {
        assert(wrap_dec(i, n) + d == n * 0 + x);
        vstd::arithmetic::div_mod::lemma_mod_multiples_vanish(0, x, n);
    }
    vstd::arithmetic::div_mod::lemma_mod_division_less_than_divisor(i + d, n);
    vstd::arithmetic::div_mod::lemma_fundamental_div_mod(i + d, n);
    let q = (i + d) / n;
    let m = (i + d) % n;
    if m == 0 {
        assert(x == n * (q - 1) + (n - 1)) by (nonlinear_arith)
            requires
                i + d == n * q + m,
                m == 0,
                x == i + d - 1,
        ;
        vstd::arithmetic::div_mod::lemma_fundamental_div_mod_converse(x, n, q - 1, n - 1);
    } else {
        assert(x == n * q + (m - 1)) by (nonlinear_arith)
            requires
                i + d == n * q + m,
                x == i + d - 1,
        ;
        vstd::arithmetic::div_mod::lemma_fundamental_div_mod_converse(x, n, q, m - 1);
    }
}

/// Wrapping one step away from zero commutes with shifting by `d`
/// modulo `n`.
pub proof fn lemma_wrap_inc_mod(i: int, d: int, n: int)
    requires
        n >= 1,
        0 <= i < n,
        d >= 0,
    ensures
        (wrap_inc(i, n) + d) % n == wrap_inc((i + d) % n, n),
{
    let x = i + 1 + d;
    if i == n - 1 {
        assert(wrap_inc(i, n) + d == n * (-1) + x);
        vstd::arithmetic::div_mod::lemma_mod_multiples_vanish(-1, x, n);
    } else {
        assert(wrap_inc(i, n) + d == n * 0 + x);
        vstd::arithmetic::div_mod::lemma_mod_multiples_vanish(0, x, n);
    }
    vstd::arithmetic::div_mod::lemma_mod_division_less_than_divisor(i + d, n);
    vstd::arithmetic::div_mod::lemma_fundamental_div_mod(i + d, n);
    let q = (i + d) / n;
    let m = (i + d) % n;
    if m == n - 1 {
        assert(x == n * (q + 1) + 0) by (nonlinear_arith)
            requires
                i + d == n * q + m,
                m == n - 1,
                x == i + d + 1,
        ;
        vstd::arithmetic::div_mod::lemma_fundamental_div_mod_converse(x, n, q + 1, 0);
    } else {
        assert(x == n * q + (m + 1)) by (nonlinear_arith)
            requires
                i + d == n * q + m,
                x == i + d + 1,
        ;
        vstd::arithmetic::div_mod::lemma_fundamental_div_mod_converse(x, n, q, m + 1);
    }
}

/// The grid `g` moved `dr` rows down and `dc` columns right around the
/// torus: cell `(r0, c0)` of the result reads cell
/// `((r0 + dr) % h, (c0 + dc) % w)` of `g`.
pub open spec fn shifted_grid(g: Seq<bool>, w: int, h: int, dr: int, dc: int) -> Seq<bool> {
    grid_of(
        |r0: int, c0: int| g[cell_index((r0 + dr) % h, (c0 + dc) % w, w)],
        w,
        h,
    )
}

/// Toroidal symmetry of neighbor counting: the count at any cell —
/// border cells included — of a shifted grid equals the count at the
/// correspondingly shifted cell of the original grid.
pub proof fn lemma_neighbor_count_shift(
    g: Seq<bool>,
    w: int,
    h: int,
    row: int,
    col: int,
    dr: int,
    dc: int,
)
    requires
        w >= 1,
        h >= 1,
        g.len() == w * h,
        0 <= row < h,
        0 <= col < w,
        dr >= 0,
        dc >= 0,
    ensures
        neighbor_count(shifted_grid(g, w, h, dr, dc), w, h, row, col) == neighbor_count(
            g,
            w,
            h,
            (row + dr) % h,
            (col + dc) % w,
        ),
{
    let p = (|r0: int, c0: int| g[cell_index((r0 + dr) % h, (c0 + dc) % w, w)]);
    let gs = shifted_grid(g, w, h, dr, dc);
    assert(gs =~= grid_of(p, w, h));
    lemma_neighbor_count_grid_of(p, w, h, row, col);
    vstd::arithmetic::div_mod::lemma_mod_division_less_than_divisor(row + dr, h);
    vstd::arithmetic::div_mod::lemma_mod_division_less_than_divisor(col + dc, w);
    let row2 = (row + dr) % h;
    let col2 = (col + dc) % w;
    lemma_wrap_dec_mod(row, dr, h);
    lemma_wrap_inc_mod(row, dr, h);
    lemma_wrap_dec_mod(col, dc, w);
    lemma_wrap_inc_mod(col, dc, w);
    assert(neighbor_count(gs, w, h, row, col) == neighbor_count(g, w, h, row2, col2)) by {
        assert(p(wrap_dec(row, h), wrap_dec(col, w)) == g[cell_index(
            wrap_dec(row2, h),
            wrap_dec(col2, w),
            w,
        )]);
        assert(p(wrap_dec(row, h), col) == g[cell_index(wrap_dec(row2, h), col2, w)]);
        assert(p(wrap_dec(row, h), wrap_inc(col, w)) == g[cell_index(
            wrap_dec(row2, h),
            wrap_inc(col2, w),
            w,
        )]);
        assert(p(row, wrap_dec(col, w)) == g[cell_index(row2, wrap_dec(col2, w), w)]);
        assert(p(row, wrap_inc(col, w)) == g[cell_index(row2, wrap_inc(col2, w), w)]);
        assert(p(wrap_inc(row, h), wrap_dec(col, w)) == g[cell_index(
            wrap_inc(row2, h),
            wrap_dec(col2, w),
            w,
        )]);
        assert(p(wrap_inc(row, h), col) == g[cell_index(wrap_inc(row2, h), col2, w)]);
        assert(p(wrap_inc(row, h), wrap_inc(col, w)) == g[cell_index(
            wrap_inc(row2, h),
            wrap_inc(col2, w),
            w,
        )]);
    }
}

/// Toroidal symmetry of evolution: stepping commutes with shifting
/// around the torus, so a pattern straddling a border evolves exactly
/// like the same pattern moved to the interior.
pub proof fn lemma_next_gen_shift(g: Seq<bool>, w: int, h: int, dr: int, dc: int)
    requires
        w >= 1,
        h >= 1,
        g.len() == w * h,
        dr >= 0,
        dc >= 0,
    ensures
        next_gen(shifted_grid(g, w, h, dr, dc), w, h) == shifted_grid(
            next_gen(g, w, h),
            w,
            h,
            dr,
            dc,
        ),
{
    let gs = shifted_grid(g, w, h, dr, dc);
    let ng = next_gen(g, w, h);
    assert forall|i: int| 0 <= i < w * h implies next_gen(gs, w, h)[i] == shifted_grid(
        ng,
        w,
        h,
        dr,
        dc,
    )[i] by {
        lemma_index_decompose(i, w, h);
        let r0 = i / w;
        let c0 = i % w;
        lemma_neighbor_count_shift(g, w, h, r0, c0, dr, dc);
        vstd::arithmetic::div_mod::lemma_mod_division_less_than_divisor(r0 + dr, h);
        vstd::arithmetic::div_mod::lemma_mod_division_less_than_divisor(c0 + dc, w);
        let r2 = (r0 + dr) % h;
        let c2 = (c0 + dc) % w;
        lemma_cell_index_bounds(r2, c2, w, h);
        assert(gs[i] == g[cell_index(r2, c2, w)]);
        assert(next_gen(gs, w, h)[i] == life_rule(gs[i], neighbor_count(gs, w, h, r0, c0)));
        assert(ng[cell_index(r2, c2, w)] == life_rule(
            g[cell_index(r2, c2, w)],
            neighbor_count(g, w, h, r2, c2),
        ));
        assert(shifted_grid(ng, w, h, dr, dc)[i] == ng[cell_index(r2, c2, w)]);
    }
    assert(next_gen(gs, w, h) =~= shifted_grid(ng, w, h, dr, dc));
}

} // verus!
