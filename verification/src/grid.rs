//! Square grids stored row after row in one flat sequence, and their quarter
//! turns.
//!
//! A grid of edge `n` has `n * n` cells. The cell in column `x` and row `y`
//! (both counted from zero, from the top left corner) is element
//! `x + y * n` of the sequence.

use crate::color::RubiksColor;
use vstd::arithmetic::div_mod::{
    lemma_div_pos_is_pos, lemma_fundamental_div_mod, lemma_fundamental_div_mod_converse,
    lemma_mod_bound,
};
use vstd::prelude::*;

verus! {

/// The place of cell `(x, y)` in the flat sequence of a grid of edge `n`.
pub open spec fn cell_index(n: nat, x: int, y: int) -> int {
    x + y * n
}

/// The column of the cell stored at place `i`.
pub open spec fn column_of(n: nat, i: int) -> int {
    i % (n as int)
}

/// The row of the cell stored at place `i`.
pub open spec fn row_of(n: nat, i: int) -> int {
    i / (n as int)
}

/// Whether `(x, y)` names a cell of a grid of edge `n`.
pub open spec fn in_grid(n: nat, x: int, y: int) -> bool {
    0 <= x < n && 0 <= y < n
}

/// The value a grid of edge `n` holds in column `x` of row `y`.
pub open spec fn grid_at<T>(grid: Seq<T>, n: nat, x: int, y: int) -> T {
    grid[cell_index(n, x, y)]
}

/// The grid of edge `n` whose cell `(x, y)` holds `f(x, y)`.
pub open spec fn tabulate<T>(n: nat, f: spec_fn(int, int) -> T) -> Seq<T> {
    Seq::new(n * n, |i: int| f(column_of(n, i), row_of(n, i)))
}

/// A cell of the grid has a place in the sequence, and the place gives the
/// cell back.
pub proof fn lemma_cell_index(n: nat, x: int, y: int)
    requires
        in_grid(n, x, y),
    ensures
        0 <= cell_index(n, x, y) < n * n,
        column_of(n, cell_index(n, x, y)) == x,
        row_of(n, cell_index(n, x, y)) == y,
{
    assert(0 <= y * n && y * n + n <= n * n) by (nonlinear_arith)
        requires
            0 <= y < n,
    ;
    lemma_fundamental_div_mod_converse(x + y * n, n as int, y, x);
}

/// Every place of the sequence is the place of exactly one cell.
pub proof fn lemma_coordinates(n: nat, i: int)
    requires
        0 <= i < n * n,
    ensures
        in_grid(n, column_of(n, i), row_of(n, i)),
        cell_index(n, column_of(n, i), row_of(n, i)) == i,
{
    assert(n > 0) by (nonlinear_arith)
        requires
            0 < n * n,
    ;
    let d = n as int;
    lemma_fundamental_div_mod(i, d);
    lemma_mod_bound(i, d);
    lemma_div_pos_is_pos(i, d);
    assert(i / d < d && d * (i / d) == (i / d) * d) by (nonlinear_arith)
        requires
            0 <= i < d * d,
            0 <= i / d,
            i == d * (i / d) + i % d,
            0 <= i % d < d,
    ;
}

/// Reading a tabulated grid at a cell gives the tabulated value.
pub proof fn lemma_tabulate_at<T>(n: nat, f: spec_fn(int, int) -> T, x: int, y: int)
    requires
        in_grid(n, x, y),
    ensures
        grid_at(tabulate(n, f), n, x, y) == f(x, y),
{
    lemma_cell_index(n, x, y);
}

/// Two grids of the same edge that agree cell by cell are the same grid.
pub proof fn lemma_grid_equal<T>(a: Seq<T>, b: Seq<T>, n: nat)
    requires
        a.len() == n * n,
        b.len() == n * n,
        forall|x: int, y: int| in_grid(n, x, y) ==> #[trigger] grid_at(a, n, x, y) == grid_at(b, n, x, y),
    ensures
        a == b,
{
    assert forall|i: int| 0 <= i < a.len() implies a[i] == b[i] by {
        lemma_coordinates(n, i);
        assert(grid_at(a, n, column_of(n, i), row_of(n, i)) == grid_at(
            b,
            n,
            column_of(n, i),
            row_of(n, i),
        ));
    }
}

/// The grid turned a quarter clockwise: what was in cell `(x, y)` is then in
/// cell `(n - 1 - y, x)`.
pub open spec fn rotated_cw<T>(grid: Seq<T>, n: nat) -> Seq<T> {
    tabulate(n, |x: int, y: int| grid_at(grid, n, y, n - 1 - x))
}

/// The grid turned a quarter counter-clockwise: what was in cell `(x, y)` is
/// then in cell `(y, n - 1 - x)`.
pub open spec fn rotated_ccw<T>(grid: Seq<T>, n: nat) -> Seq<T> {
    tabulate(n, |x: int, y: int| grid_at(grid, n, n - 1 - y, x))
}

/// A clockwise quarter turn moves the value of every cell `(x, y)` to cell
/// `(n - 1 - y, x)`.
pub proof fn lemma_rotated_cw_moves<T>(grid: Seq<T>, n: nat, x: int, y: int)
    requires
        in_grid(n, x, y),
    ensures
        in_grid(n, n - 1 - y, x),
        grid_at(rotated_cw(grid, n), n, n - 1 - y, x) == grid_at(grid, n, x, y),
{
    lemma_tabulate_at(n, |a: int, b: int| grid_at(grid, n, b, n - 1 - a), n - 1 - y, x);
}

/// A counter-clockwise quarter turn moves the value of every cell `(x, y)` to
/// cell `(y, n - 1 - x)`.
pub proof fn lemma_rotated_ccw_moves<T>(grid: Seq<T>, n: nat, x: int, y: int)
    requires
        in_grid(n, x, y),
    ensures
        in_grid(n, y, n - 1 - x),
        grid_at(rotated_ccw(grid, n), n, y, n - 1 - x) == grid_at(grid, n, x, y),
{
    lemma_tabulate_at(n, |a: int, b: int| grid_at(grid, n, n - 1 - b, a), y, n - 1 - x);
}

/// A counter-clockwise quarter turn undoes a clockwise one.
pub proof fn lemma_rotate_cw_then_ccw<T>(grid: Seq<T>, n: nat)
    requires
        grid.len() == n * n,
    ensures
        rotated_ccw(rotated_cw(grid, n), n) == grid,
{
    let once = rotated_cw(grid, n);
    let back = rotated_ccw(once, n);
    assert forall|x: int, y: int| in_grid(n, x, y) implies #[trigger] grid_at(back, n, x, y)
        == grid_at(grid, n, x, y) by {
        lemma_rotated_ccw_moves(once, n, n - 1 - y, x);
        lemma_rotated_cw_moves(grid, n, x, y);
    }
    lemma_grid_equal(back, grid, n);
}

/// A clockwise quarter turn undoes a counter-clockwise one.
pub proof fn lemma_rotate_ccw_then_cw<T>(grid: Seq<T>, n: nat)
    requires
        grid.len() == n * n,
    ensures
        rotated_cw(rotated_ccw(grid, n), n) == grid,
{
    let once = rotated_ccw(grid, n);
    let back = rotated_cw(once, n);
    assert forall|x: int, y: int| in_grid(n, x, y) implies #[trigger] grid_at(back, n, x, y)
        == grid_at(grid, n, x, y) by {
        lemma_rotated_cw_moves(once, n, y, n - 1 - x);
        lemma_rotated_ccw_moves(grid, n, x, y);
    }
    lemma_grid_equal(back, grid, n);
}

/// Two clockwise quarter turns are a half turn: the value of cell `(x, y)`
/// ends in cell `(n - 1 - x, n - 1 - y)`.
pub proof fn lemma_rotate_cw_twice<T>(grid: Seq<T>, n: nat, x: int, y: int)
    requires
        in_grid(n, x, y),
    ensures
        grid_at(rotated_cw(rotated_cw(grid, n), n), n, n - 1 - x, n - 1 - y) == grid_at(
            grid,
            n,
            x,
            y,
        ),
{
    lemma_rotated_cw_moves(grid, n, x, y);
    lemma_rotated_cw_moves(rotated_cw(grid, n), n, n - 1 - y, x);
}

/// Four clockwise quarter turns give the grid back.
pub proof fn lemma_rotate_cw_four_times<T>(grid: Seq<T>, n: nat)
    requires
        grid.len() == n * n,
    ensures
        rotated_cw(rotated_cw(rotated_cw(rotated_cw(grid, n), n), n), n) == grid,
{
    let half = rotated_cw(rotated_cw(grid, n), n);
    let full = rotated_cw(rotated_cw(half, n), n);
    assert forall|x: int, y: int| in_grid(n, x, y) implies #[trigger] grid_at(full, n, x, y)
        == grid_at(grid, n, x, y) by {
        lemma_rotate_cw_twice(grid, n, x, y);
        lemma_rotate_cw_twice(half, n, n - 1 - x, n - 1 - y);
    }
    lemma_grid_equal(full, grid, n);
}

/// Four counter-clockwise quarter turns give the grid back.
pub proof fn lemma_rotate_ccw_four_times<T>(grid: Seq<T>, n: nat)
    requires
        grid.len() == n * n,
    ensures
        rotated_ccw(rotated_ccw(rotated_ccw(rotated_ccw(grid, n), n), n), n) == grid,
{
    let a = rotated_ccw(grid, n);
    let b = rotated_ccw(a, n);
    let c = rotated_ccw(b, n);
    let d = rotated_ccw(c, n);
    assert forall|x: int, y: int| in_grid(n, x, y) implies #[trigger] grid_at(d, n, x, y)
        == grid_at(grid, n, x, y) by {
        lemma_rotated_ccw_moves(grid, n, x, y);
        lemma_rotated_ccw_moves(a, n, y, n - 1 - x);
        lemma_rotated_ccw_moves(b, n, n - 1 - x, n - 1 - y);
        lemma_rotated_ccw_moves(c, n, n - 1 - y, x);
    }
    lemma_grid_equal(d, grid, n);
}

/// The place in the flat vector of cell `(x, y)` of a grid of edge `size`.
pub fn offset(size: u8, x: u8, y: u8) -> (out: usize)
    ensures
        out == cell_index(size as nat, x as int, y as int),
{
    assert(y * size <= 255 * 255) by (nonlinear_arith)
        requires
            0 <= y <= 255,
            0 <= size <= 255,
    ;
    x as usize + y as usize * size as usize
}

/// Stores `val` in cell `(x, y)` of a grid of edge `size`; every other cell
/// keeps its value.
pub fn write_2d_vec<T>(v: &mut Vec<T>, size: &u8, x: &u8, y: &u8, val: T)
    requires
        cell_index(*size as nat, *x as int, *y as int) < old(v).len(),
    ensures
        final(v)@ == old(v)@.update(cell_index(*size as nat, *x as int, *y as int), val),
{
    let at = offset(*size, *x, *y);
    v.set(at, val);
}

/// The value at place `x + y * size` of the vector, or nothing where the
/// vector is too short to have that place.
pub fn read_2d_vec<'a, T>(v: &'a Vec<T>, size: &u8, x: &u8, y: &u8) -> (out: Option<&'a T>)
    ensures
        cell_index(*size as nat, *x as int, *y as int) < v.len() ==> out == Some(
            &v@[cell_index(*size as nat, *x as int, *y as int)],
        ),
        cell_index(*size as nat, *x as int, *y as int) >= v.len() ==> out is None,
{
    let at = offset(*size, *x, *y);
    if at < v.len() {
        Some(&v[at])
    } else {
        None
    }
}

/// The number of cells of a grid of edge `size`.
pub fn cell_count(size: u8) -> (out: usize)
    ensures
        out == (size as nat) * (size as nat),
{
    assert(size * size <= 255 * 255) by (nonlinear_arith)
        requires
            0 <= size <= 255,
    ;
    size as usize * size as usize
}

/// A grid of edge `size` with `color` in every cell.
pub fn filled(color: RubiksColor, size: u8) -> (out: Vec<RubiksColor>)
    ensures
        out@ == Seq::new((size as nat) * (size as nat), |i: int| color),
{
    let count = cell_count(size);
    let mut out: Vec<RubiksColor> = Vec::with_capacity(count);
    while out.len() < count
        invariant
            out.len() <= count,
            forall|i: int| 0 <= i < out.len() ==> out@[i] == color,
        decreases count - out.len(),
    {
        out.push(color);
    }
    out
}

/// Turns a grid of edge `size` a quarter clockwise: the value of cell
/// `(x, y)` goes to cell `(size - 1 - y, x)`.
pub fn rotate_vec_cw(base: &Vec<RubiksColor>, size: &u8) -> (out: Vec<RubiksColor>)
    requires
        base.len() == (*size as nat) * (*size as nat),
    ensures
        out@ == rotated_cw(base@, *size as nat),
{
    let size: u8 = *size;
    let ghost n = size as nat;
    let mut r_vec = filled(RubiksColor::UP, size);
    let mut x: u8 = 0;
    while x < size
        invariant
            n == size,
            x <= size,
            base.len() == n * n,
            r_vec.len() == n * n,
            forall|a: int, b: int|
                0 <= a < x && 0 <= b < n ==> r_vec@[#[trigger] cell_index(n, n - 1 - b, a)]
                    == grid_at(base@, n, a, b),
        decreases size - x,
    {
        let mut y: u8 = 0;
        while y < size
            invariant
                n == size,
                x < size,
                y <= size,
                base.len() == n * n,
                r_vec.len() == n * n,
                forall|a: int, b: int|
                    (0 <= a < x && 0 <= b < n) || (a == x && 0 <= b < y) ==> r_vec@[#[trigger] cell_index(
                        n,
                        n - 1 - b,
                        a,
                    )] == grid_at(base@, n, a, b),
            decreases size - y,
        {
            proof {
                lemma_cell_index(n, x as int, y as int);
                lemma_cell_index(n, n - 1 - y, x as int);
            }
            let base_value = base[offset(size, x, y)];
            let tx: u8 = (size - 1) - y;
            let ty: u8 = x;
            write_2d_vec(&mut r_vec, &size, &tx, &ty, base_value);
            proof {
                assert forall|a: int, b: int|
                    (0 <= a < x && 0 <= b < n) || (a == x && 0 <= b < y + 1) implies r_vec@[#[trigger] cell_index(
                    n,
                    n - 1 - b,
                    a,
                )] == grid_at(base@, n, a, b) by {
                    lemma_cell_index(n, n - 1 - b, a);
                }
            }
            y = y + 1;
        }
        x = x + 1;
    }
    proof {
        assert forall|a: int, b: int| in_grid(n, a, b) implies #[trigger] grid_at(r_vec@, n, a, b)
            == grid_at(rotated_cw(base@, n), n, a, b) by {
            lemma_rotated_cw_moves(base@, n, b, n - 1 - a);
        }
        lemma_grid_equal(r_vec@, rotated_cw(base@, n), n);
    }
    r_vec
}

/// Turns a grid of edge `size` a quarter counter-clockwise: the value of
/// cell `(x, y)` goes to cell `(y, size - 1 - x)`.
pub fn rotate_vec_ccw(base: &Vec<RubiksColor>, size: &u8) -> (out: Vec<RubiksColor>)
    requires
        base.len() == (*size as nat) * (*size as nat),
    ensures
        out@ == rotated_ccw(base@, *size as nat),
{
    let size: u8 = *size;
    let ghost n = size as nat;
    let mut r_vec = filled(RubiksColor::UP, size);
    let mut x: u8 = 0;
    while x < size
        invariant
            n == size,
            x <= size,
            base.len() == n * n,
            r_vec.len() == n * n,
            forall|a: int, b: int|
                0 <= a < x && 0 <= b < n ==> r_vec@[#[trigger] cell_index(n, b, n - 1 - a)]
                    == grid_at(base@, n, a, b),
        decreases size - x,
    {
        let mut y: u8 = 0;
        while y < size
            invariant
                n == size,
                x < size,
                y <= size,
                base.len() == n * n,
                r_vec.len() == n * n,
                forall|a: int, b: int|
                    (0 <= a < x && 0 <= b < n) || (a == x && 0 <= b < y) ==> r_vec@[#[trigger] cell_index(
                        n,
                        b,
                        n - 1 - a,
                    )] == grid_at(base@, n, a, b),
            decreases size - y,
        {
            proof {
                lemma_cell_index(n, x as int, y as int);
                lemma_cell_index(n, y as int, n - 1 - x);
            }
            let base_value = base[offset(size, x, y)];
            let tx: u8 = y;
            let ty: u8 = (size - 1) - x;
            write_2d_vec(&mut r_vec, &size, &tx, &ty, base_value);
            proof {
                assert forall|a: int, b: int|
                    (0 <= a < x && 0 <= b < n) || (a == x && 0 <= b < y + 1) implies r_vec@[#[trigger] cell_index(
                    n,
                    b,
                    n - 1 - a,
                )] == grid_at(base@, n, a, b) by {
                    lemma_cell_index(n, b, n - 1 - a);
                }
            }
            y = y + 1;
        }
        x = x + 1;
    }
    proof {
        assert forall|a: int, b: int| in_grid(n, a, b) implies #[trigger] grid_at(r_vec@, n, a, b)
            == grid_at(rotated_ccw(base@, n), n, a, b) by {
            lemma_rotated_ccw_moves(base@, n, n - 1 - b, a);
        }
        lemma_grid_equal(r_vec@, rotated_ccw(base@, n), n);
    }
    r_vec
}

} // verus!
