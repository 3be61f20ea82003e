//! Geometry of the playing field.
//!
//! The field is a square of `width * width` cells. A cell is named by one
//! index, counted row by row from the top left corner. Moving past an edge
//! re-enters at the opposite edge of the same row or column, so the field is
//! a torus.

use vstd::prelude::*;
use vstd::arithmetic::div_mod::{
    lemma_fundamental_div_mod,
    lemma_fundamental_div_mod_converse,
    lemma_mod_bound,
};

verus! {

/// A heading on the grid.
#[derive(Clone, Copy, PartialEq, Eq, Structural, Debug)]
pub enum Direction {
    Up,
    Right,
    Down,
    Left,
}

/// Whether `cell` names a cell of the square grid with side `width`.
pub open spec fn in_grid(width: int, cell: int) -> bool {
    0 <= cell < width * width
}

/// The row of `cell`, counted from the top.
pub open spec fn row_of(width: int, cell: int) -> int {
    cell / width
}

/// The column of `cell`, counted from the left.
pub open spec fn col_of(width: int, cell: int) -> int {
    cell % width
}

/// The index of the cell in row `row` and column `col`.
pub open spec fn cell_at(width: int, row: int, col: int) -> int {
    row * width + col
}

/// The heading that points the other way.
pub open spec fn opposite(dir: Direction) -> Direction {
    match dir {
        Direction::Up => Direction::Down,
        Direction::Right => Direction::Left,
        Direction::Down => Direction::Up,
        Direction::Left => Direction::Right,
    }
}

/// The cell one step from `head` in direction `dir` on the torus: a
/// horizontal step changes the column by one modulo `width` and keeps the
/// row, a vertical step changes the row by one modulo `width` and keeps the
/// column.
pub open spec fn next_cell(width: int, head: int, dir: Direction) -> int {
    let row = row_of(width, head);
    let col = col_of(width, head);
    match dir {
        Direction::Up => cell_at(width, (row - 1) % width, col),
        Direction::Right => cell_at(width, row, (col + 1) % width),
        Direction::Down => cell_at(width, (row + 1) % width, col),
        Direction::Left => cell_at(width, row, (col - 1) % width),
    }
}

/// Whether one step in some direction leads from `from` to `to`.
pub open spec fn adjacent(width: int, from: int, to: int) -> bool {
    ||| next_cell(width, from, Direction::Up) == to
    ||| next_cell(width, from, Direction::Right) == to
    ||| next_cell(width, from, Direction::Down) == to
    ||| next_cell(width, from, Direction::Left) == to
}

/// A cell of the grid lies in one of its `width` rows and one of its `width`
/// columns, and is the cell at that row and column.
pub proof fn lemma_coordinates(width: int, cell: int)
    requires
        0 < width,
        in_grid(width, cell),
    ensures
        0 <= row_of(width, cell) < width,
        0 <= col_of(width, cell) < width,
        cell == cell_at(width, row_of(width, cell), col_of(width, cell)),
{
    let row = cell / width;
    let col = cell % width;
    lemma_fundamental_div_mod(cell, width);
    lemma_mod_bound(cell, width);
    assert(0 <= row < width) by (nonlinear_arith)
        requires
            0 < width,
            0 <= cell < width * width,
            cell == width * row + col,
            0 <= col < width,
    ;
    assert(width * row == row * width) by (nonlinear_arith);
}

/// Row and column name exactly one cell of the grid.
pub proof fn lemma_cell_at(width: int, row: int, col: int)
    requires
        0 < width,
        0 <= row < width,
        0 <= col < width,
    ensures
        in_grid(width, cell_at(width, row, col)),
        row_of(width, cell_at(width, row, col)) == row,
        col_of(width, cell_at(width, row, col)) == col,
{
    let cell = row * width + col;
    lemma_fundamental_div_mod_converse(cell, width, row, col);
    assert(0 <= row * width + col < width * width) by (nonlinear_arith)
        requires
            0 < width,
            0 <= row < width,
            0 <= col < width,
    ;
}

/// One step in any direction from a cell of the grid ends on a cell of the
/// grid.
pub proof fn lemma_next_cell_in_grid(width: int, head: int, dir: Direction)
    requires
        0 < width,
        in_grid(width, head),
    ensures
        in_grid(width, next_cell(width, head, dir)),
{
    lemma_next_cell_coordinates(width, head, dir);
}

/// A horizontal step keeps the row and moves the column by one, a vertical
/// step keeps the column and moves the row by one, both modulo `width`.
pub proof fn lemma_next_cell_coordinates(width: int, head: int, dir: Direction)
    requires
        0 < width,
        in_grid(width, head),
    ensures
        in_grid(width, next_cell(width, head, dir)),
        row_of(width, next_cell(width, head, dir)) == match dir {
            Direction::Up => (row_of(width, head) - 1) % width,
            Direction::Down => (row_of(width, head) + 1) % width,
            _ => row_of(width, head),
        },
        col_of(width, next_cell(width, head, dir)) == match dir {
            Direction::Left => (col_of(width, head) - 1) % width,
            Direction::Right => (col_of(width, head) + 1) % width,
            _ => col_of(width, head),
        },
{
    let row = row_of(width, head);
    let col = col_of(width, head);
    lemma_coordinates(width, head);
    lemma_mod_bound(row - 1, width);
    lemma_mod_bound(row + 1, width);
    lemma_mod_bound(col - 1, width);
    lemma_mod_bound(col + 1, width);
    match dir {
        Direction::Up => lemma_cell_at(width, (row - 1) % width, col),
        Direction::Right => lemma_cell_at(width, row, (col + 1) % width),
        Direction::Down => lemma_cell_at(width, (row + 1) % width, col),
        Direction::Left => lemma_cell_at(width, row, (col - 1) % width),
    }
}

/// Adding or taking one modulo `width`, for a number already below `width`.
pub proof fn lemma_shift_mod(width: int, x: int)
    requires
        0 < width,
        0 <= x < width,
    ensures
        (x + 1) % width == if x + 1 == width { 0 } else { x + 1 },
        (x - 1) % width == if x == 0 { width - 1 } else { x - 1 },
{
    if x + 1 == width {
        lemma_fundamental_div_mod_converse(x + 1, width, 1, 0);
    } else {
        lemma_fundamental_div_mod_converse(x + 1, width, 0, x + 1);
    }
    if x == 0 {
        lemma_fundamental_div_mod_converse(x - 1, width, -1, width - 1);
    } else {
        lemma_fundamental_div_mod_converse(x - 1, width, 0, x - 1);
    }
}

/// The step written out on indices. With `row` for `head / width` and `size`
/// for `width * width`: right is `row * width + (head + 1) % width`; left is
/// `row * width + (head - 1) % width` while `head - 1` is still in that row
/// and `row * width + width - 1` otherwise; up is `head - width` unless that
/// is negative, then `head + size - width`; down is `(head + width) % size`.
pub proof fn lemma_next_cell_by_index(width: int, head: int, dir: Direction)
    requires
        0 < width,
        in_grid(width, head),
    ensures
        next_cell(width, head, dir) == match dir {
            Direction::Up => if head - width >= 0 {
                head - width
            } else {
                head + width * width - width
            },
            Direction::Right => (head / width) * width + (head + 1) % width,
            Direction::Down => (head + width) % (width * width),
            Direction::Left => if (head - 1) / width == head / width {
                (head / width) * width + (head - 1) % width
            } else {
                (head / width) * width + width - 1
            },
        },
{
    let row = row_of(width, head);
    let col = col_of(width, head);
    let size = width * width;
    lemma_coordinates(width, head);
    lemma_shift_mod(width, row);
    lemma_shift_mod(width, col);
    match dir {
        Direction::Up => {
            assert(head - width == (row - 1) * width + col) by (nonlinear_arith)
                requires
                    head == row * width + col,
            ;
            if row == 0 {
                assert((width - 1) * width + col == head + width * width - width)
                    by (nonlinear_arith)
                    requires
                        head == row * width + col,
                        row == 0,
                ;
            } else {
                assert(head - width >= 0) by (nonlinear_arith)
                    requires
                        head == row * width + col,
                        row >= 1,
                        0 < width,
                        0 <= col,
                ;
            }
        },
        Direction::Right => {
            if col + 1 == width {
                assert(head + 1 == (row + 1) * width + 0) by (nonlinear_arith)
                    requires
                        head == row * width + col,
                        col + 1 == width,
                ;
                lemma_fundamental_div_mod_converse(head + 1, width, row + 1, 0);
            } else {
                lemma_fundamental_div_mod_converse(head + 1, width, row, col + 1);
            }
        },
        Direction::Down => {
            assert(head + width == (row + 1) * width + col) by (nonlinear_arith)
                requires
                    head == row * width + col,
            ;
            if row + 1 == width {
                assert(0 <= col < size) by (nonlinear_arith)
                    requires
                        0 <= col < width,
                        size == width * width,
                ;
                assert(head + width == 1 * size + col);
                lemma_fundamental_div_mod_converse(head + width, size, 1, col);
            } else {
                lemma_cell_at(width, row + 1, col);
                lemma_fundamental_div_mod_converse(head + width, size, 0, head + width);
            }
        },
        Direction::Left => {
            if col == 0 {
                assert(head - 1 == (row - 1) * width + (width - 1)) by (nonlinear_arith)
                    requires
                        head == row * width + col,
                        col == 0,
                ;
                lemma_fundamental_div_mod_converse(head - 1, width, row - 1, width - 1);
            } else {
                lemma_fundamental_div_mod_converse(head - 1, width, row, col - 1);
            }
        },
    }
}

/// A step followed by a step the other way leads back to where it began.
pub proof fn lemma_step_back(width: int, head: int, dir: Direction)
    requires
        0 < width,
        in_grid(width, head),
    ensures
        next_cell(width, next_cell(width, head, dir), opposite(dir)) == head,
{
    let row = row_of(width, head);
    let col = col_of(width, head);
    let there = next_cell(width, head, dir);
    lemma_coordinates(width, head);
    lemma_next_cell_coordinates(width, head, dir);
    lemma_shift_mod(width, row);
    lemma_shift_mod(width, col);
    lemma_shift_mod(width, row_of(width, there));
    lemma_shift_mod(width, col_of(width, there));
}

} // verus!
