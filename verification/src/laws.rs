//! What holds of every move on every cube.

use crate::axis::{lemma_source_four_times, lemma_source_in_grid, lemma_source_inverse, source, Axis};
use crate::color::{RubiksColor, TurnDirection};
use crate::grid::{cell_index, column_of, in_grid, lemma_cell_index, lemma_coordinates, row_of};
use crate::rearrange::{lemma_rearranged_multiset, rearranges};
use crate::state::{Cell, CubeState};
use crate::turn::canonical;
use vstd::prelude::*;
use vstd::seq_lib::lemma_multiset_commutative;

verus! {

/// Where the grid of `face` starts when the six grids of `m` cells each are
/// written one after the other.
spec fn face_start(face: RubiksColor, m: nat) -> int {
    let m = m as int;
    match face {
        RubiksColor::UP => 0,
        RubiksColor::DOWN => m,
        RubiksColor::LEFT => 2 * m,
        RubiksColor::RIGHT => 3 * m,
        RubiksColor::FORWARD => 4 * m,
        RubiksColor::BACK => 5 * m,
    }
}

/// The face whose grid holds place `i` of the six grids written one after
/// the other.
spec fn face_over(i: int, m: nat) -> RubiksColor {
    if i < m {
        RubiksColor::UP
    } else if i < 2 * m {
        RubiksColor::DOWN
    } else if i < 3 * m {
        RubiksColor::LEFT
    } else if i < 4 * m {
        RubiksColor::RIGHT
    } else if i < 5 * m {
        RubiksColor::FORWARD
    } else {
        RubiksColor::BACK
    }
}

/// The place of `cell` among all cells of a cube of edge `n`.
spec fn place(n: nat, cell: Cell) -> int {
    face_start(cell.face, n * n) + cell_index(n, cell.x, cell.y)
}

/// The cell at place `i` among all cells of a cube of edge `n`.
spec fn cell_at(n: nat, i: int) -> Cell {
    let face = face_over(i, n * n);
    let within = i - face_start(face, n * n);
    Cell { face, x: column_of(n, within), y: row_of(n, within) }
}

/// The six grids of a cube written one after the other.
spec fn unrolled(state: CubeState) -> Seq<RubiksColor> {
    state.up + state.down + state.left + state.right + state.forward + state.back
}

/// Every cell has a place, the place leads back to the cell, and the
/// unrolled cube holds at that place the cell's sticker.
proof fn lemma_place(state: CubeState, cell: Cell)
    requires
        state.wf(),
        state.has(cell),
    ensures
        0 <= place(state.size, cell) < 6 * (state.size * state.size),
        cell_at(state.size, place(state.size, cell)) == cell,
        unrolled(state)[place(state.size, cell)] == state.at(cell),
{
    lemma_cell_index(state.size, cell.x, cell.y);
}

/// Every place is the place of a cell of the cube.
proof fn lemma_cell_at(n: nat, i: int)
    requires
        0 <= i < 6 * (n * n),
    ensures
        in_grid(n, cell_at(n, i).x, cell_at(n, i).y),
        place(n, cell_at(n, i)) == i,
{
    let face = face_over(i, n * n);
    lemma_coordinates(n, i - face_start(face, n * n));
}

/// The stickers of a cube are those of its six grids written one after the
/// other.
proof fn lemma_unrolled_stickers(state: CubeState)
    ensures
        unrolled(state).to_multiset() == state.stickers(),
{
    let a = state.up;
    let b = a + state.down;
    let c = b + state.left;
    let d = c + state.right;
    let e = d + state.forward;
    lemma_multiset_commutative(a, state.down);
    lemma_multiset_commutative(b, state.left);
    lemma_multiset_commutative(c, state.right);
    lemma_multiset_commutative(d, state.forward);
    lemma_multiset_commutative(e, state.back);
}

impl CubeState {
    /// A turned cube is a cube of the same edge, and shows at each cell the
    /// sticker that the turn brings there.
    pub proof fn lemma_turned_about(self, axis: Axis, layer: int, direction: TurnDirection)
        requires
            self.wf(),
        ensures
            self.turned_about(axis, layer, direction).wf(),
            self.turned_about(axis, layer, direction).size == self.size,
            forall|cell: Cell|
                self.has(cell) ==> #[trigger] self.turned_about(axis, layer, direction).at(cell)
                    == self.at(source(self.size, axis, layer, direction, cell)),
    {
        CubeState::lemma_from_cells(
            self.size,
            |cell: Cell| self.at(source(self.size, axis, layer, direction, cell)),
        );
    }

    /// A turn about an axis followed by the turn of the same layer the other
    /// way gives the cube back.
    pub proof fn lemma_turn_about_then_back(self, axis: Axis, layer: int, direction: TurnDirection)
        requires
            self.wf(),
            0 <= layer < self.size,
        ensures
            self.turned_about(axis, layer, direction).turned_about(
                axis,
                layer,
                direction.opposite(),
            ) == self,
    {
        let n = self.size;
        let there = self.turned_about(axis, layer, direction);
        let back = there.turned_about(axis, layer, direction.opposite());
        self.lemma_turned_about(axis, layer, direction);
        there.lemma_turned_about(axis, layer, direction.opposite());
        assert forall|cell: Cell| back.has(cell) implies #[trigger] back.at(cell) == self.at(
            cell,
        ) by {
            lemma_source_in_grid(n, axis, layer, direction.opposite(), cell);
            lemma_source_inverse(n, axis, layer, direction, cell);
        }
        back.lemma_equal(self);
    }

    /// Four turns of one layer about an axis in one direction give the cube
    /// back.
    pub proof fn lemma_turn_about_four_times(
        self,
        axis: Axis,
        layer: int,
        direction: TurnDirection,
    )
        requires
            self.wf(),
            0 <= layer < self.size,
        ensures
            self.turned_about(axis, layer, direction).turned_about(
                axis,
                layer,
                direction,
            ).turned_about(axis, layer, direction).turned_about(axis, layer, direction) == self,
    {
        let n = self.size;
        let one = self.turned_about(axis, layer, direction);
        let two = one.turned_about(axis, layer, direction);
        let three = two.turned_about(axis, layer, direction);
        let four = three.turned_about(axis, layer, direction);
        self.lemma_turned_about(axis, layer, direction);
        one.lemma_turned_about(axis, layer, direction);
        two.lemma_turned_about(axis, layer, direction);
        three.lemma_turned_about(axis, layer, direction);
        assert forall|cell: Cell| four.has(cell) implies #[trigger] four.at(cell) == self.at(
            cell,
        ) by {
            let c1 = source(n, axis, layer, direction, cell);
            let c2 = source(n, axis, layer, direction, c1);
            let c3 = source(n, axis, layer, direction, c2);
            lemma_source_in_grid(n, axis, layer, direction, cell);
            lemma_source_in_grid(n, axis, layer, direction, c1);
            lemma_source_in_grid(n, axis, layer, direction, c2);
            lemma_source_four_times(n, axis, layer, direction, cell);
            assert(four.at(cell) == three.at(c1));
            assert(three.at(c1) == two.at(c2));
            assert(two.at(c2) == one.at(c3));
        }
        four.lemma_equal(self);
    }

    /// A turn about an axis keeps the stickers: the turned cube shows each
    /// colour as many times as the cube before.
    pub proof fn lemma_turn_about_keeps_stickers(
        self,
        axis: Axis,
        layer: int,
        direction: TurnDirection,
    )
        requires
            self.wf(),
            0 <= layer < self.size,
        ensures
            self.turned_about(axis, layer, direction).stickers() == self.stickers(),
    {
        let n = self.size;
        let total = 6 * (n * n);
        let after = self.turned_about(axis, layer, direction);
        self.lemma_turned_about(axis, layer, direction);
        let order = Seq::new(
            total as nat,
            |i: int| place(n, source(n, axis, layer, direction, cell_at(n, i))),
        );
        let from = unrolled(self);
        let to = unrolled(after);
        assert forall|i: int| 0 <= i < order.len() implies 0 <= #[trigger] order[i] < from.len()
            && to[i] == from[order[i]] by {
            let cell = cell_at(n, i);
            let origin = source(n, axis, layer, direction, cell);
            lemma_cell_at(n, i);
            lemma_source_in_grid(n, axis, layer, direction, cell);
            lemma_place(after, cell);
            lemma_place(self, origin);
        }
        assert forall|i: int, j: int| 0 <= i < j < order.len() implies #[trigger] order[i]
            != #[trigger] order[j] by {
            let cell_i = cell_at(n, i);
            let cell_j = cell_at(n, j);
            let origin_i = source(n, axis, layer, direction, cell_i);
            let origin_j = source(n, axis, layer, direction, cell_j);
            lemma_cell_at(n, i);
            lemma_cell_at(n, j);
            lemma_source_in_grid(n, axis, layer, direction, cell_i);
            lemma_source_in_grid(n, axis, layer, direction, cell_j);
            lemma_place(self, origin_i);
            lemma_place(self, origin_j);
            lemma_source_inverse(n, axis, layer, direction.opposite(), cell_i);
            lemma_source_inverse(n, axis, layer, direction.opposite(), cell_j);
        }
        lemma_rearranged_multiset(from, to, order);
        lemma_unrolled_stickers(self);
        lemma_unrolled_stickers(after);
    }

    /// The cube after a move is a cube of the same edge.
    pub proof fn lemma_turned(self, face: RubiksColor, layer: int, direction: TurnDirection)
        requires
            self.wf(),
        ensures
            self.turned(face, layer, direction).wf(),
            self.turned(face, layer, direction).size == self.size,
    {
        let turn = canonical(self.size, face, layer, direction);
        self.lemma_turned_about(turn.axis, turn.layer, turn.direction);
    }

    /// Sticker conservation: a move permutes the stickers. The cube after the
    /// move shows each colour as many times as the cube before.
    pub proof fn lemma_move_keeps_stickers(
        self,
        face: RubiksColor,
        layer: int,
        direction: TurnDirection,
    )
        requires
            self.wf(),
            0 <= layer < self.size,
        ensures
            self.turned(face, layer, direction).stickers() == self.stickers(),
    {
        let turn = canonical(self.size, face, layer, direction);
        self.lemma_turn_about_keeps_stickers(turn.axis, turn.layer, turn.direction);
    }

    /// Inverse law: a move followed by the move of the same face and layer in
    /// the opposite direction gives the cube back.
    pub proof fn lemma_move_then_inverse(
        self,
        face: RubiksColor,
        layer: int,
        direction: TurnDirection,
    )
        requires
            self.wf(),
            0 <= layer < self.size,
        ensures
            self.turned(face, layer, direction).turned(face, layer, direction.opposite()) == self,
    {
        let turn = canonical(self.size, face, layer, direction);
        self.lemma_turned_about(turn.axis, turn.layer, turn.direction);
        self.lemma_turn_about_then_back(turn.axis, turn.layer, turn.direction);
    }

    /// Four-turn identity: the same move made four times in a row gives the
    /// cube back.
    pub proof fn lemma_move_four_times(
        self,
        face: RubiksColor,
        layer: int,
        direction: TurnDirection,
    )
        requires
            self.wf(),
            0 <= layer < self.size,
        ensures
            self.turned(face, layer, direction).turned(face, layer, direction).turned(
                face,
                layer,
                direction,
            ).turned(face, layer, direction) == self,
    {
        let turn = canonical(self.size, face, layer, direction);
        let one = self.turned_about(turn.axis, turn.layer, turn.direction);
        let two = one.turned_about(turn.axis, turn.layer, turn.direction);
        self.lemma_turned_about(turn.axis, turn.layer, turn.direction);
        one.lemma_turned_about(turn.axis, turn.layer, turn.direction);
        two.lemma_turned_about(turn.axis, turn.layer, turn.direction);
        self.lemma_turn_about_four_times(turn.axis, turn.layer, turn.direction);
    }

    /// Opposite-face equivalence: turning a layer counted from one face is
    /// turning the same layer counted from the opposite face, `size - 1 -
    /// layer`, in the opposite direction.
    pub proof fn lemma_move_from_opposite_face(
        self,
        face: RubiksColor,
        layer: int,
        direction: TurnDirection,
    )
        ensures
            self.turned(face, layer, direction) == self.turned(
                face.opposite(),
                self.size - 1 - layer,
                direction.opposite(),
            ),
    {
    }
}

} // verus!
