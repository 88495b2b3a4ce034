//! The three axes a layer can turn about, and the rows and columns that a
//! turn carries from one face to the next.
//!
//! Each face is looked at from outside the cube. UP is seen with FORWARD
//! below it, DOWN with FORWARD above it, and the four side faces with UP
//! above them. Columns count from the left, rows from the top.

use crate::color::{RubiksColor, TurnDirection};
use crate::grid::{
    grid_at, in_grid, lemma_rotated_ccw_moves, lemma_rotated_cw_moves, rotated_ccw, rotated_cw,
};
use crate::state::Cell;
use vstd::prelude::*;

verus! {

/// An axis of rotation, named after the face a clockwise turn about it is
/// seen from.
#[derive(Clone, Copy, Debug, PartialEq, Eq, Structural)]
pub enum Axis {
    Top,
    Right,
    Front,
}

/// One row or column of a face, walked in a chosen direction.
pub struct Line {
    /// The face the line lies on.
    pub face: RubiksColor,
    /// Whether the line is a column (else it is a row).
    pub column: bool,
    /// The column's `x`, or the row's `y`.
    pub fixed: int,
    /// Whether the walk starts at the far end (bottom or right).
    pub reversed: bool,
}

impl Line {
    /// Whether the line lies on a grid of edge `n`.
    pub open spec fn fits(self, n: nat) -> bool {
        0 <= self.fixed < n
    }

    /// The coordinate along the line of its `i`-th cell; the same function
    /// gives, for a coordinate, how many cells of the walk come before it.
    pub open spec fn step(self, n: nat, i: int) -> int {
        if self.reversed {
            n - 1 - i
        } else {
            i
        }
    }

    /// The `i`-th cell of the walk.
    pub open spec fn cell(self, n: nat, i: int) -> Cell {
        if self.column {
            Cell { face: self.face, x: self.fixed, y: self.step(n, i) }
        } else {
            Cell { face: self.face, x: self.step(n, i), y: self.fixed }
        }
    }

    /// Whether `cell` is on the line.
    pub open spec fn holds(self, cell: Cell) -> bool {
        cell.face == self.face && if self.column {
            cell.x == self.fixed
        } else {
            cell.y == self.fixed
        }
    }

    /// How many cells of the walk come before `cell`.
    pub open spec fn position(self, n: nat, cell: Cell) -> int {
        if self.column {
            self.step(n, cell.y)
        } else {
            self.step(n, cell.x)
        }
    }
}

impl Axis {
    /// The face that a turn of layer 0 about this axis carries with it.
    pub open spec fn near(self) -> RubiksColor {
        match self {
            Axis::Top => RubiksColor::UP,
            Axis::Right => RubiksColor::RIGHT,
            Axis::Front => RubiksColor::FORWARD,
        }
    }

    /// The face that a turn of the last layer carries with it.
    pub open spec fn far(self) -> RubiksColor {
        self.near().opposite()
    }

    /// The four faces around the axis, in the order in which a clockwise
    /// turn passes stickers on: from face `k` to face `k + 1`, and from the
    /// fourth back to the first.
    pub open spec fn lateral(self, k: int) -> RubiksColor {
        match self {
            Axis::Top => if k == 0 {
                RubiksColor::FORWARD
            } else if k == 1 {
                RubiksColor::LEFT
            } else if k == 2 {
                RubiksColor::BACK
            } else {
                RubiksColor::RIGHT
            },
            Axis::Right => if k == 0 {
                RubiksColor::FORWARD
            } else if k == 1 {
                RubiksColor::UP
            } else if k == 2 {
                RubiksColor::BACK
            } else {
                RubiksColor::DOWN
            },
            Axis::Front => if k == 0 {
                RubiksColor::UP
            } else if k == 1 {
                RubiksColor::RIGHT
            } else if k == 2 {
                RubiksColor::DOWN
            } else {
                RubiksColor::LEFT
            },
        }
    }

    /// The place of `face` among the four faces around the axis.
    pub open spec fn slot(self, face: RubiksColor) -> int {
        if face == self.lateral(0) {
            0
        } else if face == self.lateral(1) {
            1
        } else if face == self.lateral(2) {
            2
        } else {
            3
        }
    }

    /// The line that layer `layer` cuts out of the `k`-th face around the
    /// axis, on a cube of edge `n`. The four walks match: the `i`-th cell of
    /// one line is carried to the `i`-th cell of the next.
    pub open spec fn line(self, n: nat, layer: int, k: int) -> Line {
        let face = self.lateral(k);
        match self {
            Axis::Top => Line { face, column: false, fixed: layer, reversed: true },
            Axis::Right => if k == 2 {
                Line { face, column: true, fixed: layer, reversed: false }
            } else {
                Line { face, column: true, fixed: n - 1 - layer, reversed: true }
            },
            Axis::Front => if k == 0 {
                Line { face, column: false, fixed: n - 1 - layer, reversed: false }
            } else if k == 1 {
                Line { face, column: true, fixed: layer, reversed: false }
            } else if k == 2 {
                Line { face, column: false, fixed: layer, reversed: true }
            } else {
                Line { face, column: true, fixed: n - 1 - layer, reversed: true }
            },
        }
    }

    /// The six faces of the cube are the near face, the far face and the
    /// four faces around the axis, each once.
    pub proof fn lemma_faces(self, face: RubiksColor)
        ensures
            self.near() != self.far(),
            forall|k: int| 0 <= k < 4 ==> #[trigger] self.lateral(k) != self.near(),
            forall|k: int| 0 <= k < 4 ==> #[trigger] self.lateral(k) != self.far(),
            forall|j: int, k: int|
                0 <= j < k < 4 ==> #[trigger] self.lateral(j) != #[trigger] self.lateral(k),
            0 <= self.slot(face) < 4,
            face != self.near() && face != self.far() ==> self.lateral(self.slot(face)) == face,
    {
    }
}

/// A row or column of a face with the direction it is walked in, as the
/// turn engine handles it.
#[derive(Clone, Copy, Debug)]
pub struct Strip {
    /// The face the strip lies on.
    pub face: RubiksColor,
    /// Whether the strip is a column (else it is a row).
    pub column: bool,
    /// The column's `x`, or the row's `y`.
    pub fixed: u8,
    /// Whether the walk starts at the far end (bottom or right).
    pub reversed: bool,
}

impl View for Strip {
    type V = Line;

    open spec fn view(&self) -> Line {
        Line {
            face: self.face,
            column: self.column,
            fixed: self.fixed as int,
            reversed: self.reversed,
        }
    }
}

impl Strip {
    /// The column of the strip's `i`-th cell on a face of edge `size`.
    pub fn x(&self, size: u8, i: u8) -> (out: u8)
        requires
            i < size,
        ensures
            out == self@.cell(size as nat, i as int).x,
    {
        if self.column {
            self.fixed
        } else if self.reversed {
            size - 1 - i
        } else {
            i
        }
    }

    /// The row of the strip's `i`-th cell on a face of edge `size`.
    pub fn y(&self, size: u8, i: u8) -> (out: u8)
        requires
            i < size,
        ensures
            out == self@.cell(size as nat, i as int).y,
    {
        if !self.column {
            self.fixed
        } else if self.reversed {
            size - 1 - i
        } else {
            i
        }
    }
}

impl Axis {
    /// The face that a turn of layer 0 about this axis carries with it.
    pub fn near_face(&self) -> (out: RubiksColor)
        ensures
            out == self.near(),
    {
        match self {
            Axis::Top => RubiksColor::UP,
            Axis::Right => RubiksColor::RIGHT,
            Axis::Front => RubiksColor::FORWARD,
        }
    }

    /// The face that a turn of the last layer carries with it.
    pub fn far_face(&self) -> (out: RubiksColor)
        ensures
            out == self.far(),
    {
        self.near_face().opposite()
    }

    /// The `k`-th of the four faces around the axis.
    pub fn lateral_face(&self, k: u8) -> (out: RubiksColor)
        requires
            k < 4,
        ensures
            out == self.lateral(k as int),
    {
        match self {
            Axis::Top => if k == 0 {
                RubiksColor::FORWARD
            } else if k == 1 {
                RubiksColor::LEFT
            } else if k == 2 {
                RubiksColor::BACK
            } else {
                RubiksColor::RIGHT
            },
            Axis::Right => if k == 0 {
                RubiksColor::FORWARD
            } else if k == 1 {
                RubiksColor::UP
            } else if k == 2 {
                RubiksColor::BACK
            } else {
                RubiksColor::DOWN
            },
            Axis::Front => if k == 0 {
                RubiksColor::UP
            } else if k == 1 {
                RubiksColor::RIGHT
            } else if k == 2 {
                RubiksColor::DOWN
            } else {
                RubiksColor::LEFT
            },
        }
    }

    /// The strip that layer `layer` cuts out of the `k`-th face around the
    /// axis, on a cube of edge `size`.
    pub fn strip(&self, size: u8, layer: u8, k: u8) -> (out: Strip)
        requires
            layer < size,
            k < 4,
        ensures
            out@ == self.line(size as nat, layer as int, k as int),
            out@.fits(size as nat),
    {
        let face = self.lateral_face(k);
        let mirrored: u8 = size - 1 - layer;
        match self {
            Axis::Top => Strip { face, column: false, fixed: layer, reversed: true },
            Axis::Right => if k == 2 {
                Strip { face, column: true, fixed: layer, reversed: false }
            } else {
                Strip { face, column: true, fixed: mirrored, reversed: true }
            },
            Axis::Front => if k == 0 {
                Strip { face, column: false, fixed: mirrored, reversed: false }
            } else if k == 1 {
                Strip { face, column: true, fixed: layer, reversed: false }
            } else if k == 2 {
                Strip { face, column: false, fixed: layer, reversed: true }
            } else {
                Strip { face, column: true, fixed: mirrored, reversed: true }
            },
        }
    }
}

/// The slot a turn in direction `dir` fills slot `k` from.
pub open spec fn behind(dir: TurnDirection, k: int) -> int {
    match dir {
        TurnDirection::CLOCKWISE => if k == 0 {
            3
        } else {
            k - 1
        },
        TurnDirection::COUNTERCLOCKWISE => if k == 3 {
            0
        } else {
            k + 1
        },
    }
}

/// Where, on a face of edge `n` that makes a quarter turn in direction
/// `dir`, the sticker that arrives at `cell` comes from.
pub open spec fn spun_from(n: nat, dir: TurnDirection, cell: Cell) -> Cell {
    match dir {
        TurnDirection::CLOCKWISE => Cell { face: cell.face, x: cell.y, y: n - 1 - cell.x },
        TurnDirection::COUNTERCLOCKWISE => Cell { face: cell.face, x: n - 1 - cell.y, y: cell.x },
    }
}

/// The grid of edge `n` after a quarter turn in direction `dir`.
pub open spec fn rotated<T>(grid: Seq<T>, n: nat, dir: TurnDirection) -> Seq<T> {
    match dir {
        TurnDirection::CLOCKWISE => rotated_cw(grid, n),
        TurnDirection::COUNTERCLOCKWISE => rotated_ccw(grid, n),
    }
}

/// A face that made a quarter turn shows at each cell what `spun_from` says.
pub proof fn lemma_rotated_at<T>(grid: Seq<T>, n: nat, dir: TurnDirection, cell: Cell)
    requires
        in_grid(n, cell.x, cell.y),
    ensures
        in_grid(n, spun_from(n, dir, cell).x, spun_from(n, dir, cell).y),
        grid_at(rotated(grid, n, dir), n, cell.x, cell.y) == grid_at(
            grid,
            n,
            spun_from(n, dir, cell).x,
            spun_from(n, dir, cell).y,
        ),
{
    let from = spun_from(n, dir, cell);
    match dir {
        TurnDirection::CLOCKWISE => lemma_rotated_cw_moves(grid, n, from.x, from.y),
        TurnDirection::COUNTERCLOCKWISE => lemma_rotated_ccw_moves(grid, n, from.x, from.y),
    }
}

/// Where a turn takes the sticker for `cell` from, as far as the two faces
/// on the axis go.
///
/// Layer 0 is the near face's own layer and takes that face round with it.
/// Layer `n - 1` takes the far face round, which seen from outside turns the
/// other way. A cell of any other face, or of a face the layer does not
/// touch, keeps its sticker.
pub open spec fn end_source(
    n: nat,
    axis: Axis,
    layer: int,
    dir: TurnDirection,
    cell: Cell,
) -> Cell {
    if cell.face == axis.near() && layer == 0 {
        spun_from(n, dir, cell)
    } else if cell.face == axis.far() && layer == n - 1 {
        spun_from(n, dir.opposite(), cell)
    } else {
        cell
    }
}

/// Where a turn takes the sticker for `cell` from, as far as the four faces
/// around the axis go.
///
/// The line that the layer cuts out of each of these faces receives, cell
/// for cell in walking order, the line of the face behind it. A cell off
/// these lines keeps its sticker.
pub open spec fn strip_source(
    n: nat,
    axis: Axis,
    layer: int,
    dir: TurnDirection,
    cell: Cell,
) -> Cell {
    let k = axis.slot(cell.face);
    let here = axis.line(n, layer, k);
    if here.holds(cell) {
        axis.line(n, layer, behind(dir, k)).cell(n, here.position(n, cell))
    } else {
        cell
    }
}

/// Where the sticker that a turn brings to `cell` comes from.
///
/// The turn is a quarter turn of layer `layer` about `axis`, in direction
/// `dir` as seen from the near face, on a cube of edge `n`.
pub open spec fn source(n: nat, axis: Axis, layer: int, dir: TurnDirection, cell: Cell) -> Cell {
    if cell.face == axis.near() || cell.face == axis.far() {
        end_source(n, axis, layer, dir, cell)
    } else {
        strip_source(n, axis, layer, dir, cell)
    }
}

/// A sticker comes from a cell of the cube.
pub proof fn lemma_source_in_grid(
    n: nat,
    axis: Axis,
    layer: int,
    dir: TurnDirection,
    cell: Cell,
)
    requires
        0 <= layer < n,
        in_grid(n, cell.x, cell.y),
    ensures
        in_grid(n, source(n, axis, layer, dir, cell).x, source(n, axis, layer, dir, cell).y),
{
}

/// Turning one way and then the other brings every sticker home: the source
/// of a cell's source, taken in opposite directions, is the cell.
pub proof fn lemma_source_inverse(n: nat, axis: Axis, layer: int, dir: TurnDirection, cell: Cell)
    requires
        0 <= layer < n,
        in_grid(n, cell.x, cell.y),
    ensures
        source(n, axis, layer, dir, source(n, axis, layer, dir.opposite(), cell)) == cell,
{
}

/// Four turns the same way bring every sticker home.
pub proof fn lemma_source_four_times(
    n: nat,
    axis: Axis,
    layer: int,
    dir: TurnDirection,
    cell: Cell,
)
    requires
        0 <= layer < n,
        in_grid(n, cell.x, cell.y),
    ensures
        source(
            n,
            axis,
            layer,
            dir,
            source(n, axis, layer, dir, source(n, axis, layer, dir, source(n, axis, layer, dir, cell))),
        ) == cell,
{
}

} // verus!
