//! The cube as a mathematical value: an edge length and six grids, one for
//! each face. Every contract of the library is stated over this value.

use crate::color::RubiksColor;
use crate::grid::{grid_at, in_grid, lemma_grid_equal, lemma_tabulate_at, tabulate};
use vstd::multiset::Multiset;
use vstd::prelude::*;

verus! {

/// The place of one sticker: a face, and a column and a row on it.
pub struct Cell {
    pub face: RubiksColor,
    pub x: int,
    pub y: int,
}

/// What a cube is at one moment: its edge length and the grid of every face.
#[verifier::ext_equal]
pub struct CubeState {
    pub size: nat,
    pub up: Seq<RubiksColor>,
    pub down: Seq<RubiksColor>,
    pub left: Seq<RubiksColor>,
    pub right: Seq<RubiksColor>,
    pub forward: Seq<RubiksColor>,
    pub back: Seq<RubiksColor>,
}

impl CubeState {
    /// The grid of the face named by `color`.
    pub open spec fn face(self, color: RubiksColor) -> Seq<RubiksColor> {
        match color {
            RubiksColor::UP => self.up,
            RubiksColor::DOWN => self.down,
            RubiksColor::LEFT => self.left,
            RubiksColor::RIGHT => self.right,
            RubiksColor::FORWARD => self.forward,
            RubiksColor::BACK => self.back,
        }
    }

    /// A cube has an edge of at least one cell, and each of its six faces is
    /// a full grid of that edge.
    pub open spec fn wf(self) -> bool {
        &&& self.size >= 1
        &&& self.up.len() == self.size * self.size
        &&& self.down.len() == self.size * self.size
        &&& self.left.len() == self.size * self.size
        &&& self.right.len() == self.size * self.size
        &&& self.forward.len() == self.size * self.size
        &&& self.back.len() == self.size * self.size
    }

    /// Whether `cell` lies on a face of this cube.
    pub open spec fn has(self, cell: Cell) -> bool {
        in_grid(self.size, cell.x, cell.y)
    }

    /// The colour of the sticker at `cell`.
    pub open spec fn at(self, cell: Cell) -> RubiksColor {
        grid_at(self.face(cell.face), self.size, cell.x, cell.y)
    }

    /// All stickers of the cube, counted by colour.
    pub open spec fn stickers(self) -> Multiset<RubiksColor> {
        self.up.to_multiset().add(self.down.to_multiset()).add(self.left.to_multiset()).add(
            self.right.to_multiset(),
        ).add(self.forward.to_multiset()).add(self.back.to_multiset())
    }

    /// The cube of edge `n` whose sticker at each cell is `f` of that cell.
    pub open spec fn from_cells(n: nat, f: spec_fn(Cell) -> RubiksColor) -> CubeState {
        CubeState {
            size: n,
            up: tabulate(n, |x: int, y: int| f(Cell { face: RubiksColor::UP, x, y })),
            down: tabulate(n, |x: int, y: int| f(Cell { face: RubiksColor::DOWN, x, y })),
            left: tabulate(n, |x: int, y: int| f(Cell { face: RubiksColor::LEFT, x, y })),
            right: tabulate(n, |x: int, y: int| f(Cell { face: RubiksColor::RIGHT, x, y })),
            forward: tabulate(n, |x: int, y: int| f(Cell { face: RubiksColor::FORWARD, x, y })),
            back: tabulate(n, |x: int, y: int| f(Cell { face: RubiksColor::BACK, x, y })),
        }
    }

    /// The solved cube of edge `n`: every sticker has the colour of the face
    /// it is on.
    pub open spec fn solved(n: nat) -> CubeState {
        CubeState::from_cells(n, |cell: Cell| cell.face)
    }

    /// A cube built cell by cell is well formed, and holds at each cell what
    /// it was built from.
    pub proof fn lemma_from_cells(n: nat, f: spec_fn(Cell) -> RubiksColor)
        requires
            n >= 1,
        ensures
            CubeState::from_cells(n, f).wf(),
            CubeState::from_cells(n, f).size == n,
            forall|cell: Cell|
                in_grid(n, cell.x, cell.y) ==> #[trigger] CubeState::from_cells(n, f).at(cell) == f(
                    cell,
                ),
    {
        let built = CubeState::from_cells(n, f);
        assert forall|cell: Cell| in_grid(n, cell.x, cell.y) implies #[trigger] built.at(cell) == f(
            cell,
        ) by {
            let face = cell.face;
            lemma_tabulate_at(n, |x: int, y: int| f(Cell { face, x, y }), cell.x, cell.y);
        }
    }

    /// Two well-formed cubes of the same edge that show the same colour at
    /// every cell are the same cube.
    pub proof fn lemma_equal(self, other: CubeState)
        requires
            self.wf(),
            other.wf(),
            self.size == other.size,
            forall|cell: Cell| self.has(cell) ==> #[trigger] self.at(cell) == other.at(cell),
        ensures
            self == other,
    {
        let n = self.size;
        assert forall|color: RubiksColor| #[trigger] self.face(color) == other.face(color) by {
            assert forall|x: int, y: int| in_grid(n, x, y) implies #[trigger] grid_at(
                self.face(color),
                n,
                x,
                y,
            ) == grid_at(other.face(color), n, x, y) by {
                let cell = Cell { face: color, x, y };
                assert(self.at(cell) == other.at(cell));
            }
            lemma_grid_equal(self.face(color), other.face(color), n);
        }
        assert(self.face(RubiksColor::UP) == other.face(RubiksColor::UP));
        assert(self.face(RubiksColor::DOWN) == other.face(RubiksColor::DOWN));
        assert(self.face(RubiksColor::LEFT) == other.face(RubiksColor::LEFT));
        assert(self.face(RubiksColor::RIGHT) == other.face(RubiksColor::RIGHT));
        assert(self.face(RubiksColor::FORWARD) == other.face(RubiksColor::FORWARD));
        assert(self.face(RubiksColor::BACK) == other.face(RubiksColor::BACK));
    }
}

} // verus!
