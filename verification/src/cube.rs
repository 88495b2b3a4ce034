//! The cube itself: construction, reading a sticker, and the layer turns.

use crate::axis::{
    behind, end_source, lemma_rotated_at, rotated, source, strip_source, Axis, Line, Strip,
};
use crate::color::{RubiksColor, TurnDirection};
use crate::grid::{
    cell_index, filled, grid_at, in_grid, lemma_cell_index, offset, read_2d_vec, rotate_vec_ccw,
    rotate_vec_cw, write_2d_vec,
};
use crate::state::{Cell, CubeState};
use vstd::prelude::*;

verus! {

/// Why a move was refused.
#[derive(Clone, Copy, Debug, PartialEq, Eq, Structural)]
pub enum CubeError {
    /// The layer is not one of the cube's layers.
    InvalidLayer,
}

/// A cube of any edge length, held as its six faces.
#[derive(Debug, PartialEq, Eq)]
pub struct RubiksCube {
    face_size: u8,
    up: Vec<RubiksColor>,
    down: Vec<RubiksColor>,
    left: Vec<RubiksColor>,
    right: Vec<RubiksColor>,
    forward: Vec<RubiksColor>,
    back: Vec<RubiksColor>,
}

impl View for RubiksCube {
    type V = CubeState;

    closed spec fn view(&self) -> CubeState {
        CubeState {
            size: self.face_size as nat,
            up: self.up@,
            down: self.down@,
            left: self.left@,
            right: self.right@,
            forward: self.forward@,
            back: self.back@,
        }
    }
}

impl Clone for RubiksCube {
    /// A second cube in the same state.
    fn clone(&self) -> (out: Self)
        ensures
            out@ == self@,
    {
        proof {
            use_type_invariant(self);
        }
        RubiksCube {
            face_size: self.face_size,
            up: copy_of(&self.up),
            down: copy_of(&self.down),
            left: copy_of(&self.left),
            right: copy_of(&self.right),
            forward: copy_of(&self.forward),
            back: copy_of(&self.back),
        }
    }
}

/// A grid with the same cells as `face`.
fn copy_of(face: &Vec<RubiksColor>) -> (out: Vec<RubiksColor>)
    ensures
        out@ == face@,
{
    let out = face.clone();
    out
}

/// Reads the cells of `strip` off a face, in walking order.
fn read_strip(face: &Vec<RubiksColor>, size: u8, strip: &Strip) -> (out: Vec<RubiksColor>)
    requires
        face.len() == (size as nat) * (size as nat),
        strip@.fits(size as nat),
    ensures
        out.len() == size,
        forall|i: int|
            0 <= i < size ==> out@[i] == grid_at(
                face@,
                size as nat,
                (#[trigger] strip@.cell(size as nat, i)).x,
                strip@.cell(size as nat, i).y,
            ),
{
    let ghost n = size as nat;
    let mut out: Vec<RubiksColor> = Vec::new();
    let mut i: u8 = 0;
    while i < size
        invariant
            n == size,
            i <= size,
            face.len() == n * n,
            strip@.fits(n),
            out.len() == i,
            forall|j: int|
                0 <= j < i ==> out@[j] == grid_at(
                    face@,
                    n,
                    (#[trigger] strip@.cell(n, j)).x,
                    strip@.cell(n, j).y,
                ),
        decreases size - i,
    {
        let x = strip.x(size, i);
        let y = strip.y(size, i);
        proof {
            lemma_cell_index(n, x as int, y as int);
        }
        out.push(face[offset(size, x, y)]);
        i = i + 1;
    }
    out
}

/// Writes `values` into the cells of `strip` on a face, in walking order;
/// the rest of the face stays as it is.
fn write_strip(face: &mut Vec<RubiksColor>, size: u8, strip: &Strip, values: &Vec<RubiksColor>)
    requires
        old(face).len() == (size as nat) * (size as nat),
        strip@.fits(size as nat),
        values.len() == size,
    ensures
        final(face).len() == old(face).len(),
        forall|x: int, y: int|
            in_grid(size as nat, x, y) ==> #[trigger] grid_at(final(face)@, size as nat, x, y) == {
                let cell = Cell { face: strip.face, x, y };
                if strip@.holds(cell) {
                    values@[strip@.position(size as nat, cell)]
                } else {
                    grid_at(old(face)@, size as nat, x, y)
                }
            },
{
    let ghost n = size as nat;
    let ghost line = strip@;
    let ghost before = face@;
    let mut i: u8 = 0;
    while i < size
        invariant
            n == size,
            line == strip@,
            i <= size,
            line.fits(n),
            values.len() == n,
            face.len() == n * n,
            before.len() == n * n,
            forall|x: int, y: int|
                in_grid(n, x, y) ==> #[trigger] grid_at(face@, n, x, y) == {
                    let cell = Cell { face: line.face, x, y };
                    if line.holds(cell) && line.position(n, cell) < i {
                        values@[line.position(n, cell)]
                    } else {
                        grid_at(before, n, x, y)
                    }
                },
        decreases size - i,
    {
        let x = strip.x(size, i);
        let y = strip.y(size, i);
        let ghost earlier = face@;
        proof {
            lemma_cell_index(n, x as int, y as int);
        }
        write_2d_vec(face, &size, &x, &y, values[i as usize]);
        proof {
            assert forall|a: int, b: int| in_grid(n, a, b) implies #[trigger] grid_at(
                face@,
                n,
                a,
                b,
            ) == {
                let cell = Cell { face: line.face, x: a, y: b };
                if line.holds(cell) && line.position(n, cell) < i + 1 {
                    values@[line.position(n, cell)]
                } else {
                    grid_at(before, n, a, b)
                }
            } by {
                lemma_cell_index(n, a, b);
                assert(grid_at(earlier, n, a, b) == earlier[cell_index(n, a, b)]);
            }
        }
        i = i + 1;
    }
}

/// The colour at `cell` once `values` have been written along `line`.
spec fn laid(state: CubeState, line: Line, values: Seq<RubiksColor>, cell: Cell) -> RubiksColor {
    if line.holds(cell) {
        values[line.position(state.size, cell)]
    } else {
        state.at(cell)
    }
}

/// The `k`-th of four values.
spec fn pick<T>(k: int, a: T, b: T, c: T, d: T) -> T {
    if k == 0 {
        a
    } else if k == 1 {
        b
    } else if k == 2 {
        c
    } else {
        d
    }
}

/// One cell of the cube after the four lines around the axis have been
/// written, each with the stickers read off the line behind it: the cell
/// shows the sticker that `strip_source` names.
proof fn lemma_cycled_cell(
    before: CubeState,
    axis: Axis,
    layer: int,
    dir: TurnDirection,
    new0: Seq<RubiksColor>,
    new1: Seq<RubiksColor>,
    new2: Seq<RubiksColor>,
    new3: Seq<RubiksColor>,
    cell: Cell,
)
    requires
        0 <= layer < before.size,
        before.has(cell),
        forall|k: int, i: int|
            0 <= k < 4 && 0 <= i < before.size ==> #[trigger] pick(k, new0, new1, new2, new3)[i]
                == before.at(axis.line(before.size, layer, behind(dir, k)).cell(before.size, i)),
    ensures
        laid(
            before,
            axis.line(before.size, layer, axis.slot(cell.face)),
            pick(axis.slot(cell.face), new0, new1, new2, new3),
            cell,
        ) == before.at(strip_source(before.size, axis, layer, dir, cell)),
{
    let n = before.size;
    axis.lemma_faces(cell.face);
    let k = axis.slot(cell.face);
    let here = axis.line(n, layer, k);
    if here.holds(cell) {
        let i = here.position(n, cell);
    }
}

impl RubiksCube {
    #[verifier::type_invariant]
    spec fn well_formed(&self) -> bool {
        self@.wf()
    }

    /// A solved cube of edge `face_size`: every face shows its own colour.
    pub fn new(face_size: u8) -> (out: Self)
        requires
            face_size >= 1,
        ensures
            out@ == CubeState::solved(face_size as nat),
    {
        let u_face = filled(RubiksColor::UP, face_size);
        let d_face = filled(RubiksColor::DOWN, face_size);
        let l_face = filled(RubiksColor::LEFT, face_size);
        let r_face = filled(RubiksColor::RIGHT, face_size);
        let f_face = filled(RubiksColor::FORWARD, face_size);
        let b_face = filled(RubiksColor::BACK, face_size);
        RubiksCube {
            face_size,
            up: u_face,
            down: d_face,
            left: l_face,
            right: r_face,
            forward: f_face,
            back: b_face,
        }
    }

    /// The edge length of the cube.
    pub fn face_size(&self) -> (out: u8)
        ensures
            out == self@.size,
            self@.wf(),
    {
        proof {
            use_type_invariant(self);
        }
        self.face_size
    }

    /// The grid of one face.
    fn face(&self, color: RubiksColor) -> (out: &Vec<RubiksColor>)
        ensures
            out@ == self@.face(color),
            out.len() == self@.size * self@.size,
            self@.wf(),
    {
        proof {
            use_type_invariant(self);
        }
        match color {
            RubiksColor::UP => &self.up,
            RubiksColor::DOWN => &self.down,
            RubiksColor::LEFT => &self.left,
            RubiksColor::RIGHT => &self.right,
            RubiksColor::FORWARD => &self.forward,
            RubiksColor::BACK => &self.back,
        }
    }

    /// The colour of the sticker in column `x` of row `y` of a face, or
    /// nothing where the face has no such cell.
    pub fn get_square(&self, face: RubiksColor, x: u8, y: u8) -> (out: Option<RubiksColor>)
        ensures
            out == if in_grid(self@.size, x as int, y as int) {
                Some(self@.at(Cell { face, x: x as int, y: y as int }))
            } else {
                None
            },
    {
        if x >= self.face_size || y >= self.face_size {
            return None;
        }
        let t_face = self.face(face);
        proof {
            lemma_cell_index(self@.size, x as int, y as int);
        }
        match read_2d_vec(t_face, &self.face_size, &x, &y) {
            Some(v) => Some(*v),
            None => None,
        }
    }

    /// Replaces the grid of one face.
    fn set_face(&mut self, color: RubiksColor, grid: Vec<RubiksColor>)
        requires
            grid.len() == old(self)@.size * old(self)@.size,
        ensures
            final(self)@.wf(),
            final(self)@.size == old(self)@.size,
            final(self)@.face(color) == grid@,
            forall|other: RubiksColor|
                other != color ==> #[trigger] final(self)@.face(other) == old(self)@.face(other),
    {
        proof {
            use_type_invariant(&*self);
        }
        match color {
            RubiksColor::UP => {
                self.up = grid;
            },
            RubiksColor::DOWN => {
                self.down = grid;
            },
            RubiksColor::LEFT => {
                self.left = grid;
            },
            RubiksColor::RIGHT => {
                self.right = grid;
            },
            RubiksColor::FORWARD => {
                self.forward = grid;
            },
            RubiksColor::BACK => {
                self.back = grid;
            },
        }
    }

    /// Replaces one face by its quarter turn in `direction`.
    fn spin_face(&mut self, color: RubiksColor, direction: TurnDirection)
        ensures
            final(self)@.wf(),
            final(self)@.size == old(self)@.size,
            final(self)@.face(color) == rotated(
                old(self)@.face(color),
                old(self)@.size,
                direction,
            ),
            forall|other: RubiksColor|
                other != color ==> #[trigger] final(self)@.face(other) == old(self)@.face(other),
    {
        let size = self.face_size;
        let new_face = match direction {
            TurnDirection::CLOCKWISE => rotate_vec_cw(self.face(color), &size),
            TurnDirection::COUNTERCLOCKWISE => rotate_vec_ccw(self.face(color), &size),
        };
        self.set_face(color, new_face);
    }

    /// Reads the cells of `strip` off its face, in walking order.
    fn take_strip(&self, strip: &Strip) -> (out: Vec<RubiksColor>)
        requires
            strip@.fits(self@.size),
        ensures
            out.len() == self@.size,
            forall|i: int|
                0 <= i < self@.size ==> out@[i] == self@.at(#[trigger] strip@.cell(self@.size, i)),
    {
        read_strip(self.face(strip.face), self.face_size, strip)
    }

    /// Writes `values` into the cells of `strip`, in walking order; every
    /// other sticker of the cube stays.
    fn put_strip(&mut self, strip: &Strip, values: &Vec<RubiksColor>)
        requires
            strip@.fits(old(self)@.size),
            values.len() == old(self)@.size,
        ensures
            final(self)@.wf(),
            final(self)@.size == old(self)@.size,
            forall|cell: Cell|
                old(self)@.has(cell) ==> #[trigger] final(self)@.at(cell) == laid(
                    old(self)@,
                    strip@,
                    values@,
                    cell,
                ),
    {
        let size = self.face_size;
        let mut face = copy_of(self.face(strip.face));
        write_strip(&mut face, size, strip, values);
        self.set_face(strip.face, face);
    }

    /// Turns the faces on the axis that layer `layer` touches: the near face
    /// for layer 0, the far face for the last layer, the other way round as
    /// it is seen from the other side.
    fn spin_ends(&mut self, axis: Axis, direction: TurnDirection, layer: u8)
        requires
            layer < old(self)@.size,
        ensures
            final(self)@.wf(),
            final(self)@.size == old(self)@.size,
            forall|cell: Cell|
                old(self)@.has(cell) ==> #[trigger] final(self)@.at(cell) == old(self)@.at(
                    end_source(old(self)@.size, axis, layer as int, direction, cell),
                ),
    {
        let size = self.face_size;
        let ghost n = size as nat;
        let ghost start = self@;
        proof {
            use_type_invariant(&*self);
        }
        if layer == 0 {
            self.spin_face(axis.near_face(), direction);
        }
        let ghost half = self@;
        if layer == size - 1 {
            self.spin_face(axis.far_face(), direction.opposite());
        }
        proof {
            assert forall|cell: Cell| start.has(cell) implies #[trigger] self@.at(cell) == start.at(
                end_source(n, axis, layer as int, direction, cell),
            ) by {
                if cell.face == axis.near() && layer == 0 {
                    lemma_rotated_at(start.face(cell.face), n, direction, cell);
                } else if cell.face == axis.far() && layer == n - 1 {
                    lemma_rotated_at(half.face(cell.face), n, direction.opposite(), cell);
                }
            }
        }
    }

    /// Passes the four strips that layer `layer` cuts out of the faces around
    /// the axis on by one face: forwards for a clockwise turn, backwards for
    /// a counter-clockwise one.
    fn cycle_strips(&mut self, axis: Axis, direction: TurnDirection, layer: u8)
        requires
            layer < old(self)@.size,
        ensures
            final(self)@.wf(),
            final(self)@.size == old(self)@.size,
            forall|cell: Cell|
                old(self)@.has(cell) ==> #[trigger] final(self)@.at(cell) == old(self)@.at(
                    strip_source(old(self)@.size, axis, layer as int, direction, cell),
                ),
    {
        let size = self.face_size;
        let ghost n = size as nat;
        let ghost start = self@;
        let strip0 = axis.strip(size, layer, 0);
        let strip1 = axis.strip(size, layer, 1);
        let strip2 = axis.strip(size, layer, 2);
        let strip3 = axis.strip(size, layer, 3);
        let cells0 = self.take_strip(&strip0);
        let cells1 = self.take_strip(&strip1);
        let cells2 = self.take_strip(&strip2);
        let cells3 = self.take_strip(&strip3);
        let (new0, new1, new2, new3) = match direction {
            TurnDirection::CLOCKWISE => (cells3, cells0, cells1, cells2),
            TurnDirection::COUNTERCLOCKWISE => (cells1, cells2, cells3, cells0),
        };
        self.put_strip(&strip0, &new0);
        self.put_strip(&strip1, &new1);
        self.put_strip(&strip2, &new2);
        self.put_strip(&strip3, &new3);
        proof {
            assert forall|cell: Cell| start.has(cell) implies #[trigger] self@.at(cell) == start.at(
                strip_source(n, axis, layer as int, direction, cell),
            ) by {
                axis.lemma_faces(cell.face);
                lemma_cycled_cell(
                    start,
                    axis,
                    layer as int,
                    direction,
                    new0@,
                    new1@,
                    new2@,
                    new3@,
                    cell,
                );
            }
        }
    }

    /// Turns layer `layer`, counted from the near face of `axis`, a quarter
    /// about that axis, in `direction` as seen from the near face.
    ///
    /// The face on the axis that the layer touches, if it touches one, turns
    /// with it. Around the axis the layer cuts one strip out of each of four
    /// faces; each strip moves on to the next face.
    pub fn turn(self, axis: Axis, direction: TurnDirection, layer: u8) -> (out: RubiksCube)
        requires
            layer < self@.size,
        ensures
            out@ == self@.turned_about(axis, layer as int, direction),
            out@.stickers() == self@.stickers(),
    {
        let ghost start = self@;
        let ghost n = start.size;
        let mut cube = self;
        proof {
            use_type_invariant(&cube);
            start.lemma_turn_about_keeps_stickers(axis, layer as int, direction);
        }
        cube.spin_ends(axis, direction, layer);
        cube.cycle_strips(axis, direction, layer);
        proof {
            let goal = start.turned_about(axis, layer as int, direction);
            CubeState::lemma_from_cells(
                n,
                |cell: Cell| start.at(source(n, axis, layer as int, direction, cell)),
            );
            assert forall|cell: Cell| cube@.has(cell) implies #[trigger] cube@.at(cell) == goal.at(
                cell,
            ) by {
                axis.lemma_faces(cell.face);
            }
            cube@.lemma_equal(goal);
        }
        cube
    }

    /// Turns layer `layer`, counted from the FORWARD face, a quarter about
    /// the axis through FORWARD and BACK.
    pub fn rotate_front(self, direction: &TurnDirection, layer: &u8) -> (out: RubiksCube)
        requires
            *layer < self@.size,
        ensures
            out@ == self@.turned_about(Axis::Front, *layer as int, *direction),
            out@.stickers() == self@.stickers(),
    {
        self.turn(Axis::Front, *direction, *layer)
    }

    /// Turns layer `layer`, counted from the UP face, a quarter about the
    /// axis through UP and DOWN.
    pub fn rotate_top(self, direction: &TurnDirection, layer: &u8) -> (out: RubiksCube)
        requires
            *layer < self@.size,
        ensures
            out@ == self@.turned_about(Axis::Top, *layer as int, *direction),
            out@.stickers() == self@.stickers(),
    {
        self.turn(Axis::Top, *direction, *layer)
    }

    /// Turns layer `layer`, counted from the RIGHT face, a quarter about the
    /// axis through RIGHT and LEFT.
    pub fn rotate_right(self, direction: &TurnDirection, layer: &u8) -> (out: RubiksCube)
        requires
            *layer < self@.size,
        ensures
            out@ == self@.turned_about(Axis::Right, *layer as int, *direction),
            out@.stickers() == self@.stickers(),
    {
        self.turn(Axis::Right, *direction, *layer)
    }

    /// Performs a move: turns layer `layer`, counted from `face_target`, a
    /// quarter in `direction` as seen from that face. The cube itself stays
    /// as it is; the turned cube is returned. A layer the cube does not have
    /// is refused.
    pub fn do_move(&self, face_target: RubiksColor, layer: u8, direction: TurnDirection) -> (out:
        Result<RubiksCube, CubeError>)
        ensures
            layer < self@.size ==> out is Ok && out->Ok_0@ == self@.turned(
                face_target,
                layer as int,
                direction,
            ),
            layer >= self@.size ==> out == Err::<RubiksCube, CubeError>(CubeError::InvalidLayer),
            out is Ok ==> out->Ok_0@.stickers() == self@.stickers(),
    {
        if layer >= self.face_size {
            return Err(CubeError::InvalidLayer);
        }
        let new = self.clone();
        let mirrored: u8 = self.face_size - layer - 1;
        Ok(
            match face_target {
                RubiksColor::UP => new.rotate_top(&direction, &layer),
                RubiksColor::DOWN => new.rotate_top(&direction.opposite(), &mirrored),
                RubiksColor::RIGHT => new.rotate_right(&direction, &layer),
                RubiksColor::LEFT => new.rotate_right(&direction.opposite(), &mirrored),
                RubiksColor::FORWARD => new.rotate_front(&direction, &layer),
                RubiksColor::BACK => new.rotate_front(&direction.opposite(), &mirrored),
            },
        )
    }
}

} // verus!
