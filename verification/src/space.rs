//! The cube in space, and the turn as a rigid quarter rotation of one layer.
//!
//! A cube of edge `n` is made of `n * n * n` little cubes. The little cube
//! `(a, b, c)` is the `a`-th from the left, the `b`-th from the bottom and
//! the `c`-th from the back, each counted from zero. A sticker sits on a
//! little cube of the surface and shows on one side of the big cube.
//!
//! The rows and columns of the six faces are a convention; what a turn does
//! in space is not. The law at the end of this module ties the one to the
//! other.

use crate::axis::{source, Axis};
use crate::color::{RubiksColor, TurnDirection};
use crate::grid::in_grid;
use crate::state::Cell;
use vstd::prelude::*;

verus! {

/// The place of a sticker in space: the little cube it sits on and the side
/// of the big cube it shows on.
pub struct Spot {
    /// Counted from the LEFT side towards the RIGHT side.
    pub a: int,
    /// Counted from the DOWN side towards the UP side.
    pub b: int,
    /// Counted from the BACK side towards the FORWARD side.
    pub c: int,
    /// The side the sticker shows on.
    pub side: RubiksColor,
}

/// Where in space the sticker of `cell` sits on a cube of edge `n`.
///
/// Each face is looked at from outside: the four side faces with UP above
/// them, UP with FORWARD below it, DOWN with FORWARD above it. Columns count
/// from the viewer's left, rows from the top.
pub open spec fn spot_of(n: nat, cell: Cell) -> Spot {
    let far = n - 1;
    match cell.face {
        RubiksColor::FORWARD => Spot { a: cell.x, b: far - cell.y, c: far, side: cell.face },
        RubiksColor::RIGHT => Spot { a: far, b: far - cell.y, c: far - cell.x, side: cell.face },
        RubiksColor::BACK => Spot { a: far - cell.x, b: far - cell.y, c: 0, side: cell.face },
        RubiksColor::LEFT => Spot { a: 0, b: far - cell.y, c: cell.x, side: cell.face },
        RubiksColor::UP => Spot { a: cell.x, b: far, c: cell.y, side: cell.face },
        RubiksColor::DOWN => Spot { a: cell.x, b: 0, c: far - cell.y, side: cell.face },
    }
}

/// Whether the little cube of `spot` belongs to layer `layer` about `axis`,
/// counted from the axis's near face.
pub open spec fn in_layer(n: nat, axis: Axis, layer: int, spot: Spot) -> bool {
    match axis {
        Axis::Top => spot.b == n - 1 - layer,
        Axis::Right => spot.a == n - 1 - layer,
        Axis::Front => spot.c == n - 1 - layer,
    }
}

/// The side that `side` becomes by a clockwise quarter rotation about
/// `axis`, as seen from the axis's near face.
pub open spec fn side_after(axis: Axis, side: RubiksColor) -> RubiksColor {
    match axis {
        Axis::Top => match side {
            RubiksColor::FORWARD => RubiksColor::LEFT,
            RubiksColor::LEFT => RubiksColor::BACK,
            RubiksColor::BACK => RubiksColor::RIGHT,
            RubiksColor::RIGHT => RubiksColor::FORWARD,
            _ => side,
        },
        Axis::Right => match side {
            RubiksColor::FORWARD => RubiksColor::UP,
            RubiksColor::UP => RubiksColor::BACK,
            RubiksColor::BACK => RubiksColor::DOWN,
            RubiksColor::DOWN => RubiksColor::FORWARD,
            _ => side,
        },
        Axis::Front => match side {
            RubiksColor::UP => RubiksColor::RIGHT,
            RubiksColor::RIGHT => RubiksColor::DOWN,
            RubiksColor::DOWN => RubiksColor::LEFT,
            RubiksColor::LEFT => RubiksColor::UP,
            _ => side,
        },
    }
}

/// Where a clockwise quarter rotation of the whole cube about `axis`, as
/// seen from the axis's near face, takes `spot`.
///
/// Seen from above, the rotation about the top axis takes the front to the
/// left; seen from the right, the one about the right axis takes the front to
/// the top; seen from the front, the one about the front axis takes the top
/// to the right.
pub open spec fn quarter(n: nat, axis: Axis, spot: Spot) -> Spot {
    let far = n - 1;
    let side = side_after(axis, spot.side);
    match axis {
        Axis::Top => Spot { a: far - spot.c, b: spot.b, c: spot.a, side },
        Axis::Right => Spot { a: spot.a, b: spot.c, c: far - spot.b, side },
        Axis::Front => Spot { a: spot.b, b: far - spot.a, c: spot.c, side },
    }
}

/// Where a turn of layer `layer` about `axis` takes `spot`: a quarter round
/// the axis if the spot is in the layer (three clockwise quarters make one
/// counter-clockwise), and nowhere if it is not.
pub open spec fn carried(
    n: nat,
    axis: Axis,
    layer: int,
    dir: TurnDirection,
    spot: Spot,
) -> Spot {
    if in_layer(n, axis, layer, spot) {
        match dir {
            TurnDirection::CLOCKWISE => quarter(n, axis, spot),
            TurnDirection::COUNTERCLOCKWISE => quarter(
                n,
                axis,
                quarter(n, axis, quarter(n, axis, spot)),
            ),
        }
    } else {
        spot
    }
}

/// A cell's sticker sits on a little cube of the cube, on the outside of the
/// face it belongs to, and no two cells share a spot.
pub proof fn lemma_spot_of(n: nat, cell: Cell, other: Cell)
    requires
        in_grid(n, cell.x, cell.y),
        in_grid(n, other.x, other.y),
    ensures
        0 <= spot_of(n, cell).a < n,
        0 <= spot_of(n, cell).b < n,
        0 <= spot_of(n, cell).c < n,
        spot_of(n, cell).side == cell.face,
        match cell.face {
            RubiksColor::UP => spot_of(n, cell).b == n - 1,
            RubiksColor::DOWN => spot_of(n, cell).b == 0,
            RubiksColor::RIGHT => spot_of(n, cell).a == n - 1,
            RubiksColor::LEFT => spot_of(n, cell).a == 0,
            RubiksColor::FORWARD => spot_of(n, cell).c == n - 1,
            RubiksColor::BACK => spot_of(n, cell).c == 0,
        },
        spot_of(n, cell) == spot_of(n, other) ==> cell == other,
{
}

/// Four quarter rotations of the whole cube take every spot home.
pub proof fn lemma_quarter_four_times(n: nat, axis: Axis, spot: Spot)
    ensures
        quarter(n, axis, quarter(n, axis, quarter(n, axis, quarter(n, axis, spot)))) == spot,
{
}

/// A turn is a rigid quarter rotation of one layer: the sticker that the
/// turn brings to `cell` is the one whose spot the rotation carries to the
/// spot of `cell`.
pub proof fn lemma_turn_is_rotation(
    n: nat,
    axis: Axis,
    layer: int,
    dir: TurnDirection,
    cell: Cell,
)
    requires
        0 <= layer < n,
        in_grid(n, cell.x, cell.y),
    ensures
        carried(n, axis, layer, dir, spot_of(n, source(n, axis, layer, dir, cell))) == spot_of(
            n,
            cell,
        ),
{
}

} // verus!
