//! What a move does to a cube, stated over the cube's mathematical value.

use crate::axis::{source, Axis};
use crate::color::{RubiksColor, TurnDirection};
use crate::state::{Cell, CubeState};
use vstd::prelude::*;

verus! {

/// A quarter turn of one layer about one axis.
pub struct Turn {
    pub axis: Axis,
    /// The layer, counted from the axis's near face.
    pub layer: int,
    /// The direction, as seen from the axis's near face.
    pub direction: TurnDirection,
}

/// The turn about an axis that a move names.
///
/// A move names a face, a layer counted from that face, and a direction as
/// seen from that face. UP, RIGHT and FORWARD are the near faces of the three
/// axes. A move on DOWN, LEFT or BACK is the turn about the same axis seen
/// from the other side: the layer is counted from the other end and the
/// direction is reversed.
pub open spec fn canonical(n: nat, face: RubiksColor, layer: int, direction: TurnDirection) -> Turn {
    match face {
        RubiksColor::UP => Turn { axis: Axis::Top, layer, direction },
        RubiksColor::DOWN => Turn {
            axis: Axis::Top,
            layer: n - 1 - layer,
            direction: direction.opposite(),
        },
        RubiksColor::RIGHT => Turn { axis: Axis::Right, layer, direction },
        RubiksColor::LEFT => Turn {
            axis: Axis::Right,
            layer: n - 1 - layer,
            direction: direction.opposite(),
        },
        RubiksColor::FORWARD => Turn { axis: Axis::Front, layer, direction },
        RubiksColor::BACK => Turn {
            axis: Axis::Front,
            layer: n - 1 - layer,
            direction: direction.opposite(),
        },
    }
}

impl CubeState {
    /// The cube after a quarter turn of layer `layer` about `axis`: each cell
    /// shows the sticker that the turn brings to it.
    pub open spec fn turned_about(
        self,
        axis: Axis,
        layer: int,
        direction: TurnDirection,
    ) -> CubeState {
        CubeState::from_cells(
            self.size,
            |cell: Cell| self.at(source(self.size, axis, layer, direction, cell)),
        )
    }

    /// The cube after the move that turns layer `layer` of `face` a quarter
    /// in `direction`.
    pub open spec fn turned(
        self,
        face: RubiksColor,
        layer: int,
        direction: TurnDirection,
    ) -> CubeState {
        let turn = canonical(self.size, face, layer, direction);
        self.turned_about(turn.axis, turn.layer, turn.direction)
    }
}

} // verus!
