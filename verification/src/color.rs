//! The two enumerations every other module speaks of: the six sticker colours,
//! each named after the face it belongs to on a solved cube, and the two
//! directions a layer can be turned in.

use vstd::prelude::*;

verus! {

/// A sticker colour, named after its home face.
#[derive(Clone, Copy, Debug, Hash, PartialEq, Eq, Structural)]
pub enum RubiksColor {
    UP,
    DOWN,
    LEFT,
    RIGHT,
    FORWARD,
    BACK,
}

impl RubiksColor {
    /// The colour of the face across the cube.
    pub open spec fn spec_opposite(&self) -> RubiksColor {
        match self {
            RubiksColor::UP => RubiksColor::DOWN,
            RubiksColor::DOWN => RubiksColor::UP,
            RubiksColor::LEFT => RubiksColor::RIGHT,
            RubiksColor::RIGHT => RubiksColor::LEFT,
            RubiksColor::FORWARD => RubiksColor::BACK,
            RubiksColor::BACK => RubiksColor::FORWARD,
        }
    }

    /// The colour of the face across the cube.
    #[verifier::when_used_as_spec(spec_opposite)]
    pub fn opposite(&self) -> (out: RubiksColor)
        ensures
            out == self.spec_opposite(),
    {
        match self {
            RubiksColor::UP => RubiksColor::DOWN,
            RubiksColor::DOWN => RubiksColor::UP,
            RubiksColor::LEFT => RubiksColor::RIGHT,
            RubiksColor::RIGHT => RubiksColor::LEFT,
            RubiksColor::FORWARD => RubiksColor::BACK,
            RubiksColor::BACK => RubiksColor::FORWARD,
        }
    }

    /// Opposite faces come in pairs: the opposite of a colour is another
    /// colour, and the opposite of that one is the first again.
    pub proof fn lemma_opposite_pairs(self)
        ensures
            self.opposite() != self,
            self.opposite().opposite() == self,
    {
    }
}

/// The sense of a quarter turn, as seen when looking straight at the face
/// that names the move.
#[derive(Clone, Copy, Debug, PartialEq, Eq, Structural)]
pub enum TurnDirection {
    CLOCKWISE,
    COUNTERCLOCKWISE,
}

impl TurnDirection {
    /// The other direction.
    pub open spec fn spec_opposite(&self) -> TurnDirection {
        match self {
            TurnDirection::CLOCKWISE => TurnDirection::COUNTERCLOCKWISE,
            TurnDirection::COUNTERCLOCKWISE => TurnDirection::CLOCKWISE,
        }
    }

    /// The other direction.
    #[verifier::when_used_as_spec(spec_opposite)]
    pub fn opposite(&self) -> (out: TurnDirection)
        ensures
            out == self.spec_opposite(),
    {
        match self {
            TurnDirection::CLOCKWISE => TurnDirection::COUNTERCLOCKWISE,
            TurnDirection::COUNTERCLOCKWISE => TurnDirection::CLOCKWISE,
        }
    }

    /// Reversing a direction twice gives it back.
    pub proof fn lemma_opposite_twice(self)
        ensures
            self.opposite() != self,
            self.opposite().opposite() == self,
    {
    }
}

} // verus!
