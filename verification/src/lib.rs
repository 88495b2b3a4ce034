//! An N×N×N twisty cube: six square faces of coloured stickers and the
//! layer turns that permute them.
//!
//! A cube is a value. A turn takes one cube and gives the next one; nothing is
//! ever changed in place, so a cube can be read from many places at once.
//!
//! - [`color`]: the six colours and the two turn directions.
//! - [`grid`]: flat square grids and their quarter turns.
//! - [`state`]: the cube as a mathematical value.
//! - [`axis`]: the three axes, the lines a layer cuts out of the faces, and
//!   where a turn takes each sticker from.
//! - [`turn`]: what a move does to the cube's value.
//! - [`cube`]: the cube itself and its moves.
//! - [`laws`]: what holds of every move.
//! - [`space`]: the turn as a rigid rotation of one layer in space.
//! - [`rearrange`]: sequences that hold the same items in another order.

pub mod color;
pub mod grid;
pub mod state;
pub mod axis;
pub mod cube;
pub mod turn;
pub mod rearrange;
pub mod laws;
pub mod space;

pub use axis::Axis;
pub use color::{RubiksColor, TurnDirection};
pub use cube::{CubeError, RubiksCube};
pub use state::{Cell, CubeState};
