//! A single-player ship-hunting game on a rectangular grid: the board, the
//! placement of three-cell ships, the coordinate grammar and the resolution
//! of shots, each with a proved contract.

pub mod cell;
pub mod coords;
pub mod random;
pub mod model;
pub mod proofs;
pub mod field;

pub use cell::{Cell, CellStatus, FireResult, Ship};
pub use field::{Field, PlacementInfeasible};
pub use model::FieldView;
