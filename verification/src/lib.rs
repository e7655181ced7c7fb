//! A deterministic falling-sand grid engine: cell and wind storage, the
//! restricted neighbourhood through which material rules touch the grid,
//! the two-phase generation advance, a bounded undo history and a circular
//! brush.
pub mod species;
pub mod cell;
pub mod universe;
pub mod api;
pub mod tick;
pub mod brush;
pub mod seed;
pub mod laws;

pub use crate::species::Species;
pub use crate::cell::{Cell, Wind};
pub use crate::universe::{Grid, Universe};
pub use crate::api::SandApi;
pub use crate::tick::{Material, Inert};
pub use crate::seed::Scatter;
