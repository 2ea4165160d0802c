//! Slices a texture into a uniform grid of sprites and lists them in a chosen
//! order, as the description of a sprite sheet.


pub mod direction;
pub mod error;
pub mod grid;
pub mod laws;
pub mod sheet;
pub mod sprite;

pub use direction::{ListDirection, ListDirectionParseError};
pub use error::SheetError;
pub use grid::SpriteGrid;
pub use sheet::{generate, suggest};
pub use sprite::{SerializedSpriteSheet, SpritePosition};
