use vstd::prelude::*;

verus! {

/// A rectangular area of the texture. The origin is the texture's top-left
/// corner; `x` grows rightwards and `y` downwards.
#[derive(Clone, Copy, Debug, PartialEq, Eq, Structural)]
pub struct SpritePosition {
    /// Horizontal position of the sprite in the sprite sheet
    pub x: u32,
    /// Vertical position of the sprite in the sprite sheet
    pub y: u32,
    /// Width of the sprite
    pub width: u32,
    /// Height of the sprite
    pub height: u32,
}

/// The description of a sliced texture: its size and its sprites, in the
/// order in which they are listed.
#[derive(Clone, Debug)]
pub struct SerializedSpriteSheet {
    /// Width of the sprite sheet
    pub texture_width: u32,
    /// Height of the sprite sheet
    pub texture_height: u32,
    /// Description of the sprites
    pub sprites: Vec<SpritePosition>,
}

} // verus!
