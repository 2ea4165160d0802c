use vstd::prelude::*;

use crate::direction::ListDirection;
use crate::error::SheetError;
use crate::grid::{is_cell, lemma_listed_cell, listed_cell, lists_grid, SpriteGrid};
use crate::sprite::SerializedSpriteSheet;

verus! {

/// Slices a `texture_width` by `texture_height` texture into
/// `horizontal_count` columns and `vertical_count` rows of equal sprites, and
/// lists them in direction `direction`. A count of zero is refused before
/// anything is divided.
pub fn generate(
    texture_width: u32,
    texture_height: u32,
    horizontal_count: u32,
    vertical_count: u32,
    direction: ListDirection,
) -> (r: Result<SerializedSpriteSheet, SheetError>)
    ensures
        horizontal_count == 0 || vertical_count == 0 ==> r == Err::<
            SerializedSpriteSheet,
            SheetError,
        >(SheetError::InvalidSliceCount),
        horizontal_count > 0 && vertical_count > 0 ==> match r {
            Ok(s) => {
                &&& s.texture_width == texture_width
                &&& s.texture_height == texture_height
                &&& lists_grid(
                    s.sprites@,
                    texture_width,
                    texture_height,
                    horizontal_count,
                    vertical_count,
                    direction,
                )
            },
            Err(_) => false,
        },
{
    let grid = match SpriteGrid::partition(
        texture_width,
        texture_height,
        horizontal_count,
        vertical_count,
    ) {
        Ok(g) => g,
        Err(e) => {
            return Err(e);
        },
    };
    let sprites = grid.flatten(direction);
    proof {
        let h = horizontal_count as int;
        let v = vertical_count as int;
        assert forall|k: int| 0 <= k < sprites@.len() implies is_cell(
            #[trigger] sprites@[k],
            texture_width,
            texture_height,
            horizontal_count,
            vertical_count,
            listed_cell(direction, h, v, k).0,
            listed_cell(direction, h, v, k).1,
        ) by {
            lemma_listed_cell(direction, h, v, k);
            let m = grid.source_index(direction, k);
            assert(0 <= m < grid.cells@.len());
            assert(grid.cells@[m] == sprites@[k]);
        }
    }
    Ok(SerializedSpriteSheet { texture_width, texture_height, sprites })
}

/// Content-aware slicing: not available, it always fails.
pub fn suggest() -> (r: Result<SerializedSpriteSheet, SheetError>)
    ensures
        r == Err::<SerializedSpriteSheet, SheetError>(SheetError::NotImplemented),
{
    Err(SheetError::NotImplemented)
}

} // verus!
