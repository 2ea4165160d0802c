use spritesheet_generator::{
    generate, suggest, ListDirection, ListDirectionParseError, SheetError, SpriteGrid,
    SpritePosition,
};

fn sp(x: u32, y: u32, width: u32, height: u32) -> SpritePosition {
    SpritePosition { x, y, width, height }
}

#[test]
fn horizontal_lists_by_columns() {
    let s = generate(100, 50, 2, 2, ListDirection::Horizontal).unwrap();
    assert_eq!(s.texture_width, 100);
    assert_eq!(s.texture_height, 50);
    assert_eq!(
        s.sprites,
        vec![sp(0, 0, 50, 25), sp(0, 25, 50, 25), sp(50, 0, 50, 25), sp(50, 25, 50, 25)]
    );
}

#[test]
fn vertical_lists_by_rows() {
    let s = generate(100, 50, 2, 2, ListDirection::Vertical).unwrap();
    assert_eq!(
        s.sprites,
        vec![sp(0, 0, 50, 25), sp(50, 0, 50, 25), sp(0, 25, 50, 25), sp(50, 25, 50, 25)]
    );
}

#[test]
fn remainder_pixels_are_dropped() {
    let s = generate(101, 50, 2, 1, ListDirection::Horizontal).unwrap();
    assert_eq!(s.texture_width, 101);
    assert_eq!(s.sprites, vec![sp(0, 0, 50, 50), sp(50, 0, 50, 50)]);
}

#[test]
fn zero_horizontal_count_is_refused() {
    assert_eq!(
        generate(100, 50, 0, 2, ListDirection::Horizontal).unwrap_err(),
        SheetError::InvalidSliceCount
    );
}

#[test]
fn zero_vertical_count_is_refused() {
    assert_eq!(
        generate(100, 50, 3, 0, ListDirection::Vertical).unwrap_err(),
        SheetError::InvalidSliceCount
    );
    assert!(SpriteGrid::partition(100, 50, 0, 0).is_err());
}

#[test]
fn count_is_product_of_slices() {
    for (h, v) in [(1u32, 1u32), (3, 4), (7, 2), (1, 9)] {
        for d in [ListDirection::Horizontal, ListDirection::Vertical] {
            let s = generate(64, 48, h, v, d).unwrap();
            assert_eq!(s.sprites.len(), (h * v) as usize);
        }
    }
}

#[test]
fn every_sprite_has_the_cell_size() {
    let s = generate(100, 70, 3, 4, ListDirection::Vertical).unwrap();
    for r in &s.sprites {
        assert_eq!(r.width, 33);
        assert_eq!(r.height, 17);
    }
}

#[test]
fn cell_positions_follow_the_grid() {
    let (h, v) = (3u32, 4u32);
    let s = generate(100, 70, h, v, ListDirection::Horizontal).unwrap();
    for i in 0..h {
        for j in 0..v {
            let r = s.sprites[(i * v + j) as usize];
            assert_eq!((r.x, r.y), (i * 33, j * 17));
        }
    }
    let s = generate(100, 70, h, v, ListDirection::Vertical).unwrap();
    for i in 0..h {
        for j in 0..v {
            let r = s.sprites[(j * h + i) as usize];
            assert_eq!((r.x, r.y), (i * 33, j * 17));
        }
    }
}

#[test]
fn directions_are_permutations() {
    let a = generate(90, 60, 3, 2, ListDirection::Horizontal).unwrap().sprites;
    let b = generate(90, 60, 3, 2, ListDirection::Vertical).unwrap().sprites;
    let key = |r: &SpritePosition| (r.x, r.y, r.width, r.height);
    let mut sa: Vec<_> = a.iter().map(key).collect();
    let mut sb: Vec<_> = b.iter().map(key).collect();
    sa.sort();
    sb.sort();
    assert_eq!(sa, sb);
    assert_ne!(a[1], b[1]);
    assert_eq!(a[1], sp(0, 30, 30, 30));
    assert_eq!(b[1], sp(30, 0, 30, 30));
}

#[test]
fn one_cell_grid_is_the_whole_texture() {
    let s = generate(17, 9, 1, 1, ListDirection::Vertical).unwrap();
    assert_eq!(s.sprites, vec![sp(0, 0, 17, 9)]);
}

#[test]
fn more_slices_than_pixels_gives_empty_cells() {
    let s = generate(1, 1, 2, 2, ListDirection::Horizontal).unwrap();
    assert_eq!(s.sprites, vec![sp(0, 0, 0, 0); 4]);
}

#[test]
fn largest_texture_does_not_overflow() {
    let s = generate(u32::MAX, u32::MAX, 3, 2, ListDirection::Vertical).unwrap();
    let w = u32::MAX / 3;
    let h = u32::MAX / 2;
    assert_eq!(s.sprites[5], sp(2 * w, h, w, h));
}

#[test]
fn grid_cells_are_column_major() {
    let g = SpriteGrid::partition(40, 30, 2, 3).unwrap();
    assert_eq!(g.columns, 2);
    assert_eq!(g.rows, 3);
    assert_eq!(g.cells[4], sp(20, 10, 20, 10));
    assert_eq!(g.flatten(ListDirection::Vertical)[1], sp(20, 0, 20, 10));
    assert_eq!(g.flatten(ListDirection::Horizontal), g.cells);
}

#[test]
fn direction_tokens_parse() {
    assert_eq!(ListDirection::from_str("horizontal"), Ok(ListDirection::Horizontal));
    assert_eq!(ListDirection::from_str("vertical"), Ok(ListDirection::Vertical));
}

#[test]
fn unknown_direction_tokens_are_refused() {
    for t in ["Horizontal", "VERTICAL", "", "diagonal", "vertical "] {
        assert_eq!(ListDirection::from_str(t), Err(ListDirectionParseError::UnknownDirection));
    }
    assert_eq!(ListDirectionParseError::UnknownDirection.message(), "Unknown direction");
}

#[test]
fn default_direction_is_horizontal() {
    assert_eq!(ListDirection::default(), ListDirection::Horizontal);
}

#[test]
fn suggest_is_not_implemented() {
    assert_eq!(suggest().unwrap_err(), SheetError::NotImplemented);
    assert_eq!(SheetError::NotImplemented.message(), "Not implemented");
    assert_eq!(SheetError::InvalidSliceCount.message(), "Slice counts must be at least 1");
}
