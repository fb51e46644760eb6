use bomberman::geometry::{
    Pos, TILE_WIDTH, aabb_detection, get_way_translation, index_to_position, pos_to_grid,
    vecs_xy_intersect,
};

#[test]
fn overlap_is_strict_at_the_margin() {
    // Boxes overlap while closer than 43 units on both axes, strictly.
    assert!(vecs_xy_intersect(&Pos { x: 0, y: 0 }, &Pos { x: 42, y: 0 }));
    assert!(!vecs_xy_intersect(&Pos { x: 0, y: 0 }, &Pos { x: 43, y: 0 }));
    assert!(vecs_xy_intersect(&Pos { x: 0, y: 0 }, &Pos { x: -42, y: 0 }));
    assert!(!vecs_xy_intersect(&Pos { x: 0, y: 0 }, &Pos { x: -43, y: 0 }));
    assert!(vecs_xy_intersect(&Pos { x: 0, y: 0 }, &Pos { x: 42, y: 42 }));
    assert!(!vecs_xy_intersect(&Pos { x: 0, y: 0 }, &Pos { x: 42, y: 43 }));
}

#[test]
fn overlap_is_symmetric() {
    let a = Pos { x: 10, y: -30 };
    let b = Pos { x: 40, y: 5 };
    assert_eq!(vecs_xy_intersect(&a, &b), vecs_xy_intersect(&b, &a));
    assert!(vecs_xy_intersect(&a, &b));
}

#[test]
fn aabb_detection_matches_the_pair_test() {
    assert!(aabb_detection(0, 0, &Pos { x: 42, y: 0 }));
    assert!(!aabb_detection(0, 0, &Pos { x: 0, y: 43 }));
}

#[test]
fn tile_positions_flip_vertically() {
    // Row 0 is the visual top: the highest world Y.
    let top_left = index_to_position(0, 0, 11);
    assert_eq!(top_left, Pos { x: 0, y: 480 });
    let bottom_right = index_to_position(12, 10, 11);
    assert_eq!(bottom_right, Pos { x: 576, y: 0 });
    assert_eq!(TILE_WIDTH, 48);
}

#[test]
fn grid_lookup_inverts_tile_positions() {
    // A position inside a tile maps back to that tile's row and column.
    assert_eq!(pos_to_grid(&Pos { x: 96, y: 96 }, 5), Some((2, 2)));
    assert_eq!(pos_to_grid(&Pos { x: 97, y: 143 }, 5), Some((2, 2)));
    // Above the top row, or left of or below the grid: no cell.
    assert_eq!(pos_to_grid(&Pos { x: 0, y: 240 }, 5), None);
    assert_eq!(pos_to_grid(&Pos { x: -1, y: 0 }, 5), None);
    assert_eq!(pos_to_grid(&Pos { x: 0, y: -1 }, 5), None);
}

#[test]
fn way_translation_on_aligned_position_is_none() {
    assert_eq!(get_way_translation(&Pos { x: 96, y: 48 }), None);
}

#[test]
fn way_translation_straddles_the_unaligned_axis() {
    // X aligned, Y between two tiles: the tile below and the tile above.
    assert_eq!(
        get_way_translation(&Pos { x: 48, y: 72 }),
        Some((Pos { x: 48, y: 48 }, Pos { x: 48, y: 96 }))
    );
    // Y aligned, X between two tiles: the tile left and the tile right.
    assert_eq!(
        get_way_translation(&Pos { x: 50, y: 48 }),
        Some((Pos { x: 48, y: 48 }, Pos { x: 96, y: 48 }))
    );
    // Below zero the floor tile is the next multiple downward.
    assert_eq!(
        get_way_translation(&Pos { x: -24, y: 0 }),
        Some((Pos { x: -48, y: 0 }, Pos { x: 0, y: 0 }))
    );
}
