use raycaster::error::ConfigError;
use raycaster::game::{Game, TileGrid};
use raycaster::window::{SUBUNITS, TILE_SIZE};

/// A length in world units, in the engine's sub-units.
fn units(v: i64) -> i64 {
    v * SUBUNITS
}

#[test]
fn test_is_coordinate_solid_outside_window() {
    let game = Game::new();
    assert!(game.is_coordinate_solid(units(-1), units(10)));
    assert!(game.is_coordinate_solid(units(10), units(10)));
    assert!(game.is_coordinate_solid(units(5), units(-1)));
    assert!(game.is_coordinate_solid(units(5), units(20)));
}

#[test]
fn test_is_coordinate_solid_empty_space() {
    let game = Game::new();
    assert!(!game.is_coordinate_solid(units(2 * TILE_SIZE as i64), units(2 * TILE_SIZE as i64)));
    assert!(!game.is_coordinate_solid(units(6 * TILE_SIZE as i64), units(6 * TILE_SIZE as i64)));
}

#[test]
fn test_is_coordinate_solid_obstacle() {
    let game = Game::new();
    assert!(game.is_coordinate_solid(units(11 * TILE_SIZE as i64), units(12 * TILE_SIZE as i64)));
}

#[test]
fn default_map_has_thirteen_rows_of_twenty() {
    let game = Game::new();
    assert_eq!(game.game_map.num_rows(), 13);
    assert_eq!(game.game_map.num_cols(), 20);
    assert_eq!(game.game_map.tile_span(), 64 * 1024);
    assert_eq!(game.game_map.map_width(), 20 * 64 * 1024);
    assert_eq!(game.game_map.map_height(), 13 * 64 * 1024);
    assert_eq!(game.game_map.cell(2, 15), 8);
    assert_eq!(game.game_map.cell(7, 13), 7);
    assert_eq!(game.game_map.cell(3, 3), 0);
    assert_eq!(game.rays.len(), 768);
    assert_eq!(game.rays[0].angle, 0);
    assert!(game.rays[0].is_facing_right);
    assert!(game.rays[0].is_facing_up);
}

#[test]
fn points_off_the_map_are_solid() {
    let game = Game::with_map(vec![vec![0, 0], vec![0, 0]], 10).unwrap();
    let w = 2 * 10 * SUBUNITS;
    assert!(!game.is_coordinate_solid(0, 0));
    assert!(!game.is_coordinate_solid(w - 1, w - 1));
    assert!(game.is_coordinate_solid(w, 0));
    assert!(game.is_coordinate_solid(0, w));
    assert!(game.is_coordinate_solid(-1, 0));
    assert!(game.is_coordinate_solid(0, -1));
    assert!(game.is_coordinate_solid(i64::MAX, i64::MIN));
}

#[test]
fn a_point_is_looked_up_by_row_then_column() {
    let game = Game::with_map(vec![vec![0, 7, 0], vec![0, 0, 0]], 1).unwrap();
    // Row 0, column 1 is the wall.
    assert!(game.is_coordinate_solid(SUBUNITS, 0));
    assert!(game.is_coordinate_solid(2 * SUBUNITS - 1, SUBUNITS - 1));
    assert!(!game.is_coordinate_solid(SUBUNITS - 1, 0));
    assert!(!game.is_coordinate_solid(2 * SUBUNITS, 0));
    assert!(!game.is_coordinate_solid(SUBUNITS, SUBUNITS));
    assert_eq!(game.game_map.tile_at(SUBUNITS + 5, 17), 7);
    assert_eq!(game.game_map.tile_at(5, 17), 0);
}

#[test]
fn malformed_grids_are_refused() {
    assert_eq!(TileGrid::new(vec![], 64).err(), Some(ConfigError::EmptyGrid));
    assert_eq!(TileGrid::new(vec![vec![]], 64).err(), Some(ConfigError::EmptyGrid));
    assert_eq!(
        TileGrid::new(vec![vec![1, 1], vec![1]], 64).err(),
        Some(ConfigError::RaggedGrid)
    );
    assert_eq!(
        TileGrid::new(vec![vec![1, 1], vec![1, 1], vec![1, 1, 1]], 64).err(),
        Some(ConfigError::RaggedGrid)
    );
    assert_eq!(TileGrid::new(vec![vec![1]], 0).err(), Some(ConfigError::BadTileSize));
    assert_eq!(TileGrid::new(vec![vec![1]], 1025).err(), Some(ConfigError::BadTileSize));
    assert_eq!(TileGrid::new(vec![vec![0; 1025]], 64).err(), Some(ConfigError::GridTooLarge));
    assert_eq!(TileGrid::new(vec![vec![0]; 1025], 64).err(), Some(ConfigError::GridTooLarge));
    // The tile size is tested first, then emptiness, then the limits, then the shape.
    assert_eq!(TileGrid::new(vec![], 0).err(), Some(ConfigError::BadTileSize));
    assert!(Game::with_map(vec![vec![1, 1], vec![1]], 64).is_err());
}

#[test]
fn grids_at_the_limits_are_accepted() {
    assert!(TileGrid::new(vec![vec![0; 1024]; 1024], 1024).is_ok());
    assert!(TileGrid::new(vec![vec![0]], 1).is_ok());
    let game = Game::with_map(vec![vec![3]], 1).unwrap();
    assert_eq!(game.rays.len(), 0);
    assert!(game.is_coordinate_solid(0, 0));
}
