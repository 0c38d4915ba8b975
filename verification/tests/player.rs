use raycaster::game::Game;
use raycaster::player::{
    parse_turn_direction, parse_walk_direction, Player, TurnDirection, WalkDirection,
};
use raycaster::trig::TrigTable;
use raycaster::window::SUBUNITS;

fn sine_table() -> TrigTable {
    let quarter = (0..=90_000u32)
        .map(|i| ((i as f64) * std::f64::consts::PI / 180_000.0).sin())
        .map(|s| (s * 1_048_576.0).round() as u32)
        .collect();
    TrigTable::new(quarter).unwrap()
}

fn units(v: i64) -> i64 {
    v * SUBUNITS
}

fn room() -> Game {
    Game::with_map(
        vec![
            vec![1, 1, 1, 1, 1],
            vec![1, 0, 0, 0, 1],
            vec![1, 0, 0, 0, 1],
            vec![1, 0, 0, 0, 1],
            vec![1, 1, 1, 1, 1],
        ],
        64,
    )
    .unwrap()
}

#[test]
fn the_default_player_stands_in_the_middle_of_the_window() {
    let p = Player::default();
    assert_eq!((p.x, p.y), (units(384), units(288)));
    assert_eq!((p.width, p.height), (SUBUNITS, SUBUNITS));
    assert_eq!(p.rotation_angle, 90_000);
    assert_eq!((p.walk_speed, p.turn_speed), (100, 45_000));
    assert_eq!(p.minimap_scale, 200);
    assert_eq!(p.turn_direction, TurnDirection::Neutral);
    assert_eq!(p.walk_direction, WalkDirection::Neutral);
    assert!(!Game::new().is_coordinate_solid(p.x, p.y));
}

#[test]
fn intents_are_set_by_name_in_any_case() {
    let mut p = Player::default();
    assert_eq!(p.set_walk_direction("forward"), Ok(()));
    assert_eq!(p.walk_direction, WalkDirection::Forward);
    assert_eq!(p.set_walk_direction("BACKWARD"), Ok(()));
    assert_eq!(p.walk_direction, WalkDirection::Backward);
    assert_eq!(p.set_walk_direction("Neutral"), Ok(()));
    assert_eq!(p.walk_direction, WalkDirection::Neutral);

    assert_eq!(p.set_turn_direction("LEFT"), Ok(()));
    assert_eq!(p.turn_direction, TurnDirection::Left);
    assert_eq!(p.set_turn_direction("rIgHt"), Ok(()));
    assert_eq!(p.turn_direction, TurnDirection::Right);
    assert_eq!(p.set_turn_direction("neutral"), Ok(()));
    assert_eq!(p.turn_direction, TurnDirection::Neutral);
}

#[test]
fn an_unknown_intent_is_refused_and_the_old_one_kept() {
    let mut p = Player::default();
    p.set_walk_direction("forward").unwrap();
    p.set_turn_direction("left").unwrap();
    let before = p;
    assert_eq!(
        p.set_walk_direction("Sideways"),
        Err(String::from("Unknown walk direction Sideways"))
    );
    assert_eq!(p.set_walk_direction("left"), Err(String::from("Unknown walk direction left")));
    assert_eq!(p.set_walk_direction(""), Err(String::from("Unknown walk direction ")));
    assert_eq!(p.set_turn_direction("forward"), Err(String::from("Unknown turn direction forward")));
    assert_eq!(p.set_turn_direction(" left"), Err(String::from("Unknown turn direction  left")));
    assert_eq!(p, before);
}

#[test]
fn parsing_reads_lowercase_words_only() {
    assert_eq!(parse_walk_direction("neutral"), Some(WalkDirection::Neutral));
    assert_eq!(parse_walk_direction("forward"), Some(WalkDirection::Forward));
    assert_eq!(parse_walk_direction("backward"), Some(WalkDirection::Backward));
    assert_eq!(parse_walk_direction("Forward"), None);
    assert_eq!(parse_walk_direction("right"), None);
    assert_eq!(parse_turn_direction("neutral"), Some(TurnDirection::Neutral));
    assert_eq!(parse_turn_direction("left"), Some(TurnDirection::Left));
    assert_eq!(parse_turn_direction("right"), Some(TurnDirection::Right));
    assert_eq!(parse_turn_direction("LEFT"), None);
    assert_eq!(parse_turn_direction("backward"), None);
}

#[test]
fn a_player_at_rest_stays_where_it_is() {
    let game = room();
    let trig = sine_table();
    let mut p = Player { x: units(160), y: units(160), ..Player::default() };
    let before = p;
    p.move_player(16, &game, &trig);
    assert_eq!(p, before);
    p.move_player(u64::MAX, &game, &trig);
    assert_eq!(p, before);
}

#[test]
fn turning_adds_the_speed_times_the_time() {
    let game = room();
    let trig = sine_table();
    let mut p = Player { x: units(160), y: units(160), ..Player::default() };
    p.turn_direction = TurnDirection::Right;
    p.move_player(16, &game, &trig);
    assert_eq!(p.rotation_angle, 90_720);
    p.turn_direction = TurnDirection::Left;
    p.move_player(16, &game, &trig);
    assert_eq!(p.rotation_angle, 90_000);
    p.move_player(3_000, &game, &trig);
    assert_eq!(p.rotation_angle, 315_000);
    p.turn_direction = TurnDirection::Right;
    p.move_player(8_000, &game, &trig);
    assert_eq!(p.rotation_angle, 315_000);
    assert_eq!((p.x, p.y), (units(160), units(160)));
}

#[test]
fn walking_follows_the_facing_angle() {
    let game = room();
    let trig = sine_table();
    let mut p = Player { x: units(160), y: units(160), rotation_angle: 0, ..Player::default() };
    p.walk_direction = WalkDirection::Forward;
    // 100 world units a second for 16 ms: 1.6 world units, 1638 sub-units.
    p.move_player(16, &game, &trig);
    assert_eq!((p.x, p.y), (units(160) + 1_638, units(160)));
    p.walk_direction = WalkDirection::Backward;
    p.move_player(16, &game, &trig);
    assert_eq!((p.x, p.y), (units(160), units(160)));

    p.rotation_angle = 90_000;
    p.turn_direction = TurnDirection::Right;
    p.walk_direction = WalkDirection::Forward;
    p.move_player(16, &game, &trig);
    // The turn comes first: the step goes along 90.72 degrees.
    assert_eq!(p.rotation_angle, 90_720);
    assert_eq!((p.x, p.y), (units(160) - 20, units(160) + 1_637));
}

#[test]
fn a_step_into_a_wall_is_dropped_whole() {
    let game = room();
    let trig = sine_table();
    // Half a tile from the east wall, facing it.
    let start = Player {
        x: units(256 - 32),
        y: units(160),
        rotation_angle: 0,
        walk_direction: WalkDirection::Forward,
        ..Player::default()
    };
    let mut p = start;
    p.move_player(1_000, &game, &trig);
    assert_eq!((p.x, p.y), (start.x, start.y));
    assert!(!game.is_coordinate_solid(p.x, p.y));

    // A step that ends just short of the wall is taken.
    p.move_player(319, &game, &trig);
    assert_eq!(p.x, start.x + 32_665);
    assert!(!game.is_coordinate_solid(p.x, p.y));
    // The next one would end inside it.
    let near = p;
    p.move_player(16, &game, &trig);
    assert_eq!(p, near);
}

#[test]
fn a_step_off_the_map_is_dropped() {
    let game = Game::with_map(vec![vec![0, 0], vec![0, 0]], 64).unwrap();
    let trig = sine_table();
    let start = Player {
        x: units(100),
        y: units(100),
        rotation_angle: 45_000,
        walk_direction: WalkDirection::Forward,
        ..Player::default()
    };
    let mut p = start;
    p.move_player(1_000, &game, &trig);
    assert_eq!((p.x, p.y), (start.x, start.y));
    p.move_player(u64::MAX, &game, &trig);
    assert_eq!((p.x, p.y), (start.x, start.y));
    p.walk_direction = WalkDirection::Backward;
    p.move_player(u64::MAX, &game, &trig);
    assert_eq!((p.x, p.y), (start.x, start.y));
    p.move_player(100, &game, &trig);
    assert_eq!((p.x, p.y), (start.x - 7_240, start.y - 7_240));
}

#[test]
fn a_player_in_open_space_never_ends_in_a_wall() {
    let game = room();
    let trig = sine_table();
    for facing in (0..360_000).step_by(7_919) {
        for delta in [1u64, 16, 100, 333, 1_000, 5_000] {
            for walk in [WalkDirection::Forward, WalkDirection::Backward] {
                let mut p = Player {
                    x: units(160),
                    y: units(160),
                    rotation_angle: facing,
                    walk_direction: walk,
                    ..Player::default()
                };
                for _ in 0..20 {
                    p.move_player(delta, &game, &trig);
                    assert!(!game.is_coordinate_solid(p.x, p.y));
                }
            }
        }
    }
}
