use raycaster::app::App;
use raycaster::error::ConfigError;
use raycaster::game::Game;
use raycaster::input::{InputEvent, Key};
use raycaster::minimap::DrawCommand;
use raycaster::player::{Player, TurnDirection, WalkDirection};
use raycaster::projection::{CEILING_COLOR, FLOOR_COLOR, VERTICAL_WALL_COLOR};
use raycaster::timekeeper::TimeKeeper;
use raycaster::trig::TrigTable;
use raycaster::window::SUBUNITS;

fn sine_table() -> TrigTable {
    let quarter = (0..=90_000u32)
        .map(|i| ((i as f64) * std::f64::consts::PI / 180_000.0).sin())
        .map(|s| (s * 1_048_576.0).round() as u32)
        .collect();
    TrigTable::new(quarter).unwrap()
}

fn units(v: i64) -> i64 {
    v * SUBUNITS
}

fn room() -> Game {
    Game::with_map(
        vec![
            vec![1, 1, 1, 1, 1],
            vec![1, 0, 0, 0, 1],
            vec![1, 0, 0, 0, 1],
            vec![1, 0, 0, 0, 1],
            vec![1, 1, 1, 1, 1],
        ],
        64,
    )
    .unwrap()
}

fn engine(facing: i64, width: u32, height: u32) -> App {
    let player =
        Player { x: units(160), y: units(160), rotation_angle: facing, ..Player::default() };
    App::with_config(room(), player, sine_table(), width, height, 60_000).unwrap()
}

#[test]
fn the_default_engine_is_the_default_window_on_the_default_map() {
    let app = App::new(sine_table());
    assert!(app.is_running);
    assert_eq!(app.player, Player::default());
    assert_eq!((app.color_buffer.width(), app.color_buffer.height()), (768, 576));
    assert_eq!(app.distance_proj_plane, 681_069);
    assert_eq!(app.game.rays.len(), 768);
    assert_eq!(app.game.game_map.num_rows(), 13);
    assert_eq!(app.timekeeper.ticks(), 0);
    assert_eq!(app.timekeeper.frame_time(), 16);
}

#[test]
fn a_bad_configuration_is_refused() {
    let player = Player::default();
    for fov in [i64::MIN, -60_000, 0, 1, 180_000, 360_000, i64::MAX] {
        let r = App::with_config(room(), player, sine_table(), 320, 200, fov);
        assert_eq!(r.err(), Some(ConfigError::BadFieldOfView));
    }
    for (w, h) in [(0, 200), (320, 0), (8193, 200), (320, 8193)] {
        let r = App::with_config(room(), player, sine_table(), w, h, 60_000);
        assert_eq!(r.err(), Some(ConfigError::BadScreenSize));
    }
    // The field of view is tested first.
    let r = App::with_config(room(), player, sine_table(), 0, 0, 0);
    assert_eq!(r.err(), Some(ConfigError::BadFieldOfView));
    assert!(App::with_config(room(), player, sine_table(), 1, 1, 2).is_ok());
    assert!(App::with_config(room(), player, sine_table(), 8192, 1, 179_999).is_ok());
}

#[test]
fn the_time_keeper_measures_frames() {
    let mut keeper = TimeKeeper::default();
    assert_eq!((keeper.ticks(), keeper.delta_time(), keeper.wait_time()), (0, 0, 0));
    assert_eq!(keeper.frame_time(), 16);
    keeper.set_ticks(1_000);
    assert_eq!(keeper.ticks(), 1_000);
    keeper.calculate_delta(1_033);
    assert_eq!(keeper.delta_time(), 33);
    assert_eq!(keeper.ticks(), 1_000);
    keeper.calculate_delta(1_000);
    assert_eq!(keeper.delta_time(), 0);
}

#[test]
fn the_wait_is_the_rest_of_the_frame() {
    let mut keeper = TimeKeeper::default();
    keeper.set_ticks(1_000);
    keeper.calculate_wait_time(1_000);
    assert_eq!(keeper.wait_time(), 16);
    keeper.calculate_wait_time(1_005);
    assert_eq!(keeper.wait_time(), 11);
    keeper.calculate_wait_time(1_016);
    assert_eq!(keeper.wait_time(), 0);
    keeper.calculate_wait_time(5_000);
    assert_eq!(keeper.wait_time(), 0);
    // A clock that ran backwards.
    keeper.calculate_wait_time(999);
    assert_eq!(keeper.wait_time(), u64::MAX);
    assert_eq!((keeper.ticks(), keeper.delta_time(), keeper.frame_time()), (1_000, 0, 16));
}

#[test]
fn the_engine_says_how_long_to_sleep() {
    let mut app = engine(0, 8, 8);
    app.timekeeper.set_ticks(1_000);
    assert_eq!(app.frame_wait(1_000), 16);
    assert_eq!(app.frame_wait(1_010), 6);
    assert_eq!(app.frame_wait(1_015), 1);
    assert_eq!(app.frame_wait(1_016), 0);
    assert_eq!(app.frame_wait(2_000), 0);
    // No sleep without end when the clock ran backwards.
    assert_eq!(app.frame_wait(999), 0);
    assert_eq!(app.timekeeper.wait_time(), u64::MAX);
}

#[test]
fn keys_set_the_intents_while_they_are_held() {
    let mut app = engine(0, 8, 8);
    app.process_input(&vec![InputEvent::KeyDown(Key::Up), InputEvent::KeyDown(Key::Left)]);
    assert_eq!(app.player.walk_direction, WalkDirection::Forward);
    assert_eq!(app.player.turn_direction, TurnDirection::Left);
    assert!(app.is_running);

    app.process_input(&vec![InputEvent::KeyUp(Key::Up)]);
    assert_eq!(app.player.walk_direction, WalkDirection::Neutral);
    assert_eq!(app.player.turn_direction, TurnDirection::Left);

    app.process_input(&vec![InputEvent::KeyDown(Key::Down), InputEvent::KeyUp(Key::Right)]);
    assert_eq!(app.player.walk_direction, WalkDirection::Backward);
    assert_eq!(app.player.turn_direction, TurnDirection::Neutral);

    app.process_input(&vec![InputEvent::KeyDown(Key::Right), InputEvent::KeyUp(Key::Down)]);
    assert_eq!(app.player.walk_direction, WalkDirection::Neutral);
    assert_eq!(app.player.turn_direction, TurnDirection::Right);

    app.process_input(&vec![InputEvent::KeyUp(Key::Left)]);
    assert_eq!(app.player.turn_direction, TurnDirection::Neutral);
}

#[test]
fn events_apply_in_order() {
    let mut app = engine(0, 8, 8);
    app.process_input(&vec![
        InputEvent::KeyDown(Key::Up),
        InputEvent::KeyDown(Key::Down),
        InputEvent::KeyDown(Key::Left),
        InputEvent::KeyDown(Key::Right),
    ]);
    assert_eq!(app.player.walk_direction, WalkDirection::Backward);
    assert_eq!(app.player.turn_direction, TurnDirection::Right);
    app.process_input(&vec![InputEvent::KeyUp(Key::Up), InputEvent::KeyDown(Key::Up)]);
    assert_eq!(app.player.walk_direction, WalkDirection::Forward);
}

#[test]
fn other_events_change_nothing() {
    let mut app = engine(0, 8, 8);
    app.process_input(&vec![InputEvent::KeyDown(Key::Up)]);
    let before = app.player;
    app.process_input(&vec![]);
    app.process_input(&vec![
        InputEvent::Other,
        InputEvent::KeyDown(Key::Other),
        InputEvent::KeyUp(Key::Other),
        InputEvent::KeyUp(Key::Escape),
    ]);
    assert_eq!(app.player, before);
    assert!(app.is_running);
}

#[test]
fn escape_and_quit_stop_the_engine() {
    let mut app = engine(0, 8, 8);
    app.process_input(&vec![InputEvent::KeyDown(Key::Escape), InputEvent::KeyDown(Key::Up)]);
    assert!(!app.is_running);
    assert_eq!(app.player.walk_direction, WalkDirection::Forward);

    let mut app = engine(0, 8, 8);
    app.process_input(&vec![InputEvent::Quit]);
    assert!(!app.is_running);
}

#[test]
fn an_update_steps_the_player_and_casts_the_rays() {
    let mut app = engine(0, 8, 8);
    app.timekeeper.set_ticks(1_000);
    app.process_input(&vec![InputEvent::KeyDown(Key::Up)]);
    app.update(1_016);
    assert_eq!(app.timekeeper.delta_time(), 16);
    assert_eq!(app.timekeeper.ticks(), 1_016);
    assert_eq!((app.player.x, app.player.y), (units(160) + 1_638, units(160)));
    assert_eq!(app.game.rays.len(), 8);
    assert_eq!(app.game.rays[4].angle, 0);
    assert_eq!(app.game.rays[4].distance, units(96) - 1_638);

    // Frame over frame the wall ahead comes nearer, until the step is refused.
    let mut last = app.game.rays[4].distance;
    let mut ticks = 1_016;
    let mut blocked = false;
    for _ in 0..100 {
        ticks += 16;
        let before = app.player.x;
        app.update(ticks);
        let now = app.game.rays[4].distance;
        if app.player.x == before {
            blocked = true;
            assert_eq!(now, last);
        } else {
            assert!(!blocked);
            assert!(now < last);
        }
        assert!(!app.game.is_coordinate_solid(app.player.x, app.player.y));
        last = now;
    }
    assert!(blocked);
    assert_eq!(last, 24);
}

#[test]
fn a_frame_is_the_projection_and_the_minimap() {
    let mut app = engine(0, 320, 200);
    app.update(16);
    let commands = app.render();
    assert_eq!(app.color_buffer.get_pixel(0, 0), Some(CEILING_COLOR));
    assert_eq!(app.color_buffer.get_pixel(8, 160), Some(VERTICAL_WALL_COLOR));
    assert_eq!(app.color_buffer.get_pixel(192, 319), Some(FLOOR_COLOR));

    let mut want: Vec<DrawCommand> = app.render_map();
    want.extend(app.render_rays());
    want.extend(app.render_player());
    assert_eq!(commands.len(), 26 + 320 + 2);
    assert_eq!(commands, want);
}

#[test]
fn a_whole_frame_steps_casts_and_paints() {
    let mut app = engine(0, 320, 200);
    app.player.walk_direction = WalkDirection::Forward;
    let commands = app.advance_frame(16);
    assert_eq!((app.player.x, app.player.y), (units(160) + 1_638, units(160)));
    assert_eq!(app.game.rays.len(), 320);
    assert_eq!(app.game.rays[160].distance, units(96) - 1_638);
    // The wall is 94.4 world units away and 187 pixels high.
    assert_eq!(app.color_buffer.get_pixel(6, 160), Some(CEILING_COLOR));
    assert_eq!(app.color_buffer.get_pixel(7, 160), Some(VERTICAL_WALL_COLOR));
    assert_eq!(app.color_buffer.get_pixel(192, 160), Some(VERTICAL_WALL_COLOR));
    assert_eq!(app.color_buffer.get_pixel(193, 160), Some(FLOOR_COLOR));
    assert_eq!(commands.len(), 26 + 320 + 2);
    assert_eq!(commands[26 + 160], app.render_rays()[160]);
    // The time keeper is the caller's business.
    assert_eq!((app.timekeeper.ticks(), app.timekeeper.delta_time()), (0, 0));

    // A frame of no time changes nothing.
    let player = app.player;
    let rays = app.game.rays.clone();
    let pixels = app.color_buffer.pixels().clone();
    assert_eq!(app.advance_frame(0), commands);
    assert_eq!(app.player, player);
    assert_eq!(app.game.rays, rays);
    assert_eq!(app.color_buffer.pixels(), &pixels);
}
