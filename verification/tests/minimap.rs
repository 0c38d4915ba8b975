use raycaster::app::App;
use raycaster::game::Game;
use raycaster::minimap::{to_minimap, Color, DrawCommand};
use raycaster::player::Player;
use raycaster::ray::Ray;
use raycaster::trig::TrigTable;
use raycaster::window::SUBUNITS;

const BLACK: Color = Color { r: 0, g: 0, b: 0, a: 255 };
const WHITE: Color = Color { r: 255, g: 255, b: 255, a: 255 };
const RED: Color = Color { r: 255, g: 0, b: 0, a: 255 };

fn sine_table() -> TrigTable {
    let quarter = (0..=90_000u32)
        .map(|i| ((i as f64) * std::f64::consts::PI / 180_000.0).sin())
        .map(|s| (s * 1_048_576.0).round() as u32)
        .collect();
    TrigTable::new(quarter).unwrap()
}

fn units(v: i64) -> i64 {
    v * SUBUNITS
}

fn engine(cells: Vec<Vec<i32>>, x: i64, y: i64, facing: i64, columns: u32) -> App {
    let game = Game::with_map(cells, 64).unwrap();
    let player = Player { x, y, rotation_angle: facing, ..Player::default() };
    App::with_config(game, player, sine_table(), columns, 200, 60_000).unwrap()
}

fn room() -> Vec<Vec<i32>> {
    vec![
        vec![1, 1, 1, 1, 1],
        vec![1, 0, 0, 0, 1],
        vec![1, 0, 0, 0, 1],
        vec![1, 0, 0, 0, 1],
        vec![1, 1, 1, 1, 1],
    ]
}

#[test]
fn the_minimap_is_a_fifth_of_full_size() {
    assert_eq!(to_minimap(0), 0);
    assert_eq!(to_minimap(units(5)), 1);
    assert_eq!(to_minimap(units(5) - 1), 0);
    assert_eq!(to_minimap(units(64)), 12);
    assert_eq!(to_minimap(units(320)), 64);
    assert_eq!(to_minimap(units(-5)), -1);
    assert_eq!(to_minimap(units(-5) + 1), 0);
    assert_eq!(to_minimap(i64::MAX), 1_801_439_850_948_198);
    assert_eq!(to_minimap(i64::MIN), -1_801_439_850_948_198);
}

#[test]
fn the_map_is_a_background_and_one_rectangle_for_each_tile() {
    let cells = vec![vec![1, 0, 2], vec![0, 0, 3]];
    let app = engine(cells, units(96), units(96), 0, 4);
    let commands = app.render_map();
    assert_eq!(commands.len(), 7);
    assert_eq!(
        commands[0],
        DrawCommand::FillRect { x: 0, y: 0, width: 38, height: 25, color: BLACK }
    );
    let tile = |x: i64, y: i64, color: Color| DrawCommand::FillRect {
        x,
        y,
        width: 12,
        height: 12,
        color,
    };
    assert_eq!(commands[1], tile(0, 0, WHITE));
    assert_eq!(commands[2], tile(12, 0, BLACK));
    assert_eq!(commands[3], tile(25, 0, WHITE));
    assert_eq!(commands[4], tile(0, 12, BLACK));
    assert_eq!(commands[5], tile(12, 12, BLACK));
    assert_eq!(commands[6], tile(25, 12, WHITE));
}

#[test]
fn the_default_map_has_261_commands() {
    let app = App::new(sine_table());
    let commands = app.render_map();
    assert_eq!(commands.len(), 1 + 13 * 20);
    assert_eq!(
        commands[0],
        DrawCommand::FillRect { x: 0, y: 0, width: 256, height: 166, color: BLACK }
    );
    // Row 2, column 15 holds a wall.
    assert_eq!(
        commands[1 + 2 * 20 + 15],
        DrawCommand::FillRect { x: 192, y: 25, width: 12, height: 12, color: WHITE }
    );
    assert_eq!(
        commands[1 + 2 * 20 + 14],
        DrawCommand::FillRect { x: 179, y: 25, width: 12, height: 12, color: BLACK }
    );
}

#[test]
fn each_ray_is_drawn_from_the_player_to_its_hit() {
    let mut app = engine(room(), units(240), units(100), 20_000, 320);
    app.cast_rays();
    let commands = app.render_rays();
    assert_eq!(commands.len(), 320);
    for (ray, command) in app.game.rays.iter().zip(commands.iter()) {
        assert_eq!(
            *command,
            DrawCommand::Line {
                x0: to_minimap(app.player.x),
                y0: to_minimap(app.player.y),
                x1: to_minimap(ray.x_collision),
                y1: to_minimap(ray.y_collision),
                color: RED,
            }
        );
    }
    assert_eq!(commands[0], DrawCommand::Line { x0: 48, y0: 20, x1: 51, y1: 19, color: RED });
    assert_eq!(commands[160], DrawCommand::Line { x0: 48, y0: 20, x1: 51, y1: 21, color: RED });
    assert_eq!(commands[319], DrawCommand::Line { x0: 48, y0: 20, x1: 51, y1: 23, color: RED });
}

#[test]
fn rays_are_drawn_as_they_are_recorded() {
    let mut app = engine(room(), units(160), units(160), 0, 4);
    assert!(app.render_rays().is_empty());
    app.game.rays = vec![
        Ray { x_collision: units(10), y_collision: units(-20), ..Ray::new(&mut 0) },
        Ray { x_collision: i64::MAX, y_collision: i64::MIN, ..Ray::new(&mut 0) },
    ];
    let commands = app.render_rays();
    assert_eq!(commands.len(), 2);
    assert_eq!(commands[0], DrawCommand::Line { x0: 32, y0: 32, x1: 2, y1: -4, color: RED });
    assert_eq!(
        commands[1],
        DrawCommand::Line {
            x0: 32,
            y0: 32,
            x1: 1_801_439_850_948_198,
            y1: -1_801_439_850_948_198,
            color: RED
        }
    );
}

#[test]
fn the_player_is_a_rectangle_and_a_heading_line() {
    let mut app = engine(room(), units(240), units(100), 20_000, 4);
    assert_eq!(
        app.render_player(),
        vec![
            DrawCommand::FillRect { x: 48, y: 20, width: 0, height: 0, color: WHITE },
            DrawCommand::Line { x0: 48, y0: 20, x1: 76, y1: 30, color: WHITE },
        ]
    );
    app.player.width = units(10);
    app.player.height = units(15);
    app.player.rotation_angle = 225_000;
    assert_eq!(
        app.render_player(),
        vec![
            DrawCommand::FillRect { x: 48, y: 20, width: 2, height: 3, color: WHITE },
            DrawCommand::Line { x0: 48, y0: 20, x1: 27, y1: -1, color: WHITE },
        ]
    );
    app.player.rotation_angle = 270_000;
    assert_eq!(
        app.render_player()[1],
        DrawCommand::Line { x0: 48, y0: 20, x1: 48, y1: -10, color: WHITE }
    );
}

#[test]
fn a_colour_packs_into_one_pixel() {
    assert_eq!(BLACK.to_argb(), 0xFF00_0000);
    assert_eq!(WHITE.to_argb(), 0xFFFF_FFFF);
    assert_eq!(RED.to_argb(), 0xFFFF_0000);
    assert_eq!(Color { r: 0x12, g: 0x34, b: 0x56, a: 0x78 }.to_argb(), 0x7812_3456);
    assert_eq!(Color { r: 0, g: 0, b: 0, a: 0 }.to_argb(), 0);
}
