use raycaster::app::App;
use raycaster::cast::{march, Hit, Walk};
use raycaster::game::{Game, TileGrid};
use raycaster::player::Player;
use raycaster::ray::{Ray, NO_HIT_DISTANCE};
use raycaster::trig::TrigTable;
use raycaster::window::SUBUNITS;

fn sine_table() -> TrigTable {
    let quarter = (0..=90_000u32)
        .map(|i| ((i as f64) * std::f64::consts::PI / 180_000.0).sin())
        .map(|s| (s * 1_048_576.0).round() as u32)
        .collect();
    TrigTable::new(quarter).unwrap()
}

fn units(v: i64) -> i64 {
    v * SUBUNITS
}

/// A room of three by three open tiles inside a wall.
fn room() -> Vec<Vec<i32>> {
    vec![
        vec![1, 1, 1, 1, 1],
        vec![1, 0, 0, 0, 1],
        vec![1, 0, 0, 0, 1],
        vec![1, 0, 0, 0, 1],
        vec![1, 1, 1, 1, 1],
    ]
}

fn engine(cells: Vec<Vec<i32>>, x: i64, y: i64, facing: i64, columns: u32) -> App {
    let game = Game::with_map(cells, 64).unwrap();
    let player = Player { x, y, rotation_angle: facing, ..Player::default() };
    App::with_config(game, player, sine_table(), columns, 6, 60_000).unwrap()
}

fn cast_one(app: &mut App, angle: i64) -> Ray {
    app.game.rays = vec![Ray::new(&mut 0)];
    app.cast_ray(angle, 0);
    app.game.rays[0]
}

#[test]
fn a_new_ray_is_classified_by_its_angle() {
    let mut angle = 360_000 + 45_000;
    let ray = Ray::new(&mut angle);
    assert_eq!(angle, 45_000);
    assert_eq!(ray.angle, 45_000);
    assert!(ray.is_facing_down && !ray.is_facing_up);
    assert!(ray.is_facing_right && !ray.is_facing_left);
    assert_eq!((ray.x_collision, ray.y_collision, ray.distance, ray.content), (0, 0, 0, 0));
    assert!(!ray.is_vertical_collision);

    let mut angle = -90_000;
    let ray = Ray::new(&mut angle);
    assert_eq!(ray.angle, 270_000);
    assert!(ray.is_facing_up && !ray.is_facing_down);
    assert!(ray.is_facing_left && !ray.is_facing_right);

    let mut angle = 180_000;
    let ray = Ray::new(&mut angle);
    assert!(ray.is_facing_up && ray.is_facing_left);
}

#[test]
fn rays_along_the_axes_hit_the_facing_wall() {
    let mut app = engine(room(), units(160), units(160), 0, 1);
    let east = cast_one(&mut app, 0);
    assert_eq!((east.x_collision, east.y_collision), (units(256), units(160)));
    assert_eq!(east.distance, units(96));
    assert!(east.is_vertical_collision);
    assert_eq!(east.content, 1);

    let south = cast_one(&mut app, 90_000);
    assert_eq!((south.x_collision, south.y_collision), (units(160), units(256)));
    assert_eq!(south.distance, units(96));
    assert!(!south.is_vertical_collision);

    let west = cast_one(&mut app, 180_000);
    assert_eq!((west.x_collision, west.y_collision), (units(64), units(160)));
    assert_eq!(west.distance, units(96));
    assert!(west.is_vertical_collision);

    let north = cast_one(&mut app, 270_000);
    assert_eq!((north.x_collision, north.y_collision), (units(160), units(64)));
    assert_eq!(north.distance, units(96));
    assert!(!north.is_vertical_collision);
}

#[test]
fn a_slanted_ray_hits_where_the_line_meets_the_wall() {
    let mut app = engine(room(), units(160), units(160), 0, 1);
    // 96 / cos(30 degrees) = 110.85 world units = 113511.7 sub-units.
    let ray = cast_one(&mut app, 30_000);
    assert_eq!((ray.x_collision, ray.y_collision), (262_144, 220_595));
    assert_eq!(ray.distance, 113_511);
    assert!(ray.is_vertical_collision);
    assert!(ray.is_facing_down && ray.is_facing_right);

    let ray = cast_one(&mut app, 200_000);
    assert_eq!((ray.x_collision, ray.y_collision), (65_536, 128_061));
    assert_eq!(ray.distance, 104_612);
    assert!(ray.is_vertical_collision);
    assert!(ray.is_facing_up && ray.is_facing_left);
}

#[test]
fn the_angle_is_normalized_before_the_cast() {
    let mut app = engine(room(), units(160), units(160), 0, 1);
    let a = cast_one(&mut app, 30_000);
    let b = cast_one(&mut app, 30_000 + 720_000);
    let c = cast_one(&mut app, 30_000 - 360_000);
    assert_eq!(a, b);
    assert_eq!(a, c);
    assert_eq!(a.angle, 30_000);
}

#[test]
fn equally_near_hits_go_to_the_vertical_line() {
    let mut app = engine(room(), units(160), units(160), 0, 1);
    let ray = Ray::new(&mut 45_000);
    let h = app.calculate_horizontal_intersection(&ray);
    let v = app.calculate_vertical_intersection(&ray);
    assert!(h.found_horz_collision && v.found_vert_collision);
    assert_eq!((h.horz_x_wall_collision, h.horz_y_wall_collision), (262_144, 262_144));
    assert_eq!((v.vert_x_wall_collision, v.vert_y_wall_collision), (262_144, 262_144));

    let corner = cast_one(&mut app, 45_000);
    assert!(corner.is_vertical_collision);
    assert_eq!(corner.distance, 139_022);
}

#[test]
fn each_walk_reports_its_own_hit() {
    let app = engine(room(), units(160), units(160), 0, 1);
    let ray = Ray::new(&mut 30_000);
    let h = app.calculate_horizontal_intersection(&ray);
    assert!(!h.found_horz_collision);
    assert_eq!((h.horz_x_wall_collision, h.horz_y_wall_collision, h.horz_wall_content), (0, 0, 0));
    let v = app.calculate_vertical_intersection(&ray);
    assert!(v.found_vert_collision);
    assert_eq!((v.vert_x_wall_collision, v.vert_y_wall_collision), (262_144, 220_595));
    assert_eq!(v.vert_wall_content, 1);

    let ray = Ray::new(&mut 240_000);
    let h = app.calculate_horizontal_intersection(&ray);
    assert!(h.found_horz_collision);
    assert_eq!((h.horz_x_wall_collision, h.horz_y_wall_collision), (107_085, 65_536));
    assert!(!app.calculate_vertical_intersection(&ray).found_vert_collision);

    // A ray along the grid lines of one family crosses none of them.
    assert!(!app.calculate_horizontal_intersection(&Ray::new(&mut 0)).found_horz_collision);
    assert!(!app.calculate_vertical_intersection(&Ray::new(&mut 90_000)).found_vert_collision);
}

#[test]
fn the_hit_records_the_tile_that_was_met() {
    let cells = vec![
        vec![1, 1, 1, 1, 1, 1, 1],
        vec![1, 0, 0, 0, 0, 0, 1],
        vec![1, 0, 0, 9, 0, 0, 1],
        vec![1, 0, 0, 0, 0, 0, 1],
        vec![1, 1, 1, 1, 1, 1, 1],
    ];
    let mut app = engine(cells.clone(), units(96), units(160), 0, 1);
    let ray = cast_one(&mut app, 0);
    assert_eq!((ray.x_collision, ray.content), (units(192), 9));
    assert!(ray.is_vertical_collision);

    let mut app = engine(cells.clone(), units(352), units(160), 0, 1);
    let ray = cast_one(&mut app, 180_000);
    assert_eq!((ray.x_collision, ray.content), (units(256), 9));

    let mut app = engine(cells.clone(), units(224), units(96), 0, 1);
    let ray = cast_one(&mut app, 90_000);
    assert_eq!((ray.y_collision, ray.content, ray.distance), (units(128), 9, units(32)));
    assert!(!ray.is_vertical_collision);

    let mut app = engine(cells, units(224), units(224), 0, 1);
    let ray = cast_one(&mut app, 270_000);
    assert_eq!((ray.y_collision, ray.content, ray.distance), (units(192), 9, units(32)));
}

#[test]
fn a_ray_that_leaves_an_open_map_hits_nothing() {
    let open = vec![vec![0, 0, 0], vec![0, 0, 0], vec![0, 0, 0]];
    let mut app = engine(open, units(96), units(96), 0, 1);
    for angle in [0, 45_000, 90_000, 135_000, 180_000, 200_000, 270_000, 300_000] {
        let ray = cast_one(&mut app, angle);
        assert_eq!(ray.distance, NO_HIT_DISTANCE);
        assert_eq!((ray.x_collision, ray.y_collision, ray.content), (0, 0, 0));
        assert!(!ray.is_vertical_collision);
        assert_eq!(ray.angle, angle);
    }
}

#[test]
fn one_ray_is_cast_through_each_column() {
    let mut app = engine(room(), units(160), units(160), 0, 8);
    app.cast_rays();
    let rays = &app.game.rays;
    assert_eq!(rays.len(), 8);
    let angles: Vec<i64> = rays.iter().map(|r| r.angle).collect();
    assert_eq!(angles, vec![329_999, 336_586, 343_897, 351_787, 0, 8_213, 16_103, 23_414]);
    let distances: Vec<i64> = rays.iter().map(|r| r.distance).collect();
    assert_eq!(
        distances,
        vec![113_512, 107_124, 102_318, 99_322, 98_304, 99_322, 102_318, 107_124]
    );
    let ys: Vec<i64> = rays.iter().map(|r| r.y_collision).collect();
    assert_eq!(ys, vec![107_083, 121_273, 135_462, 149_652, 163_840, 178_028, 192_218, 206_407]);
    assert!(rays.iter().all(|r| r.x_collision == 262_144 && r.is_vertical_collision));
}

#[test]
fn casting_twice_gives_the_same_rays() {
    let mut app = engine(room(), units(130), units(171), 77_777, 64);
    app.cast_rays();
    let first = app.game.rays.clone();
    app.cast_rays();
    assert_eq!(app.game.rays, first);

    let mut other = engine(room(), units(130), units(171), 77_777, 64);
    other.cast_rays();
    assert_eq!(other.game.rays, first);
}

#[test]
fn every_ray_in_a_walled_map_stops_short_of_the_diagonal() {
    let mut app = App::new(sine_table());
    let width = app.game.game_map.map_width() as i128;
    let height = app.game.game_map.map_height() as i128;
    for facing in [0i64, 45_000, 90_000, 123_456, 180_000, 270_000, 359_999] {
        app.player.rotation_angle = facing;
        app.cast_rays();
        assert_eq!(app.game.rays.len(), 768);
        for ray in app.game.rays.iter() {
            assert_ne!(ray.distance, NO_HIT_DISTANCE);
            assert_ne!(ray.content, 0);
            let d = ray.distance as i128;
            assert!(d * d < width * width + height * height);
        }
    }
}

#[test]
fn the_default_engine_sees_what_the_map_holds() {
    let mut app = App::new(sine_table());
    app.cast_rays();
    let rays = &app.game.rays;
    assert_eq!(rays[0].angle, 60_000);
    assert_eq!((rays[0].x_collision, rays[0].y_collision), (458_752, 408_423));
    assert_eq!((rays[0].distance, rays[0].content), (131_071, 3));
    assert_eq!(rays[384].angle, 90_000);
    assert_eq!((rays[384].x_collision, rays[384].y_collision), (393_216, 786_432));
    assert_eq!((rays[384].distance, rays[384].content), (491_520, 1));
    assert!(!rays[384].is_vertical_collision);
    // The player stands on the face of the wall to the left.
    assert_eq!(rays[767].angle, 119_935);
    assert_eq!((rays[767].distance, rays[767].content), (0, 2));
}

#[test]
fn walking_toward_a_wall_shortens_the_ray() {
    let mut app = engine(room(), units(160), units(160), 0, 1);
    let mut last = cast_one(&mut app, 0).distance;
    assert_eq!(last, 98_304);
    for _ in 0..5 {
        app.player.x += 1_000;
        let now = cast_one(&mut app, 0);
        assert_eq!(now.distance, last - 1_000);
        assert_eq!(now.x_collision, units(256));
        last = now.distance;
    }

    let mut app = engine(room(), units(160), units(160), 30_000, 1);
    let distances: Vec<i64> = [(163_840, 163_840), (168_170, 166_340), (172_500, 168_840)]
        .iter()
        .map(|&(x, y)| {
            app.player.x = x;
            app.player.y = y;
            cast_one(&mut app, 30_000).distance
        })
        .collect();
    assert_eq!(distances, vec![113_511, 108_511, 103_511]);
}

#[test]
fn a_walk_ends_on_the_first_wall_or_off_the_map() {
    let grid = TileGrid::new(vec![vec![0, 0, 0, 5]], 1).unwrap();
    let step = Walk { x: 0, y: 0, step_x: SUBUNITS, step_y: 0, offset_x: 0, offset_y: 0 };
    assert_eq!(march(&grid, &step), Some(Hit { x: 3 * SUBUNITS, y: 0, content: 5 }));
    let back = Walk { x: 2 * SUBUNITS, step_x: -SUBUNITS, ..step };
    assert_eq!(march(&grid, &back), None);
    let looks_ahead = Walk { offset_x: 2 * SUBUNITS, ..step };
    assert_eq!(march(&grid, &looks_ahead), Some(Hit { x: SUBUNITS, y: 0, content: 5 }));
    let starts_off = Walk { x: -1, ..step };
    assert_eq!(march(&grid, &starts_off), None);
    let down = Walk { step_x: 0, step_y: 1, ..step };
    assert_eq!(march(&grid, &down), None);
}
