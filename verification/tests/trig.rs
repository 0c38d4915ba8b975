use raycaster::error::ConfigError;
use raycaster::trig::{scale, TrigTable, TRIG_ONE};
use raycaster::window::{
    calculate_distance_proj_plane, calculate_height, calculate_num_rays, calculate_width,
    distance_proj_plane_for,
};

fn quarter_wave() -> Vec<u32> {
    (0..=90_000u32)
        .map(|i| ((i as f64) * std::f64::consts::PI / 180_000.0).sin())
        .map(|s| (s * 1_048_576.0).round() as u32)
        .collect()
}

fn sine_table() -> TrigTable {
    TrigTable::new(quarter_wave()).unwrap()
}

#[test]
fn the_default_window_is_twelve_by_nine_tiles() {
    assert_eq!(calculate_width(), 768);
    assert_eq!(calculate_height(), 576);
    assert_eq!(calculate_num_rays(768), 768);
    assert_eq!(calculate_num_rays(0), 0);
}

#[test]
fn malformed_tables_are_refused() {
    assert_eq!(TrigTable::new(vec![]).err(), Some(ConfigError::MalformedTrigTable));
    let mut short = quarter_wave();
    short.pop();
    assert_eq!(TrigTable::new(short).err(), Some(ConfigError::MalformedTrigTable));
    let mut starts_high = quarter_wave();
    starts_high[0] = 1;
    assert_eq!(TrigTable::new(starts_high).err(), Some(ConfigError::MalformedTrigTable));
    let mut ends_low = quarter_wave();
    ends_low[90_000] = 1_048_575;
    assert_eq!(TrigTable::new(ends_low).err(), Some(ConfigError::MalformedTrigTable));
    let mut falls = quarter_wave();
    falls[500] = falls[499] - 1;
    assert_eq!(TrigTable::new(falls).err(), Some(ConfigError::MalformedTrigTable));
    let mut flat_start = quarter_wave();
    flat_start[1] = 0;
    assert_eq!(TrigTable::new(flat_start).err(), Some(ConfigError::MalformedTrigTable));
    assert!(TrigTable::new(quarter_wave()).is_ok());
}

#[test]
fn sines_and_cosines_on_the_axes_are_exact() {
    let t = sine_table();
    assert_eq!((t.sin(0), t.cos(0)), (0, TRIG_ONE));
    assert_eq!((t.sin(90_000), t.cos(90_000)), (TRIG_ONE, 0));
    assert_eq!((t.sin(180_000), t.cos(180_000)), (0, -TRIG_ONE));
    assert_eq!((t.sin(270_000), t.cos(270_000)), (-TRIG_ONE, 0));
    assert_eq!((t.sin(360_000), t.cos(-360_000)), (0, TRIG_ONE));
}

#[test]
fn sines_and_cosines_carry_the_sign_of_their_quadrant() {
    let t = sine_table();
    assert_eq!(t.sin(30_000), 524_288);
    assert_eq!(t.cos(30_000), 908_093);
    assert_eq!(t.sin(150_000), 524_288);
    assert_eq!(t.cos(150_000), -908_093);
    assert_eq!(t.sin(210_000), -524_288);
    assert_eq!(t.cos(210_000), -908_093);
    assert_eq!(t.sin(-30_000), -524_288);
    assert_eq!(t.cos(-30_000), 908_093);
    assert_eq!(t.sin(45_000), 741_455);
    assert_eq!(t.cos(45_000), 741_455);
    assert_eq!(t.sin_abs(225_000), 741_455);
    assert_eq!(t.cos_abs(225_000), 741_455);
    assert_eq!(t.sin(1), 18);
}

#[test]
fn arc_tangent_inverts_the_table() {
    let t = sine_table();
    assert_eq!(t.arc_tangent(1, 1), 45_000);
    assert_eq!(t.arc_tangent(-1, 1), -45_000);
    assert_eq!(t.arc_tangent(0, 5), 0);
    assert_eq!(t.arc_tangent(5, 0), 90_000);
    assert_eq!(t.arc_tangent(-5, 0), -90_000);
    assert_eq!(t.arc_tangent(0, 0), 0);
    assert_eq!(t.arc_tangent(1000, 1732), 30_000);
    assert_eq!(t.arc_tangent_abs(u64::MAX, u64::MAX), 45_000);
    assert_eq!(t.arc_tangent(i64::MIN, 1), -89_999);
}

#[test]
fn scaling_rounds_toward_zero() {
    assert_eq!(scale(10, TRIG_ONE), 10);
    assert_eq!(scale(10, -TRIG_ONE), -10);
    assert_eq!(scale(10, 0), 0);
    assert_eq!(scale(3, TRIG_ONE / 2), 1);
    assert_eq!(scale(-3, TRIG_ONE / 2), -1);
    assert_eq!(scale(3, -TRIG_ONE / 2), -1);
    assert_eq!(scale(-3, -TRIG_ONE / 2), 1);
}

#[test]
fn projection_plane_distance_is_half_the_width_over_the_tangent() {
    let t = sine_table();
    // 400 / tan(30 degrees) = 692.82 pixels, in 1024ths of a pixel.
    assert_eq!(distance_proj_plane_for(800, 60_000, &t), 709_447);
    assert_eq!(calculate_distance_proj_plane(800, &t), 709_447);
    assert_eq!(calculate_distance_proj_plane(768, &t), 681_069);
    // A field of view of a quarter turn puts the plane half a width away.
    assert_eq!(distance_proj_plane_for(800, 90_000, &t), 400 * 1024);
    assert_eq!(distance_proj_plane_for(0, 60_000, &t), 0);
}
