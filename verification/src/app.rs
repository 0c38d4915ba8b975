//! The engine: everything one frame needs, in one value, and the frame itself.
//!
//! The engine owns no window and reads no clock. A frame runs in three calls:
//! `process_input` takes the events that the caller has gathered, `update`
//! takes the clock's reading, moves the player and casts the rays, and `render`
//! paints the pixel buffer and lists what the minimap shows. `advance_frame`
//! does the last two in one call, for a caller that keeps the time itself.

use vstd::prelude::*;
use crate::cast::{cast, column_angle};
use crate::colorbuffer::ColorBuffer;
use crate::error::ConfigError;
use crate::game::Game;
use crate::player::{default_player, Player};
use crate::ray::Ray;
use crate::timekeeper::{default_timing, TimeKeeper};
use crate::trig::TrigTable;
use crate::window::{
    calculate_distance_proj_plane, calculate_height, calculate_width, distance_proj_plane_for,
    projection_plane_distance, valid_field_of_view, FOV, MAX_SCREEN_SIDE,
};

verus! {

/// The engine's state.
pub struct App {
    pub game: Game,
    pub player: Player,
    pub trig: TrigTable,
    /// The frame under construction; its width is the number of rays.
    pub color_buffer: ColorBuffer,
    pub timekeeper: TimeKeeper,
    /// Distance from the eye to the projection plane, in sub-units of a pixel.
    pub distance_proj_plane: u64,
    pub is_running: bool,
}

impl App {
    /// The player stands on the map.
    pub open spec fn player_on_map(&self) -> bool {
        self.game@.in_bounds(self.player.x as int, self.player.y as int)
    }

    /// Every ray is what casting it from the player's pose gives.
    pub open spec fn rays_are_cast(&self) -> bool {
        &&& self.game.rays@.len() == self.color_buffer@.width
        &&& forall|col: int|
            0 <= col < self.game.rays@.len() ==> #[trigger] self.game.rays@[col] == cast(
                self.game@,
                self.trig@,
                self.player.x as int,
                self.player.y as int,
                column_angle(
                    self.trig@,
                    self.player.rotation_angle as int,
                    col,
                    self.color_buffer@.width,
                    self.distance_proj_plane as int,
                ),
            )
    }

    /// The engine on the built-in map, with the default player, window and
    /// field of view.
    pub fn new(trig: TrigTable) -> (app: App)
        ensures
            app.trig == trig,
            app.player == default_player(),
            app.game@.cells == crate::game::default_cells(),
            app.game@.tile_size == crate::window::TILE_SIZE,
            app.game.rays@.len() == 768,
            forall|i: int| 0 <= i < 768 ==> app.game.rays@[i] == Ray::fresh(0),
            app.color_buffer@.width == 768,
            app.color_buffer@.height == 576,
            app.distance_proj_plane == projection_plane_distance(trig@, 768, FOV as int),
            app.is_running,
            app.timekeeper@ == default_timing(),
    {
        let width: u32 = calculate_width();
        let height: u32 = calculate_height();
        let distance_proj_plane: u64 = calculate_distance_proj_plane(width, &trig);
        App {
            game: Game::default(),
            player: Player::default(),
            trig,
            color_buffer: ColorBuffer::blank(width, height),
            timekeeper: TimeKeeper::default(),
            distance_proj_plane,
            is_running: true,
        }
    }

    /// An engine on the caller's map, for a screen of `screen_width` by
    /// `screen_height` pixels and a field of view of `fov`. Refused with
    /// `BadFieldOfView` unless `fov` is a valid field of view, and else with
    /// `BadScreenSize` unless both sides of the screen are between one and
    /// `MAX_SCREEN_SIDE`.
    pub fn with_config(
        game: Game,
        player: Player,
        trig: TrigTable,
        screen_width: u32,
        screen_height: u32,
        fov: i64,
    ) -> (r: Result<App, ConfigError>)
        ensures
            match r {
                Ok(app) => {
                    &&& valid_field_of_view(fov as int)
                    &&& 1 <= screen_width <= MAX_SCREEN_SIDE
                    &&& 1 <= screen_height <= MAX_SCREEN_SIDE
                    &&& app.game == game
                    &&& app.player == player
                    &&& app.trig == trig
                    &&& app.color_buffer@.width == screen_width
                    &&& app.color_buffer@.height == screen_height
                    &&& app.distance_proj_plane == projection_plane_distance(
                        trig@,
                        screen_width as int,
                        fov as int,
                    )
                    &&& app.is_running
                    &&& app.timekeeper@ == default_timing()
                },
                Err(e) => if !valid_field_of_view(fov as int) {
                    e == ConfigError::BadFieldOfView
                } else {
                    &&& e == ConfigError::BadScreenSize
                    &&& !(1 <= screen_width <= MAX_SCREEN_SIDE && 1 <= screen_height
                        <= MAX_SCREEN_SIDE)
                },
            },
    {
        if fov < 2 || fov >= crate::geometry::HALF_TURN {
            return Err(ConfigError::BadFieldOfView);
        }
        let color_buffer = match ColorBuffer::new(screen_width, screen_height) {
            Ok(buffer) => buffer,
            Err(e) => {
                return Err(e);
            },
        };
        let distance_proj_plane: u64 = distance_proj_plane_for(screen_width, fov, &trig);
        Ok(
            App {
                game,
                player,
                trig,
                color_buffer,
                timekeeper: TimeKeeper::default(),
                distance_proj_plane,
                is_running: true,
            },
        )
    }
}

} // verus!
