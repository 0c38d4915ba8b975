//! One frame's update: pace the frame, move the player, cast the rays.

use vstd::prelude::*;
use crate::app::App;
use crate::game::lemma_extent_bounds;
use crate::minimap::DrawCommand;
use crate::timekeeper::{wait_needed, Timing};

verus! {

/// Milliseconds that the caller should sleep for a recorded wait: the wait
/// itself if it is positive and no longer than a frame, else nothing.
pub open spec fn sleep_for(wait: u64, frame_time: u64) -> u64 {
    if 0 < wait <= frame_time {
        wait
    } else {
        0
    }
}

impl App {
    /// Records how long the frame that is ending should still last, and
    /// returns the milliseconds that the caller should sleep before it calls
    /// `update`.
    pub fn frame_wait(&mut self, current_ticks: u64) -> (sleep: u64)
        ensures
            final(self).timekeeper@ == (Timing {
                wait_time: wait_needed(
                    old(self).timekeeper@.ticks_last_frame,
                    old(self).timekeeper@.frame_time_target,
                    current_ticks,
                ),
                ..old(self).timekeeper@
            }),
            sleep == sleep_for(
                final(self).timekeeper@.wait_time,
                final(self).timekeeper@.frame_time_target,
            ),
            final(self).game == old(self).game,
            final(self).player == old(self).player,
            final(self).trig == old(self).trig,
            final(self).color_buffer == old(self).color_buffer,
            final(self).distance_proj_plane == old(self).distance_proj_plane,
            final(self).is_running == old(self).is_running,
    {
        self.timekeeper.calculate_wait_time(current_ticks);
        if self.timekeeper.wait_time() > 0 && self.timekeeper.wait_time()
            <= self.timekeeper.frame_time() {
            self.timekeeper.wait_time()
        } else {
            0
        }
    }

    /// Begins a frame at the clock's reading `current_ticks`: the time since
    /// the last frame is recorded, the player takes one step of that length,
    /// and every ray is cast afresh from where the player then stands.
    pub fn update(&mut self, current_ticks: u64)
        requires
            old(self).player_on_map(),
            current_ticks >= old(self).timekeeper@.ticks_last_frame,
        ensures
            final(self).player_on_map(),
            final(self).timekeeper@ == (Timing {
                delta_time: (current_ticks - old(self).timekeeper@.ticks_last_frame) as u64,
                ticks_last_frame: current_ticks,
                ..old(self).timekeeper@
            }),
            final(self).player == old(self).player.stepped(
                old(self).game@,
                old(self).trig@,
                current_ticks - old(self).timekeeper@.ticks_last_frame,
            ),
            !old(self).game@.solid_at(old(self).player.x as int, old(self).player.y as int)
                ==> !final(self).game@.solid_at(
                final(self).player.x as int,
                final(self).player.y as int,
            ),
            final(self).rays_are_cast(),
            final(self).game.game_map == old(self).game.game_map,
            final(self).trig == old(self).trig,
            final(self).color_buffer == old(self).color_buffer,
            final(self).distance_proj_plane == old(self).distance_proj_plane,
            final(self).is_running == old(self).is_running,
    {
        self.timekeeper.calculate_delta(current_ticks);
        self.timekeeper.set_ticks(current_ticks);
        self.player.move_player(self.timekeeper.delta_time(), &self.game, &self.trig);
        proof {
            use_type_invariant(&self.game.game_map);
            lemma_extent_bounds(self.game@);
        }
        self.cast_rays();
    }

    /// One whole frame of `delta_ms` milliseconds, clock and window aside:
    /// the player takes one step, every ray is cast afresh from where the
    /// player then stands, every pixel is painted from those rays, and what
    /// the minimap shows of them is returned.
    pub fn advance_frame(&mut self, delta_ms: u64) -> (commands: Vec<DrawCommand>)
        requires
            old(self).player_on_map(),
        ensures
            final(self).player_on_map(),
            final(self).player == old(self).player.stepped(
                old(self).game@,
                old(self).trig@,
                delta_ms as int,
            ),
            final(self).rays_are_cast(),
            forall|r: int, c: int| #[trigger]
                final(self).color_buffer@.holds(r, c) ==> final(self).color_buffer@.pixel(r, c)
                    == final(self).projected_pixel(r, c),
            commands@ == final(self).minimap_commands(),
            final(self).game.game_map == old(self).game.game_map,
            final(self).trig == old(self).trig,
            final(self).timekeeper == old(self).timekeeper,
            final(self).distance_proj_plane == old(self).distance_proj_plane,
            final(self).is_running == old(self).is_running,
            final(self).color_buffer@.width == old(self).color_buffer@.width,
            final(self).color_buffer@.height == old(self).color_buffer@.height,
    {
        self.player.move_player(delta_ms, &self.game, &self.trig);
        proof {
            use_type_invariant(&self.game.game_map);
            lemma_extent_bounds(self.game@);
        }
        self.cast_rays();
        let ghost cast_done = *self;
        let commands = self.render();
        proof {
            assert forall|r: int, c: int| #[trigger]
                self.color_buffer@.holds(r, c) implies self.color_buffer@.pixel(r, c)
                == self.projected_pixel(r, c) by {
                assert(c < cast_done.game.rays@.len());
                assert(self.projected_pixel(r, c) == cast_done.projected_pixel(r, c));
            }
        }
        commands
    }
}

} // verus!
