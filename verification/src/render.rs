//! One frame's picture: the pixel buffer, and the minimap's commands.

use vstd::prelude::*;
use crate::app::App;
use crate::minimap::{heading_command, map_command, player_command, ray_command, DrawCommand};

verus! {

impl App {
    /// What the minimap shows: the map, the rays, the player and the heading.
    pub open spec fn minimap_commands(&self) -> Seq<DrawCommand> {
        Seq::new(
            (1 + self.game@.rows() * self.game@.cols()) as nat,
            |i: int| map_command(self.game@, i),
        ) + Seq::new(
            self.game.rays@.len(),
            |i: int| ray_command(self.player, self.game.rays@[i]),
        ) + seq![player_command(self.player), heading_command(self.trig@, self.player)]
    }

    /// Paints the frame into the pixel buffer and returns what the minimap
    /// shows on top of it. The caller presents the buffer, clears it, and
    /// then draws the commands in order.
    pub fn render(&mut self) -> (commands: Vec<DrawCommand>)
        ensures
            final(self).same_but_pixels(old(self)),
            forall|r: int, c: int| #[trigger]
                final(self).color_buffer@.holds(r, c) ==> final(self).color_buffer@.pixel(r, c)
                    == if c < old(self).game.rays@.len() {
                    old(self).projected_pixel(r, c)
                } else {
                    old(self).color_buffer@.pixel(r, c)
                },
            commands@ == old(self).minimap_commands(),
    {
        self.generate3d_projection();

        let mut commands: Vec<DrawCommand> = self.render_map();
        let ghost map_part = commands@;
        let mut rays: Vec<DrawCommand> = self.render_rays();
        let ghost ray_part = rays@;
        let mut player: Vec<DrawCommand> = self.render_player();
        let ghost player_part = player@;
        commands.append(&mut rays);
        commands.append(&mut player);
        proof {
            assert(map_part =~= Seq::new(
                (1 + self.game@.rows() * self.game@.cols()) as nat,
                |i: int| map_command(self.game@, i),
            ));
            assert(ray_part =~= Seq::new(
                self.game.rays@.len(),
                |i: int| ray_command(self.player, self.game.rays@[i]),
            ));
            assert(commands@ =~= map_part + ray_part + player_part);
        }
        commands
    }
}

} // verus!
