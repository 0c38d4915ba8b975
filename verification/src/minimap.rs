//! The top-down minimap, as a list of drawing commands.
//!
//! Nothing is drawn here. Each function returns what is to be drawn, in
//! order, in the pixels of the window; whoever owns a canvas carries the
//! commands out.

use vstd::prelude::*;
use crate::app::App;
use crate::game::{lemma_extent_bounds, GridView};
use crate::player::Player;
use crate::ray::Ray;
use crate::trig::{cosine, scale, scaled, sine};
use crate::window::{MINIMAP_SCALING, SUBUNITS};

verus! {

/// A colour by its four channels.
#[derive(Clone, Copy, Debug, PartialEq, Eq, Structural)]
pub struct Color {
    pub r: u8,
    pub g: u8,
    pub b: u8,
    pub a: u8,
}

/// The colour as one packed pixel: alpha in the top byte, then red, green
/// and blue.
pub open spec fn packed_argb(color: Color) -> int {
    color.a * 0x100_0000 + color.r * 0x1_0000 + color.g * 0x100 + color.b
}

impl Color {
    /// The colour as a pixel of the colour buffer, `0xAARRGGBB`.
    pub fn to_argb(&self) -> (pixel: u32)
        ensures
            pixel == packed_argb(*self),
    {
        (self.a as u32) * 0x100_0000 + (self.r as u32) * 0x1_0000 + (self.g as u32) * 0x100 + (
        self.b as u32)
    }
}

/// One thing to draw.
#[derive(Clone, Copy, Debug, PartialEq, Eq, Structural)]
pub enum DrawCommand {
    /// A filled rectangle, by its top left corner and its size.
    FillRect { x: i64, y: i64, width: i64, height: i64, color: Color },
    /// A line segment between two points.
    Line { x0: i64, y0: i64, x1: i64, y1: i64, color: Color },
}

/// Length in pixels of the line that shows where the player faces.
pub const HEADING_LENGTH: i128 = 30;

/// The colour of the background and of open floor.
pub open spec fn black() -> Color {
    Color { r: 0, g: 0, b: 0, a: 255 }
}

/// The colour of walls and of the player.
pub open spec fn white() -> Color {
    Color { r: 255, g: 255, b: 255, a: 255 }
}

/// The colour of rays.
pub open spec fn red() -> Color {
    Color { r: 255, g: 0, b: 0, a: 255 }
}

/// The minimap pixel of a world coordinate in sub-units: the coordinate
/// times the minimap's scale, rounded toward zero.
pub open spec fn minimap_coordinate(v: int) -> int {
    let p = v * MINIMAP_SCALING;
    let d = 1000 * SUBUNITS;
    if p >= 0 {
        p / d
    } else {
        -((-p) / d)
    }
}

/// The rectangle that stands for the tile in row `r` and column `c`: white
/// for a wall, black for open floor.
pub open spec fn tile_command(g: GridView, r: int, c: int) -> DrawCommand {
    DrawCommand::FillRect {
        x: minimap_coordinate(c * g.span()) as i64,
        y: minimap_coordinate(r * g.span()) as i64,
        width: minimap_coordinate(g.span()) as i64,
        height: minimap_coordinate(g.span()) as i64,
        color: if g.cells[r][c] != 0 {
            white()
        } else {
            black()
        },
    }
}

/// The black rectangle under the whole map.
pub open spec fn background_command(g: GridView) -> DrawCommand {
    DrawCommand::FillRect {
        x: 0,
        y: 0,
        width: minimap_coordinate(g.width()) as i64,
        height: minimap_coordinate(g.height()) as i64,
        color: black(),
    }
}

/// The `i`-th command of the map: the background, then the tiles row by row.
pub open spec fn map_command(g: GridView, i: int) -> DrawCommand {
    if i == 0 {
        background_command(g)
    } else {
        tile_command(g, (i - 1) / g.cols(), (i - 1) % g.cols())
    }
}

/// The segment that stands for a ray: from the player to the ray's hit.
pub open spec fn ray_command(player: Player, ray: Ray) -> DrawCommand {
    DrawCommand::Line {
        x0: minimap_coordinate(player.x as int) as i64,
        y0: minimap_coordinate(player.y as int) as i64,
        x1: minimap_coordinate(ray.x_collision as int) as i64,
        y1: minimap_coordinate(ray.y_collision as int) as i64,
        color: red(),
    }
}

/// The rectangle that stands for the player.
pub open spec fn player_command(player: Player) -> DrawCommand {
    DrawCommand::FillRect {
        x: minimap_coordinate(player.x as int) as i64,
        y: minimap_coordinate(player.y as int) as i64,
        width: minimap_coordinate(player.width as int) as i64,
        height: minimap_coordinate(player.height as int) as i64,
        color: white(),
    }
}

/// The line that shows where the player faces.
pub open spec fn heading_command(s: Seq<u32>, player: Player) -> DrawCommand {
    DrawCommand::Line {
        x0: minimap_coordinate(player.x as int) as i64,
        y0: minimap_coordinate(player.y as int) as i64,
        x1: (minimap_coordinate(player.x as int) + scaled(
            HEADING_LENGTH as int,
            cosine(s, player.rotation_angle as int),
        )) as i64,
        y1: (minimap_coordinate(player.y as int) + scaled(
            HEADING_LENGTH as int,
            sine(s, player.rotation_angle as int),
        )) as i64,
        color: white(),
    }
}

/// The minimap pixel of a world coordinate in sub-units.
pub fn to_minimap(v: i64) -> (m: i64)
    ensures
        m == minimap_coordinate(v as int),
        v >= 0 ==> 0 <= m <= v,
        v <= 0 ==> v <= m <= 0,
        -0x8_0000_0000_0000 <= m <= 0x8_0000_0000_0000,
{
    let p: i128 = (v as i128) * (MINIMAP_SCALING as i128);
    let d: i128 = 1000 * (SUBUNITS as i128);
    let q: i128 = p / d;
    assert(p >= 0 ==> 0 <= (p as int) / (d as int) <= v && (p as int) / (d as int)
        <= 0x8_0000_0000_0000) by (nonlinear_arith)
        requires
            p == v * 200,
            d == 1024000,
            v <= 0x8000_0000_0000_0000,
    ;
    assert(p <= 0 ==> 0 <= (-p as int) / (d as int) <= -v && (-p as int) / (d as int)
        <= 0x8_0000_0000_0000) by (nonlinear_arith)
        requires
            p == v * 200,
            d == 1024000,
            -0x8000_0000_0000_0000 <= v,
    ;
    q as i64
}

impl App {
    /// The map: a black background, then one rectangle for each tile, row by row.
    pub fn render_map(&self) -> (commands: Vec<DrawCommand>)
        ensures
            commands@.len() == 1 + self.game@.rows() * self.game@.cols(),
            forall|i: int|
                0 <= i < commands@.len() ==> #[trigger] commands@[i] == map_command(self.game@, i),
    {
        proof {
            use_type_invariant(&self.game.game_map);
        }
        let ghost g = self.game@;
        let rows: usize = self.game.game_map.num_rows();
        let cols: usize = self.game.game_map.num_cols();
        let t: i64 = self.game.game_map.tile_span();
        proof {
            lemma_extent_bounds(g);
        }
        let mut commands: Vec<DrawCommand> = Vec::new();
        commands.push(
            DrawCommand::FillRect {
                x: 0,
                y: 0,
                width: to_minimap(self.game.game_map.map_width()),
                height: to_minimap(self.game.game_map.map_height()),
                color: Color { r: 0, g: 0, b: 0, a: 255 },
            },
        );
        let mut i: usize = 0;
        while i < rows
            invariant
                g == self.game@,
                i <= rows,
                rows == g.rows(),
                cols == g.cols(),
                1 <= cols <= 1024,
                rows <= 1024,
                t == g.span(),
                0 < t <= 0x10_0000,
                commands@.len() == 1 + i * cols,
                forall|k: int| 0 <= k < commands@.len() ==> #[trigger] commands@[k] == map_command(g, k),
            decreases rows - i,
        {
            let mut j: usize = 0;
            while j < cols
                invariant
                    g == self.game@,
                    i < rows,
                    j <= cols,
                    rows == g.rows(),
                    cols == g.cols(),
                    1 <= cols <= 1024,
                    rows <= 1024,
                    t == g.span(),
                    0 < t <= 0x10_0000,
                    commands@.len() == 1 + i * cols + j,
                    forall|k: int|
                        0 <= k < commands@.len() ==> #[trigger] commands@[k] == map_command(g, k),
                decreases cols - j,
            {
                assert(0 <= i * t <= 1024 * 0x10_0000 && 0 <= j * t <= 1024 * 0x10_0000)
                    by (nonlinear_arith)
                    requires
                        0 <= i <= 1024,
                        0 <= j <= 1024,
                        0 <= t <= 0x10_0000,
                ;
                let x_tile: i64 = (j as i64) * t;
                let y_tile: i64 = (i as i64) * t;
                let tile_color: u8 = if self.game.game_map.cell(i, j) != 0 {
                    255
                } else {
                    0
                };
                proof {
                    let k = commands@.len() as int;
                    assert(k - 1 == i * cols + j);
                    vstd::arithmetic::div_mod::lemma_fundamental_div_mod_converse(
                        k - 1,
                        cols as int,
                        i as int,
                        j as int,
                    );
                }
                commands.push(
                    DrawCommand::FillRect {
                        x: to_minimap(x_tile),
                        y: to_minimap(y_tile),
                        width: to_minimap(t),
                        height: to_minimap(t),
                        color: Color { r: tile_color, g: tile_color, b: tile_color, a: 255 },
                    },
                );
                j = j + 1;
            }
            assert((i + 1) * cols == i * cols + cols) by (nonlinear_arith);
            i = i + 1;
        }
        commands
    }

    /// One red segment for each ray, from the player to the ray's hit.
    pub fn render_rays(&self) -> (commands: Vec<DrawCommand>)
        ensures
            commands@.len() == self.game.rays@.len(),
            forall|i: int|
                0 <= i < commands@.len() ==> #[trigger] commands@[i] == ray_command(
                    self.player,
                    self.game.rays@[i],
                ),
    {
        let count: usize = self.game.rays.len();
        let mut commands: Vec<DrawCommand> = Vec::new();
        let mut i: usize = 0;
        while i < count
            invariant
                i <= count,
                count == self.game.rays@.len(),
                commands@.len() == i,
                forall|k: int|
                    0 <= k < i ==> #[trigger] commands@[k] == ray_command(
                        self.player,
                        self.game.rays@[k],
                    ),
            decreases count - i,
        {
            commands.push(
                DrawCommand::Line {
                    x0: to_minimap(self.player.x),
                    y0: to_minimap(self.player.y),
                    x1: to_minimap(self.game.rays[i].x_collision),
                    y1: to_minimap(self.game.rays[i].y_collision),
                    color: Color { r: 255, g: 0, b: 0, a: 255 },
                },
            );
            i = i + 1;
        }
        commands
    }

    /// The player's rectangle, then the line that shows where the player faces.
    pub fn render_player(&self) -> (commands: Vec<DrawCommand>)
        ensures
            commands@ == seq![
                player_command(self.player),
                heading_command(self.trig@, self.player),
            ],
    {
        let white = Color { r: 255, g: 255, b: 255, a: 255 };
        let x: i64 = to_minimap(self.player.x);
        let y: i64 = to_minimap(self.player.y);
        let reach_x: i128 = scale(HEADING_LENGTH, self.trig.cos(self.player.rotation_angle));
        let reach_y: i128 = scale(HEADING_LENGTH, self.trig.sin(self.player.rotation_angle));
        let mut commands: Vec<DrawCommand> = Vec::new();
        commands.push(
            DrawCommand::FillRect {
                x,
                y,
                width: to_minimap(self.player.width),
                height: to_minimap(self.player.height),
                color: white,
            },
        );
        commands.push(
            DrawCommand::Line {
                x0: x,
                y0: y,
                x1: x + (reach_x as i64),
                y1: y + (reach_y as i64),
                color: white,
            },
        );
        assert(commands@ =~= seq![
            player_command(self.player),
            heading_command(self.trig@, self.player),
        ]);
        commands
    }
}

} // verus!
