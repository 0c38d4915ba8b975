//! The tile grid, and the rays last cast over it.

use vstd::prelude::*;
use crate::error::ConfigError;
use crate::ray::Ray;
use crate::window::{
    calculate_num_rays, calculate_width, MAX_GRID_SIDE, MAX_TILE_SIZE, SUBUNITS, TILE_SIZE,
};

verus! {

/// The mathematical content of a grid: its cells row by row, and the side of
/// one tile in world units. A cell holds zero where the map is open and a wall's
/// identifier where it is solid.
pub struct GridView {
    pub cells: Seq<Seq<i32>>,
    pub tile_size: int,
}

impl GridView {
    /// Number of tile rows.
    pub open spec fn rows(self) -> int {
        self.cells.len() as int
    }

    /// Number of tile columns: the length of the first row.
    pub open spec fn cols(self) -> int {
        self.cells[0].len() as int
    }

    /// Side of one tile, in sub-units.
    pub open spec fn span(self) -> int {
        self.tile_size * SUBUNITS
    }

    /// Extent of the map along x, in sub-units.
    pub open spec fn width(self) -> int {
        self.cols() * self.span()
    }

    /// Extent of the map along y, in sub-units.
    pub open spec fn height(self) -> int {
        self.rows() * self.span()
    }

    /// The grid is a rectangle of at least one cell, within the engine's limits.
    pub open spec fn wf(self) -> bool {
        &&& 1 <= self.rows() <= MAX_GRID_SIDE
        &&& 1 <= self.cols() <= MAX_GRID_SIDE
        &&& 1 <= self.tile_size <= MAX_TILE_SIZE
        &&& forall|r: int| 0 <= r < self.rows() ==> (#[trigger] self.cells[r]).len() == self.cols()
    }

    /// Whether the point lies on the map.
    pub open spec fn in_bounds(self, x: int, y: int) -> bool {
        0 <= x < self.width() && 0 <= y < self.height()
    }

    /// Identifier of the tile under a point of the map.
    pub open spec fn tile_at(self, x: int, y: int) -> i32 {
        self.cells[y / self.span()][x / self.span()]
    }

    /// A point is solid when it lies off the map or on a wall tile.
    pub open spec fn solid_at(self, x: int, y: int) -> bool {
        !self.in_bounds(x, y) || self.tile_at(x, y) != 0
    }

    /// Every cell on the rim of the grid is a wall.
    pub open spec fn bordered(self) -> bool {
        &&& forall|c: int|
            0 <= c < self.cols() ==> #[trigger] self.cells[0][c] != 0 && self.cells[self.rows()
                - 1][c] != 0
        &&& forall|r: int|
            0 <= r < self.rows() ==> (#[trigger] self.cells[r])[0] != 0 && self.cells[r][self.cols()
                - 1] != 0
    }
}

/// The cells of the built-in map.
pub open spec fn default_cells() -> Seq<Seq<i32>> {
    seq![
        seq![1i32, 1, 1, 1, 1, 1, 1, 1, 1, 1, 1, 1, 1, 1, 1, 1, 1, 1, 1, 1],
        seq![1i32, 0, 0, 0, 0, 0, 0, 0, 0, 0, 0, 0, 0, 0, 0, 1, 0, 0, 0, 1],
        seq![1i32, 0, 0, 0, 0, 0, 0, 0, 0, 0, 0, 0, 0, 0, 0, 8, 0, 0, 0, 1],
        seq![1i32, 0, 0, 0, 0, 0, 0, 0, 0, 0, 0, 0, 0, 0, 0, 0, 0, 0, 0, 1],
        seq![1i32, 0, 0, 0, 2, 2, 0, 3, 0, 4, 0, 5, 0, 6, 0, 0, 0, 0, 0, 1],
        seq![1i32, 0, 0, 0, 0, 0, 0, 3, 0, 0, 0, 0, 0, 0, 0, 0, 0, 0, 0, 1],
        seq![1i32, 0, 0, 0, 0, 0, 0, 3, 0, 0, 0, 0, 0, 0, 0, 0, 0, 0, 0, 1],
        seq![1i32, 0, 0, 0, 0, 0, 0, 0, 0, 0, 0, 0, 0, 7, 0, 0, 0, 0, 0, 1],
        seq![1i32, 0, 0, 0, 0, 0, 0, 0, 0, 0, 0, 0, 0, 0, 0, 0, 0, 0, 0, 5],
        seq![1i32, 0, 0, 0, 0, 0, 0, 0, 0, 0, 0, 0, 1, 0, 0, 0, 0, 0, 0, 5],
        seq![1i32, 0, 0, 0, 0, 0, 0, 0, 0, 0, 0, 0, 1, 0, 0, 0, 0, 0, 0, 5],
        seq![1i32, 0, 0, 0, 0, 0, 0, 0, 0, 0, 0, 0, 1, 0, 0, 0, 0, 0, 0, 5],
        seq![1i32, 1, 1, 1, 1, 1, 1, 1, 1, 1, 1, 1, 1, 1, 5, 5, 5, 5, 5, 5],
    ]
}

/// The cells of a nested vector, row by row.
pub open spec fn cells_of(map: Seq<Vec<i32>>) -> Seq<Seq<i32>> {
    Seq::new(map.len(), |r: int| map[r]@)
}

/// A rectangular map of tiles that has passed the shape check.
pub struct TileGrid {
    cells: Vec<Vec<i32>>,
    tile_size: u32,
}

impl View for TileGrid {
    type V = GridView;

    closed spec fn view(&self) -> GridView {
        GridView { cells: cells_of(self.cells@), tile_size: self.tile_size as int }
    }
}

impl TileGrid {
    /// The grid is well formed. Every grid that a program holds is; a proof
    /// about a grid as a mathematical value has to ask for it.
    #[verifier::type_invariant]
    pub open spec fn wf(&self) -> bool {
        self@.wf()
    }

    fn initialize_game_map() -> (map: Vec<Vec<i32>>)
        ensures
            cells_of(map@) == default_cells(),
    {
        let map = vec![
            vec![1i32, 1, 1, 1, 1, 1, 1, 1, 1, 1, 1, 1, 1, 1, 1, 1, 1, 1, 1, 1],
            vec![1i32, 0, 0, 0, 0, 0, 0, 0, 0, 0, 0, 0, 0, 0, 0, 1, 0, 0, 0, 1],
            vec![1i32, 0, 0, 0, 0, 0, 0, 0, 0, 0, 0, 0, 0, 0, 0, 8, 0, 0, 0, 1],
            vec![1i32, 0, 0, 0, 0, 0, 0, 0, 0, 0, 0, 0, 0, 0, 0, 0, 0, 0, 0, 1],
            vec![1i32, 0, 0, 0, 2, 2, 0, 3, 0, 4, 0, 5, 0, 6, 0, 0, 0, 0, 0, 1],
            vec![1i32, 0, 0, 0, 0, 0, 0, 3, 0, 0, 0, 0, 0, 0, 0, 0, 0, 0, 0, 1],
            vec![1i32, 0, 0, 0, 0, 0, 0, 3, 0, 0, 0, 0, 0, 0, 0, 0, 0, 0, 0, 1],
            vec![1i32, 0, 0, 0, 0, 0, 0, 0, 0, 0, 0, 0, 0, 7, 0, 0, 0, 0, 0, 1],
            vec![1i32, 0, 0, 0, 0, 0, 0, 0, 0, 0, 0, 0, 0, 0, 0, 0, 0, 0, 0, 5],
            vec![1i32, 0, 0, 0, 0, 0, 0, 0, 0, 0, 0, 0, 1, 0, 0, 0, 0, 0, 0, 5],
            vec![1i32, 0, 0, 0, 0, 0, 0, 0, 0, 0, 0, 0, 1, 0, 0, 0, 0, 0, 0, 5],
            vec![1i32, 0, 0, 0, 0, 0, 0, 0, 0, 0, 0, 0, 1, 0, 0, 0, 0, 0, 0, 5],
            vec![1i32, 1, 1, 1, 1, 1, 1, 1, 1, 1, 1, 1, 1, 1, 5, 5, 5, 5, 5, 5],
        ];
        proof {
            let cells = cells_of(map@);
            let want = default_cells();
            assert(cells.len() == want.len());
            assert forall|r: int| 0 <= r < cells.len() implies cells[r] == want[r] by {
                assert(cells[r] =~= want[r]);
            }
            assert(cells =~= want);
        }
        map
    }

    /// The built-in map, with tiles of `TILE_SIZE`.
    pub fn standard() -> (grid: TileGrid)
        ensures
            grid.wf(),
            grid@.cells == default_cells(),
            grid@.tile_size == TILE_SIZE,
    {
        let cells = Self::initialize_game_map();
        let grid = TileGrid { cells, tile_size: TILE_SIZE };
        proof {
            let want = default_cells();
            assert(grid@.cells == want);
            assert(want.len() == 13);
            assert forall|r: int| 0 <= r < 13 implies (#[trigger] want[r]).len() == 20 by {}
        }
        grid
    }

    /// Takes a map of the caller's, with tiles of `tile_size` world units. The
    /// map is accepted if and only if it is a rectangle of at least one cell
    /// and within the engine's limits; `rejection` names the fault reported.
    pub fn new(cells: Vec<Vec<i32>>, tile_size: u32) -> (r: Result<TileGrid, ConfigError>)
        ensures
            match r {
                Ok(grid) => {
                    &&& grid.wf()
                    &&& grid@.cells == cells_of(cells@)
                    &&& grid@.tile_size == tile_size
                },
                Err(e) => e == rejection(cells_of(cells@), tile_size as int),
            },
            (GridView { cells: cells_of(cells@), tile_size: tile_size as int }).wf() <==> r is Ok,
    {
        let ghost view = cells_of(cells@);
        if tile_size == 0 || tile_size > MAX_TILE_SIZE {
            return Err(ConfigError::BadTileSize);
        }
        let rows = cells.len();
        if rows == 0 {
            return Err(ConfigError::EmptyGrid);
        }
        let cols = cells[0].len();
        assert(view[0] == cells@[0]@);
        if cols == 0 {
            return Err(ConfigError::EmptyGrid);
        }
        if rows > MAX_GRID_SIDE || cols > MAX_GRID_SIDE {
            return Err(ConfigError::GridTooLarge);
        }
        let mut r: usize = 1;
        while r < rows
            invariant
                1 <= r <= rows <= MAX_GRID_SIDE,
                1 <= cols <= MAX_GRID_SIDE,
                1 <= tile_size <= MAX_TILE_SIZE,
                rows == cells.len(),
                cols == cells@[0]@.len(),
                view[0] == cells@[0]@,
                view == cells_of(cells@),
                forall|k: int| 0 <= k < r ==> (#[trigger] view[k]).len() == cols,
            decreases rows - r,
        {
            assert(view[r as int] == cells@[r as int]@);
            if cells[r].len() != cols {
                assert(is_ragged(view));
                return Err(ConfigError::RaggedGrid);
            }
            r = r + 1;
        }
        Ok(TileGrid { cells, tile_size })
    }

    /// Whether the point `(x, y)`, in sub-units, is solid: off the map, or on a
    /// wall tile.
    pub fn is_coordinate_solid(&self, x: i64, y: i64) -> (solid: bool)
        ensures
            solid == self@.solid_at(x as int, y as int),
    {
        let w: i64 = self.map_width();
        let h: i64 = self.map_height();
        if x < 0 || x >= w || y < 0 || y >= h {
            return true;
        }
        self.tile_at(x, y) != 0
    }

    /// Identifier of the tile under a point of the map.
    pub fn tile_at(&self, x: i64, y: i64) -> (id: i32)
        requires
            self@.in_bounds(x as int, y as int),
        ensures
            id == self@.tile_at(x as int, y as int),
    {
        proof {
            use_type_invariant(self);
        }
        let span: i64 = self.tile_span();
        proof {
            assert(cells_of(self.cells@)[0] == self.cells@[0]@);
            lemma_cell_index(x as int, span as int, self@.cols());
            lemma_cell_index(y as int, span as int, self@.rows());
            let r = y as int / span as int;
            assert(cells_of(self.cells@)[r] == self.cells@[r]@);
        }
        let ind_x: usize = (x / span) as usize;
        let ind_y: usize = (y / span) as usize;
        self.cells[ind_y][ind_x]
    }

    /// Side of one tile, in sub-units.
    pub fn tile_span(&self) -> (span: i64)
        ensures
            span == self@.span(),
            SUBUNITS <= span <= MAX_TILE_SIZE * SUBUNITS,
    {
        proof {
            use_type_invariant(self);
        }
        (self.tile_size as i64) * SUBUNITS
    }

    /// Number of tile rows.
    pub fn num_rows(&self) -> (n: usize)
        ensures
            n == self@.rows(),
            1 <= n <= MAX_GRID_SIDE,
    {
        proof {
            use_type_invariant(self);
        }
        self.cells.len()
    }

    /// Number of tile columns.
    pub fn num_cols(&self) -> (n: usize)
        ensures
            n == self@.cols(),
            1 <= n <= MAX_GRID_SIDE,
    {
        proof {
            use_type_invariant(self);
        }
        assert(cells_of(self.cells@)[0] == self.cells@[0]@);
        self.cells[0].len()
    }

    /// Identifier of the tile in row `row` and column `col`.
    pub fn cell(&self, row: usize, col: usize) -> (id: i32)
        requires
            row < self@.rows(),
            col < self@.cols(),
        ensures
            id == self@.cells[row as int][col as int],
    {
        proof {
            use_type_invariant(self);
        }
        assert(cells_of(self.cells@)[row as int] == self.cells@[row as int]@);
        self.cells[row][col]
    }

    /// Extent of the map along x, in sub-units.
    pub fn map_width(&self) -> (w: i64)
        ensures
            w == self@.width(),
            SUBUNITS <= w <= MAX_GRID_SIDE * MAX_TILE_SIZE * SUBUNITS,
    {
        let span: i64 = self.tile_span();
        let cols: i64 = self.num_cols() as i64;
        assert(span <= cols * span <= 1024 * (1024 * 1024)) by (nonlinear_arith)
            requires
                1 <= cols <= 1024,
                0 <= span <= 1024 * 1024,
        ;
        cols * span
    }

    /// Extent of the map along y, in sub-units.
    pub fn map_height(&self) -> (h: i64)
        ensures
            h == self@.height(),
            SUBUNITS <= h <= MAX_GRID_SIDE * MAX_TILE_SIZE * SUBUNITS,
    {
        let span: i64 = self.tile_span();
        let rows: i64 = self.num_rows() as i64;
        assert(span <= rows * span <= 1024 * (1024 * 1024)) by (nonlinear_arith)
            requires
                1 <= rows <= 1024,
                0 <= span <= 1024 * 1024,
        ;
        rows * span
    }
}

/// The map and the rays last cast over it.
pub struct Game {
    pub game_map: TileGrid,
    /// The rays of the last cast, one per screen column.
    pub rays: Vec<Ray>,
}

impl View for Game {
    type V = GridView;

    open spec fn view(&self) -> GridView {
        self.game_map@
    }
}

impl Default for Game {
    /// The built-in map, and one unset ray for each column of the default window.
    fn default() -> (game: Game)
        ensures
            game.wf(),
            game@.cells == default_cells(),
            game@.tile_size == TILE_SIZE,
            game.rays@.len() == 768,
            forall|i: int| 0 <= i < game.rays@.len() ==> game.rays@[i] == Ray::fresh(0),
    {
        let rays = fresh_rays(calculate_num_rays(calculate_width()) as usize);
        Game { game_map: TileGrid::standard(), rays }
    }
}

impl Game {
    /// The map is well formed.
    pub open spec fn wf(&self) -> bool {
        self.game_map.wf()
    }

    /// The built-in map, and one unset ray for each column of the default window.
    pub fn new() -> (game: Game)
        ensures
            game.wf(),
            game@.cells == default_cells(),
            game@.tile_size == TILE_SIZE,
            game.rays@.len() == 768,
            forall|i: int| 0 <= i < game.rays@.len() ==> game.rays@[i] == Ray::fresh(0),
    {
        Game::default()
    }

    /// A game on a map of the caller's, with no ray cast yet. Fails exactly
    /// when `TileGrid::new` refuses the map, and with its error.
    pub fn with_map(cells: Vec<Vec<i32>>, tile_size: u32) -> (r: Result<Game, ConfigError>)
        ensures
            match r {
                Ok(game) => {
                    &&& game.wf()
                    &&& game@.cells == cells_of(cells@)
                    &&& game@.tile_size == tile_size
                    &&& game.rays@.len() == 0
                },
                Err(e) => e == rejection(cells_of(cells@), tile_size as int),
            },
            (GridView { cells: cells_of(cells@), tile_size: tile_size as int }).wf() <==> r is Ok,
    {
        match TileGrid::new(cells, tile_size) {
            Ok(game_map) => Ok(Game { game_map, rays: Vec::new() }),
            Err(e) => Err(e),
        }
    }

    /// Whether the point `(x, y)`, in sub-units, is solid: off the map, or on a
    /// wall tile.
    pub fn is_coordinate_solid(&self, x: i64, y: i64) -> (solid: bool)
        ensures
            solid == self@.solid_at(x as int, y as int),
    {
        self.game_map.is_coordinate_solid(x, y)
    }
}

/// Some row differs in length from the first.
pub open spec fn is_ragged(cells: Seq<Seq<i32>>) -> bool {
    exists|r: int| 0 <= r < cells.len() && (#[trigger] cells[r]).len() != cells[0].len()
}

/// The fault for which `with_map` refuses a grid that is not well formed.
pub open spec fn rejection(cells: Seq<Seq<i32>>, tile_size: int) -> ConfigError {
    if tile_size < 1 || tile_size > MAX_TILE_SIZE {
        ConfigError::BadTileSize
    } else if cells.len() == 0 || cells[0].len() == 0 {
        ConfigError::EmptyGrid
    } else if cells.len() > MAX_GRID_SIDE || cells[0].len() > MAX_GRID_SIDE {
        ConfigError::GridTooLarge
    } else {
        ConfigError::RaggedGrid
    }
}

/// A well-formed grid spans at least one tile and at most `2^30` sub-units each way.
pub proof fn lemma_extent_bounds(g: GridView)
    requires
        g.wf(),
    ensures
        SUBUNITS <= g.span() <= MAX_TILE_SIZE * SUBUNITS,
        g.span() <= g.width() <= 0x4000_0000,
        g.span() <= g.height() <= 0x4000_0000,
{
    let t = g.span();
    let c = g.cols();
    let r = g.rows();
    assert(t <= c * t <= 1024 * (1024 * 1024)) by (nonlinear_arith)
        requires
            1 <= c <= 1024,
            0 <= t <= 1024 * 1024,
    ;
    assert(t <= r * t <= 1024 * (1024 * 1024)) by (nonlinear_arith)
        requires
            1 <= r <= 1024,
            0 <= t <= 1024 * 1024,
    ;
}

/// A coordinate inside a map of `count` tiles falls into one of its tiles.
pub proof fn lemma_cell_index(x: int, span: int, count: int)
    by (nonlinear_arith)
    requires
        0 < span,
        0 <= x < count * span,
    ensures
        0 <= x / span < count,
        (x / span) * span <= x < (x / span) * span + span,
{
}

/// `count` rays that point along angle zero and have met nothing.
pub fn fresh_rays(count: usize) -> (rays: Vec<Ray>)
    ensures
        rays@.len() == count,
        forall|i: int| 0 <= i < count ==> rays@[i] == Ray::fresh(0),
{
    let mut rays: Vec<Ray> = Vec::new();
    let mut i: usize = 0;
    while i < count
        invariant
            i <= count,
            rays@.len() == i,
            forall|k: int| 0 <= k < i ==> rays@[k] == Ray::fresh(0),
        decreases count - i,
    {
        let mut angle: i64 = 0;
        rays.push(Ray::new(&mut angle));
        i = i + 1;
    }
    rays
}

} // verus!
