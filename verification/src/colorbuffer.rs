//! The frame's pixels: packed `0xAARRGGBB` values, row after row.

use vstd::prelude::*;
use crate::error::ConfigError;
use crate::window::MAX_SCREEN_SIDE;

verus! {

/// The mathematical content of a pixel buffer.
pub struct PixelGrid {
    pub pixels: Seq<u32>,
    pub width: int,
    pub height: int,
}

impl PixelGrid {
    /// One pixel for each place of a screen within the engine's limits.
    pub open spec fn wf(self) -> bool {
        &&& 1 <= self.width <= MAX_SCREEN_SIDE
        &&& 1 <= self.height <= MAX_SCREEN_SIDE
        &&& self.pixels.len() == self.width * self.height
    }

    /// Whether the screen has a pixel in that row and column.
    pub open spec fn holds(self, row: int, col: int) -> bool {
        0 <= row < self.height && 0 <= col < self.width
    }

    /// The pixel's place in the buffer.
    pub open spec fn index(self, row: int, col: int) -> int {
        row * self.width + col
    }

    /// The pixel in that row and column.
    pub open spec fn pixel(self, row: int, col: int) -> u32 {
        self.pixels[self.index(row, col)]
    }
}

/// Every pixel of the screen has a place inside the buffer, and no two share one.
pub proof fn lemma_index_in_range(g: PixelGrid, row: int, col: int)
    requires
        g.wf(),
        g.holds(row, col),
    ensures
        0 <= row * g.width <= g.index(row, col) < g.pixels.len() <= 0x400_0000,
        g.index(row, col) / g.width == row,
        g.index(row, col) % g.width == col,
{
    let w = g.width;
    let h = g.height;
    assert(0 <= row * w && row * w + w <= h * w) by (nonlinear_arith)
        requires
            0 <= row < h,
            0 < w,
    ;
    assert(h * w == w * h && w * h <= 8192 * 8192) by (nonlinear_arith)
        requires
            0 < w <= 8192,
            0 < h <= 8192,
    ;
    vstd::arithmetic::div_mod::lemma_fundamental_div_mod_converse(row * w + col, w, row, col);
}

/// Two different pixels have different places.
pub proof fn lemma_index_injective(g: PixelGrid, row1: int, col1: int, row2: int, col2: int)
    requires
        g.wf(),
        g.holds(row1, col1),
        g.holds(row2, col2),
        g.index(row1, col1) == g.index(row2, col2),
    ensures
        row1 == row2,
        col1 == col2,
{
    lemma_index_in_range(g, row1, col1);
    lemma_index_in_range(g, row2, col2);
}

/// A screen's worth of pixels.
pub struct ColorBuffer {
    buffer: Vec<u32>,
    width: u32,
    height: u32,
}

impl View for ColorBuffer {
    type V = PixelGrid;

    closed spec fn view(&self) -> PixelGrid {
        PixelGrid { pixels: self.buffer@, width: self.width as int, height: self.height as int }
    }
}

impl ColorBuffer {
    /// The buffer holds one pixel for each place of its screen. Every buffer
    /// that a program holds does; a proof about a buffer as a mathematical
    /// value has to ask for it.
    #[verifier::type_invariant]
    pub open spec fn wf(&self) -> bool {
        self@.wf()
    }

    /// A buffer of `width` by `height` pixels, all zero. Refused exactly when
    /// a side is zero or exceeds `MAX_SCREEN_SIDE`.
    pub fn new(width: u32, height: u32) -> (r: Result<ColorBuffer, ConfigError>)
        ensures
            match r {
                Ok(b) => {
                    &&& b.wf()
                    &&& b@.width == width
                    &&& b@.height == height
                    &&& forall|i: int| 0 <= i < b@.pixels.len() ==> b@.pixels[i] == 0
                },
                Err(e) => e == ConfigError::BadScreenSize,
            },
            r is Ok <==> 1 <= width <= MAX_SCREEN_SIDE && 1 <= height <= MAX_SCREEN_SIDE,
    {
        if width == 0 || width > MAX_SCREEN_SIDE || height == 0 || height > MAX_SCREEN_SIDE {
            return Err(ConfigError::BadScreenSize);
        }
        Ok(ColorBuffer::blank(width, height))
    }

    /// A buffer of `width` by `height` pixels, all zero.
    pub fn blank(width: u32, height: u32) -> (b: ColorBuffer)
        requires
            1 <= width <= MAX_SCREEN_SIDE,
            1 <= height <= MAX_SCREEN_SIDE,
        ensures
            b.wf(),
            b@.width == width,
            b@.height == height,
            forall|i: int| 0 <= i < b@.pixels.len() ==> b@.pixels[i] == 0,
    {
        assert(width * height <= 8192 * 8192) by (nonlinear_arith)
            requires
                width <= 8192,
                height <= 8192,
        ;
        let count: usize = (width as usize) * (height as usize);
        let mut buffer: Vec<u32> = Vec::new();
        let mut i: usize = 0;
        while i < count
            invariant
                i <= count,
                buffer@.len() == i,
                forall|k: int| 0 <= k < i ==> buffer@[k] == 0,
            decreases count - i,
        {
            buffer.push(0);
            i = i + 1;
        }
        ColorBuffer { buffer, width, height }
    }

    /// Sets every pixel to `color`.
    pub fn clear(&mut self, color: u32)
        ensures
            final(self).wf(),
            final(self)@.width == old(self)@.width,
            final(self)@.height == old(self)@.height,
            forall|i: int| 0 <= i < final(self)@.pixels.len() ==> final(self)@.pixels[i] == color,
    {
        proof {
            use_type_invariant(&*self);
        }
        let count: usize = self.buffer.len();
        let mut i: usize = 0;
        while i < count
            invariant
                i <= count,
                self.wf(),
                self.buffer@.len() == count,
                self.width == old(self).width,
                self.height == old(self).height,
                forall|k: int| 0 <= k < i ==> self.buffer@[k] == color,
            decreases count - i,
        {
            self.buffer[i] = color;
            i = i + 1;
        }
    }

    /// Pixels in one row.
    pub fn width(&self) -> (w: u32)
        ensures
            w == self@.width,
    {
        self.width
    }

    /// Rows on the screen.
    pub fn height(&self) -> (h: u32)
        ensures
            h == self@.height,
    {
        self.height
    }

    /// The place of a pixel in the buffer, or nothing if the screen has no
    /// such pixel. Every write to the buffer goes through this test.
    pub fn pixel_index(&self, row: u32, col: u32) -> (r: Option<usize>)
        ensures
            match r {
                Some(i) => self@.holds(row as int, col as int) && i == self@.index(
                    row as int,
                    col as int,
                ) && i < self@.pixels.len(),
                None => !self@.holds(row as int, col as int),
            },
    {
        proof {
            use_type_invariant(self);
        }
        if row >= self.height || col >= self.width {
            return None;
        }
        proof {
            lemma_index_in_range(self@, row as int, col as int);
        }
        Some((row as usize) * (self.width as usize) + (col as usize))
    }

    /// Writes one pixel. A place off the screen is refused: nothing is written
    /// and `false` comes back.
    pub fn set_pixel(&mut self, row: u32, col: u32, color: u32) -> (written: bool)
        ensures
            final(self).wf(),
            final(self)@.width == old(self)@.width,
            final(self)@.height == old(self)@.height,
            written == old(self)@.holds(row as int, col as int),
            written ==> final(self)@.pixels == old(self)@.pixels.update(
                old(self)@.index(row as int, col as int),
                color,
            ),
            !written ==> final(self)@.pixels == old(self)@.pixels,
    {
        proof {
            use_type_invariant(&*self);
        }
        match self.pixel_index(row, col) {
            Some(i) => {
                self.buffer[i] = color;
                true
            },
            None => false,
        }
    }

    /// Paints the rows `from..to` of column `col` in `color`, and nothing else.
    pub fn paint_span(&mut self, col: u32, from: u32, to: u32, color: u32)
        requires
            col < old(self)@.width,
            from <= to <= old(self)@.height,
        ensures
            final(self).wf(),
            final(self)@.width == old(self)@.width,
            final(self)@.height == old(self)@.height,
            forall|r: int, c: int| #[trigger]
                final(self)@.holds(r, c) ==> final(self)@.pixel(r, c) == if c == col && from <= r
                    < to {
                    color
                } else {
                    old(self)@.pixel(r, c)
                },
    {
        proof {
            use_type_invariant(&*self);
        }
        let mut y: u32 = from;
        while y < to
            invariant
                from <= y <= to <= self@.height,
                col < self@.width,
                self.wf(),
                self@.width == old(self)@.width,
                self@.height == old(self)@.height,
                forall|r: int, c: int| #[trigger]
                    self@.holds(r, c) ==> self@.pixel(r, c) == if c == col && from <= r < y {
                        color
                    } else {
                        old(self)@.pixel(r, c)
                    },
            decreases to - y,
        {
            let ghost before = self@;
            let written = self.set_pixel(y, col, color);
            proof {
                let after = self@;
                assert forall|r: int, c: int| #[trigger] after.holds(r, c) implies after.pixel(r, c)
                    == if c == col && from <= r < y + 1 {
                    color
                } else {
                    old(self)@.pixel(r, c)
                } by {
                    assert(before.holds(r, c));
                    lemma_index_in_range(before, r, c);
                    lemma_index_in_range(before, y as int, col as int);
                    if before.index(r, c) == before.index(y as int, col as int) {
                        lemma_index_injective(before, r, c, y as int, col as int);
                    }
                }
            }
            y = y + 1;
        }
    }

    /// Reads one pixel, or nothing for a place off the screen.
    pub fn get_pixel(&self, row: u32, col: u32) -> (r: Option<u32>)
        ensures
            match r {
                Some(c) => self@.holds(row as int, col as int) && c == self@.pixel(
                    row as int,
                    col as int,
                ),
                None => !self@.holds(row as int, col as int),
            },
    {
        match self.pixel_index(row, col) {
            Some(i) => Some(self.buffer[i]),
            None => None,
        }
    }

    /// All pixels, row after row, as the presenter wants them.
    pub fn pixels(&self) -> (p: &Vec<u32>)
        ensures
            p@ == self@.pixels,
    {
        &self.buffer
    }
}

} // verus!
