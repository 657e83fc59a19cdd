//! The frame that a rendering fills.

use vstd::prelude::*;
use crate::color::Color;

verus! {

/// What a frame buffer holds: the cells row by row, the row `y` before the
/// row `y + 1`, and in each row the column `x` before the column `x + 1`.
pub struct FrameView {
    pub width: nat,
    pub height: nat,
    pub cells: Seq<Color>,
}

impl FrameView {
    /// The cell in column `x` and row `y`.
    pub open spec fn at(self, x: int, y: int) -> Color {
        self.cells[y * self.width + x]
    }

    /// There is one cell for each pixel.
    pub open spec fn wf(self) -> bool {
        self.cells.len() == self.width * self.height
    }
}

/// A rendered frame: one colour for each pixel of a raster.
#[derive(Debug, PartialEq, Eq)]
pub struct FrameBuffer {
    width: u32,
    height: u32,
    pixels: Vec<Color>,
}

impl View for FrameBuffer {
    type V = FrameView;

    closed spec fn view(&self) -> FrameView {
        FrameView { width: self.width as nat, height: self.height as nat, cells: self.pixels@ }
    }
}

/// The bytes of a sequence of colours: red, green, blue and alpha of the
/// first, then of the second, and so on.
pub open spec fn rgba8(cells: Seq<Color>) -> Seq<u8> {
    Seq::new(
        4 * cells.len(),
        |i: int|
            if i % 4 == 0 {
                cells[i / 4].r
            } else if i % 4 == 1 {
                cells[i / 4].g
            } else if i % 4 == 2 {
                cells[i / 4].b
            } else {
                cells[i / 4].a
            },
    )
}

impl FrameBuffer {
    #[verifier::type_invariant]
    closed spec fn inv(&self) -> bool {
        self.pixels@.len() == self.width * self.height
    }

    /// A frame of `width` by `height` pixels with the given cells, row by
    /// row; `None` where the number of cells is not that of the pixels.
    pub fn from_cells(width: u32, height: u32, pixels: Vec<Color>) -> (r: Option<FrameBuffer>)
        ensures
            match r {
                Some(frame) => frame@ == (FrameView {
                    width: width as nat,
                    height: height as nat,
                    cells: pixels@,
                }) && frame@.wf(),
                None => pixels@.len() != width * height,
            },
    {
        assert(0 <= width * height <= 0xffff_ffff * 0xffff_ffff) by (nonlinear_arith)
            requires
                0 <= width <= 0xffff_ffff,
                0 <= height <= 0xffff_ffff,
        ;
        if pixels.len() as u64 == width as u64 * height as u64 {
            Some(FrameBuffer::assemble(width, height, pixels))
        } else {
            None
        }
    }

    /// A frame from as many cells as it has pixels.
    pub(crate) fn assemble(width: u32, height: u32, pixels: Vec<Color>) -> (frame: FrameBuffer)
        requires
            pixels@.len() == width * height,
        ensures
            frame@ == (FrameView { width: width as nat, height: height as nat, cells: pixels@ }),
            frame@.wf(),
    {
        FrameBuffer { width, height, pixels }
    }

    /// The number of columns.
    pub fn width(&self) -> (w: u32)
        ensures
            w == self@.width,
            self@.wf(),
    {
        proof {
            use_type_invariant(self);
        }
        self.width
    }

    /// The number of rows.
    pub fn height(&self) -> (h: u32)
        ensures
            h == self@.height,
            self@.wf(),
    {
        proof {
            use_type_invariant(self);
        }
        self.height
    }

    /// The colour of the pixel in column `x` and row `y`, or `None` when the
    /// raster has no such pixel.
    pub fn get(&self, x: u32, y: u32) -> (r: Option<Color>)
        ensures
            r == (if x < self@.width && y < self@.height {
                Some(self@.at(x as int, y as int))
            } else {
                None
            }),
    {
        proof {
            use_type_invariant(self);
        }
        if x < self.width && y < self.height {
            assert(0 <= y * self.width && y * self.width + x < self.width * self.height)
                by (nonlinear_arith)
                requires
                    x < self.width,
                    y < self.height,
            ;
            let cells: usize = self.pixels.len();
            assert(y * self.width + x < cells);
            let i: usize = y as usize * self.width as usize + x as usize;
            Some(self.pixels[i])
        } else {
            None
        }
    }

    /// The cells, row by row.
    pub fn pixels(&self) -> (p: &Vec<Color>)
        ensures
            p@ == self@.cells,
            self@.wf(),
    {
        proof {
            use_type_invariant(self);
        }
        &self.pixels
    }

    /// The frame as bytes, four for each pixel, row by row.
    pub fn to_rgba8(&self) -> (bytes: Vec<u8>)
        ensures
            bytes@ == rgba8(self@.cells),
    {
        let mut bytes: Vec<u8> = Vec::new();
        let mut i: usize = 0;
        while i < self.pixels.len()
            invariant
                i <= self.pixels@.len(),
                bytes@.len() == 4 * i,
                forall|k: int| 0 <= k < 4 * i ==> #[trigger] bytes@[k] == rgba8(self.pixels@)[k],
            decreases self.pixels@.len() - i,
        {
            let c = self.pixels[i];
            bytes.push(c.r);
            bytes.push(c.g);
            bytes.push(c.b);
            bytes.push(c.a);
            i = i + 1;
        }
        assert(bytes@ =~= rgba8(self.pixels@));
        bytes
    }
}

} // verus!
