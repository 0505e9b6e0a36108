//! Rasterization: mapping integer grid coordinates to cells of a frame
//! description. A frame description is the ordered list of (byte index,
//! color) pairs, one per particle, that one tick wants drawn.

use vstd::prelude::*;

verus! {

/// Bytes per output pixel: R, G, B and an alpha channel.
pub const BYTES_PER_PIXEL: usize = 4;

/// An RGB color tag; purely presentational, never read by the physics.
#[derive(Debug, Copy, Clone, PartialEq, Eq, Structural)]
pub struct Rgb {
    pub r: u8,
    pub g: u8,
    pub b: u8,
}

/// Dimensions of the simulation grid, in cells (not display pixels).
#[derive(Debug, Copy, Clone, PartialEq, Eq, Structural)]
pub struct GridDims {
    pub width: usize,
    pub height: usize,
}

/// A particle as the rasterizer sees it: its position already truncated to
/// integer grid coordinates by the caller, plus its color.
#[derive(Debug, Copy, Clone, PartialEq, Eq, Structural)]
pub struct GridPoint {
    pub x: usize,
    pub y: usize,
    pub rgb: Rgb,
}

/// One entry of a frame description: a linear byte index into the RGBA
/// output buffer, and the color to write there.
#[derive(Debug, Copy, Clone, PartialEq, Eq, Structural)]
pub struct Cell {
    pub index: usize,
    pub rgb: Rgb,
}

impl GridDims {
    /// Both dimensions are positive and the whole RGBA buffer length fits
    /// in `usize`, so every cell index can be computed without overflow.
    pub open spec fn wf(self) -> bool {
        &&& 0 < self.width
        &&& 0 < self.height
        &&& self.width * self.height * (BYTES_PER_PIXEL as int) <= usize::MAX
    }

    /// Length in bytes of the RGBA output buffer for this grid.
    pub open spec fn buffer_len(self) -> int {
        self.width * self.height * (BYTES_PER_PIXEL as int)
    }

    /// Runtime check for `wf`, so an unverified caller can validate a
    /// configuration before handing it to the core.
    pub fn is_wf(&self) -> (b: bool)
        ensures
            b == self.wf(),
    {
        if self.width == 0 || self.height == 0 {
            return false;
        }
        match self.width.checked_mul(self.height) {
            Some(area) => area.checked_mul(BYTES_PER_PIXEL).is_some(),
            None => false,
        }
    }
}

/// A coordinate clamped into `[0, bound - 1]` (the input is already
/// non-negative, so only the upper end needs clamping).
pub open spec fn clamp_coord(v: int, bound: int) -> int {
    if v >= bound {
        bound - 1
    } else {
        v
    }
}

/// The linear byte index of the pixel that the (clamped) coordinates hit.
pub open spec fn cell_index(dims: GridDims, x: int, y: int) -> int {
    (clamp_coord(y, dims.height as int) * dims.width + clamp_coord(x, dims.width as int))
        * (BYTES_PER_PIXEL as int)
}

/// The frame-description cell a grid point rasterizes to.
pub open spec fn cell_of(dims: GridDims, p: GridPoint) -> Cell {
    Cell { index: cell_index(dims, p.x as int, p.y as int) as usize, rgb: p.rgb }
}

/// The whole frame description of a list of grid points, in input order.
pub open spec fn frame_of(dims: GridDims, points: Seq<GridPoint>) -> Seq<Cell> {
    Seq::new(points.len(), |i: int| cell_of(dims, points[i]))
}

/// Every cell index of a well-formed grid stays at least one pixel short of
/// the end of the output buffer.
pub proof fn lemma_cell_index_in_bounds(dims: GridDims, x: int, y: int)
    requires
        dims.wf(),
        0 <= x,
        0 <= y,
    ensures
        0 <= cell_index(dims, x, y),
        cell_index(dims, x, y) + BYTES_PER_PIXEL <= dims.buffer_len(),
{
    let cx = clamp_coord(x, dims.width as int);
    let cy = clamp_coord(y, dims.height as int);
    assert(0 <= cx < dims.width);
    assert(0 <= cy < dims.height);
    assert((cy * dims.width + cx + 1) * (BYTES_PER_PIXEL as int) <= dims.width * dims.height
        * (BYTES_PER_PIXEL as int)) by (nonlinear_arith)
        requires
            0 <= cx < dims.width,
            0 <= cy < dims.height,
    ;
    assert(0 <= cy * dims.width + cx) by (nonlinear_arith)
        requires
            0 <= cx,
            0 <= cy,
            0 < dims.width,
    ;
}

/// Rasterize one particle: clamp its integer coordinates into the grid and
/// compute the linear byte index of its pixel.
pub fn rasterize_point(dims: &GridDims, p: GridPoint) -> (c: Cell)
    requires
        dims.wf(),
    ensures
        c == cell_of(*dims, p),
{
    let x = if p.x >= dims.width {
        dims.width - 1
    } else {
        p.x
    };
    let y = if p.y >= dims.height {
        dims.height - 1
    } else {
        p.y
    };
    proof {
        lemma_cell_index_in_bounds(*dims, p.x as int, p.y as int);
    }
    let index = (y * dims.width + x) * BYTES_PER_PIXEL;
    Cell { index, rgb: p.rgb }
}

/// Rasterize a whole particle list into a frame description, one cell per
/// particle, preserving the particle iteration order.
pub fn rasterize(dims: &GridDims, points: &Vec<GridPoint>) -> (frame: Vec<Cell>)
    requires
        dims.wf(),
    ensures
        frame@ == frame_of(*dims, points@),
{
    let mut frame: Vec<Cell> = Vec::new();
    let n = points.len();
    let mut i: usize = 0;
    while i < n
        invariant
            i <= n,
            n == points@.len(),
            dims.wf(),
            frame@.len() == i,
            forall|j: int| 0 <= j < i ==> frame@[j] == cell_of(*dims, points@[j]),
        decreases n - i,
    {
        let c = rasterize_point(dims, points[i]);
        frame.push(c);
        i += 1;
    }
    proof {
        assert(frame@ =~= frame_of(*dims, points@));
    }
    frame
}

} // verus!
