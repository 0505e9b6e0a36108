//! The dirty-frame filter and the output-buffer writer. The filter holds the
//! previous tick's frame description, compares the new one against it by full
//! ordered equality, and only on a difference clears and rewrites the RGBA
//! output buffer; an unchanged tick is counted as skipped and touches nothing.

use crate::frame::{
    cell_of, frame_of, lemma_cell_index_in_bounds, rasterize, Cell, GridDims, GridPoint,
    BYTES_PER_PIXEL,
};
use vstd::prelude::*;

verus! {

/// Alpha value written for every drawn pixel: fully opaque.
pub const ALPHA_OPAQUE: u8 = 255;

/// An all-zero (cleared) buffer of the given length.
pub open spec fn blank(len: nat) -> Seq<u8> {
    Seq::new(len, |i: int| 0u8)
}

/// The buffer after one cell is drawn: its three color channels and an
/// opaque alpha byte, at the cell's byte index.
pub open spec fn write_cell(buf: Seq<u8>, c: Cell) -> Seq<u8> {
    buf.update(c.index as int, c.rgb.r).update(c.index + 1, c.rgb.g).update(
        c.index + 2,
        c.rgb.b,
    ).update(c.index + 3, ALPHA_OPAQUE)
}

/// The buffer after every cell of a description is drawn in order, so a
/// later cell that hits the same pixel wins over an earlier one.
pub open spec fn write_cells(buf: Seq<u8>, cells: Seq<Cell>) -> Seq<u8>
    decreases cells.len(),
{
    if cells.len() == 0 {
        buf
    } else {
        write_cell(write_cells(buf, cells.drop_last()), cells.last())
    }
}

/// What one dirty tick leaves in the output buffer: the cleared buffer with
/// the whole frame description drawn over it.
pub open spec fn rendered(desc: Seq<Cell>, len: nat) -> Seq<u8> {
    write_cells(blank(len), desc)
}

/// Every cell of the description fits inside a buffer of the given length.
pub open spec fn cells_fit(desc: Seq<Cell>, len: int) -> bool {
    forall|i: int| 0 <= i < desc.len() ==> desc[i].index + BYTES_PER_PIXEL <= len
}

/// Drawing cells that fit in the buffer never changes its length.
pub proof fn lemma_write_cells_len(buf: Seq<u8>, cells: Seq<Cell>)
    requires
        cells_fit(cells, buf.len() as int),
    ensures
        write_cells(buf, cells).len() == buf.len(),
    decreases cells.len(),
{
    if cells.len() > 0 {
        let head = cells.drop_last();
        assert forall|i: int| 0 <= i < head.len() implies head[i].index + BYTES_PER_PIXEL
            <= buf.len() by {
            assert(head[i] == cells[i]);
        }
        lemma_write_cells_len(buf, head);
        let w = write_cells(buf, head);
        assert(cells.last().index + BYTES_PER_PIXEL <= w.len());
        assert(write_cell(w, cells.last()).len() == w.len());
    }
}

/// The rasterizer's output always meets the renderer's demand: every cell
/// of a rasterized frame fits inside the grid's own RGBA buffer.
pub proof fn lemma_frame_fits(dims: GridDims, points: Seq<GridPoint>)
    requires
        dims.wf(),
    ensures
        cells_fit(frame_of(dims, points), dims.buffer_len()),
{
    assert forall|i: int| 0 <= i < frame_of(dims, points).len() implies frame_of(
        dims,
        points,
    )[i].index + BYTES_PER_PIXEL <= dims.buffer_len() by {
        assert(frame_of(dims, points)[i] == cell_of(dims, points[i]));
        lemma_cell_index_in_bounds(dims, points[i].x as int, points[i].y as int);
    }
}

/// Ordered equality of two frame descriptions: same length, same cells,
/// position for position.
pub fn frames_equal(a: &Vec<Cell>, b: &Vec<Cell>) -> (r: bool)
    ensures
        r == (a@ == b@),
{
    if a.len() != b.len() {
        proof {
            assert(a@ != b@) by {
                if a@ == b@ {
                    assert(a@.len() == b@.len());
                }
            }
        }
        return false;
    }
    let n = a.len();
    let mut i: usize = 0;
    while i < n
        invariant
            i <= n,
            n == a@.len(),
            n == b@.len(),
            forall|j: int| 0 <= j < i ==> a@[j] == b@[j],
        decreases n - i,
    {
        if a[i] != b[i] {
            proof {
                assert(a@ != b@) by {
                    if a@ == b@ {
                        assert(a@[i as int] == b@[i as int]);
                    }
                }
            }
            return false;
        }
        i += 1;
    }
    proof {
        assert(a@ =~= b@);
    }
    true
}

/// Clear the output buffer and draw every cell of the description into it,
/// in order, so that the last cell writing a pixel determines its bytes.
pub fn apply_frame(buffer: &mut Vec<u8>, desc: &Vec<Cell>)
    requires
        cells_fit(desc@, old(buffer)@.len() as int),
    ensures
        final(buffer)@ == rendered(desc@, old(buffer)@.len() as nat),
{
    let len = buffer.len();
    let mut i: usize = 0;
    while i < len
        invariant
            i <= len,
            buffer@.len() == len,
            forall|j: int| 0 <= j < i ==> buffer@[j] == 0u8,
        decreases len - i,
    {
        buffer.set(i, 0u8);
        i += 1;
    }
    proof {
        assert(buffer@ =~= blank(len as nat));
    }
    let n = desc.len();
    let mut k: usize = 0;
    while k < n
        invariant
            k <= n,
            n == desc@.len(),
            cells_fit(desc@, len as int),
            buffer@.len() == len,
            buffer@ == write_cells(blank(len as nat), desc@.take(k as int)),
        decreases n - k,
    {
        let c = desc[k];
        buffer.set(c.index, c.rgb.r);
        buffer.set(c.index + 1, c.rgb.g);
        buffer.set(c.index + 2, c.rgb.b);
        buffer.set(c.index + 3, ALPHA_OPAQUE);
        proof {
            let prefix = desc@.take(k as int);
            let extended = desc@.take(k + 1);
            assert(extended.drop_last() =~= prefix);
            assert(extended.last() == desc@[k as int]);
            assert(buffer@ =~= write_cell(write_cells(blank(len as nat), prefix), desc@[k as int]));
            assert forall|j: int| 0 <= j < extended.len() implies extended[j].index
                + BYTES_PER_PIXEL <= blank(len as nat).len() by {
                assert(extended[j] == desc@[j]);
            }
            lemma_write_cells_len(blank(len as nat), extended);
        }
        k += 1;
    }
    proof {
        assert(desc@.take(n as int) =~= desc@);
    }
}

/// Ghost model of the dirty-frame filter: the stored previous description
/// and the two cumulative counters.
pub struct FilterModel {
    pub previous: Seq<Cell>,
    pub ticks: int,
    pub skipped: int,
}

/// Whether a description differs from the stored previous one, which is
/// what forces a redraw.
pub open spec fn filter_dirty(m: FilterModel, d: Seq<Cell>) -> bool {
    d != m.previous
}

/// The filter state after one tick submits a description: the tick counter
/// always advances; a dirty tick stores the new description, a clean one
/// leaves the stored description alone and counts the tick as skipped.
pub open spec fn filter_step(m: FilterModel, d: Seq<Cell>) -> FilterModel {
    if filter_dirty(m, d) {
        FilterModel { previous: d, ticks: m.ticks + 1, skipped: m.skipped }
    } else {
        FilterModel { previous: m.previous, ticks: m.ticks + 1, skipped: m.skipped + 1 }
    }
}

/// The dirty-frame filter: double-buffers frame descriptions and reports,
/// once per tick, whether the new one requires a redraw.
pub struct FrameFilter {
    previous: Vec<Cell>,
    ticks: u64,
    skipped: u64,
}

impl FrameFilter {
    /// The ghost model of the current filter state.
    pub closed spec fn model(self) -> FilterModel {
        FilterModel {
            previous: self.previous@,
            ticks: self.ticks as int,
            skipped: self.skipped as int,
        }
    }

    /// Counter sanity: no more ticks skipped than processed.
    pub open spec fn inv(self) -> bool {
        self.model().skipped <= self.model().ticks
    }

    /// A fresh filter: no previous description, both counters at zero.
    pub fn new() -> (f: FrameFilter)
        ensures
            f.inv(),
            f.model().previous == Seq::<Cell>::empty(),
            f.model().ticks == 0,
            f.model().skipped == 0,
    {
        FrameFilter { previous: Vec::new(), ticks: 0, skipped: 0 }
    }

    /// Total ticks submitted so far.
    pub fn ticks(&self) -> (t: u64)
        ensures
            t == self.model().ticks,
    {
        self.ticks
    }

    /// Ticks whose description matched the previous one, so nothing was
    /// redrawn.
    pub fn skipped(&self) -> (s: u64)
        ensures
            s == self.model().skipped,
    {
        self.skipped
    }

    /// Submit one tick's frame description without touching any buffer:
    /// report whether it differs from the previous tick's and advance the
    /// filter state.
    pub fn submit(&mut self, current: Vec<Cell>) -> (dirty: bool)
        requires
            old(self).inv(),
            old(self).model().ticks < u64::MAX,
        ensures
            final(self).inv(),
            dirty == filter_dirty(old(self).model(), current@),
            final(self).model() == filter_step(old(self).model(), current@),
    {
        self.ticks = self.ticks + 1;
        let same = frames_equal(&current, &self.previous);
        if same {
            self.skipped = self.skipped + 1;
            false
        } else {
            self.previous = current;
            true
        }
    }

    /// One tick of the render pipeline's back end: compare the description
    /// against the previous tick's, and only if it differs clear the output
    /// buffer and draw every cell; a clean tick leaves the buffer untouched
    /// and is counted as skipped.
    pub fn render_tick(&mut self, buffer: &mut Vec<u8>, current: Vec<Cell>) -> (dirty: bool)
        requires
            old(self).inv(),
            old(self).model().ticks < u64::MAX,
            cells_fit(current@, old(buffer)@.len() as int),
        ensures
            final(self).inv(),
            dirty == filter_dirty(old(self).model(), current@),
            final(self).model() == filter_step(old(self).model(), current@),
            dirty ==> final(buffer)@ == rendered(current@, old(buffer)@.len() as nat),
            !dirty ==> final(buffer)@ == old(buffer)@,
    {
        self.ticks = self.ticks + 1;
        let same = frames_equal(&current, &self.previous);
        if same {
            self.skipped = self.skipped + 1;
            false
        } else {
            apply_frame(buffer, &current);
            self.previous = current;
            true
        }
    }

    /// One full tick of the render pipeline from integer grid points:
    /// rasterize them into a frame description, then filter and redraw as
    /// `render_tick` does. The buffer must be the grid's own RGBA buffer,
    /// which every rasterized cell is proved to fit.
    pub fn render_points(
        &mut self,
        dims: &GridDims,
        buffer: &mut Vec<u8>,
        points: &Vec<GridPoint>,
    ) -> (dirty: bool)
        requires
            old(self).inv(),
            old(self).model().ticks < u64::MAX,
            dims.wf(),
            old(buffer)@.len() == dims.buffer_len(),
        ensures
            final(self).inv(),
            dirty == filter_dirty(old(self).model(), frame_of(*dims, points@)),
            final(self).model() == filter_step(old(self).model(), frame_of(*dims, points@)),
            dirty ==> final(buffer)@ == rendered(frame_of(*dims, points@), old(buffer)@.len() as nat),
            !dirty ==> final(buffer)@ == old(buffer)@,
    {
        let desc = rasterize(dims, points);
        proof {
            lemma_frame_fits(*dims, points@);
        }
        self.render_tick(buffer, desc)
    }
}

/// Resubmitting the description a tick just stored always comes out clean:
/// after any tick, a second tick with an identical description is reported
/// clean, leaves the stored description alone, and only bumps the counters.
pub proof fn lemma_second_submit_clean(m: FilterModel, d: Seq<Cell>)
    ensures
        !filter_dirty(filter_step(m, d), d),
        filter_step(filter_step(m, d), d).previous == filter_step(m, d).previous,
        filter_step(filter_step(m, d), d).ticks == filter_step(m, d).ticks + 1,
        filter_step(filter_step(m, d), d).skipped == filter_step(m, d).skipped + 1,
{
}

} // verus!
