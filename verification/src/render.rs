//! Pixel-space projection of the trail quad: turns the four micro-cell
//! corners into micro-pixel corners, ordered as the rendering sink's
//! vertex layout expects.

use vstd::prelude::*;

use crate::num::abs_i;
use crate::num::div_trunc;
use crate::num::MAX_ANCHOR;
use crate::num::MAX_COORD;
use crate::num::UNITS_PER_CELL;
use crate::trail::CursorTrail;

verus! {

/// Largest cell dimension the projection accepts, in micro-pixels
/// (one thousand pixels per cell).
pub const MAX_PIXEL_DIM: i64 = 1_000_000_000;

/// Largest window dimension or pixel offset the projection accepts, in
/// micro-pixels (one million pixels).
pub const MAX_PIXEL_OFFSET: i64 = 1_000_000_000_000;

/// A screen position in micro-pixels (one millionth of a pixel).
#[derive(Debug, Clone, Copy, PartialEq, Eq, Structural)]
pub struct PixelPos {
    pub x: i64,
    pub y: i64,
}

/// One drawable quad: the projected corners, named as the rendering
/// sink's vertex slots expect them.
#[derive(Debug, Clone, Copy, PartialEq, Eq, Structural)]
pub struct RenderQuad {
    pub top_left: PixelPos,
    pub top_right: PixelPos,
    pub bot_left: PixelPos,
    pub bot_right: PixelPos,
}

/// The left (or top) edge of the drawing area in micro-pixels: the
/// viewport's pixel offset measured from the window's centered origin.
pub open spec fn px_base_spec(pixel_offset: int, window_dim: int) -> int {
    pixel_offset - window_dim / 2
}

/// One projected coordinate: the cell coordinate relative to the
/// viewport origin, scaled to micro-pixels, from the base edge.
pub open spec fn project_axis_spec(c: int, origin_units: int, cell_dim: int, base: int) -> int {
    base + div_trunc((c - origin_units) * cell_dim, UNITS_PER_CELL as int)
}

/// Computes `project_axis_spec` exactly.
fn project_axis(c: i64, origin_units: i64, cell_dim: i64, base: i64) -> (r: i64)
    requires
        abs_i(c as int) <= MAX_COORD as int,
        abs_i(origin_units as int) <= MAX_ANCHOR as int,
        0 <= cell_dim <= MAX_PIXEL_DIM,
        abs_i(base as int) <= 2 * (MAX_PIXEL_OFFSET as int),
    ensures
        r as int == project_axis_spec(c as int, origin_units as int, cell_dim as int, base as int),
{
    let rel: i64 = c - origin_units;
    let arel: u64 = if rel >= 0 {
        rel as u64
    } else {
        (-rel) as u64
    };
    proof {
        assert(0 <= (arel as int) * (cell_dim as int) <= 2_100_000_000_000_000_000_000_000int)
            by (nonlinear_arith)
            requires
                0 <= arel <= 2_100_000_000_000_000u64,
                0 <= cell_dim <= 1_000_000_000i64,
        ;
        vstd::arithmetic::div_mod::lemma_div_is_ordered(
            (arel as int) * (cell_dim as int),
            2_100_000_000_000_000_000_000_000int,
            UNITS_PER_CELL as int,
        );
        assert(1_000_000int * 2_100_000_000_000_000_000int == 2_100_000_000_000_000_000_000_000int)
            by (nonlinear_arith);
        vstd::arithmetic::div_mod::lemma_div_multiples_vanish(
            2_100_000_000_000_000_000int,
            1_000_000int,
        );
        vstd::arithmetic::div_mod::lemma_div_pos_is_pos(
            (arel as int) * (cell_dim as int),
            UNITS_PER_CELL as int,
        );
        // the signed scaled displacement is the truncating quotient
        assert(abs_i((rel as int) * (cell_dim as int)) == (arel as int) * (cell_dim as int)
            && ((rel as int) < 0 && cell_dim > 0 ==> (rel as int) * (cell_dim as int) < 0) && ((
        rel as int) > 0 && cell_dim > 0 ==> (rel as int) * (cell_dim as int) > 0))
            by (nonlinear_arith)
            requires
                cell_dim >= 0,
                arel as int == abs_i(rel as int),
        ;
    }
    let scaled: u64 = ((arel as u128) * (cell_dim as u128) / (UNITS_PER_CELL as u128)) as u64;
    proof {
        let v = (rel as int) * (cell_dim as int);
        assert(scaled as int == abs_i(v) / (UNITS_PER_CELL as int));
        if v == 0 {
            assert(scaled == 0);
            assert(div_trunc(v, UNITS_PER_CELL as int) == 0);
        } else if rel >= 0 {
            assert(div_trunc(v, UNITS_PER_CELL as int) == scaled as int);
        } else {
            assert(div_trunc(v, UNITS_PER_CELL as int) == -(scaled as int));
        }
    }
    if rel >= 0 {
        base + (scaled as i64)
    } else {
        base - (scaled as i64)
    }
}

impl CursorTrail {
    /// Projects the four quad corners from micro-cell coordinates to
    /// micro-pixel coordinates: each coordinate is offset by the viewport
    /// origin (`pane_left` cells, `stable_top` rows), scaled by the cell
    /// dimensions, and measured from the window's centered pixel origin.
    /// The result carries the corners in the sink's vertex order.
    pub fn render(
        &self,
        cell_width: i64,
        cell_height: i64,
        pane_left: usize,
        stable_top: i64,
        window_width: i64,
        window_height: i64,
        left_pixel_x: i64,
        top_pixel_y: i64,
    ) -> (r: RenderQuad)
        requires
            self.wf(),
            0 <= cell_width <= MAX_PIXEL_DIM,
            0 <= cell_height <= MAX_PIXEL_DIM,
            pane_left <= crate::num::MAX_CELL as usize,
            -crate::num::MAX_CELL <= stable_top <= crate::num::MAX_CELL,
            0 <= window_width <= MAX_PIXEL_OFFSET,
            0 <= window_height <= MAX_PIXEL_OFFSET,
            abs_i(left_pixel_x as int) <= MAX_PIXEL_OFFSET as int,
            abs_i(top_pixel_y as int) <= MAX_PIXEL_OFFSET as int,
        ensures
            ({
                let ox = pane_left * (UNITS_PER_CELL as int);
                let oy = stable_top * (UNITS_PER_CELL as int);
                let bx = px_base_spec(left_pixel_x as int, window_width as int);
                let by = px_base_spec(top_pixel_y as int, window_height as int);
                &&& r.top_left.x == project_axis_spec(self.quad.tl.x as int, ox, cell_width as int, bx)
                &&& r.top_left.y == project_axis_spec(self.quad.tl.y as int, oy, cell_height as int, by)
                &&& r.top_right.x == project_axis_spec(self.quad.tr.x as int, ox, cell_width as int, bx)
                &&& r.top_right.y == project_axis_spec(self.quad.tr.y as int, oy, cell_height as int, by)
                &&& r.bot_left.x == project_axis_spec(self.quad.bl.x as int, ox, cell_width as int, bx)
                &&& r.bot_left.y == project_axis_spec(self.quad.bl.y as int, oy, cell_height as int, by)
                &&& r.bot_right.x == project_axis_spec(self.quad.br.x as int, ox, cell_width as int, bx)
                &&& r.bot_right.y == project_axis_spec(self.quad.br.y as int, oy, cell_height as int, by)
            }),
    {
        let origin_x: i64 = (pane_left as i64) * UNITS_PER_CELL;
        let origin_y: i64 = stable_top * UNITS_PER_CELL;
        let base_x: i64 = left_pixel_x - window_width / 2;
        let base_y: i64 = top_pixel_y - window_height / 2;
        RenderQuad {
            top_left: PixelPos {
                x: project_axis(self.quad.tl.x, origin_x, cell_width, base_x),
                y: project_axis(self.quad.tl.y, origin_y, cell_height, base_y),
            },
            top_right: PixelPos {
                x: project_axis(self.quad.tr.x, origin_x, cell_width, base_x),
                y: project_axis(self.quad.tr.y, origin_y, cell_height, base_y),
            },
            bot_left: PixelPos {
                x: project_axis(self.quad.bl.x, origin_x, cell_width, base_x),
                y: project_axis(self.quad.bl.y, origin_y, cell_height, base_y),
            },
            bot_right: PixelPos {
                x: project_axis(self.quad.br.x, origin_x, cell_width, base_x),
                y: project_axis(self.quad.br.y, origin_y, cell_height, base_y),
            },
        }
    }
}

} // verus!
