//! The cursor-trail state machine: a deformable quad whose corners chase
//! the cursor's cell box, with dwell-time debouncing, distance-gated
//! snapping and per-corner anisotropic exponential easing.
//!
//! All coordinates are micro-cells (`UNITS_PER_CELL` units per cell).

use vstd::prelude::*;

use crate::config::CursorTrailConfig;
use crate::config::MAX_DURATION;
use crate::config::MAX_SPREAD;
use crate::config::PERMILLE;
use crate::num::abs_i;
use crate::num::axis_new_spec;
use crate::num::axis_step;
use crate::num::corner_dot;
use crate::num::decay_between;
use crate::num::decay_of_spec;
use crate::num::dot_spec;
use crate::num::max_i;
use crate::num::min_i;
use crate::num::step_of;
use crate::num::step_spec;
use crate::num::MAX_ANCHOR;
use crate::num::MAX_CELL;
use crate::num::MAX_COORD;
use crate::num::UNITS_PER_CELL;

verus! {

/// Distance in micro-cells under which a corner counts as arrived
/// (a tenth of a cell).
pub const SETTLED_THRESHOLD: i64 = 100_000;

/// A screen position in micro-cell coordinates.
#[derive(Debug, Clone, Copy, PartialEq, Eq, Structural)]
pub struct Pos {
    pub x: i64,
    pub y: i64,
}

/// Whether a position is within the coordinate range the engine accepts.
pub open spec fn pos_wf(p: Pos) -> bool {
    &&& abs_i(p.x as int) <= MAX_ANCHOR as int
    &&& abs_i(p.y as int) <= MAX_ANCHOR as int
}

impl Pos {
    /// Converts a cursor cell position (column, stable row) to micro-cells.
    pub fn from_cells(x: usize, y: i64) -> (p: Pos)
        requires
            x <= MAX_CELL as usize,
            -MAX_CELL <= y <= MAX_CELL,
        ensures
            p.x as int == x * (UNITS_PER_CELL as int),
            p.y as int == y * (UNITS_PER_CELL as int),
            pos_wf(p),
    {
        Pos { x: (x as i64) * UNITS_PER_CELL, y: y * UNITS_PER_CELL }
    }
}

/// The edges a trail quad animates towards: a one-cell box.
#[derive(Debug, Clone, Copy, PartialEq, Eq, Structural)]
pub struct TrailTarget {
    pub top: i64,
    pub bottom: i64,
    pub left: i64,
    pub right: i64,
}

/// A well-formed target is a one-cell box anchored in range.
pub open spec fn target_wf(t: TrailTarget) -> bool {
    &&& t.right == t.left + UNITS_PER_CELL
    &&& t.bottom == t.top + UNITS_PER_CELL
    &&& abs_i(t.left as int) <= MAX_ANCHOR as int
    &&& abs_i(t.top as int) <= MAX_ANCHOR as int
}

/// The one-cell box anchored at `p`.
pub open spec fn box_at(p: Pos) -> TrailTarget {
    TrailTarget {
        top: p.y,
        bottom: (p.y + UNITS_PER_CELL) as i64,
        left: p.x,
        right: (p.x + UNITS_PER_CELL) as i64,
    }
}

impl TrailTarget {
    /// The one-cell box anchored at `p`.
    pub fn at(p: Pos) -> (t: TrailTarget)
        requires
            pos_wf(p),
        ensures
            t == box_at(p),
            target_wf(t),
    {
        TrailTarget {
            top: p.y,
            bottom: p.y + UNITS_PER_CELL,
            left: p.x,
            right: p.x + UNITS_PER_CELL,
        }
    }
}

/// The four corners of the trail quad, in fixed order: top-left,
/// top-right, bottom-right, bottom-left.
#[derive(Debug, Clone, Copy, PartialEq, Eq, Structural)]
pub struct TrailQuad {
    pub tl: Pos,
    pub tr: Pos,
    pub br: Pos,
    pub bl: Pos,
}

/// Whether one corner is within the coordinate range the engine accepts.
pub open spec fn corner_wf(p: Pos) -> bool {
    &&& abs_i(p.x as int) <= MAX_COORD as int
    &&& abs_i(p.y as int) <= MAX_COORD as int
}

pub open spec fn quad_wf(q: TrailQuad) -> bool {
    &&& corner_wf(q.tl)
    &&& corner_wf(q.tr)
    &&& corner_wf(q.br)
    &&& corner_wf(q.bl)
}

/// The quad collapsed onto the one-cell box anchored at `p`.
pub open spec fn quad_at(p: Pos) -> TrailQuad {
    TrailQuad {
        tl: Pos { x: p.x, y: p.y },
        tr: Pos { x: (p.x + UNITS_PER_CELL) as i64, y: p.y },
        br: Pos { x: (p.x + UNITS_PER_CELL) as i64, y: (p.y + UNITS_PER_CELL) as i64 },
        bl: Pos { x: p.x, y: (p.y + UNITS_PER_CELL) as i64 },
    }
}

/// One corner after an easing step with step factor `step` towards the
/// target corner `(tx, ty)`.
pub open spec fn corner_new_spec(p: Pos, tx: int, ty: int, step: nat) -> Pos {
    Pos {
        x: axis_new_spec(p.x as int, tx, step) as i64,
        y: axis_new_spec(p.y as int, ty, step) as i64,
    }
}

/// The whole quad after one anisotropic easing step: every corner gets a
/// decay constant interpolated by where its alignment score sits between
/// the four corners' lowest and highest, and moves by the resulting
/// ease-out step factor.
pub open spec fn interp_spec(q: TrailQuad, t: TrailTarget, dt: nat, fast: nat, slow: nat)
    -> TrailQuad {
    let d0x = t.left - q.tl.x;
    let d0y = t.top - q.tl.y;
    let d1x = t.right - q.tr.x;
    let d1y = t.top - q.tr.y;
    let d2x = t.right - q.br.x;
    let d2y = t.bottom - q.br.y;
    let d3x = t.left - q.bl.x;
    let d3y = t.bottom - q.bl.y;
    let dot0 = dot_spec(d0x, d0y, -1, -1);
    let dot1 = dot_spec(d1x, d1y, 1, -1);
    let dot2 = dot_spec(d2x, d2y, 1, 1);
    let dot3 = dot_spec(d3x, d3y, -1, 1);
    let mn = min_i(min_i(dot0, dot1), min_i(dot2, dot3));
    let mx = max_i(max_i(dot0, dot1), max_i(dot2, dot3));
    let s0 = step_spec(dt, decay_of_spec(dot0, mn, mx, fast, slow));
    let s1 = step_spec(dt, decay_of_spec(dot1, mn, mx, fast, slow));
    let s2 = step_spec(dt, decay_of_spec(dot2, mn, mx, fast, slow));
    let s3 = step_spec(dt, decay_of_spec(dot3, mn, mx, fast, slow));
    TrailQuad {
        tl: corner_new_spec(q.tl, t.left as int, t.top as int, s0),
        tr: corner_new_spec(q.tr, t.right as int, t.top as int, s1),
        br: corner_new_spec(q.br, t.right as int, t.bottom as int, s2),
        bl: corner_new_spec(q.bl, t.left as int, t.bottom as int, s3),
    }
}

impl TrailQuad {
    /// The quad collapsed onto the one-cell box anchored at `p`.
    pub fn at(p: Pos) -> (q: TrailQuad)
        requires
            pos_wf(p),
        ensures
            q == quad_at(p),
            quad_wf(q),
    {
        TrailQuad {
            tl: Pos { x: p.x, y: p.y },
            tr: Pos { x: p.x + UNITS_PER_CELL, y: p.y },
            br: Pos { x: p.x + UNITS_PER_CELL, y: p.y + UNITS_PER_CELL },
            bl: Pos { x: p.x, y: p.y + UNITS_PER_CELL },
        }
    }

    /// Advances every corner towards its target corner by one anisotropic
    /// easing step: corners ahead in the direction of travel get the fast
    /// decay constant, corners behind the slow one.
    pub fn interp(&mut self, target: &TrailTarget, dt_ms: u64, decay_fast: u64, decay_slow: u64)
        requires
            quad_wf(*old(self)),
            target_wf(*target),
            decay_fast <= decay_slow,
        ensures
            *final(self) == interp_spec(
                *old(self),
                *target,
                dt_ms as nat,
                decay_fast as nat,
                decay_slow as nat,
            ),
            quad_wf(*final(self)),
    {
        let d0x: i64 = target.left - self.tl.x;
        let d0y: i64 = target.top - self.tl.y;
        let d1x: i64 = target.right - self.tr.x;
        let d1y: i64 = target.top - self.tr.y;
        let d2x: i64 = target.right - self.br.x;
        let d2y: i64 = target.bottom - self.br.y;
        let d3x: i64 = target.left - self.bl.x;
        let d3y: i64 = target.bottom - self.bl.y;
        let dot0: i64 = corner_dot(d0x, d0y, -1, -1);
        let dot1: i64 = corner_dot(d1x, d1y, 1, -1);
        let dot2: i64 = corner_dot(d2x, d2y, 1, 1);
        let dot3: i64 = corner_dot(d3x, d3y, -1, 1);
        let mn01: i64 = if dot0 <= dot1 {
            dot0
        } else {
            dot1
        };
        let mn23: i64 = if dot2 <= dot3 {
            dot2
        } else {
            dot3
        };
        let mn: i64 = if mn01 <= mn23 {
            mn01
        } else {
            mn23
        };
        let mx01: i64 = if dot0 >= dot1 {
            dot0
        } else {
            dot1
        };
        let mx23: i64 = if dot2 >= dot3 {
            dot2
        } else {
            dot3
        };
        let mx: i64 = if mx01 >= mx23 {
            mx01
        } else {
            mx23
        };
        let s0: u64 = step_of(dt_ms, decay_between(dot0, mn, mx, decay_fast, decay_slow));
        let s1: u64 = step_of(dt_ms, decay_between(dot1, mn, mx, decay_fast, decay_slow));
        let s2: u64 = step_of(dt_ms, decay_between(dot2, mn, mx, decay_fast, decay_slow));
        let s3: u64 = step_of(dt_ms, decay_between(dot3, mn, mx, decay_fast, decay_slow));
        self.tl = Pos {
            x: axis_step(self.tl.x, target.left, s0),
            y: axis_step(self.tl.y, target.top, s0),
        };
        self.tr = Pos {
            x: axis_step(self.tr.x, target.right, s1),
            y: axis_step(self.tr.y, target.top, s1),
        };
        self.br = Pos {
            x: axis_step(self.br.x, target.right, s2),
            y: axis_step(self.br.y, target.bottom, s2),
        };
        self.bl = Pos {
            x: axis_step(self.bl.x, target.left, s3),
            y: axis_step(self.bl.y, target.bottom, s3),
        };
    }
}

/// Whether one corner lies within `thr` of its target corner on both axes.
pub open spec fn corner_settled(p: Pos, tx: int, ty: int, thr: int) -> bool {
    &&& abs_i(tx - p.x) <= thr
    &&& abs_i(ty - p.y) <= thr
}

/// Whether every corner lies within `thr` of its paired target corner.
pub open spec fn settled_spec(q: TrailQuad, t: TrailTarget, thr: int) -> bool {
    &&& corner_settled(q.tl, t.left as int, t.top as int, thr)
    &&& corner_settled(q.tr, t.right as int, t.top as int, thr)
    &&& corner_settled(q.br, t.right as int, t.bottom as int, thr)
    &&& corner_settled(q.bl, t.left as int, t.bottom as int, thr)
}

/// The Manhattan distance from a cursor position to a target's anchor.
pub open spec fn manhattan(p: Pos, t: TrailTarget) -> int {
    abs_i(p.x - t.left) + abs_i(p.y - t.top)
}

/// The tunables and inputs of one animation frame.
#[derive(Debug, Clone, Copy)]
pub struct TickContext {
    /// Cursor position, micro-cells.
    pub cursor_pos: Pos,
    /// Current time, milliseconds on a monotonic clock.
    pub now: u64,
    /// Snap rather than trail at or under this distance, micro-cells.
    pub distance_threshold: i64,
    /// Decay constant of the leading corners, milliseconds.
    pub decay_fast: u64,
    /// Decay constant of the trailing corners, milliseconds.
    pub decay_slow: u64,
    /// The cursor must rest this long before the trail retargets,
    /// milliseconds.
    pub dwell_threshold: u64,
}

impl TickContext {
    pub open spec fn wf(self) -> bool {
        &&& pos_wf(self.cursor_pos)
        &&& self.decay_fast <= self.decay_slow
        &&& 0 <= self.distance_threshold
    }

    /// Derives the per-frame context from a cursor cell position, the
    /// current time and the validated configuration.
    pub fn from_cursor(
        cursor_x: usize,
        cursor_y: i64,
        now: u64,
        trail_config: &CursorTrailConfig,
    ) -> (ctx: TickContext)
        requires
            cursor_x <= MAX_CELL as usize,
            -MAX_CELL <= cursor_y <= MAX_CELL,
            trail_config.duration <= MAX_DURATION,
            PERMILLE <= trail_config.spread <= MAX_SPREAD,
            trail_config.distance_threshold <= MAX_CELL as usize,
        ensures
            ctx.cursor_pos.x as int == cursor_x * (UNITS_PER_CELL as int),
            ctx.cursor_pos.y as int == cursor_y * (UNITS_PER_CELL as int),
            ctx.now == now,
            ctx.distance_threshold as int == trail_config.distance_threshold * (UNITS_PER_CELL
                as int),
            ctx.decay_fast == trail_config.duration,
            ctx.decay_slow as int == (trail_config.duration * trail_config.spread) as int / (
            PERMILLE as int),
            ctx.dwell_threshold == trail_config.dwell_threshold,
            ctx.wf(),
    {
        proof {
            assert(0 <= (trail_config.duration as int) * (trail_config.spread as int)
                <= 1_000_000_000_000_000int && (trail_config.duration as int) * (PERMILLE as int)
                <= (trail_config.duration as int) * (trail_config.spread as int))
                by (nonlinear_arith)
                requires
                    0 <= trail_config.duration <= 1_000_000_000u64,
                    1000 <= trail_config.spread <= 1_000_000u32,
            ;
        }
        let slow: u64 = trail_config.duration * (trail_config.spread as u64) / (PERMILLE as u64);
        proof {
            vstd::arithmetic::div_mod::lemma_div_is_ordered(
                (trail_config.duration * PERMILLE) as int,
                (trail_config.duration * trail_config.spread) as int,
                PERMILLE as int,
            );
            vstd::arithmetic::div_mod::lemma_div_multiples_vanish(
                trail_config.duration as int,
                PERMILLE as int,
            );
        }
        TickContext {
            cursor_pos: Pos::from_cells(cursor_x, cursor_y),
            now,
            distance_threshold: (trail_config.distance_threshold as i64) * UNITS_PER_CELL,
            decay_fast: trail_config.duration,
            decay_slow: slow,
            dwell_threshold: trail_config.dwell_threshold,
        }
    }
}

/// Manages the cursor trail effect with a deformable quad.
#[derive(Debug, Clone, Copy)]
pub struct CursorTrail {
    /// The four corners of the trail quad.
    pub quad: TrailQuad,
    /// Trail target bounds (where the corners are animating towards);
    /// `None` until the first tick has seen a cursor position.
    pub target: Option<TrailTarget>,
    /// Last observed cursor position.
    pub last_cursor_pos: Pos,
    /// When the cursor last moved to a new position, milliseconds.
    pub cursor_last_moved: u64,
    /// Timestamp of the last tick, milliseconds.
    pub updated_at: u64,
}

/// The state after the movement-detection stage of a tick: timestamps
/// advance, and the dwell clock restarts when the cursor moved.
pub open spec fn tick_moved(s: CursorTrail, ctx: TickContext) -> CursorTrail {
    CursorTrail {
        quad: s.quad,
        target: s.target,
        last_cursor_pos: ctx.cursor_pos,
        cursor_last_moved: if s.last_cursor_pos == ctx.cursor_pos {
            s.cursor_last_moved
        } else {
            ctx.now
        },
        updated_at: ctx.now,
    }
}

/// Whether the cursor has rested long enough for the trail to retarget.
pub open spec fn tick_dwelled(s: CursorTrail, ctx: TickContext) -> bool {
    ctx.now - tick_moved(s, ctx).cursor_last_moved >= ctx.dwell_threshold
}

/// The complete state after one tick.
pub open spec fn tick_state_spec(s: CursorTrail, ctx: TickContext) -> CursorTrail {
    let s1 = tick_moved(s, ctx);
    match s.target {
        Option::None => CursorTrail {
            quad: quad_at(ctx.cursor_pos),
            target: Option::Some(box_at(ctx.cursor_pos)),
            ..s1
        },
        Option::Some(t) => {
            let dist = manhattan(ctx.cursor_pos, t);
            if 0 < dist <= ctx.distance_threshold {
                CursorTrail {
                    quad: quad_at(ctx.cursor_pos),
                    target: Option::Some(box_at(ctx.cursor_pos)),
                    ..s1
                }
            } else {
                let t2 = if tick_dwelled(s, ctx) {
                    box_at(ctx.cursor_pos)
                } else {
                    t
                };
                CursorTrail {
                    quad: interp_spec(
                        s.quad,
                        t2,
                        (ctx.now - s.updated_at) as nat,
                        ctx.decay_fast as nat,
                        ctx.decay_slow as nat,
                    ),
                    target: Option::Some(t2),
                    ..s1
                }
            }
        },
    }
}

/// Whether one tick reports that the quad must be drawn this frame.
pub open spec fn tick_dirty_spec(s: CursorTrail, ctx: TickContext) -> bool {
    match s.target {
        Option::None => false,
        Option::Some(t) => {
            let dist = manhattan(ctx.cursor_pos, t);
            if 0 < dist <= ctx.distance_threshold {
                false
            } else {
                let dwelled = tick_dwelled(s, ctx);
                let t2 = if dwelled {
                    box_at(ctx.cursor_pos)
                } else {
                    t
                };
                let q2 = interp_spec(
                    s.quad,
                    t2,
                    (ctx.now - s.updated_at) as nat,
                    ctx.decay_fast as nat,
                    ctx.decay_slow as nat,
                );
                !settled_spec(q2, t2, SETTLED_THRESHOLD as int) || !dwelled
            }
        },
    }
}

impl CursorTrail {
    /// The engine's invariant: all geometry in range, the target a
    /// one-cell box, and the dwell clock not ahead of the tick clock.
    pub open spec fn wf(self) -> bool {
        &&& quad_wf(self.quad)
        &&& match self.target {
            Option::None => true,
            Option::Some(t) => target_wf(t),
        }
        &&& pos_wf(self.last_cursor_pos)
        &&& self.cursor_last_moved <= self.updated_at
    }

    /// A fresh trail at time `now_ms`: no target yet, so the first tick
    /// will snap to the cursor without drawing.
    pub fn new(now_ms: u64) -> (s: CursorTrail)
        ensures
            s.quad == quad_at(Pos { x: 0, y: 0 }),
            s.target is None,
            s.last_cursor_pos == (Pos { x: 0, y: 0 }),
            s.cursor_last_moved == now_ms,
            s.updated_at == now_ms,
            s.wf(),
    {
        CursorTrail {
            quad: TrailQuad::at(Pos { x: 0, y: 0 }),
            target: Option::None,
            last_cursor_pos: Pos { x: 0, y: 0 },
            cursor_last_moved: now_ms,
            updated_at: now_ms,
        }
    }

    /// Whether every corner lies within `threshold` of its paired target
    /// corner; `false` while no target exists yet.
    pub fn settled(&self, threshold: i64) -> (r: bool)
        requires
            self.wf(),
            0 <= threshold,
        ensures
            r == match self.target {
                Option::Some(t) => settled_spec(self.quad, t, threshold as int),
                Option::None => false,
            },
    {
        match self.target {
            Option::None => false,
            Option::Some(t) => {
                let ok_tl: bool = corner_within(self.quad.tl, t.left, t.top, threshold);
                let ok_tr: bool = corner_within(self.quad.tr, t.right, t.top, threshold);
                let ok_br: bool = corner_within(self.quad.br, t.right, t.bottom, threshold);
                let ok_bl: bool = corner_within(self.quad.bl, t.left, t.bottom, threshold);
                ok_tl && ok_tr && ok_br && ok_bl
            },
        }
    }

    /// Updates the trail state for one frame and returns whether the quad
    /// should be rendered.
    pub fn tick(&mut self, ctx: TickContext) -> (dirty: bool)
        requires
            old(self).wf(),
            ctx.wf(),
            old(self).updated_at <= ctx.now,
        ensures
            *final(self) == tick_state_spec(*old(self), ctx),
            dirty == tick_dirty_spec(*old(self), ctx),
            final(self).wf(),
            final(self).updated_at == ctx.now,
    {
        let dt_ms: u64 = ctx.now - self.updated_at;
        self.updated_at = ctx.now;

        if self.last_cursor_pos != ctx.cursor_pos {
            self.cursor_last_moved = ctx.now;
        }
        self.last_cursor_pos = ctx.cursor_pos;

        let prior: Option<TrailTarget> = self.target;
        match prior {
            Option::None => {
                self.target = Some(TrailTarget::at(ctx.cursor_pos));
                self.quad = TrailQuad::at(ctx.cursor_pos);
                false
            },
            Option::Some(t) => {
                let ax: i64 = if ctx.cursor_pos.x >= t.left {
                    ctx.cursor_pos.x - t.left
                } else {
                    t.left - ctx.cursor_pos.x
                };
                let ay: i64 = if ctx.cursor_pos.y >= t.top {
                    ctx.cursor_pos.y - t.top
                } else {
                    t.top - ctx.cursor_pos.y
                };
                let distance_to_cursor: i64 = ax + ay;

                if distance_to_cursor > 0 && distance_to_cursor <= ctx.distance_threshold {
                    self.target = Some(TrailTarget::at(ctx.cursor_pos));
                    self.quad = TrailQuad::at(ctx.cursor_pos);
                    return false;
                }
                let dwell_time: u64 = ctx.now - self.cursor_last_moved;
                let dwelled: bool = dwell_time >= ctx.dwell_threshold;

                let tgt: TrailTarget = if dwelled {
                    TrailTarget::at(ctx.cursor_pos)
                } else {
                    t
                };
                self.target = Some(tgt);
                self.quad.interp(&tgt, dt_ms, ctx.decay_fast, ctx.decay_slow);

                let is_settled: bool = self.settled(SETTLED_THRESHOLD);
                !is_settled || !dwelled
            },
        }
    }
}

/// Computes `corner_settled` exactly.
fn corner_within(p: Pos, tx: i64, ty: i64, thr: i64) -> (r: bool)
    requires
        abs_i(p.x as int) <= MAX_COORD as int,
        abs_i(p.y as int) <= MAX_COORD as int,
        abs_i(tx as int) <= MAX_COORD as int,
        abs_i(ty as int) <= MAX_COORD as int,
        0 <= thr,
    ensures
        r == corner_settled(p, tx as int, ty as int, thr as int),
{
    let dx: i64 = tx - p.x;
    let dy: i64 = ty - p.y;
    let adx: i64 = if dx >= 0 {
        dx
    } else {
        -dx
    };
    let ady: i64 = if dy >= 0 {
        dy
    } else {
        -dy
    };
    adx <= thr && ady <= thr
}

} // verus!
