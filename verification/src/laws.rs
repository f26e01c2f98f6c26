//! The engine's laws, stated and proved over the spec-level model:
//! convergence of the easing step, ordering of the per-corner decay,
//! idempotence at rest, and the first tick's snap.

use vstd::prelude::*;

use crate::num::abs_i;
use crate::num::axis_move_spec;
use crate::num::decay_of_spec;
use crate::num::dot_spec;
use crate::num::lemma_axis_move;
use crate::num::lemma_step_antitone_in_decay;
use crate::num::lemma_step_bounds;
use crate::num::max_i;
use crate::num::min_i;
use crate::num::sign_i;
use crate::num::step_spec;
use crate::num::FP_ONE;
use crate::trail::box_at;
use crate::trail::interp_spec;
use crate::trail::manhattan;
use crate::trail::quad_at;
use crate::trail::settled_spec;
use crate::trail::tick_dirty_spec;
use crate::trail::tick_moved;
use crate::trail::tick_state_spec;
use crate::trail::CursorTrail;
use crate::trail::Pos;
use crate::trail::TickContext;
use crate::trail::TrailQuad;
use crate::trail::TrailTarget;
use crate::trail::SETTLED_THRESHOLD;

verus! {

/// One axis of a corner approaches its target monotonically: the
/// distance never grows, the target is never overshot (the sign of the
/// remaining displacement never flips), a coordinate already at its
/// target stays there, and with `strict` the distance strictly shrinks.
pub open spec fn axis_approach(cur: int, tgt: int, new: int, strict: bool) -> bool {
    &&& abs_i(tgt - new) <= abs_i(tgt - cur)
    &&& (new != tgt ==> sign_i(tgt - new) == sign_i(tgt - cur))
    &&& (cur == tgt ==> new == cur)
    &&& ((strict && cur != tgt) ==> abs_i(tgt - new) < abs_i(tgt - cur))
}

/// Both axes of a corner approach the paired target corner.
pub open spec fn corner_approach(p: Pos, tx: int, ty: int, p2: Pos, strict: bool) -> bool {
    &&& axis_approach(p.x as int, tx, p2.x as int, strict)
    &&& axis_approach(p.y as int, ty, p2.y as int, strict)
}

/// Whether every corner of `q` sits exactly on its paired target corner.
pub open spec fn quad_at_rest(q: TrailQuad, t: TrailTarget) -> bool {
    &&& q.tl.x == t.left && q.tl.y == t.top
    &&& q.tr.x == t.right && q.tr.y == t.top
    &&& q.br.x == t.right && q.br.y == t.bottom
    &&& q.bl.x == t.left && q.bl.y == t.bottom
}

/// Convergence: for any target, one interpolation step moves every
/// corner monotonically towards its paired target corner — strictly
/// closer whenever any time passed — and never overshoots or
/// oscillates.  With no time passed, or every corner at rest, the quad
/// is unchanged.
pub proof fn lemma_interp_approach(q: TrailQuad, t: TrailTarget, dt: nat, fast: nat, slow: nat)
    requires
        fast <= slow,
    ensures
        ({
            let q2 = interp_spec(q, t, dt, fast, slow);
            let strict = dt >= 1;
            &&& corner_approach(q.tl, t.left as int, t.top as int, q2.tl, strict)
            &&& corner_approach(q.tr, t.right as int, t.top as int, q2.tr, strict)
            &&& corner_approach(q.br, t.right as int, t.bottom as int, q2.br, strict)
            &&& corner_approach(q.bl, t.left as int, t.bottom as int, q2.bl, strict)
            &&& dt == 0 ==> q2 == q
            &&& quad_at_rest(q, t) ==> q2 == q
        }),
{
    let d0x = t.left - q.tl.x;
    let d0y = t.top - q.tl.y;
    let d1x = t.right - q.tr.x;
    let d1y = t.top - q.tr.y;
    let d2x = t.right - q.br.x;
    let d2y = t.bottom - q.br.y;
    let d3x = t.left - q.bl.x;
    let d3y = t.bottom - q.bl.y;
    let dot0 = dot_spec(d0x, d0y, -1, -1);
    let dot1 = dot_spec(d1x, d1y, 1, -1);
    let dot2 = dot_spec(d2x, d2y, 1, 1);
    let dot3 = dot_spec(d3x, d3y, -1, 1);
    let mn = min_i(min_i(dot0, dot1), min_i(dot2, dot3));
    let mx = max_i(max_i(dot0, dot1), max_i(dot2, dot3));
    let s0 = step_spec(dt, decay_of_spec(dot0, mn, mx, fast, slow));
    let s1 = step_spec(dt, decay_of_spec(dot1, mn, mx, fast, slow));
    let s2 = step_spec(dt, decay_of_spec(dot2, mn, mx, fast, slow));
    let s3 = step_spec(dt, decay_of_spec(dot3, mn, mx, fast, slow));
    lemma_step_bounds(dt, decay_of_spec(dot0, mn, mx, fast, slow));
    lemma_step_bounds(dt, decay_of_spec(dot1, mn, mx, fast, slow));
    lemma_step_bounds(dt, decay_of_spec(dot2, mn, mx, fast, slow));
    lemma_step_bounds(dt, decay_of_spec(dot3, mn, mx, fast, slow));
    lemma_axis_move(q.tl.x as int, t.left as int, s0);
    lemma_axis_move(q.tl.y as int, t.top as int, s0);
    lemma_axis_move(q.tr.x as int, t.right as int, s1);
    lemma_axis_move(q.tr.y as int, t.top as int, s1);
    lemma_axis_move(q.br.x as int, t.right as int, s2);
    lemma_axis_move(q.br.y as int, t.bottom as int, s2);
    lemma_axis_move(q.bl.x as int, t.left as int, s3);
    lemma_axis_move(q.bl.y as int, t.bottom as int, s3);
}

/// Decay ordering: a corner whose alignment score is at least another's
/// gets a decay constant at most the other's, hence a step factor at
/// least the other's, and so covers at least as much of an equal
/// displacement in the same time delta.
pub proof fn lemma_decay_ordering(
    dt: nat,
    fast: nat,
    slow: nat,
    dot_hi: int,
    dot_lo: int,
    mn: int,
    mx: int,
    d: int,
)
    requires
        fast <= slow,
        mn <= dot_lo <= dot_hi <= mx,
    ensures
        fast <= decay_of_spec(dot_hi, mn, mx, fast, slow) <= slow,
        decay_of_spec(dot_hi, mn, mx, fast, slow) <= decay_of_spec(dot_lo, mn, mx, fast, slow),
        step_spec(dt, decay_of_spec(dot_hi, mn, mx, fast, slow)) >= step_spec(
            dt,
            decay_of_spec(dot_lo, mn, mx, fast, slow),
        ),
        abs_i(axis_move_spec(d, step_spec(dt, decay_of_spec(dot_hi, mn, mx, fast, slow))))
            >= abs_i(axis_move_spec(d, step_spec(dt, decay_of_spec(dot_lo, mn, mx, fast, slow)))),
{
    lemma_decay_bounds(dot_hi, mn, mx, fast, slow);
    lemma_decay_bounds(dot_lo, mn, mx, fast, slow);
    if mx != mn {
        let w = mx - mn;
        let q_hi = (slow - fast) * (dot_hi - mn) / w;
        let q_lo = (slow - fast) * (dot_lo - mn) / w;
        assert((slow - fast) * (dot_lo - mn) <= (slow - fast) * (dot_hi - mn))
            by (nonlinear_arith)
            requires
                fast <= slow,
                dot_lo <= dot_hi,
                mn <= dot_lo,
        ;
        vstd::arithmetic::div_mod::lemma_div_is_ordered(
            (slow - fast) * (dot_lo - mn),
            (slow - fast) * (dot_hi - mn),
            w,
        );
        assert((slow - fast) * (dot_hi - mn) <= (slow - fast) * w) by (nonlinear_arith)
            requires
                fast <= slow,
                mn <= dot_hi <= mx,
                w == mx - mn,
        ;
        vstd::arithmetic::div_mod::lemma_div_is_ordered(
            (slow - fast) * (dot_hi - mn),
            (slow - fast) * w,
            w,
        );
        vstd::arithmetic::div_mod::lemma_div_multiples_vanish((slow - fast) as int, w);
        vstd::arithmetic::mul::lemma_mul_nonnegative((slow - fast) as int, dot_lo - mn);
        vstd::arithmetic::div_mod::lemma_div_pos_is_pos((slow - fast) * (dot_lo - mn), w);
        assert(0 <= q_lo <= q_hi <= slow - fast);
        assert(decay_of_spec(dot_hi, mn, mx, fast, slow) == (slow - q_hi) as nat);
        assert(decay_of_spec(dot_lo, mn, mx, fast, slow) == (slow - q_lo) as nat);
    }
    let dec_hi = decay_of_spec(dot_hi, mn, mx, fast, slow);
    let dec_lo = decay_of_spec(dot_lo, mn, mx, fast, slow);
    assert(dec_hi <= dec_lo);
    lemma_step_antitone_in_decay(dt, dec_hi, dec_lo);
    let s_hi = step_spec(dt, dec_hi);
    let s_lo = step_spec(dt, dec_lo);
    lemma_step_bounds(dt, dec_hi);
    lemma_step_bounds(dt, dec_lo);
    if d != 0 && s_lo > 0 {
        assert(abs_i(d) * (s_lo as int) <= abs_i(d) * (s_hi as int)) by (nonlinear_arith)
            requires
                s_lo <= s_hi,
                abs_i(d) >= 0,
        ;
        vstd::arithmetic::div_mod::lemma_div_is_ordered(
            abs_i(d) * (s_lo as int),
            abs_i(d) * (s_hi as int),
            FP_ONE as int,
        );
    }
}

/// The interpolated decay constant stays between the fast and the slow
/// one.
pub proof fn lemma_decay_bounds(dot: int, mn: int, mx: int, fast: nat, slow: nat)
    requires
        fast <= slow,
        mn <= dot <= mx,
    ensures
        fast <= decay_of_spec(dot, mn, mx, fast, slow) <= slow,
{
    if mx != mn {
        vstd::arithmetic::mul::lemma_mul_nonnegative((slow - fast) as int, dot - mn);
        vstd::arithmetic::div_mod::lemma_div_pos_is_pos((slow - fast) * (dot - mn), mx - mn);
        assert((slow - fast) * (dot - mn) <= (slow - fast) * (mx - mn)) by (nonlinear_arith)
            requires
                fast <= slow,
                dot <= mx,
                mn <= dot,
        ;
        vstd::arithmetic::div_mod::lemma_div_is_ordered(
            (slow - fast) * (dot - mn),
            (slow - fast) * (mx - mn),
            mx - mn,
        );
        vstd::arithmetic::div_mod::lemma_div_multiples_vanish((slow - fast) as int, mx - mn);
    }
}

/// First-tick behavior: on a state with no target yet — as a freshly
/// constructed trail is — a tick with any cursor position reports no
/// draw and snaps the quad and the target exactly to that position.
pub proof fn lemma_first_tick(s: CursorTrail, ctx: TickContext)
    requires
        s.target is None,
    ensures
        tick_dirty_spec(s, ctx) == false,
        tick_state_spec(s, ctx).quad == quad_at(ctx.cursor_pos),
        tick_state_spec(s, ctx).target == Some(box_at(ctx.cursor_pos)),
{
}

/// Idempotent rest: once the quad is settled on a target at the cursor
/// and the cursor has rested for at least the dwell threshold, a tick
/// leaves the target, the last observed cursor and the dwell clock
/// unchanged, reports no draw, and keeps the quad settled — so the same
/// holds of every later tick with an unchanged cursor.  A quad exactly
/// at rest is left exactly unchanged.
pub proof fn lemma_idempotent_rest(s: CursorTrail, ctx: TickContext)
    requires
        s.wf(),
        ctx.wf(),
        s.target == Some(box_at(ctx.cursor_pos)),
        s.last_cursor_pos == ctx.cursor_pos,
        s.updated_at <= ctx.now,
        ctx.now - s.cursor_last_moved >= ctx.dwell_threshold,
        settled_spec(s.quad, box_at(ctx.cursor_pos), SETTLED_THRESHOLD as int),
    ensures
        tick_state_spec(s, ctx).target == s.target,
        tick_state_spec(s, ctx).last_cursor_pos == s.last_cursor_pos,
        tick_state_spec(s, ctx).cursor_last_moved == s.cursor_last_moved,
        tick_dirty_spec(s, ctx) == false,
        settled_spec(tick_state_spec(s, ctx).quad, box_at(ctx.cursor_pos), SETTLED_THRESHOLD
            as int),
        quad_at_rest(s.quad, box_at(ctx.cursor_pos)) ==> tick_state_spec(s, ctx).quad == s.quad,
{
    let t = box_at(ctx.cursor_pos);
    assert(manhattan(ctx.cursor_pos, t) == 0);
    assert(tick_moved(s, ctx).cursor_last_moved == s.cursor_last_moved);
    let dt = (ctx.now - s.updated_at) as nat;
    lemma_interp_approach(s.quad, t, dt, ctx.decay_fast as nat, ctx.decay_slow as nat);
}


} // verus!
