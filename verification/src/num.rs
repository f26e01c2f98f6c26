//! Fixed-point numeric kernel for the trail animation: integer square
//! roots, an approximate negative power of two, and the frame-rate
//! independent ease-out step factor derived from it.

use vstd::prelude::*;

verus! {

/// Geometry units per terminal cell (micro-cells).
pub const UNITS_PER_CELL: i64 = 1_000_000;

/// The fixed-point representation of 1.0 for step factors, exponents and
/// alignment scores.
pub const FP_ONE: u64 = 1_000_000;

/// Largest cell coordinate magnitude the engine accepts.
pub const MAX_CELL: i64 = 1_000_000_000;

/// Largest anchor coordinate in micro-cells (`MAX_CELL` cells).
pub const MAX_ANCHOR: i64 = MAX_CELL * UNITS_PER_CELL;

/// Largest coordinate a stored corner can reach: an anchor plus one cell.
pub const MAX_COORD: i64 = MAX_ANCHOR + UNITS_PER_CELL;

/// Absolute value of a mathematical integer.
pub open spec fn abs_i(x: int) -> int {
    if x < 0 {
        -x
    } else {
        x
    }
}

/// Sign of a mathematical integer: -1, 0 or 1.
pub open spec fn sign_i(x: int) -> int {
    if x > 0 {
        1
    } else if x < 0 {
        -1
    } else {
        0
    }
}

pub open spec fn min_i(a: int, b: int) -> int {
    if a <= b {
        a
    } else {
        b
    }
}

pub open spec fn max_i(a: int, b: int) -> int {
    if a >= b {
        a
    } else {
        b
    }
}

/// 2 to the power `k`.
pub open spec fn two_pow(k: nat) -> nat
    decreases k,
{
    if k == 0 {
        1
    } else {
        2 * two_pow((k - 1) as nat)
    }
}

pub proof fn lemma_two_pow_pos(k: nat)
    ensures
        two_pow(k) >= 1,
    decreases k,
{
    if k > 0 {
        lemma_two_pow_pos((k - 1) as nat);
    }
}

pub proof fn lemma_two_pow_le(a: nat, b: nat)
    requires
        a <= b,
    ensures
        two_pow(a) <= two_pow(b),
    decreases b,
{
    if a < b {
        lemma_two_pow_le(a, (b - 1) as nat);
        lemma_two_pow_pos((b - 1) as nat);
    }
}

/// Whether `r` is the integer square root of `n`.
pub open spec fn sqrt_bounds(n: nat, r: nat) -> bool {
    r * r <= n < (r + 1) * (r + 1)
}

/// The integer square root: the unique `r` with `r * r <= n < (r + 1) * (r + 1)`.
pub closed spec fn isqrt_spec(n: nat) -> nat {
    choose|r: nat| sqrt_bounds(n, r)
}

proof fn lemma_isqrt_unique(n: nat, a: nat, b: nat)
    requires
        a * a <= n < (a + 1) * (a + 1),
        b * b <= n < (b + 1) * (b + 1),
    ensures
        a == b,
{
    if a < b {
        assert((a + 1) * (a + 1) <= b * b) by (nonlinear_arith)
            requires
                a + 1 <= b,
        ;
    }
    if b < a {
        assert((b + 1) * (b + 1) <= a * a) by (nonlinear_arith)
            requires
                b + 1 <= a,
        ;
    }
}

/// The defining property of `isqrt_spec`, given any witness.
pub proof fn lemma_isqrt_is(n: nat, r: nat)
    requires
        r * r <= n < (r + 1) * (r + 1),
    ensures
        isqrt_spec(n) == r,
{
    assert(sqrt_bounds(n, r));
    let w = choose|w: nat| sqrt_bounds(n, w);
    lemma_isqrt_unique(n, w, r);
}

/// Integer square root by binary search.
pub fn isqrt(n: u128) -> (r: u128)
    requires
        n < 0x400000000000000000000000000,  // 2^106, so the search can start at 2^53
    ensures
        r * r <= n < (r + 1) * (r + 1),
        r as nat == isqrt_spec(n as nat),
{
    let mut lo: u128 = 0;
    let mut hi: u128 = 0x20000000000000;  // 2^53
    proof {
        assert(0x20000000000000int * 0x20000000000000int == 0x400000000000000000000000000int)
            by (bit_vector);
    }
    while lo + 1 < hi
        invariant
            lo < hi <= 0x20000000000000,
            lo * lo <= n,
            n < hi * hi,
        decreases hi - lo,
    {
        let mid: u128 = lo + (hi - lo) / 2;
        proof {
            assert(mid * mid < 0x400000000000000000000000000int) by (bit_vector)
                requires
                    mid < 0x20000000000000u128,
            ;
        }
        if mid * mid <= n {
            lo = mid;
        } else {
            hi = mid;
        }
    }
    proof {
        lemma_isqrt_is(n as nat, lo as nat);
    }
    lo
}

/// An approximation of `FP_ONE * 2^(-e / FP_ONE)` for a fixed-point
/// exponent `e`: the fractional part is covered by linear interpolation
/// between 1 and 1/2, the integer part by halving.
pub open spec fn pow2_neg_spec(e: nat) -> nat {
    let k = e / (FP_ONE as nat);
    let f = e % (FP_ONE as nat);
    if k >= 20 {
        0
    } else {
        (((FP_ONE as nat) - f / 2) as nat) / two_pow(k)
    }
}

pub proof fn lemma_pow2_neg_bounds(e: nat)
    ensures
        pow2_neg_spec(e) <= FP_ONE,
        e == 0 ==> pow2_neg_spec(e) == FP_ONE,
{
    let k = e / (FP_ONE as nat);
    let f = e % (FP_ONE as nat);
    if k < 20 {
        lemma_two_pow_pos(k);
        vstd::arithmetic::div_mod::lemma_div_is_ordered_by_denominator(
            ((FP_ONE as nat) - f / 2) as int,
            1,
            two_pow(k) as int,
        );
    }
}

/// Monotonicity of the approximation: a larger exponent never gives a
/// larger value.
pub proof fn lemma_pow2_neg_antitone(e1: nat, e2: nat)
    requires
        e1 <= e2,
    ensures
        pow2_neg_spec(e1) >= pow2_neg_spec(e2),
{
    let s = FP_ONE as nat;
    let k1 = e1 / s;
    let f1 = e1 % s;
    let k2 = e2 / s;
    let f2 = e2 % s;
    vstd::arithmetic::div_mod::lemma_div_is_ordered(e1 as int, e2 as int, s as int);
    if k2 >= 20 {
        // pow2_neg_spec(e2) == 0
    } else if k1 == k2 {
        assert(f1 <= f2) by {
            vstd::arithmetic::div_mod::lemma_fundamental_div_mod(e1 as int, s as int);
            vstd::arithmetic::div_mod::lemma_fundamental_div_mod(e2 as int, s as int);
        }
        lemma_two_pow_pos(k1);
        vstd::arithmetic::div_mod::lemma_div_is_ordered(
            (s - f2 / 2) as int,
            (s - f1 / 2) as int,
            two_pow(k1) as int,
        );
    } else {
        // k1 < k2 < 20: the value at (k1, f1) is at least 500_001 / two_pow(k1),
        // the value at (k2, f2) at most 500_000 / two_pow(k1).
        lemma_two_pow_pos(k1);
        lemma_two_pow_pos(k2);
        vstd::arithmetic::div_mod::lemma_mod_division_less_than_divisor(e1 as int, s as int);
        assert(f1 / 2 <= 499_999);
        vstd::arithmetic::div_mod::lemma_div_is_ordered(
            500_001,
            (s - f1 / 2) as int,
            two_pow(k1) as int,
        );
        // (s - f2 / 2) / two_pow(k2) <= s / two_pow(k1 + 1) == (s / 2) / two_pow(k1)
        vstd::arithmetic::div_mod::lemma_div_is_ordered(
            (s - f2 / 2) as int,
            s as int,
            two_pow(k2) as int,
        );
        lemma_two_pow_le(k1 + 1, k2);
        vstd::arithmetic::div_mod::lemma_div_is_ordered_by_denominator(
            s as int,
            two_pow(k1 + 1) as int,
            two_pow(k2) as int,
        );
        assert(two_pow(k1 + 1) == 2 * two_pow(k1));
        vstd::arithmetic::div_mod::lemma_div_denominator(s as int, 2, two_pow(k1) as int);
        assert(s as int / (2 * two_pow(k1)) as int == (s as nat / 2) as int / two_pow(k1) as int);
        assert((s as nat / 2) == 500_000nat);
        vstd::arithmetic::div_mod::lemma_div_is_ordered(
            500_000,
            500_001,
            two_pow(k1) as int,
        );
    }
}

/// Computes 2 to the power `k` for small `k`.
fn two_pow_exec(k: u64) -> (r: u64)
    requires
        k <= 20,
    ensures
        r as nat == two_pow(k as nat),
        1 <= r <= 0x100000,
{
    let mut r: u64 = 1;
    let mut i: u64 = 0;
    while i < k
        invariant
            i <= k <= 20,
            r as nat == two_pow(i as nat),
            r >= 1,
            r <= 0x100000,
        decreases k - i,
    {
        proof {
            lemma_two_pow_le((i + 1) as nat, 20);
            assert(two_pow(20) == 0x100000) by {
                reveal_with_fuel(two_pow, 21);
            }
        }
        r = r * 2;
        i = i + 1;
    }
    r
}

/// Signed division that rounds toward zero, for a positive divisor:
/// the quotient the engine uses wherever a signed value is scaled down.
pub open spec fn div_trunc(a: int, b: int) -> int {
    sign_i(a) * (abs_i(a) / b)
}

/// The ease-out step factor, scaled by `FP_ONE`: an approximation of
/// `1 - 2^(-10 * dt / decay)`, clamped so that any positive time delta
/// moves every unsettled corner by at least one unit.
pub open spec fn step_spec(dt: nat, decay: nat) -> nat {
    let s = FP_ONE as nat;
    if dt == 0 {
        0
    } else if decay == 0 {
        s
    } else {
        let e = min_i((10 * dt * s / decay) as int, 40 * s as int) as nat;
        let down = pow2_neg_spec(e);
        if s - down < 1 {
            1nat
        } else {
            (s - down) as nat
        }
    }
}

pub proof fn lemma_step_bounds(dt: nat, decay: nat)
    ensures
        step_spec(dt, decay) <= FP_ONE,
        dt > 0 ==> 1 <= step_spec(dt, decay),
        dt == 0 ==> step_spec(dt, decay) == 0,
{
    if dt > 0 && decay > 0 {
        let s = FP_ONE as nat;
        let e = min_i((10 * dt * s / decay) as int, 40 * s as int) as nat;
        lemma_pow2_neg_bounds(e);
    }
}

/// A smaller decay constant never gives a smaller step: the leading
/// corners move at least as fast as the trailing ones.
pub proof fn lemma_step_antitone_in_decay(dt: nat, d1: nat, d2: nat)
    requires
        d1 <= d2,
    ensures
        step_spec(dt, d1) >= step_spec(dt, d2),
{
    lemma_step_bounds(dt, d1);
    lemma_step_bounds(dt, d2);
    if dt > 0 && d1 > 0 {
        let s = FP_ONE as nat;
        vstd::arithmetic::div_mod::lemma_div_is_ordered_by_denominator(
            (10 * dt * s) as int,
            d1 as int,
            d2 as int,
        );
        let e1 = min_i((10 * dt * s / d1) as int, 40 * s as int) as nat;
        let e2 = min_i((10 * dt * s / d2) as int, 40 * s as int) as nat;
        lemma_pow2_neg_antitone(e2, e1);
    }
}

/// Computes `step_spec` exactly.
pub fn step_of(dt_ms: u64, decay_ms: u64) -> (r: u64)
    ensures
        r as nat == step_spec(dt_ms as nat, decay_ms as nat),
        r <= FP_ONE,
{
    proof {
        lemma_step_bounds(dt_ms as nat, decay_ms as nat);
    }
    if dt_ms == 0 {
        return 0;
    }
    if decay_ms == 0 {
        return FP_ONE;
    }
    let e128: u128 = 10u128 * (dt_ms as u128) * (FP_ONE as u128) / (decay_ms as u128);
    let cap: u128 = 40u128 * (FP_ONE as u128);
    let e: u64 = if e128 >= cap {
        40 * FP_ONE
    } else {
        e128 as u64
    };
    proof {
        assert(e as nat == min_i(
            (10 * (dt_ms as nat) * (FP_ONE as nat) / (decay_ms as nat)) as int,
            40 * (FP_ONE as nat) as int,
        ));
    }
    let down = pow2_neg(e);
    if FP_ONE - down < 1 {
        1
    } else {
        FP_ONE - down
    }
}

/// The alignment score of a corner: the projection of the displacement
/// `(dx, dy)` onto the corner's direction from the target's center
/// (signs `sx`, `sy`), normalized by the displacement's length and
/// scaled by `FP_ONE`.  Zero-displacement corners score zero.
pub open spec fn dot_spec(dx: int, dy: int, sx: int, sy: int) -> int {
    if dx == 0 && dy == 0 {
        0
    } else {
        let num = sx * dx + sy * dy;
        let norm = isqrt_spec((dx * dx + dy * dy) as nat) as int;
        sign_i(num) * ((abs_i(num) * (FP_ONE as int)) / norm)
    }
}

/// Computes `dot_spec` exactly.
pub fn corner_dot(dx: i64, dy: i64, sx: i64, sy: i64) -> (r: i64)
    requires
        sx == 1 || sx == -1,
        sy == 1 || sy == -1,
        abs_i(dx as int) <= 2 * (MAX_COORD as int),
        abs_i(dy as int) <= 2 * (MAX_COORD as int),
    ensures
        r as int == dot_spec(dx as int, dy as int, sx as int, sy as int),
        abs_i(r as int) <= 2 * (FP_ONE as int),
{
    if dx == 0 && dy == 0 {
        return 0;
    }
    let xpart: i64 = if sx == 1 {
        dx
    } else {
        -dx
    };
    let ypart: i64 = if sy == 1 {
        dy
    } else {
        -dy
    };
    let num: i64 = xpart + ypart;
    proof {
        assert((sx as int) * (dx as int) == (if sx == 1int {
            dx as int
        } else {
            -(dx as int)
        })) by (nonlinear_arith)
            requires
                sx == 1 || sx == -1,
        ;
        assert((sy as int) * (dy as int) == (if sy == 1int {
            dy as int
        } else {
            -(dy as int)
        })) by (nonlinear_arith)
            requires
                sy == 1 || sy == -1,
        ;
    }
    assert(num as int == (sx as int) * (dx as int) + (sy as int) * (dy as int));
    proof {
        assert(0 <= (dx as int) * (dx as int) <= (2 * (MAX_COORD as int)) * (2 * (MAX_COORD
            as int))) by (nonlinear_arith)
            requires
                abs_i(dx as int) <= 2 * (MAX_COORD as int),
        ;
        assert(0 <= (dy as int) * (dy as int) <= (2 * (MAX_COORD as int)) * (2 * (MAX_COORD
            as int))) by (nonlinear_arith)
            requires
                abs_i(dy as int) <= 2 * (MAX_COORD as int),
        ;
        assert((2 * (MAX_COORD as int)) * (2 * (MAX_COORD as int)) + (2 * (MAX_COORD as int)) * (2
            * (MAX_COORD as int)) < 0x400000000000000000000000000int) by (nonlinear_arith);
    }
    let sq: u128 = (dx as i128 * dx as i128 + dy as i128 * dy as i128) as u128;
    let norm: u128 = isqrt(sq);
    let amag: u64 = if num < 0 {
        (-num) as u64
    } else {
        num as u64
    };
    proof {
        let n = sq as nat;
        let rt = norm as nat;
        // the root is at least the larger displacement component,
        // so the quotient is at most twice FP_ONE
        assert(rt >= abs_i(dx as int) && rt >= abs_i(dy as int)) by (nonlinear_arith)
            requires
                rt * rt <= n < (rt + 1) * (rt + 1),
                n == (dx as int) * (dx as int) + (dy as int) * (dy as int),
        ;
        assert(rt >= 1);
        assert(amag as int <= 2 * rt as int);
        assert((amag as int) * (FP_ONE as int) <= (rt as int) * (2 * FP_ONE as int))
            by (nonlinear_arith)
            requires
                amag as int <= 2 * rt as int,
                FP_ONE > 0,
        ;
        vstd::arithmetic::div_mod::lemma_div_is_ordered(
            (amag as int) * (FP_ONE as int),
            (rt as int) * (2 * FP_ONE as int),
            rt as int,
        );
        vstd::arithmetic::div_mod::lemma_div_multiples_vanish(2 * FP_ONE as int, rt as int);
        vstd::arithmetic::mul::lemma_mul_nonnegative(amag as int, FP_ONE as int);
        vstd::arithmetic::div_mod::lemma_div_pos_is_pos(
            (amag as int) * (FP_ONE as int),
            rt as int,
        );
    }
    let q: u128 = (amag as u128) * (FP_ONE as u128) / norm;
    let qi: i64 = q as i64;
    proof {
        let snum = (sx as int) * (dx as int) + (sy as int) * (dy as int);
        let snorm = isqrt_spec(((dx as int) * (dx as int) + (dy as int) * (dy as int)) as nat)
            as int;
        assert(norm as int == snorm);
        assert(amag as int == abs_i(snum));
        assert(q as int == (abs_i(snum) * (FP_ONE as int)) / snorm);
        assert(dot_spec(dx as int, dy as int, sx as int, sy as int) == sign_i(snum) * ((abs_i(
            snum,
        ) * (FP_ONE as int)) / snorm));
    }
    if num < 0 {
        -qi
    } else {
        qi
    }
}

/// The per-corner decay constant, interpolated between the slow and the
/// fast one by where the corner's alignment score sits between the
/// lowest and the highest of the four.
pub open spec fn decay_of_spec(dot: int, mn: int, mx: int, fast: nat, slow: nat) -> nat {
    if mx == mn {
        slow
    } else {
        (slow - ((slow - fast) * (dot - mn)) / (mx - mn)) as nat
    }
}

/// Computes `decay_of_spec` exactly; the result stays between the fast
/// and the slow constant.
pub fn decay_between(dot: i64, mn: i64, mx: i64, fast: u64, slow: u64) -> (r: u64)
    requires
        fast <= slow,
        mn <= dot <= mx,
        abs_i(mn as int) <= 2 * (FP_ONE as int),
        abs_i(mx as int) <= 2 * (FP_ONE as int),
    ensures
        r as nat == decay_of_spec(dot as int, mn as int, mx as int, fast as nat, slow as nat),
        fast <= r <= slow,
{
    if mx == mn {
        return slow;
    }
    let width: u64 = (mx - mn) as u64;
    let off: u64 = (dot - mn) as u64;
    proof {
        assert(((slow - fast) as int) * (off as int) <= 0xFFFFFFFFFFFFFFFFint * 0x400001int)
            by (nonlinear_arith)
            requires
                0 <= (slow - fast) as int <= 0xFFFFFFFFFFFFFFFFint,
                0 <= off as int <= 0x400001int,
        ;
        assert(((slow - fast) as int) * (off as int) <= ((slow - fast) as int) * (width as int))
            by (nonlinear_arith)
            requires
                off <= width,
                fast <= slow,
        ;
        vstd::arithmetic::div_mod::lemma_div_is_ordered(
            ((slow - fast) as int) * (off as int),
            ((slow - fast) as int) * (width as int),
            width as int,
        );
        vstd::arithmetic::div_mod::lemma_div_multiples_vanish(
            (slow - fast) as int,
            width as int,
        );
        vstd::arithmetic::div_mod::lemma_div_pos_is_pos(
            ((slow - fast) as int) * (off as int),
            width as int,
        );
        vstd::arithmetic::mul::lemma_mul_nonnegative(
            ((slow - fast) as int),
            off as int,
        );
    }
    let q: u128 = ((slow - fast) as u128) * (off as u128) / (width as u128);
    slow - (q as u64)
}

/// One axis of the easing step: the signed distance the coordinate
/// covers this frame, at least one unit whenever time passed and the
/// coordinate is off target, and never past the target.
pub open spec fn axis_move_spec(d: int, step: nat) -> int {
    if d == 0 || step == 0 {
        0
    } else {
        sign_i(d) * max_i(1, (abs_i(d) * (step as int)) / (FP_ONE as int))
    }
}

/// The coordinate after one easing step along one axis.
pub open spec fn axis_new_spec(cur: int, tgt: int, step: nat) -> int {
    cur + axis_move_spec(tgt - cur, step)
}

/// The easing step stays between the current coordinate and the target,
/// and makes strict progress whenever time passed.
pub proof fn lemma_axis_move(cur: int, tgt: int, step: nat)
    requires
        step <= FP_ONE as nat,
    ensures
        min_i(cur, tgt) <= axis_new_spec(cur, tgt, step) <= max_i(cur, tgt),
        abs_i(tgt - axis_new_spec(cur, tgt, step)) <= abs_i(tgt - cur),
        cur == tgt ==> axis_new_spec(cur, tgt, step) == cur,
        step == 0 ==> axis_new_spec(cur, tgt, step) == cur,
        cur != tgt && step >= 1 ==> abs_i(tgt - axis_new_spec(cur, tgt, step)) < abs_i(tgt - cur),
        axis_new_spec(cur, tgt, step) != tgt ==> sign_i(tgt - axis_new_spec(cur, tgt, step))
            == sign_i(tgt - cur),
{
    let d = tgt - cur;
    if d != 0 && step != 0 {
        let mag = (abs_i(d) * (step as int)) / (FP_ONE as int);
        assert(abs_i(d) * (step as int) <= abs_i(d) * (FP_ONE as int)) by (nonlinear_arith)
            requires
                step <= FP_ONE as nat,
                abs_i(d) >= 0,
        ;
        vstd::arithmetic::div_mod::lemma_div_is_ordered(
            abs_i(d) * (step as int),
            abs_i(d) * (FP_ONE as int),
            FP_ONE as int,
        );
        vstd::arithmetic::div_mod::lemma_div_multiples_vanish(abs_i(d), FP_ONE as int);
        vstd::arithmetic::mul::lemma_mul_nonnegative(abs_i(d), step as int);
        vstd::arithmetic::div_mod::lemma_div_pos_is_pos(abs_i(d) * (step as int), FP_ONE as int);
        assert(0 <= mag <= abs_i(d));
        let mv = sign_i(d) * max_i(1, mag);
        assert(1 <= max_i(1, mag) <= abs_i(d));
    }
}

/// Computes `axis_new_spec` exactly.
pub fn axis_step(cur: i64, tgt: i64, step: u64) -> (r: i64)
    requires
        abs_i(cur as int) <= MAX_COORD as int,
        abs_i(tgt as int) <= MAX_COORD as int,
        step <= FP_ONE,
    ensures
        r as int == axis_new_spec(cur as int, tgt as int, step as nat),
        abs_i(r as int) <= MAX_COORD as int,
{
    proof {
        lemma_axis_move(cur as int, tgt as int, step as nat);
    }
    if tgt == cur || step == 0 {
        return cur;
    }
    let d: i64 = tgt - cur;
    let amag: u64 = if d < 0 {
        (-d) as u64
    } else {
        d as u64
    };
    let scaled: u128 = (amag as u128) * (step as u128) / (FP_ONE as u128);
    proof {
        vstd::arithmetic::mul::lemma_mul_nonnegative(amag as int, step as int);
        assert((amag as int) * (step as int) <= (amag as int) * (FP_ONE as int))
            by (nonlinear_arith)
            requires
                step <= FP_ONE,
                amag >= 0,
        ;
        vstd::arithmetic::div_mod::lemma_div_is_ordered(
            (amag as int) * (step as int),
            (amag as int) * (FP_ONE as int),
            FP_ONE as int,
        );
        vstd::arithmetic::div_mod::lemma_div_multiples_vanish(amag as int, FP_ONE as int);
    }
    let mv: u64 = if scaled < 1 {
        1
    } else {
        scaled as u64
    };
    if d > 0 {
        cur + (mv as i64)
    } else {
        cur - (mv as i64)
    }
}

/// Computes `pow2_neg_spec` exactly.
pub fn pow2_neg(e: u64) -> (r: u64)
    ensures
        r as nat == pow2_neg_spec(e as nat),
        r <= FP_ONE,
{
    let k = e / FP_ONE;
    let f = e % FP_ONE;
    proof {
        lemma_pow2_neg_bounds(e as nat);
    }
    if k >= 20 {
        0
    } else {
        let d = two_pow_exec(k);
        (FP_ONE - f / 2) / d
    }
}

} // verus!
