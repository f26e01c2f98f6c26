use cursor_trail::config::default_distance_threshold;
use cursor_trail::config::default_duration;
use cursor_trail::config::default_dwell_threshold;
use cursor_trail::config::default_opacity;
use cursor_trail::config::default_spread;
use cursor_trail::config::CursorTrailConfig;
use cursor_trail::trail::CursorTrail;
use cursor_trail::trail::Pos;
use cursor_trail::trail::TickContext;
use cursor_trail::trail::TrailQuad;
use cursor_trail::trail::TrailTarget;
use cursor_trail::trail::SETTLED_THRESHOLD;
use cursor_trail::UNITS_PER_CELL;

fn cell(n: i64) -> i64 {
    n * UNITS_PER_CELL
}

fn ctx_at(x: i64, y: i64, now: u64) -> TickContext {
    TickContext {
        cursor_pos: Pos { x: cell(x), y: cell(y) },
        now,
        distance_threshold: cell(2),
        decay_fast: 100,
        decay_slow: 400,
        dwell_threshold: 50,
    }
}

#[test]
fn first_tick_snaps_without_drawing() {
    let mut trail = CursorTrail::new(0);
    let dirty = trail.tick(ctx_at(5, 7, 16));
    assert!(!dirty);
    assert_eq!(trail.quad, TrailQuad::at(Pos { x: cell(5), y: cell(7) }));
    assert_eq!(trail.target, Some(TrailTarget::at(Pos { x: cell(5), y: cell(7) })));
    assert!(trail.settled(SETTLED_THRESHOLD));
}

#[test]
fn proximity_snap_suppresses_trail() {
    // settled at (5, 5); a one-cell move with distance_threshold = 2 snaps
    let mut trail = CursorTrail::new(0);
    assert!(!trail.tick(ctx_at(5, 5, 0)));
    let dirty = trail.tick(ctx_at(6, 5, 16));
    assert!(!dirty);
    assert_eq!(trail.quad, TrailQuad::at(Pos { x: cell(6), y: cell(5) }));
    assert_eq!(trail.target, Some(TrailTarget::at(Pos { x: cell(6), y: cell(5) })));
}

#[test]
fn dwell_suppression_keeps_target_on_rapid_jumps() {
    // a jump followed by a second jump 10ms later retargets neither time
    let mut trail = CursorTrail::new(0);
    assert!(!trail.tick(ctx_at(5, 5, 0)));
    let old_target = trail.target;
    trail.tick(ctx_at(10, 5, 100));
    assert_eq!(trail.target, old_target);
    trail.tick(ctx_at(15, 5, 110));
    assert_eq!(trail.target, old_target);
}

#[test]
fn dwelled_cursor_retargets() {
    let mut trail = CursorTrail::new(0);
    assert!(!trail.tick(ctx_at(5, 5, 0)));
    trail.tick(ctx_at(10, 5, 100));
    // the cursor rests at (10, 5) past the 50ms dwell threshold
    trail.tick(ctx_at(10, 5, 160));
    assert_eq!(trail.target, Some(TrailTarget::at(Pos { x: cell(10), y: cell(5) })));
}

#[test]
fn dirty_while_inside_dwell_window() {
    // a settled quad stays visible while the dwell decision is pending
    let mut trail = CursorTrail::new(0);
    assert!(!trail.tick(ctx_at(5, 5, 0)));
    let dirty = trail.tick(ctx_at(10, 5, 100));
    assert!(dirty);
}

#[test]
fn interp_exact_anisotropic_step() {
    // quad at the (0, 0) box, retargeted to (5, 0), dt = 100ms:
    // leading corners use the fast constant (step 999024 of a million),
    // trailing corners the slow one (step 812500 of a million)
    let mut trail = CursorTrail::new(0);
    assert!(!trail.tick(ctx_at(0, 0, 0)));
    trail.tick(ctx_at(5, 0, 100));
    let dirty = trail.tick(ctx_at(5, 0, 200));
    assert!(dirty);
    assert_eq!(trail.target, Some(TrailTarget::at(Pos { x: cell(5), y: 0 })));
    assert_eq!(
        trail.quad,
        TrailQuad {
            tl: Pos { x: 4_062_500, y: 0 },
            tr: Pos { x: 5_995_120, y: 0 },
            br: Pos { x: 5_995_120, y: cell(1) },
            bl: Pos { x: 4_062_500, y: cell(1) },
        }
    );
}

#[test]
fn leading_corners_converge_faster() {
    // after the step above, the leading (right) corners are nearer their
    // target edge than the trailing (left) corners are to theirs
    let mut trail = CursorTrail::new(0);
    assert!(!trail.tick(ctx_at(0, 0, 0)));
    trail.tick(ctx_at(5, 0, 100));
    trail.tick(ctx_at(5, 0, 200));
    let lead_rest = cell(6) - trail.quad.tr.x;
    let trail_rest = cell(5) - trail.quad.tl.x;
    assert!(lead_rest < trail_rest);
}

#[test]
fn repeated_ticks_strictly_approach_target() {
    let mut trail = CursorTrail::new(0);
    assert!(!trail.tick(ctx_at(0, 0, 0)));
    trail.tick(ctx_at(5, 3, 100));
    trail.tick(ctx_at(5, 3, 200));
    let mut now = 200;
    let mut prev = cell(5) - trail.quad.tl.x;
    assert!(prev > 0);
    for _ in 0..6 {
        now += 16;
        trail.tick(ctx_at(5, 3, now));
        let rest = cell(5) - trail.quad.tl.x;
        assert!(0 <= rest && rest < prev);
        prev = rest;
    }
}

#[test]
fn idempotent_rest() {
    // exactly at rest, dwelled: repeated ticks change nothing and draw nothing
    let p = Pos { x: cell(5), y: cell(5) };
    let mut trail = CursorTrail {
        quad: TrailQuad::at(p),
        target: Some(TrailTarget::at(p)),
        last_cursor_pos: p,
        cursor_last_moved: 0,
        updated_at: 1000,
    };
    let quad_before = trail.quad;
    for i in 0..5u64 {
        let dirty = trail.tick(ctx_at(5, 5, 2000 + i * 16));
        assert!(!dirty);
        assert_eq!(trail.quad, quad_before);
        assert_eq!(trail.target, Some(TrailTarget::at(p)));
    }
}

#[test]
fn settlement_threshold_boundary() {
    // a corner at exactly 0.1 cell is settled; at 0.10001 cell it is not
    let p = Pos { x: cell(5), y: cell(5) };
    let mut quad = TrailQuad::at(p);
    quad.tl.x -= 100_000;
    let trail = CursorTrail {
        quad,
        target: Some(TrailTarget::at(p)),
        last_cursor_pos: p,
        cursor_last_moved: 0,
        updated_at: 0,
    };
    assert!(trail.settled(SETTLED_THRESHOLD));

    let mut quad2 = TrailQuad::at(p);
    quad2.tl.x -= 100_010;
    let trail2 = CursorTrail { quad: quad2, ..trail };
    assert!(!trail2.settled(SETTLED_THRESHOLD));
}

#[test]
fn settled_is_false_without_target() {
    let trail = CursorTrail::new(0);
    assert!(!trail.settled(SETTLED_THRESHOLD));
}

#[test]
fn from_cursor_derives_decays_and_threshold() {
    let config = CursorTrailConfig::default();
    let ctx = TickContext::from_cursor(5, 7, 123, &config);
    assert_eq!(ctx.cursor_pos, Pos { x: cell(5), y: cell(7) });
    assert_eq!(ctx.now, 123);
    assert_eq!(ctx.decay_fast, 100);
    assert_eq!(ctx.decay_slow, 400);
    assert_eq!(ctx.distance_threshold, cell(2));
    assert_eq!(ctx.dwell_threshold, 50);
}

#[test]
fn from_cells_handles_negative_rows() {
    let p = Pos::from_cells(3, -2);
    assert_eq!(p, Pos { x: cell(3), y: cell(-2) });
}

#[test]
fn validate_accepts_defaults() {
    let config = CursorTrailConfig::default();
    assert!(config.validate().is_ok());
    assert_eq!(config.enabled, false);
    assert_eq!(config.dwell_threshold, default_dwell_threshold());
    assert_eq!(config.duration, default_duration());
    assert_eq!(config.spread, default_spread());
    assert_eq!(config.distance_threshold, default_distance_threshold());
    assert_eq!(config.opacity, default_opacity());
}

#[test]
fn validate_rejects_small_spread() {
    let config = CursorTrailConfig { spread: 1000, ..CursorTrailConfig::default() };
    let err = config.validate().unwrap_err();
    assert!(err.contains("cursor_trail.spread"));
    let config2 = CursorTrailConfig { spread: 1001, ..CursorTrailConfig::default() };
    assert!(config2.validate().is_ok());
}

#[test]
fn validate_rejects_large_opacity() {
    let config = CursorTrailConfig { opacity: 1001, ..CursorTrailConfig::default() };
    let err = config.validate().unwrap_err();
    assert!(err.contains("cursor_trail.opacity"));
    let config2 = CursorTrailConfig { opacity: 1000, ..CursorTrailConfig::default() };
    assert!(config2.validate().is_ok());
}

#[test]
fn defaults_exact_values() {
    assert_eq!(default_duration(), 100);
    assert_eq!(default_spread(), 4000);
    assert_eq!(default_distance_threshold(), 2);
    assert_eq!(default_dwell_threshold(), 50);
    assert_eq!(default_opacity(), 800);
}
