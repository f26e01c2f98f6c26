use cursor_trail::render::PixelPos;
use cursor_trail::trail::CursorTrail;
use cursor_trail::trail::Pos;
use cursor_trail::trail::TickContext;

fn snapped_at(x: i64, y: i64) -> CursorTrail {
    let mut trail = CursorTrail::new(0);
    let ctx = TickContext {
        cursor_pos: Pos { x: x * 1_000_000, y: y * 1_000_000 },
        now: 0,
        distance_threshold: 2_000_000,
        decay_fast: 100,
        decay_slow: 400,
        dwell_threshold: 50,
    };
    trail.tick(ctx);
    trail
}

#[test]
fn render_projects_cells_to_window_pixels() {
    // quad at the (5, 5) cell box, 10x20 px cells, 800x600 px window,
    // no viewport offset: micro-pixel coordinates from the centered origin
    let trail = snapped_at(5, 5);
    let quad = trail.render(
        10_000_000,
        20_000_000,
        0,
        0,
        800_000_000,
        600_000_000,
        0,
        0,
    );
    assert_eq!(quad.top_left, PixelPos { x: -350_000_000, y: -200_000_000 });
    assert_eq!(quad.top_right, PixelPos { x: -340_000_000, y: -200_000_000 });
    assert_eq!(quad.bot_left, PixelPos { x: -350_000_000, y: -180_000_000 });
    assert_eq!(quad.bot_right, PixelPos { x: -340_000_000, y: -180_000_000 });
}

#[test]
fn render_subtracts_viewport_origin() {
    // the same quad with the viewport scrolled to row 3 and panned 2 cells
    let trail = snapped_at(5, 5);
    let quad = trail.render(
        10_000_000,
        20_000_000,
        2,
        3,
        800_000_000,
        600_000_000,
        0,
        0,
    );
    assert_eq!(quad.top_left, PixelPos { x: -370_000_000, y: -260_000_000 });
    assert_eq!(quad.bot_right, PixelPos { x: -360_000_000, y: -240_000_000 });
}

#[test]
fn render_applies_pixel_offset() {
    let trail = snapped_at(0, 0);
    let quad = trail.render(
        10_000_000,
        20_000_000,
        0,
        0,
        800_000_000,
        600_000_000,
        4_000_000,
        6_000_000,
    );
    assert_eq!(quad.top_left, PixelPos { x: -396_000_000, y: -294_000_000 });
}
