use nes::gfx::{draw_glyph, draw_text, GlyphColor, Scale, StatusLine, StatusLineText, SCREEN_HEIGHT, SCREEN_SIZE, SCREEN_WIDTH, STATUS_LINE_PAUSE_DURATION, STATUS_LINE_Y, STATUS_LINE_X};

#[test]
fn scale_factors() {
    assert_eq!(Scale::Scale1x.factor(), 1);
    assert_eq!(Scale::Scale2x.factor(), 2);
    assert_eq!(Scale::Scale3x.factor(), 3);
}

#[test]
fn glyph_draws_inside_surface_only() {
    // A 4x4 surface: the glyph for 'A' is clipped.
    let mut pixels = vec![0x80u8; 4 * 4 * 3];
    draw_glyph(&mut pixels, 4, 0, 0, GlyphColor::White, ('A' as usize) - 32);
    assert!(pixels.iter().all(|&b| b == 0x80 || b == 0xff));
    // Drawing completely off the surface changes nothing.
    let mut pixels = vec![0x80u8; 4 * 4 * 3];
    draw_glyph(&mut pixels, 4, 100, 100, GlyphColor::White, 1);
    assert!(pixels.iter().all(|&b| b == 0x80));
}

#[test]
fn space_draws_nothing() {
    let mut pixels = vec![0x80u8; SCREEN_SIZE];
    draw_text(&mut pixels, SCREEN_WIDTH, 10, 10, "   ");
    assert!(pixels.iter().all(|&b| b == 0x80));
}

#[test]
fn text_draws_white_with_black_shadow() {
    let mut pixels = vec![0x80u8; SCREEN_SIZE];
    draw_text(&mut pixels, SCREEN_WIDTH, 10, 10, "Hi");
    assert!(pixels.iter().any(|&b| b == 0xff));
    assert!(pixels.iter().any(|&b| b == 0x00));
    assert!(pixels.iter().all(|&b| b == 0x80 || b == 0xff || b == 0x00));
    // Nothing above the text's first row is touched.
    assert!(pixels[..10 * SCREEN_WIDTH * 3].iter().all(|&b| b == 0x80));
}

#[test]
fn status_line_shows_then_slides_away() {
    let mut line = StatusLine::new();
    let mut pixels = vec![0x80u8; SCREEN_SIZE];
    line.render(&mut pixels);
    assert!(pixels.iter().all(|&b| b == 0x80), "idle line draws nothing");
    line.set("Saved state".to_string());
    line.render(&mut pixels);
    let row = STATUS_LINE_Y * SCREEN_WIDTH * 3;
    assert!(pixels[row..].iter().any(|&b| b == 0xff));
    assert!(pixels[..row].iter().all(|&b| b == 0x80));
    let total = STATUS_LINE_PAUSE_DURATION + 1 + (SCREEN_HEIGHT - STATUS_LINE_Y) + 1;
    // Through the pause and the first sliding frame the text is on screen.
    for _ in 0..STATUS_LINE_PAUSE_DURATION + 1 {
        line.tick();
    }
    let mut pixels = vec![0x80u8; SCREEN_SIZE];
    line.render(&mut pixels);
    assert!(pixels[row..].iter().any(|&b| b == 0xff));
    // The last sliding frames draw below the screen: nothing shows.
    for _ in STATUS_LINE_PAUSE_DURATION + 1..total - 1 {
        line.tick();
    }
    let mut pixels = vec![0x80u8; SCREEN_SIZE];
    line.render(&mut pixels);
    assert!(pixels.iter().all(|&b| b == 0x80));
    line.tick();
    let mut pixels = vec![0x80u8; SCREEN_SIZE];
    line.render(&mut pixels);
    assert!(pixels.iter().all(|&b| b == 0x80));
    assert_eq!(STATUS_LINE_X, 6);
}

#[test]
fn status_line_text_set_restarts() {
    let mut t = StatusLineText::new();
    t.set("A".to_string());
    for _ in 0..50 {
        t.tick();
    }
    t.set("B".to_string());
    let mut pixels = vec![0x80u8; SCREEN_SIZE];
    t.render(&mut pixels);
    let row = STATUS_LINE_Y * SCREEN_WIDTH * 3;
    assert!(pixels[row..].iter().any(|&b| b == 0xff));
}

#[test]
fn control_and_high_bytes_draw_nothing() {
    let mut pixels = vec![0x80u8; SCREEN_SIZE];
    draw_text(&mut pixels, SCREEN_WIDTH, 10, 10, "\n\t\u{7f}\u{e9}");
    assert!(pixels.iter().all(|&b| b == 0x80));
}

#[test]
fn far_coordinates_are_clipped() {
    let mut pixels = vec![0x80u8; 4 * 4 * 3];
    draw_glyph(&mut pixels, 4, 1_000_000, -50_000, GlyphColor::White, 33);
    assert!(pixels.iter().all(|&b| b == 0x80));
    let mut screen = vec![0x80u8; SCREEN_SIZE];
    draw_text(&mut screen, SCREEN_WIDTH, -100_000, 10, "far to the left");
    assert!(screen.iter().all(|&b| b == 0x80));
}
