use rust_os_console::console::{Color, FrameGeometry, Writer};

fn geometry() -> FrameGeometry {
    // four cells per row, three rows
    FrameGeometry { width: 64, height: 48, stride: 64, bytes_per_pixel: 4 }
}

fn font() -> Vec<u8> {
    let mut f = vec![0u8; 128 * 8];
    for row in 0..8 {
        f[('#' as usize) * 8 + row] = 0xFF;
    }
    f
}

fn pixel(surface: &[u8], g: &FrameGeometry, x: usize, y: usize) -> [u8; 4] {
    let o = (y * g.width + x) * g.bytes_per_pixel;
    [surface[o], surface[o + 1], surface[o + 2], surface[o + 3]]
}

#[test]
fn long_row_wraps_to_column_zero() {
    let g = geometry();
    let mut surface = vec![0u8; 64 * 48 * 4];
    let mut w = Writer::new(g, font());
    w.write_string(&mut surface, "abcd");
    assert_eq!(w.get_cursor(), (64, 0));
    w.write_char(&mut surface, 'e');
    // the fifth character is drawn at x = 0 of the next row
    assert_eq!(w.get_cursor(), (16, 16));
}

#[test]
fn overflowing_rows_scroll_and_pin_cursor() {
    let g = geometry();
    let mut surface = vec![0u8; 64 * 48 * 4];
    let mut w = Writer::new(g, font());
    w.write_char(&mut surface, '\n');
    assert_eq!(w.get_cursor(), (0, 16));
    w.write_char(&mut surface, '\n');
    assert_eq!(w.get_cursor(), (0, 32));
    w.write_char(&mut surface, '#');
    w.write_char(&mut surface, '\n');
    // the row at 32 moved up to 16 and the bottom row was cleared
    assert_eq!(w.get_cursor(), (0, 32));
    assert_eq!(pixel(&surface, &g, 0, 16), [255, 255, 255, 255]);
    assert_eq!(pixel(&surface, &g, 0, 32), [0, 0, 0, 255]);
    w.write_char(&mut surface, '\n');
    assert_eq!(w.get_cursor(), (0, 32));
}

#[test]
fn glyph_is_drawn_in_both_colors() {
    let g = geometry();
    let mut surface = vec![7u8; 64 * 48 * 4];
    let mut w = Writer::new(g, font());
    w.set_fg_color(Color::red());
    w.set_bg_color(Color::blue());
    w.write_char(&mut surface, '#');
    // set bits in the foreground color, stored blue, green, red, alpha
    assert_eq!(pixel(&surface, &g, 15, 15), [0, 0, 255, 255]);
    w.write_char(&mut surface, ' ');
    assert_eq!(pixel(&surface, &g, 16, 0), [255, 0, 0, 255]);
    // outside the drawn cells nothing changed
    assert_eq!(pixel(&surface, &g, 40, 0), [7, 7, 7, 7]);
}

#[test]
fn carriage_return_resets_column_only() {
    let mut surface = vec![0u8; 64 * 48 * 4];
    let mut w = Writer::new(geometry(), font());
    w.write_string(&mut surface, "ab\n\rc");
    assert_eq!(w.get_cursor(), (16, 16));
    w.write_char(&mut surface, 'x');
    w.write_char(&mut surface, '\r');
    assert_eq!(w.get_cursor(), (0, 16));
}

#[test]
fn clear_screen_fills_background_and_homes_cursor() {
    let g = geometry();
    let mut surface = vec![9u8; 64 * 48 * 4];
    let mut w = Writer::new(g, font());
    w.write_string(&mut surface, "abc\nd");
    w.set_bg_color(Color::green());
    w.clear_screen(&mut surface);
    assert_eq!(w.get_cursor(), (0, 0));
    for (x, y) in [(0, 0), (63, 47), (20, 30)] {
        assert_eq!(pixel(&surface, &g, x, y), [0, 255, 0, 255]);
    }
}

#[test]
fn pixels_past_a_short_surface_are_dropped() {
    let mut surface = vec![5u8; 10];
    let mut w = Writer::new(geometry(), font());
    w.write_char(&mut surface, '#');
    // two whole pixels fit; the third would not, so its bytes stay
    assert_eq!(surface, vec![255, 255, 255, 255, 255, 255, 255, 255, 5, 5]);
    w.clear_screen(&mut surface);
    assert_eq!(surface, vec![255, 255, 255, 255, 255, 255, 255, 255, 5, 5]);
    assert_eq!(w.get_cursor(), (0, 0));
}

#[test]
fn three_byte_pixels_have_no_alpha() {
    let g = FrameGeometry { width: 32, height: 16, stride: 32, bytes_per_pixel: 3 };
    let mut surface = vec![1u8; 32 * 16 * 3];
    let mut w = Writer::new(g, font());
    w.set_fg_color(Color::yellow());
    w.write_char(&mut surface, '#');
    assert_eq!(&surface[0..4], &[0, 255, 255, 0]);
}

#[test]
fn backspace_moves_back_one_cell() {
    let mut surface = vec![0u8; 64 * 48 * 4];
    let mut w = Writer::new(geometry(), font());
    w.write_string(&mut surface, "##");
    w.backspace(&mut surface);
    assert_eq!(w.get_cursor(), (16, 0));
    assert_eq!(surface[(16) * 4], 0);
    w.backspace(&mut surface);
    w.backspace(&mut surface);
    assert_eq!(w.get_cursor(), (0, 0));
}

#[test]
fn clear_keeps_bytes_past_the_screen() {
    let g = geometry();
    let n = 64 * 48 * 4;
    let mut surface = vec![9u8; n + 6];
    let mut w = Writer::new(g, font());
    w.clear_screen(&mut surface);
    assert_eq!(&surface[n..], &[9u8; 6]);
    assert_eq!(pixel(&surface, &g, 63, 47), [0, 0, 0, 255]);
}

#[test]
fn wrapped_character_leaves_the_rest_alone() {
    let g = geometry();
    let mut surface = vec![3u8; 64 * 48 * 4];
    let mut w = Writer::new(g, font());
    w.write_string(&mut surface, "####");
    let snapshot = surface.clone();
    w.write_char(&mut surface, '#');
    assert_eq!(w.get_cursor(), (16, 16));
    for (i, (a, b)) in snapshot.iter().zip(surface.iter()).enumerate() {
        let p = i / 4;
        let (x, y) = (p % 64, p / 64);
        if !(x < 16 && (16..32).contains(&y)) {
            assert_eq!(a, b, "byte {} changed", i);
        }
    }
}
