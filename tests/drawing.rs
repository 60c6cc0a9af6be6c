use eink_waveshare_rs::drawing::{Color, Graphics};

fn pixel(g: &Graphics, buf: &[u8], x: u32, y: u32) -> bool {
    let row = (g.width as u32 + 7) / 8;
    let idx = (y * row + x / 8) as usize;
    buf[idx] & (0x80u8 >> (x % 8)) != 0
}

fn black_pixels(g: &Graphics, buf: &[u8]) -> Vec<(u32, u32)> {
    let mut out = Vec::new();
    for y in 0..g.height as u32 {
        for x in 0..g.width as u32 {
            if !pixel(g, buf, x, y) {
                out.push((x, y));
            }
        }
    }
    out
}

fn white_canvas(w: u16, h: u16) -> (Graphics, Vec<u8>) {
    let g = Graphics::new(w, h);
    let mut buf = vec![0u8; g.get_buffer_len()];
    g.clear(&mut buf, &Color::White);
    (g, buf)
}

#[test]
fn buffer_len_rounds_rows_up() {
    assert_eq!(Graphics::new(400, 300).get_buffer_len(), 15000);
    assert_eq!(Graphics::new(10, 3).get_buffer_len(), 6);
}

#[test]
fn color_bytes() {
    assert_eq!(Color::White.get_full_byte(), 0xff);
    assert_eq!(Color::Black.get_full_byte(), 0x00);
    assert_eq!(Color::White.get_bit_value(), 1);
    assert_eq!(Color::Black.get_bit_value(), 0);
}

#[test]
fn draw_pixel_reads_back() {
    let (g, mut buf) = white_canvas(16, 4);
    g.draw_pixel(&mut buf, 9, 2, &Color::Black);
    assert!(!pixel(&g, &buf, 9, 2));
    assert_eq!(buf[5], 0b1011_1111);
    assert_eq!(black_pixels(&g, &buf), vec![(9, 2)]);
    g.draw_pixel(&mut buf, 9, 2, &Color::White);
    assert!(buf.iter().all(|b| *b == 0xff));
}

#[test]
fn draw_pixel_outside_is_noop() {
    let (g, mut buf) = white_canvas(16, 4);
    let before = buf.clone();
    g.draw_pixel(&mut buf, 16, 0, &Color::Black);
    g.draw_pixel(&mut buf, 0, 4, &Color::Black);
    g.draw_pixel(&mut buf, 500, 500, &Color::Black);
    assert_eq!(buf, before);
}

#[test]
fn clear_overwrites() {
    let g = Graphics::new(12, 3);
    let mut buf = vec![0x5au8; g.get_buffer_len()];
    g.clear(&mut buf, &Color::White);
    g.clear(&mut buf, &Color::Black);
    assert!(buf.iter().all(|b| *b == 0x00));
    g.clear(&mut buf, &Color::White);
    assert!(buf.iter().all(|b| *b == 0xff));
}

#[test]
fn draw_line_exact_pixels() {
    let (g, mut buf) = white_canvas(8, 8);
    g.draw_line(&mut buf, 0, 0, 4, 2, &Color::Black);
    assert_eq!(black_pixels(&g, &buf), vec![(0, 0), (1, 1), (2, 1), (3, 2), (4, 2)]);
}

#[test]
fn draw_line_symmetric() {
    let ends = [(0u16, 0u16, 4u16, 2u16), (1, 7, 6, 0), (3, 3, 3, 3), (0, 5, 7, 5), (2, 0, 2, 7), (7, 1, 0, 6), (0, 0, 7, 7)];
    for (x0, y0, x1, y1) in ends {
        let (g, mut a) = white_canvas(8, 8);
        let mut b = a.clone();
        g.draw_line(&mut a, x0, y0, x1, y1, &Color::Black);
        g.draw_line(&mut b, x1, y1, x0, y0, &Color::Black);
        assert_eq!(a, b);
    }
}

#[test]
fn draw_line_clips_far_end() {
    let (g, mut buf) = white_canvas(8, 8);
    g.draw_line(&mut buf, 0, 0, 400, 300, &Color::Black);
    assert!(!pixel(&g, &buf, 0, 0));
}

#[test]
fn horizontal_and_vertical_match_draw_line() {
    let (g, mut a) = white_canvas(16, 8);
    let mut b = a.clone();
    g.draw_horizontal_line(&mut a, 3, 2, 9, &Color::Black);
    g.draw_line(&mut b, 3, 2, 11, 2, &Color::Black);
    assert_eq!(a, b);
    g.draw_vertical_line(&mut a, 14, 1, 6, &Color::Black);
    g.draw_line(&mut b, 14, 1, 14, 6, &Color::Black);
    assert_eq!(a, b);
    assert_eq!(black_pixels(&g, &a).len(), 15);
}

#[test]
fn draw_rectangle_outline() {
    let (g, mut buf) = white_canvas(8, 8);
    g.draw_rectangle(&mut buf, 5, 4, 1, 1, &Color::Black);
    let px = black_pixels(&g, &buf);
    assert_eq!(px.len(), 14);
    assert!(px.contains(&(1, 1)) && px.contains(&(5, 4)) && px.contains(&(3, 1)) && px.contains(&(5, 2)));
    assert!(!px.contains(&(3, 2)));
}

#[test]
fn draw_filled_rectangle_exact() {
    let (g, mut buf) = white_canvas(16, 8);
    g.draw_filled_rectangle(&mut buf, 2, 1, 10, 3, &Color::Black);
    let mut expected = Vec::new();
    for y in 1..=3 {
        for x in 2..=10 {
            expected.push((x, y));
        }
    }
    assert_eq!(black_pixels(&g, &buf), expected);
}

#[test]
fn draw_circle_quarter_turn_symmetric() {
    let (g, mut buf) = white_canvas(32, 32);
    g.draw_circle(&mut buf, 16, 16, 10, &Color::Black);
    let px = black_pixels(&g, &buf);
    assert!(!px.is_empty());
    for (x, y) in &px {
        let (rx, ry) = (16 + 16 - *y as i64, 16 + (*x as i64 - 16));
        assert!(px.contains(&(rx as u32, ry as u32)));
    }
    assert!(px.contains(&(16, 6)) && px.contains(&(26, 16)) && px.contains(&(6, 16)) && px.contains(&(16, 26)));
    assert!(!px.contains(&(16, 16)));
}

#[test]
fn draw_circle_small_radii() {
    let (g, mut buf) = white_canvas(8, 8);
    g.draw_circle(&mut buf, 3, 3, 0, &Color::Black);
    assert_eq!(black_pixels(&g, &buf), vec![(3, 3)]);
    let (g, mut buf) = white_canvas(8, 8);
    g.draw_circle(&mut buf, 3, 3, 1, &Color::Black);
    assert_eq!(black_pixels(&g, &buf), vec![(3, 2), (2, 3), (4, 3), (3, 4)]);
}

#[test]
fn draw_circle_clips_at_edge() {
    let (g, mut buf) = white_canvas(8, 8);
    g.draw_circle(&mut buf, 0, 0, 2, &Color::Black);
    let px = black_pixels(&g, &buf);
    assert!(px.contains(&(2, 0)) && px.contains(&(0, 2)));
}

#[test]
fn draw_filled_circle_covers_outline_and_center() {
    let (g, mut outline) = white_canvas(32, 32);
    g.draw_circle(&mut outline, 16, 16, 7, &Color::Black);
    let (_, mut disk) = white_canvas(32, 32);
    g.draw_filled_circle(&mut disk, 16, 16, 7, &Color::Black);
    let o = black_pixels(&g, &outline);
    let d = black_pixels(&g, &disk);
    for p in &o {
        assert!(d.contains(p));
    }
    assert!(d.contains(&(16, 16)));
    assert!(!d.contains(&(16, 24)));
    for (x, y) in &d {
        let (rx, ry) = (16 + 16 - *y as i64, 16 + (*x as i64 - 16));
        assert!(d.contains(&(rx as u32, ry as u32)));
    }
}

#[test]
fn draw_char_glyph() {
    let (g, mut buf) = white_canvas(8, 8);
    g.draw_char(&mut buf, 0, 0, '!', &Color::Black);
    // Rows of '!' are 0x18 0x3C 0x3C 0x18 0x18 0x00 0x18 0x00, leftmost pixel in bit 0.
    assert_eq!(buf, vec![!0x18u8, !0x3C, !0x3C, !0x18, !0x18, 0xff, !0x18, 0xff]);
}

#[test]
fn draw_string_cells_and_fallback() {
    let (g, mut buf) = white_canvas(24, 8);
    g.draw_string(&mut buf, 0, 0, &['!', '\u{e9}', '!'], &Color::Black);
    for row in 0..8 {
        assert_eq!(buf[row * 3 + 1], 0xff);
        assert_eq!(buf[row * 3], buf[row * 3 + 2]);
    }
    assert_eq!(buf[0], !0x18u8);
}
