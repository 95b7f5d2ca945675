use roguelike::common::ScreenPosition;
use roguelike::gfx::{draw_rect, fill_rect, Canvas};

fn rgb_at(buf: &[u8], w: usize, x: usize, y: usize) -> (u8, u8, u8, u8) {
    let i = (y * w + x) * 4;
    (buf[i], buf[i + 1], buf[i + 2], buf[i + 3])
}

#[test]
fn new_canvas_makes_pixels_opaque() {
    let mut buf = vec![7u8; 4 * 3 * 2 + 5];
    {
        let c = Canvas::new(&mut buf, (3, 2));
        assert_eq!(c.used_colors(), 0);
        assert_eq!(c.dimensions, (3, 2));
    }
    for p in 0..6 {
        assert_eq!(&buf[p * 4..p * 4 + 4], &[7, 7, 7, 0xFF]);
    }
    // Bytes after the pixels are not touched.
    assert_eq!(&buf[24..], &[7, 7, 7, 7, 7]);
}

#[test]
fn set_pixel_writes_one_pixel() {
    let mut buf = vec![0u8; 4 * 4 * 4];
    {
        let mut c = Canvas::new(&mut buf, (4, 4));
        assert_eq!(c.set_pixel(2, 1, 0x123456), Ok(()));
    }
    assert_eq!(rgb_at(&buf, 4, 2, 1), (0x12, 0x34, 0x56, 0xFF));
    assert_eq!(rgb_at(&buf, 4, 1, 2), (0, 0, 0, 0xFF));
    assert_eq!(rgb_at(&buf, 4, 3, 1), (0, 0, 0, 0xFF));
}

#[test]
fn set_pixel_outside_is_refused_but_counts_color() {
    let mut buf = vec![0u8; 4 * 2 * 2];
    let before;
    {
        let mut c = Canvas::new(&mut buf, (2, 2));
        assert_eq!(c.set_pixel(2, 0, 0xFF0000), Err(()));
        assert_eq!(c.set_pixel(0, 5, 0xFF0000), Err(()));
        assert_eq!(c.used_colors(), 1);
        before = ();
    }
    let _ = before;
    assert!(buf.chunks(4).all(|p| p == [0, 0, 0, 0xFF]));
}

#[test]
fn used_colors_counts_distinct_colors() {
    let mut buf = vec![0u8; 4 * 2 * 2];
    let mut c = Canvas::new(&mut buf, (2, 2));
    c.set_pixel(0, 0, 1).unwrap();
    c.set_pixel(1, 0, 2).unwrap();
    c.set_pixel(0, 1, 1).unwrap();
    c.clear(2);
    assert_eq!(c.used_colors(), 2);
    c.clear(3);
    assert_eq!(c.used_colors(), 3);
}

#[test]
fn clear_paints_every_pixel() {
    let mut buf = vec![9u8; 4 * 3 * 3 + 2];
    {
        let mut c = Canvas::new(&mut buf, (3, 3));
        c.clear(0xAABBCC);
        assert_eq!(c.used_colors(), 1);
    }
    for y in 0..3 {
        for x in 0..3 {
            assert_eq!(rgb_at(&buf, 3, x, y), (0xAA, 0xBB, 0xCC, 0xFF));
        }
    }
    assert_eq!(&buf[36..], &[9, 9]);
}

#[test]
fn fill_rect_fills_and_clips() {
    let mut buf = vec![0u8; 4 * 4 * 4];
    {
        let mut c = Canvas::new(&mut buf, (4, 4));
        fill_rect(&mut c, ScreenPosition(2, 1), (5, 2), 0x010203);
        assert_eq!(c.used_colors(), 1);
    }
    for y in 0..4 {
        for x in 0..4 {
            let inside = x >= 2 && (1..3).contains(&y);
            let expect = if inside { (1, 2, 3, 0xFF) } else { (0, 0, 0, 0xFF) };
            assert_eq!(rgb_at(&buf, 4, x, y), expect);
        }
    }
}

#[test]
fn fill_rect_with_negative_position_wraps_around() {
    let mut buf = vec![0u8; 4 * 4 * 4];
    {
        let mut c = Canvas::new(&mut buf, (4, 4));
        // Starts one pixel left of and above the canvas.
        fill_rect(&mut c, ScreenPosition(-1, -1), (3, 3), 0xFFFFFF);
    }
    for y in 0..4 {
        for x in 0..4 {
            let inside = x < 2 && y < 2;
            let expect = if inside { (0xFF, 0xFF, 0xFF, 0xFF) } else { (0, 0, 0, 0xFF) };
            assert_eq!(rgb_at(&buf, 4, x, y), expect);
        }
    }
}

#[test]
fn fill_rect_of_no_size_does_nothing() {
    let mut buf = vec![0u8; 4 * 2 * 2];
    let mut c = Canvas::new(&mut buf, (2, 2));
    fill_rect(&mut c, ScreenPosition(0, 0), (0, 2), 0x111111);
    assert_eq!(c.used_colors(), 0);
}

#[test]
fn draw_rect_draws_outline_only() {
    let mut buf = vec![0u8; 4 * 5 * 5];
    {
        let mut c = Canvas::new(&mut buf, (5, 5));
        draw_rect(&mut c, ScreenPosition(1, 1), (3, 3), 0x0000FF);
        assert_eq!(c.used_colors(), 1);
    }
    for y in 0..5 {
        for x in 0..5 {
            let on = (1..4).contains(&x) && (1..4).contains(&y) && !(x == 2 && y == 2);
            let expect = if on { (0, 0, 0xFF, 0xFF) } else { (0, 0, 0, 0xFF) };
            assert_eq!(rgb_at(&buf, 5, x, y), expect, "pixel {} {}", x, y);
        }
    }
}

#[test]
fn used_colors_is_the_number_of_distinct_colors_given() {
    let mut buf = vec![0u8; 4 * 3 * 3];
    let mut c = Canvas::new(&mut buf, (3, 3));
    let colors = [5u32, 9, 5, 0xFFFFFF, 9, 42, 42, 5];
    let mut seen: Vec<u32> = Vec::new();
    for (k, col) in colors.iter().enumerate() {
        let before = c.used_colors();
        // Refused pixels (off the canvas) count as well.
        let _ = c.set_pixel(k, k, *col);
        if !seen.contains(col) {
            seen.push(*col);
        }
        assert_eq!(c.used_colors(), seen.len());
        assert!(c.used_colors() == before || c.used_colors() == before + 1);
    }
    assert_eq!(c.used_colors(), 4);
}
