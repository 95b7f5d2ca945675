use roguelike::common::ScreenPosition;
use roguelike::filter::{
    InvertingFilter, MirrorMode, MirroringFilter, MonoFilter, RotatingFilter, Rotation, TransparencyFilter,
    TruncatingFilter,
};
use roguelike::gfx::{BitData, Canvas, Drawable, ImageSource, RGBAData, RGBData, Sprite, Tileset};

// A 2 x 2 image: red, green / blue, white.
static RGB_2X2: [u8; 12] = [0xFF, 0, 0, 0, 0xFF, 0, 0, 0, 0xFF, 0xFF, 0xFF, 0xFF];

// A 4 x 2 image made of two 2 x 2 tiles.
static RGB_4X2: [u8; 24] = [
    1, 1, 1, 2, 2, 2, 3, 3, 3, 4, 4, 4, //
    5, 5, 5, 6, 6, 6, 7, 7, 7, 8, 8, 8,
];

// 8 x 2 one-bit image: first row 10110000, second row 00000001.
static BITS: [u8; 2] = [0b1011_0000, 0b0000_0001];

static RGBA_1X2: [u8; 8] = [9, 0x40, 9, 9, 9, 0x80, 9, 9];
static RGBA_ONE: [u8; 4] = [1, 2, 3, 4];

fn rgb_at(buf: &[u8], w: usize, x: usize, y: usize) -> (u8, u8, u8) {
    let i = (y * w + x) * 4;
    (buf[i], buf[i + 1], buf[i + 2])
}

#[test]
fn rgb_data_reads_pixels() {
    let img = RGBData::new(&RGB_2X2, (2, 2));
    assert_eq!(img.width(), 2);
    assert_eq!(img.height(), 2);
    assert_eq!(img.get_pixel_rgb((0, 0)), Some(0xFF0000));
    assert_eq!(img.get_pixel_rgb((1, 0)), Some(0x00FF00));
    assert_eq!(img.get_pixel_rgb((0, 1)), Some(0x0000FF));
    assert_eq!(img.get_pixel_rgb((1, 1)), Some(0xFFFFFF));
}

#[test]
fn rgba_data_reads_red_green_blue_and_skips_alpha() {
    let img = RGBAData::new(&RGBA_1X2, (1, 2));
    assert_eq!(img.get_pixel_rgb((0, 0)), Some(0x094009));
    assert_eq!(img.get_pixel_rgb((0, 1)), Some(0x098009));
    let one = RGBAData::new(&RGBA_ONE, (1, 1));
    assert_eq!(one.get_pixel_rgb((0, 0)), Some(0x010203));
}

#[test]
fn bit_data_maps_bits_to_colors() {
    let colors = [None, Some(0xABCDEF)];
    let img = BitData::new(&BITS, (8, 2), 1, &colors);
    assert_eq!(img.width(), 8);
    let row0: Vec<Option<u32>> = (0..8).map(|x| img.get_pixel_rgb((x, 0))).collect();
    assert_eq!(
        row0,
        vec![Some(0xABCDEF), None, Some(0xABCDEF), Some(0xABCDEF), None, None, None, None]
    );
    assert_eq!(img.get_pixel_rgb((7, 1)), Some(0xABCDEF));
    assert_eq!(img.get_pixel_rgb((6, 1)), None);
}

#[test]
fn bit_data_two_bits() {
    // Two bits per pixel: the pixel's byte is shifted by 7 - offset and masked.
    static TWO: [u8; 1] = [0b1100_0000];
    let colors = [Some(0), Some(1), Some(2), Some(3)];
    let img = BitData::new(&TWO, (4, 1), 2, &colors);
    assert_eq!(img.get_pixel_rgb((0, 0)), Some(1));
    assert_eq!(img.get_pixel_rgb((1, 0)), Some(3));
}

#[test]
fn sprite_draws_image_at_position() {
    let img = RGBData::new(&RGB_2X2, (2, 2));
    let trans = TransparencyFilter::new(&img, 0xFFFFFF);
    let sprite = Sprite::new(&trans);
    let mut buf = vec![0u8; 4 * 3 * 3];
    {
        let mut c = Canvas::new(&mut buf, (3, 3));
        sprite.draw(ScreenPosition(1, 1), &mut c);
        assert_eq!(c.used_colors(), 3);
    }
    assert_eq!(rgb_at(&buf, 3, 1, 1), (0xFF, 0, 0));
    assert_eq!(rgb_at(&buf, 3, 2, 1), (0, 0xFF, 0));
    assert_eq!(rgb_at(&buf, 3, 1, 2), (0, 0, 0xFF));
    // The white pixel is transparent.
    assert_eq!(rgb_at(&buf, 3, 2, 2), (0, 0, 0));
    assert_eq!(rgb_at(&buf, 3, 0, 0), (0, 0, 0));
}

#[test]
fn sprite_partly_off_canvas() {
    let img = RGBData::new(&RGB_2X2, (2, 2));
    let sprite = Sprite::new(&img);
    let mut buf = vec![0u8; 4 * 2 * 2];
    {
        let mut c = Canvas::new(&mut buf, (2, 2));
        sprite.draw(ScreenPosition(-1, 0), &mut c);
        // All four colors count as used, even those that fall off the canvas.
        assert_eq!(c.used_colors(), 4);
    }
    assert_eq!(rgb_at(&buf, 2, 0, 0), (0, 0xFF, 0));
    assert_eq!(rgb_at(&buf, 2, 0, 1), (0xFF, 0xFF, 0xFF));
    assert_eq!(rgb_at(&buf, 2, 1, 0), (0, 0, 0));
}

#[test]
fn tileset_cuts_tiles() {
    let img = RGBData::new(&RGB_4X2, (4, 2));
    let tiles = Tileset::new(&img, (2, 2));
    assert_eq!(tiles.tiles_per_row(), 2);
    assert_eq!(tiles.tiles_per_column(), 1);
    assert!(tiles.get_tile((2, 0)).is_err());
    assert!(tiles.get_tile((0, 1)).is_err());
    let second = tiles.get_tile((1, 0)).unwrap();
    assert_eq!(second.width(), 2);
    assert_eq!(second.get_pixel_rgb((0, 0)), Some(0x030303));
    assert_eq!(second.get_pixel_rgb((1, 1)), Some(0x080808));
    assert_eq!(second.get_pixel_rgb((2, 0)), None);
}

#[test]
fn tileset_tile_draws_its_part() {
    let img = RGBData::new(&RGB_4X2, (4, 2));
    let tiles = Tileset::new(&img, (2, 2));
    let tile = tiles.get_tile((1, 0)).unwrap();
    let mut buf = vec![0u8; 4 * 2 * 2];
    {
        let mut c = Canvas::new(&mut buf, (2, 2));
        tile.draw(ScreenPosition(0, 0), &mut c);
        assert_eq!(c.used_colors(), 4);
    }
    assert_eq!(rgb_at(&buf, 2, 0, 0), (3, 3, 3));
    assert_eq!(rgb_at(&buf, 2, 1, 0), (4, 4, 4));
    assert_eq!(rgb_at(&buf, 2, 0, 1), (7, 7, 7));
    assert_eq!(rgb_at(&buf, 2, 1, 1), (8, 8, 8));
}

#[test]
fn inverting_filter_inverts_and_twice_restores() {
    let img = RGBData::new(&RGB_2X2, (2, 2));
    let inv = InvertingFilter::new(&img);
    assert_eq!(inv.get_pixel_rgb((0, 0)), Some(0x00FFFF));
    assert_eq!(inv.get_pixel_rgb((1, 1)), Some(0));
    let back = InvertingFilter::new(&inv);
    for x in 0..2 {
        for y in 0..2 {
            assert_eq!(back.get_pixel_rgb((x, y)), img.get_pixel_rgb((x, y)));
        }
    }
}

#[test]
fn mirroring_filter_flips() {
    let img = RGBData::new(&RGB_2X2, (2, 2));
    let v = MirroringFilter::new(&img, MirrorMode::Vertical);
    assert_eq!(v.get_pixel_rgb((0, 0)), Some(0x00FF00));
    let h = MirroringFilter::new(&img, MirrorMode::Horizontal);
    assert_eq!(h.get_pixel_rgb((0, 0)), Some(0x0000FF));
    let off = MirroringFilter::new(&img, MirrorMode::Off);
    assert_eq!(off.get_pixel_rgb((1, 0)), Some(0x00FF00));
    let vv = MirroringFilter::new(&v, MirrorMode::Vertical);
    assert_eq!(vv.get_pixel_rgb((1, 0)), img.get_pixel_rgb((1, 0)));
}

#[test]
fn mono_and_transparency_filters() {
    let img = RGBData::new(&RGB_2X2, (2, 2));
    let t = TransparencyFilter::new(&img, 0x00FF00);
    assert_eq!(t.get_pixel_rgb((1, 0)), None);
    assert_eq!(t.get_pixel_rgb((0, 0)), Some(0xFF0000));
    let m = MonoFilter::new(&t, 0x123456);
    assert_eq!(m.get_pixel_rgb((0, 0)), Some(0x123456));
    assert_eq!(m.get_pixel_rgb((1, 0)), None);
}

#[test]
fn rotating_filter_turns() {
    let img = RGBData::new(&RGB_4X2, (4, 2));
    let r90 = RotatingFilter::new(&img, Rotation::Rotate90);
    assert_eq!(r90.width(), 2);
    assert_eq!(r90.height(), 4);
    // (x, y) shows inner (y, width - x - 1).
    assert_eq!(r90.get_pixel_rgb((0, 0)), img.get_pixel_rgb((0, 1)));
    let r180 = RotatingFilter::new(&img, Rotation::Rotate180);
    assert_eq!(r180.get_pixel_rgb((0, 0)), Some(0x080808));
    let back = RotatingFilter::new(&r180, Rotation::Rotate180);
    assert_eq!(back.get_pixel_rgb((2, 1)), img.get_pixel_rgb((2, 1)));
    let r0 = RotatingFilter::new(&img, Rotation::Rotate0);
    assert_eq!(r0.get_pixel_rgb((3, 0)), Some(0x040404));
}

#[test]
fn truncating_filter_hides_border() {
    let img = RGBData::new(&RGB_4X2, (4, 2));
    let t = TruncatingFilter::new(&img, 0, 0);
    // With a 4 x 2 image every pixel touches an edge.
    for x in 0..4 {
        for y in 0..2 {
            assert_eq!(t.get_pixel_rgb((x, y)), None);
        }
    }
    static BIG: [u8; 27] = [1; 27];
    let big = RGBData::new(&BIG, (3, 3));
    let t = TruncatingFilter::new(&big, 0, 0);
    assert_eq!(t.get_pixel_rgb((1, 1)), Some(0x010101));
    assert_eq!(t.get_pixel_rgb((0, 1)), None);
}
