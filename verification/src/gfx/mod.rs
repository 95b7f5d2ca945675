use vstd::prelude::*;

use crate::common::ScreenPosition;

pub mod canvas;
pub mod primitives;
pub mod source;
pub mod sprite;
pub mod tileset;

pub use self::canvas::Canvas;
pub use self::primitives::{draw_rect, fill_rect};
pub use self::source::bit::BitData;
pub use self::source::rgb::RGBData;
pub use self::source::rgba::RGBAData;
pub use self::sprite::Sprite;
pub use self::tileset::{Tileset, TilesetTile};






verus! {

/// Contains methods to draw something on something else.
pub trait Drawable {
    /// The color this drawable puts on canvas pixel `(x, y)` when drawn at
    /// `position`; `None` leaves the pixel as it is.
    spec fn paint_at(&self, position: ScreenPosition, x: int, y: int) -> Option<u32>;

    /// The colors that drawing uses (whether or not they land on the canvas).
    spec fn drawn_colors(&self) -> Set<u32>;

    /// Whether every pixel that drawing reads can be read.
    spec fn can_draw(&self) -> bool;

    /// Draw ourselves to the canvas at the provided coordinates.
    fn draw(&self, position: ScreenPosition, canvas: &mut Canvas)
        requires
            self.can_draw(),
            old(canvas).wf(),
        ensures
            final(canvas).wf(),
            final(canvas).w() == old(canvas).w(),
            final(canvas).h() == old(canvas).h(),
            canvas::frame_after(
                old(canvas).bytes(),
                final(canvas).bytes(),
                old(canvas).w(),
                old(canvas).h(),
                |x: int, y: int| self.paint_at(position, x, y),
            ),
            canvas::colors_grow(old(canvas).colors(), final(canvas).colors(), self.drawn_colors()),
    ;
}

/// Methods that can be used from image sources (e.g. sprite data).
pub trait ImageSource {
    /// The color of a pixel; `None` is transparent.
    spec fn pixel(&self, position: (usize, usize)) -> Option<u32>;

    /// Whether the pixel can be read without failing.
    spec fn readable(&self, position: (usize, usize)) -> bool;

    /// Width of the image.
    spec fn image_width(&self) -> usize;

    /// Height of the image.
    spec fn image_height(&self) -> usize;

    /// Read a single pixel color value.
    fn get_pixel_rgb(&self, position: (usize, usize)) -> (r: Option<u32>)
        requires
            self.readable(position),
        ensures
            r == self.pixel(position),
    ;

    /// Get width of image source.
    fn width(&self) -> (r: usize)
        ensures
            r == self.image_width(),
    ;

    /// Get height of image source.
    fn height(&self) -> (r: usize)
        ensures
            r == self.image_height(),
    ;
}

/// Every pixel inside the image's width and height can be read.
pub open spec fn fully_readable<S: ImageSource>(s: &S) -> bool {
    forall|x: usize, y: usize|
        x < s.image_width() && y < s.image_height() ==> #[trigger] s.readable((x, y))
}

/// The image as a block of cells for copying, offset by `(ox, oy)`.
pub open spec fn image_cells<S: ImageSource>(s: &S, ox: int, oy: int) -> spec_fn(int, int) -> Option<
    u32,
> {
    |i: int, j: int| s.pixel(((i + ox) as usize, (j + oy) as usize))
}

} // verus!
