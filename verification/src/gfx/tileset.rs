use vstd::prelude::*;

use crate::common::ScreenPosition;
use crate::gfx::canvas::{Canvas, blit_at, blit_colors};
use crate::gfx::sprite::{blit_image, block_readable, cell_readable};
use crate::gfx::{Drawable, ImageSource, image_cells};

verus! {

/// An image cut into equally sized tiles.
pub struct Tileset<'a, S: ImageSource> {
    /// Pointer to the image data.
    image: &'a S,
    /// Dimensions of each tile.
    tile_size: (usize, usize),
}

impl<'a, S: ImageSource> Tileset<'a, S> {
    /// The image that is cut into tiles.
    pub closed spec fn source(&self) -> &'a S {
        self.image
    }

    /// Width and height of each tile.
    pub closed spec fn tile_dims(&self) -> (usize, usize) {
        self.tile_size
    }

    /// Tiles are not empty and cover the image exactly.
    pub open spec fn wf(&self) -> bool {
        &&& self.tile_dims().0 > 0
        &&& self.tile_dims().1 > 0
        &&& self.source().image_width() % self.tile_dims().0 == 0
        &&& self.source().image_height() % self.tile_dims().1 == 0
    }

    /// Number of tiles per row.
    pub open spec fn columns(&self) -> int {
        (self.source().image_width() / self.tile_dims().0) as int
    }

    /// Number of tiles per column.
    pub open spec fn rows(&self) -> int {
        (self.source().image_height() / self.tile_dims().1) as int
    }

    /// Cuts `image` into tiles of `tile_size`; the image's size must be a
    /// multiple of the tile size.
    pub fn new(image: &'a S, tile_size: (usize, usize)) -> (r: Self)
        requires
            tile_size.0 > 0,
            tile_size.1 > 0,
            image.image_width() % tile_size.0 == 0,
            image.image_height() % tile_size.1 == 0,
        ensures
            r.wf(),
            r.source() == image,
            r.tile_dims() == tile_size,
    {
        if image.width() % tile_size.0 != 0 || image.height() % tile_size.1 != 0 {
            // size should be divisible by tile_size.
            assert(false);
        }
        Self { image, tile_size }
    }

    pub fn tiles_per_row(&self) -> (r: usize)
        requires
            self.wf(),
        ensures
            r == self.columns(),
    {
        self.image.width() / self.tile_size.0
    }

    pub fn tiles_per_column(&self) -> (r: usize)
        requires
            self.wf(),
        ensures
            r == self.rows(),
    {
        self.image.height() / self.tile_size.1
    }

    /// The tile at `index` (column, row), if there is one.
    pub fn get_tile(&self, index: (usize, usize)) -> (r: Result<TilesetTile<'_, S>, ()>)
        requires
            self.wf(),
        ensures
            r is Ok <==> (index.0 < self.columns() && index.1 < self.rows()),
            r matches Ok(t) ==> t.set() == self && t.idx() == index && t.wf(),
    {
        if index.0 < self.tiles_per_row() && index.1 < self.tiles_per_column() {
            Ok(TilesetTile { tileset: self, index })
        } else {
            Err(())
        }
    }
}

/// A single tile out of a tileset.
pub struct TilesetTile<'a, S: ImageSource> {
    tileset: &'a Tileset<'a, S>,
    index: (usize, usize),
}

pub proof fn lemma_tile_origin(w: int, t: int, k: int)
    requires
        t > 0,
        w >= 0,
        w % t == 0,
        0 <= k < w / t,
    ensures
        0 <= k * t,
        k * t + t <= w,
{
    assert(0 <= k * t && k * t + t <= w) by (nonlinear_arith)
        requires
            t > 0,
            w >= 0,
            w % t == 0,
            0 <= k < w / t,
    {
        assert(w == (w / t) * t);
        assert(k + 1 <= w / t);
        assert((k + 1) * t <= (w / t) * t);
    }
}

impl<'a, S: ImageSource> TilesetTile<'a, S> {
    /// The tileset the tile belongs to.
    pub closed spec fn set(&self) -> &'a Tileset<'a, S> {
        self.tileset
    }

    /// Column and row of the tile in the tileset.
    pub closed spec fn idx(&self) -> (usize, usize) {
        self.index
    }

    /// The tile lies inside its tileset.
    pub open spec fn wf(&self) -> bool {
        &&& self.set().wf()
        &&& self.idx().0 < self.set().columns()
        &&& self.idx().1 < self.set().rows()
    }

    /// Image coordinates of the tile's top left pixel.
    pub open spec fn origin(&self) -> (int, int) {
        (
            self.idx().0 * self.set().tile_dims().0,
            self.idx().1 * self.set().tile_dims().1,
        )
    }

    fn origin_exec(&self) -> (r: (usize, usize))
        requires
            self.wf(),
        ensures
            r.0 == self.origin().0,
            r.1 == self.origin().1,
            r.0 + self.set().tile_dims().0 <= self.set().source().image_width(),
            r.1 + self.set().tile_dims().1 <= self.set().source().image_height(),
    {
        proof {
            lemma_tile_origin(
                self.set().source().image_width() as int,
                self.set().tile_dims().0 as int,
                self.idx().0 as int,
            );
            lemma_tile_origin(
                self.set().source().image_height() as int,
                self.set().tile_dims().1 as int,
                self.idx().1 as int,
            );
        }
        (self.index.0 * self.tileset.tile_size.0, self.index.1 * self.tileset.tile_size.1)
    }
}

impl<'a, S: ImageSource> Drawable for TilesetTile<'a, S> {
    open spec fn paint_at(&self, position: ScreenPosition, x: int, y: int) -> Option<u32> {
        blit_at(
            (position.0 as usize) as int,
            (position.1 as usize) as int,
            self.set().tile_dims().0 as int,
            self.set().tile_dims().1 as int,
            image_cells(self.set().source(), self.origin().0, self.origin().1),
            self.set().tile_dims().0 as int,
            0,
            x,
            y,
        )
    }

    open spec fn drawn_colors(&self) -> Set<u32> {
        blit_colors(
            self.set().tile_dims().0 as int,
            self.set().tile_dims().1 as int,
            image_cells(self.set().source(), self.origin().0, self.origin().1),
            self.set().tile_dims().0 as int,
            0,
        )
    }

    open spec fn can_draw(&self) -> bool {
        &&& self.wf()
        &&& block_readable(
            self.set().source(),
            self.origin().0,
            self.origin().1,
            self.set().tile_dims().0 as int,
            self.set().tile_dims().1 as int,
        )
    }

    fn draw(&self, position: ScreenPosition, canvas: &mut Canvas) {
        let origin = self.origin_exec();
        blit_image(
            self.tileset.image,
            origin.0,
            origin.1,
            self.tileset.tile_size.0,
            self.tileset.tile_size.1,
            position,
            canvas,
        );
    }
}

impl<'a, S: ImageSource> ImageSource for TilesetTile<'a, S> {
    open spec fn pixel(&self, position: (usize, usize)) -> Option<u32> {
        if position.0 < self.set().tile_dims().0 && position.1 < self.set().tile_dims().1 {
            self.set().source().pixel(
                (
                    (position.0 + self.origin().0) as usize,
                    (position.1 + self.origin().1) as usize,
                ),
            )
        } else {
            None
        }
    }

    open spec fn readable(&self, position: (usize, usize)) -> bool {
        &&& self.wf()
        &&& (position.0 < self.set().tile_dims().0 && position.1 < self.set().tile_dims().1)
            ==> cell_readable(
            self.set().source(),
            self.origin().0,
            self.origin().1,
            position.0 as int,
            position.1 as int,
        )
    }

    open spec fn image_width(&self) -> usize {
        self.set().tile_dims().0
    }

    open spec fn image_height(&self) -> usize {
        self.set().tile_dims().1
    }

    fn get_pixel_rgb(&self, position: (usize, usize)) -> (r: Option<u32>) {
        let tile_x = position.0;
        let tile_y = position.1;
        if tile_x < self.tileset.tile_size.0 && tile_y < self.tileset.tile_size.1 {
            let origin = self.origin_exec();
            let source_x = tile_x + origin.0;
            let source_y = tile_y + origin.1;
            self.tileset.image.get_pixel_rgb((source_x, source_y))
        } else {
            None
        }
    }

    fn width(&self) -> (r: usize) {
        self.tileset.tile_size.0
    }

    fn height(&self) -> (r: usize) {
        self.tileset.tile_size.1
    }
}

} // verus!
