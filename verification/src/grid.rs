use vstd::prelude::*;

verus! {

/// A width x height grid of 8-bit RGB pixels, stored in the image crate's
/// pixel buffer.  Verus sees the buffer only through `pixel_map`, and a
/// reader outside the library reads it one pixel at a time with `pixel_at`.
#[verifier::external_body]
pub struct PixelGrid {
    inner: image::RgbImage,
}

/// The contents of a pixel grid: each in-bounds coordinate pair (x, y) maps
/// to the RGB triple stored there.  The map's domain is exactly the set of
/// in-bounds coordinates of the grid.
pub uninterp spec fn pixel_map(g: PixelGrid) -> Map<(int, int), (u8, u8, u8)>;

/// The coordinates of a width x height pixel grid.
pub open spec fn grid_dom(w: int, h: int) -> Set<(int, int)> {
    Set::new(|p: (int, int)| 0 <= p.0 < w && 0 <= p.1 < h)
}

/// A width x height grid with every pixel black.
pub open spec fn blank_grid(w: int, h: int) -> Map<(int, int), (u8, u8, u8)> {
    Map::new(|p: (int, int)| 0 <= p.0 < w && 0 <= p.1 < h, |p: (int, int)| (0u8, 0u8, 0u8))
}

impl PixelGrid {
    /// Relies on image::ImageBuffer::new: allocates a width x height buffer
    /// with every subpixel zeroed; it panics only when 3 * width * height
    /// overflows usize, which the precondition rules out.
    #[verifier::external_body]
    pub(crate) fn new(width: u32, height: u32) -> (g: Self)
        requires
            3 * (width as int) * (height as int) <= usize::MAX as int,
        ensures
            pixel_map(g) == blank_grid(width as int, height as int),
    {
        PixelGrid { inner: image::RgbImage::new(width, height) }
    }

    /// Relies on image::ImageBuffer::put_pixel: overwrites the pixel at
    /// (x, y) and nothing else; it panics only out of bounds, which the
    /// precondition rules out.
    #[verifier::external_body]
    pub(crate) fn put(&mut self, x: u32, y: u32, c: (u8, u8, u8))
        requires
            pixel_map(*old(self)).dom().contains((x as int, y as int)),
        ensures
            pixel_map(*final(self)) == pixel_map(*old(self)).insert(
                (x as int, y as int),
                c,
            ),
    {
        self.inner.put_pixel(x, y, image::Rgb([c.0, c.1, c.2]));
    }

    /// Relies on image::ImageBuffer::get_pixel: returns the pixel stored at
    /// (x, y); it panics only out of bounds, which the precondition rules
    /// out.
    #[verifier::external_body]
    fn get(&self, x: u32, y: u32) -> (c: (u8, u8, u8))
        requires
            pixel_map(*self).dom().contains((x as int, y as int)),
        ensures
            c == pixel_map(*self)[(x as int, y as int)],
    {
        let p = self.inner.get_pixel(x, y);
        (p.0[0], p.0[1], p.0[2])
    }

    /// Reads one pixel of a populated grid.
    pub fn pixel_at(&self, x: u32, y: u32) -> (c: (u8, u8, u8))
        requires
            pixel_map(*self).dom().contains((x as int, y as int)),
        ensures
            c == pixel_map(*self)[(x as int, y as int)],
    {
        self.get(x, y)
    }
}

} // verus!
