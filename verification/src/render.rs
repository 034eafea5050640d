use vstd::prelude::*;

use crate::colour::grey_spec;
use crate::colour::hsl_spec;
use crate::colour::hsl_to_rgb;
use crate::colour::iteration_to_grey;
use crate::colour::iteration_to_palette;
use crate::colour::palette_spec;
use crate::fp::sgl_div;
use crate::fp::sgl_mul;
use crate::fp::sgl_of_u32;
use crate::fp::spec_dbl_of_u32;
use crate::fp::spec_sgl_div;
use crate::fp::spec_sgl_mul;
use crate::fp::spec_sgl_of_u32;
use crate::fractals::julia;
use crate::fractals::julia_count;
use crate::fractals::mandel_count;
use crate::fractals::mandelbrot;
use crate::fractals::pixel_to_plane;
use crate::fractals::plane_coord;
use crate::grid::blank_grid;
use crate::grid::grid_dom;
use crate::grid::pixel_map;
use crate::grid::PixelGrid;

verus! {

/// The iteration count that a row-major count sequence for a width w grid
/// holds for pixel (x, y).
pub open spec fn count_at(counts: Seq<u32>, w: int, x: int, y: int) -> u32 {
    counts[y * w + x]
}

/// Populates a width x height grid with the given row-major colours: pixel
/// (x, y) receives colours[y * width + x].  Every pixel is written exactly
/// once and the returned grid is fully populated.
pub fn render_grid(width: u32, height: u32, colours: &Vec<(u8, u8, u8)>) -> (g: PixelGrid)
    requires
        colours@.len() == (width as int) * (height as int),
        3 * (width as int) * (height as int) <= usize::MAX as int,
    ensures
        pixel_map(g).dom() == grid_dom(width as int, height as int),
        forall|x: int, y: int|
            0 <= x < width && 0 <= y < height ==> #[trigger] pixel_map(g)[(x, y)]
                == colours@[y * (width as int) + x],
{
    let ghost w: int = width as int;
    let ghost h: int = height as int;
    let mut g = PixelGrid::new(width, height);
    proof {
        assert(blank_grid(w, h).dom() =~= grid_dom(w, h));
    }
    let mut y: u32 = 0;
    while y < height
        invariant
            y <= height,
            colours@.len() == w * h,
            3 * w * h <= usize::MAX as int,
            w == width as int,
            h == height as int,
            pixel_map(g).dom() == grid_dom(w, h),
            forall|i: int, j: int|
                0 <= i < w && 0 <= j < y ==> #[trigger] pixel_map(g)[(i, j)] == colours@[j * w
                    + i],
        decreases height - y,
    {
        let mut x: u32 = 0;
        while x < width
            invariant
                x <= width,
                y < height,
                colours@.len() == w * h,
                3 * w * h <= usize::MAX as int,
                w == width as int,
                h == height as int,
                pixel_map(g).dom() == grid_dom(w, h),
                forall|i: int, j: int|
                    0 <= i < w && 0 <= j < y ==> #[trigger] pixel_map(g)[(i, j)] == colours@[j * w
                        + i],
                forall|i: int|
                    0 <= i < x ==> #[trigger] pixel_map(g)[(i, y as int)] == colours@[(y as int) * w
                        + i],
            decreases width - x,
        {
            proof {
                assert(0 <= (y as int) * w + (x as int) && (y as int) * w + (x as int)
                    < colours@.len() && colours@.len() <= usize::MAX as int) by (nonlinear_arith)
                    requires
                        x < width,
                        y < height,
                        w == width as int,
                        h == height as int,
                        colours@.len() == w * h,
                        3 * w * h <= usize::MAX as int,
                ;
            }
            let idx: usize = (y as usize) * (width as usize) + (x as usize);
            let c: (u8, u8, u8) = colours[idx];
            g.put(x, y, c);
            proof {
                assert(pixel_map(g).dom() =~= grid_dom(w, h));
                assert(pixel_map(g)[(x as int, y as int)] == colours@[(y as int) * w + (x as int)]);
            }
            x = x + 1;
        }
        y = y + 1;
    }
    g
}

/// The colour pass of the Mandelbrot rendering: each count is mapped to the
/// fixed palette by its last decimal digit.
fn palette_colours(counts: &Vec<u32>) -> (out: Vec<(u8, u8, u8)>)
    ensures
        out@.len() == counts@.len(),
        forall|i: int| 0 <= i < counts@.len() ==> #[trigger] out@[i] == palette_spec(
            counts@[i] as int % 10,
        ),
{
    let mut out: Vec<(u8, u8, u8)> = Vec::new();
    let mut k: usize = 0;
    while k < counts.len()
        invariant
            k <= counts@.len(),
            out@.len() == k,
            forall|i: int| 0 <= i < k ==> #[trigger] out@[i] == palette_spec(counts@[i] as int % 10),
        decreases counts@.len() - k,
    {
        out.push(iteration_to_palette(counts[k]));
        k = k + 1;
    }
    out
}

/// The colour pass of the single Julia rendering: each count becomes a grey
/// intensity from its low 8 bits.
fn grey_colours(counts: &Vec<u32>) -> (out: Vec<(u8, u8, u8)>)
    ensures
        out@.len() == counts@.len(),
        forall|i: int| 0 <= i < counts@.len() ==> #[trigger] out@[i] == grey_spec(counts@[i]),
{
    let mut out: Vec<(u8, u8, u8)> = Vec::new();
    let mut k: usize = 0;
    while k < counts.len()
        invariant
            k <= counts@.len(),
            out@.len() == k,
            forall|i: int| 0 <= i < k ==> #[trigger] out@[i] == grey_spec(counts@[i]),
        decreases counts@.len() - k,
    {
        out.push(iteration_to_grey(counts[k]));
        k = k + 1;
    }
    out
}

/// The colour pass of the animation: each count, reduced to its low 8 bits,
/// selects an entry of a 256-entry colour table.
fn table_colours(counts: &Vec<u32>, table: &Vec<(u8, u8, u8)>) -> (out: Vec<(u8, u8, u8)>)
    requires
        table@.len() == 256,
    ensures
        out@.len() == counts@.len(),
        forall|i: int| 0 <= i < counts@.len() ==> #[trigger] out@[i] == table@[counts@[i] as int % 256],
{
    let mut out: Vec<(u8, u8, u8)> = Vec::new();
    let mut k: usize = 0;
    while k < counts.len()
        invariant
            k <= counts@.len(),
            table@.len() == 256,
            out@.len() == k,
            forall|i: int| 0 <= i < k ==> #[trigger] out@[i] == table@[counts@[i] as int % 256],
        decreases counts@.len() - k,
    {
        let n: u32 = counts[k];
        let e: usize = (n % 256) as usize;
        out.push(table[e]);
        k = k + 1;
    }
    out
}

/// Composes the Mandelbrot image: pixel (x, y) carries the palette colour of
/// the iteration count that the row-major count sequence holds for it.
pub fn mandelbrot_palette_image(width: u32, height: u32, counts: &Vec<u32>) -> (g: PixelGrid)
    requires
        counts@.len() == (width as int) * (height as int),
        3 * (width as int) * (height as int) <= usize::MAX as int,
    ensures
        pixel_map(g).dom() == grid_dom(width as int, height as int),
        forall|x: int, y: int|
            0 <= x < width && 0 <= y < height ==> #[trigger] pixel_map(g)[(x, y)] == palette_spec(
                count_at(counts@, width as int, x, y) as int % 10,
            ),
{
    let colours = palette_colours(counts);
    let g = render_grid(width, height, &colours);
    proof {
        assert forall|x: int, y: int| 0 <= x < width && 0 <= y < height implies #[trigger] pixel_map(
            g,
        )[(x, y)] == palette_spec(count_at(counts@, width as int, x, y) as int % 10) by {
            let i = y * (width as int) + x;
            assert(0 <= i < counts@.len()) by (nonlinear_arith)
                requires
                    0 <= x < width,
                    0 <= y < height,
                    i == y * (width as int) + x,
                    counts@.len() == (width as int) * (height as int),
            ;
            assert(colours@[i] == palette_spec(counts@[i] as int % 10));
            assert(pixel_map(g)[(x, y)] == colours@[i]);
        }
    }
    g
}

/// Composes the single Julia image: pixel (x, y) carries the grey intensity
/// of the iteration count that the row-major count sequence holds for it.
pub fn julia_greyscale_image(width: u32, height: u32, counts: &Vec<u32>) -> (g: PixelGrid)
    requires
        counts@.len() == (width as int) * (height as int),
        3 * (width as int) * (height as int) <= usize::MAX as int,
    ensures
        pixel_map(g).dom() == grid_dom(width as int, height as int),
        forall|x: int, y: int|
            0 <= x < width && 0 <= y < height ==> #[trigger] pixel_map(g)[(x, y)] == grey_spec(
                count_at(counts@, width as int, x, y),
            ),
{
    let colours = grey_colours(counts);
    let g = render_grid(width, height, &colours);
    proof {
        assert forall|x: int, y: int| 0 <= x < width && 0 <= y < height implies #[trigger] pixel_map(
            g,
        )[(x, y)] == grey_spec(count_at(counts@, width as int, x, y)) by {
            let i = y * (width as int) + x;
            assert(0 <= i < counts@.len()) by (nonlinear_arith)
                requires
                    0 <= x < width,
                    0 <= y < height,
                    i == y * (width as int) + x,
                    counts@.len() == (width as int) * (height as int),
            ;
            assert(colours@[i] == grey_spec(counts@[i]));
            assert(pixel_map(g)[(x, y)] == colours@[i]);
        }
    }
    g
}

/// Composes one animation frame: pixel (x, y) carries the table entry that
/// the iteration count for it, reduced to its low 8 bits, selects.
pub fn julia_animation_frame(
    width: u32,
    height: u32,
    counts: &Vec<u32>,
    table: &Vec<(u8, u8, u8)>,
) -> (g: PixelGrid)
    requires
        counts@.len() == (width as int) * (height as int),
        3 * (width as int) * (height as int) <= usize::MAX as int,
        table@.len() == 256,
    ensures
        pixel_map(g).dom() == grid_dom(width as int, height as int),
        forall|x: int, y: int|
            0 <= x < width && 0 <= y < height ==> #[trigger] pixel_map(g)[(x, y)]
                == table@[count_at(counts@, width as int, x, y) as int % 256],
{
    let colours = table_colours(counts, table);
    let g = render_grid(width, height, &colours);
    proof {
        assert forall|x: int, y: int| 0 <= x < width && 0 <= y < height implies #[trigger] pixel_map(
            g,
        )[(x, y)] == table@[count_at(counts@, width as int, x, y) as int % 256] by {
            let i = y * (width as int) + x;
            assert(0 <= i < counts@.len()) by (nonlinear_arith)
                requires
                    0 <= x < width,
                    0 <= y < height,
                    i == y * (width as int) + x,
                    counts@.len() == (width as int) * (height as int),
            ;
            assert(colours@[i] == table@[counts@[i] as int % 256]);
            assert(pixel_map(g)[(x, y)] == colours@[i]);
        }
    }
    g
}

/// Scans the pixel grid of a window and collects the Julia escape count of
/// every pixel, row-major: entry (x, y) is the count of the plane coordinate
/// that the window mapping gives that pixel.
pub fn julia_count_grid(
    width: u32,
    height: u32,
    x_lo: u64,
    x_hi: u64,
    y_lo: u64,
    y_hi: u64,
    seed: (u64, u64),
    escape_radius: u32,
    max_iterations: u32,
) -> (counts: Vec<u32>)
    requires
        1 <= escape_radius <= 65535,
        1 <= max_iterations,
        (width as int) * (height as int) <= usize::MAX as int,
    ensures
        counts@.len() == (width as int) * (height as int),
        forall|x: int, y: int|
            0 <= x < width && 0 <= y < height ==> #[trigger] count_at(counts@, width as int, x, y)
                == julia_count(
                seed,
                (
                    plane_coord(x as u32, width, x_lo, x_hi),
                    plane_coord(y as u32, height, y_lo, y_hi),
                ),
                spec_dbl_of_u32((escape_radius * escape_radius) as u32),
                1,
                max_iterations,
            ),
{
    let ghost w: int = width as int;
    let ghost h: int = height as int;
    let ghost bound: u64 = spec_dbl_of_u32((escape_radius * escape_radius) as u32);
    let mut counts: Vec<u32> = Vec::new();
    let mut y: u32 = 0;
    while y < height
        invariant
            y <= height,
            w == width as int,
            h == height as int,
            w * h <= usize::MAX as int,
            1 <= escape_radius <= 65535,
            1 <= max_iterations,
            bound == spec_dbl_of_u32((escape_radius * escape_radius) as u32),
            counts@.len() == y * w,
            forall|i: int, j: int|
                0 <= i < w && 0 <= j < y ==> #[trigger] count_at(counts@, w, i, j) == julia_count(
                    seed,
                    (
                        plane_coord(i as u32, width, x_lo, x_hi),
                        plane_coord(j as u32, height, y_lo, y_hi),
                    ),
                    bound,
                    1,
                    max_iterations,
                ),
        decreases height - y,
    {
        let cy = pixel_to_plane(y, height, y_lo, y_hi);
        let mut x: u32 = 0;
        while x < width
            invariant
                x <= width,
                y < height,
                w == width as int,
                h == height as int,
                w * h <= usize::MAX as int,
                1 <= escape_radius <= 65535,
                1 <= max_iterations,
                bound == spec_dbl_of_u32((escape_radius * escape_radius) as u32),
                cy == plane_coord(y, height, y_lo, y_hi),
                counts@.len() == y * w + x,
                forall|i: int, j: int|
                    0 <= i < w && 0 <= j < y ==> #[trigger] count_at(counts@, w, i, j)
                        == julia_count(
                        seed,
                        (
                            plane_coord(i as u32, width, x_lo, x_hi),
                            plane_coord(j as u32, height, y_lo, y_hi),
                        ),
                        bound,
                        1,
                        max_iterations,
                    ),
                forall|i: int|
                    0 <= i < x ==> #[trigger] count_at(counts@, w, i, y as int) == julia_count(
                        seed,
                        (
                            plane_coord(i as u32, width, x_lo, x_hi),
                            plane_coord(y, height, y_lo, y_hi),
                        ),
                        bound,
                        1,
                        max_iterations,
                    ),
            decreases width - x,
        {
            proof {
                assert(0 <= (y as int) * w + (x as int) && (y as int) * w + (x as int) < w * h)
                    by (nonlinear_arith)
                    requires
                        x < width,
                        y < height,
                        w == width as int,
                        h == height as int,
                ;
            }
            let cx = pixel_to_plane(x, width, x_lo, x_hi);
            let n = julia(seed, (cx, cy), escape_radius, max_iterations);
            let ghost prev = counts@;
            counts.push(n);
            proof {
                assert forall|i: int, j: int| 0 <= i < w && 0 <= j < y implies #[trigger] count_at(
                    counts@,
                    w,
                    i,
                    j,
                ) == count_at(prev, w, i, j) by {
                    assert(0 <= j * w + i && j * w + i < prev.len()) by (nonlinear_arith)
                        requires
                            0 <= i < w,
                            0 <= j < y,
                            prev.len() == y * w + x,
                            0 <= x,
                    ;
                }
                assert forall|i: int| 0 <= i < x implies #[trigger] count_at(counts@, w, i, y as int)
                    == count_at(prev, w, i, y as int) by {
                    assert(0 <= (y as int) * w + i && (y as int) * w + i < prev.len())
                        by (nonlinear_arith)
                        requires
                            0 <= i < x,
                            prev.len() == y * w + x,
                            0 <= y,
                            0 <= w,
                    ;
                }
                assert(count_at(counts@, w, x as int, y as int) == n);
            }
            x = x + 1;
        }
        proof {
            assert((y + 1) * w == y * w + w) by (nonlinear_arith);
        }
        y = y + 1;
    }
    proof {
        assert(h * w == w * h) by (nonlinear_arith);
    }
    counts
}

/// Scans the pixel grid of a window and collects the Mandelbrot escape count
/// of every pixel, row-major, each orbit started from zero with the counter
/// at 1: entry (x, y) is the count of the plane coordinate that the window
/// mapping gives that pixel.
pub fn mandelbrot_count_grid(
    width: u32,
    height: u32,
    x_lo: u64,
    x_hi: u64,
    y_lo: u64,
    y_hi: u64,
    max_iterations: u32,
) -> (counts: Vec<u32>)
    requires
        1 <= max_iterations,
        (width as int) * (height as int) <= usize::MAX as int,
    ensures
        counts@.len() == (width as int) * (height as int),
        forall|x: int, y: int|
            0 <= x < width && 0 <= y < height ==> #[trigger] count_at(counts@, width as int, x, y)
                == mandel_count(
                (
                    plane_coord(x as u32, width, x_lo, x_hi),
                    plane_coord(y as u32, height, y_lo, y_hi),
                ),
                (0u64, 0u64),
                1,
                max_iterations,
            ),
{
    let ghost w: int = width as int;
    let ghost h: int = height as int;
    let mut counts: Vec<u32> = Vec::new();
    let mut y: u32 = 0;
    while y < height
        invariant
            y <= height,
            w == width as int,
            h == height as int,
            w * h <= usize::MAX as int,
            1 <= max_iterations,
            counts@.len() == y * w,
            forall|i: int, j: int|
                0 <= i < w && 0 <= j < y ==> #[trigger] count_at(counts@, w, i, j) == mandel_count(
                    (
                        plane_coord(i as u32, width, x_lo, x_hi),
                        plane_coord(j as u32, height, y_lo, y_hi),
                    ),
                    (0u64, 0u64),
                    1,
                    max_iterations,
                ),
        decreases height - y,
    {
        let cy = pixel_to_plane(y, height, y_lo, y_hi);
        let mut x: u32 = 0;
        while x < width
            invariant
                x <= width,
                y < height,
                w == width as int,
                h == height as int,
                w * h <= usize::MAX as int,
                1 <= max_iterations,
                cy == plane_coord(y, height, y_lo, y_hi),
                counts@.len() == y * w + x,
                forall|i: int, j: int|
                    0 <= i < w && 0 <= j < y ==> #[trigger] count_at(counts@, w, i, j)
                        == mandel_count(
                        (
                            plane_coord(i as u32, width, x_lo, x_hi),
                            plane_coord(j as u32, height, y_lo, y_hi),
                        ),
                        (0u64, 0u64),
                        1,
                        max_iterations,
                    ),
                forall|i: int|
                    0 <= i < x ==> #[trigger] count_at(counts@, w, i, y as int) == mandel_count(
                        (
                            plane_coord(i as u32, width, x_lo, x_hi),
                            plane_coord(y, height, y_lo, y_hi),
                        ),
                        (0u64, 0u64),
                        1,
                        max_iterations,
                    ),
            decreases width - x,
        {
            proof {
                assert(0 <= (y as int) * w + (x as int) && (y as int) * w + (x as int) < w * h)
                    by (nonlinear_arith)
                    requires
                        x < width,
                        y < height,
                        w == width as int,
                        h == height as int,
                ;
            }
            let cx = pixel_to_plane(x, width, x_lo, x_hi);
            let n = mandelbrot((cx, cy), (0u64, 0u64), 1, max_iterations);
            let ghost prev = counts@;
            counts.push(n);
            proof {
                assert forall|i: int, j: int| 0 <= i < w && 0 <= j < y implies #[trigger] count_at(
                    counts@,
                    w,
                    i,
                    j,
                ) == count_at(prev, w, i, j) by {
                    assert(0 <= j * w + i && j * w + i < prev.len()) by (nonlinear_arith)
                        requires
                            0 <= i < w,
                            0 <= j < y,
                            prev.len() == y * w + x,
                            0 <= x,
                    ;
                }
                assert forall|i: int| 0 <= i < x implies #[trigger] count_at(counts@, w, i, y as int)
                    == count_at(prev, w, i, y as int) by {
                    assert(0 <= (y as int) * w + i && (y as int) * w + i < prev.len())
                        by (nonlinear_arith)
                        requires
                            0 <= i < x,
                            prev.len() == y * w + x,
                            0 <= y,
                            0 <= w,
                    ;
                }
                assert(count_at(counts@, w, x as int, y as int) == n);
            }
            x = x + 1;
        }
        proof {
            assert((y + 1) * w == y * w + w) by (nonlinear_arith);
        }
        y = y + 1;
    }
    proof {
        assert(h * w == w * h) by (nonlinear_arith);
    }
    counts
}

/// The hue that the animation derives from an iteration count's low byte:
/// the count times 15, over 255, times 360 degrees, in single arithmetic.
pub open spec fn anim_hue(n: u32) -> u32 {
    spec_sgl_mul(
        spec_sgl_div(spec_sgl_mul(spec_sgl_of_u32(n), spec_sgl_of_u32(15)), spec_sgl_of_u32(255)),
        spec_sgl_of_u32(360),
    )
}

/// Builds the animation's colour table: entry n is the HSL conversion of the
/// derived hue of count byte n, at full saturation and half lightness.
pub fn animation_hue_table() -> (t: Vec<(u8, u8, u8)>)
    ensures
        t@.len() == 256,
        forall|n: int|
            0 <= n < 256 ==> #[trigger] t@[n] == hsl_spec(
                anim_hue(n as u32),
                spec_sgl_of_u32(100),
                spec_sgl_of_u32(50),
            ),
{
    let s100: u32 = sgl_of_u32(100);
    let l50: u32 = sgl_of_u32(50);
    let f15: u32 = sgl_of_u32(15);
    let f255: u32 = sgl_of_u32(255);
    let f360: u32 = sgl_of_u32(360);
    let mut t: Vec<(u8, u8, u8)> = Vec::new();
    let mut k: u32 = 0;
    while k < 256
        invariant
            k <= 256,
            t@.len() == k,
            s100 == spec_sgl_of_u32(100),
            l50 == spec_sgl_of_u32(50),
            f15 == spec_sgl_of_u32(15),
            f255 == spec_sgl_of_u32(255),
            f360 == spec_sgl_of_u32(360),
            forall|n: int|
                0 <= n < k ==> #[trigger] t@[n] == hsl_spec(
                    anim_hue(n as u32),
                    spec_sgl_of_u32(100),
                    spec_sgl_of_u32(50),
                ),
        decreases 256 - k,
    {
        let hue = sgl_mul(sgl_div(sgl_mul(sgl_of_u32(k), f15), f255), f360);
        t.push(hsl_to_rgb(hue, s100, l50));
        k = k + 1;
    }
    t
}

} // verus!
