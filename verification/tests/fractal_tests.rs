use fractals::colour::hsl_to_rgb;
use fractals::fractals::{julia, mandelbrot, pixel_to_plane};
use fractals::render::{
    animation_hue_table, julia_count_grid, julia_greyscale_image, mandelbrot_count_grid,
};

fn bits(x: f64) -> u64 {
    x.to_bits()
}

fn bits32(x: f32) -> u32 {
    x.to_bits()
}

#[test]
fn julia_escapes_immediately_outside_radius() {
    // |z|^2 = 100 already reaches the squared radius, so one step is counted.
    let r = julia((bits(-0.7), bits(0.27015)), (bits(6.0), bits(8.0)), 10, 255);
    assert_eq!(r, 1);
    let r = julia((bits(0.3), bits(0.1)), (bits(10.0), bits(0.0)), 10, 255);
    assert_eq!(r, 1);
}

#[test]
fn julia_zero_seed_and_start_never_escape() {
    assert_eq!(julia((bits(0.0), bits(0.0)), (bits(0.0), bits(0.0)), 10, 255), 255);
    assert_eq!(julia((bits(0.0), bits(0.0)), (bits(0.0), bits(0.0)), 3, 7), 7);
}

#[test]
fn julia_counts_stay_within_bounds() {
    for x in 0..8u32 {
        for y in 0..8u32 {
            let zx = pixel_to_plane(x, 8, bits(-2.0), bits(2.0));
            let zy = pixel_to_plane(y, 8, bits(-2.0), bits(2.0));
            let r = julia((bits(-0.7), bits(0.27015)), (zx, zy), 10, 255);
            assert!((1..=255).contains(&r));
        }
    }
}

#[test]
fn julia_golden_grid_two_by_two() {
    // 2x2 image over [-2,2]x[-2,2], seed (-0.7, 0.27015), radius 10, cap 255.
    let seed = (bits(-0.7), bits(0.27015));
    let mut counts: Vec<u32> = Vec::new();
    for y in 0..2u32 {
        let cy = pixel_to_plane(y, 2, bits(-2.0), bits(2.0));
        for x in 0..2u32 {
            let cx = pixel_to_plane(x, 2, bits(-2.0), bits(2.0));
            counts.push(julia(seed, (cx, cy), 10, 255));
        }
    }
    assert_eq!(counts, vec![3, 3, 3, 98]);
    let g = julia_greyscale_image(2, 2, &counts);
    assert_eq!(g.pixel_at(0, 0), (3, 3, 3));
    assert_eq!(g.pixel_at(1, 0), (3, 3, 3));
    assert_eq!(g.pixel_at(0, 1), (3, 3, 3));
    assert_eq!(g.pixel_at(1, 1), (98, 98, 98));
}

#[test]
fn julia_golden_grid_narrow_window() {
    let seed = (bits(-0.7), bits(0.27015));
    let mut counts: Vec<u32> = Vec::new();
    for y in 0..2u32 {
        let cy = pixel_to_plane(y, 2, bits(-1.5), bits(1.5));
        for x in 0..2u32 {
            let cx = pixel_to_plane(x, 2, bits(-1.5), bits(1.5));
            counts.push(julia(seed, (cx, cy), 10, 255));
        }
    }
    assert_eq!(counts, vec![3, 4, 5, 98]);
}

#[test]
fn mandelbrot_counts_match_recurrence() {
    let zero = (bits(0.0), bits(0.0));
    assert_eq!(mandelbrot((bits(0.12), bits(-0.65)), zero, 1, 255), 20);
    assert_eq!(mandelbrot((bits(0.17), bits(-0.60)), zero, 1, 255), 15);
    assert_eq!(mandelbrot((bits(2.0), bits(2.0)), zero, 1, 255), 1);
    assert_eq!(mandelbrot((bits(0.0), bits(0.0)), zero, 1, 9), 9);
}

#[test]
fn pixel_to_plane_boundary_and_monotone() {
    // Pixel 0 lands exactly on the window's lower edge.
    assert_eq!(pixel_to_plane(0, 4, bits(-2.0), bits(2.0)), bits(-2.0));
    assert_eq!(pixel_to_plane(0, 7, bits(0.12), bits(0.22)), bits(0.12));
    // Increasing the pixel index increases the coordinate.
    let mut prev = f64::from_bits(pixel_to_plane(0, 16, bits(-2.0), bits(2.0)));
    for i in 1..16u32 {
        let cur = f64::from_bits(pixel_to_plane(i, 16, bits(-2.0), bits(2.0)));
        assert!(cur > prev);
        prev = cur;
    }
    // The mapping is the affine formula itself.
    assert_eq!(
        pixel_to_plane(3, 8, bits(-2.0), bits(2.0)),
        bits(3.0 * 4.0 / 8.0 + -2.0)
    );
}

#[test]
fn hsl_grey_when_saturation_is_zero() {
    assert_eq!(hsl_to_rgb(bits32(123.0), bits32(0.0), bits32(50.0)), (127, 127, 127));
    assert_eq!(hsl_to_rgb(bits32(0.0), bits32(0.0), bits32(100.0)), (255, 255, 255));
    assert_eq!(hsl_to_rgb(bits32(300.0), bits32(0.0), bits32(0.0)), (0, 0, 0));
}

#[test]
fn hsl_primary_colours() {
    assert_eq!(hsl_to_rgb(bits32(0.0), bits32(100.0), bits32(50.0)), (255, 0, 0));
    assert_eq!(hsl_to_rgb(bits32(120.0), bits32(100.0), bits32(50.0)), (0, 255, 0));
    assert_eq!(hsl_to_rgb(bits32(200.0), bits32(60.0), bits32(40.0)), (40, 122, 163));
}

#[test]
fn hsl_wraps_negative_hue_into_unit_interval() {
    // For hues below 120 degrees at partial saturation, the blue channel
    // samples the wave at a negative offset; the wrap brings it up by one
    // whole period instead of running the first ramp backwards.
    assert_eq!(hsl_to_rgb(bits32(0.0), bits32(60.0), bits32(40.0)), (163, 40, 40));
    assert_eq!(hsl_to_rgb(bits32(60.0), bits32(40.0), bits32(30.0)), (107, 107, 45));
}

#[test]
fn julia_count_grid_matches_per_pixel_calls() {
    let seed = (bits(-0.7), bits(0.27015));
    let counts = julia_count_grid(
        2,
        2,
        bits(-2.0),
        bits(2.0),
        bits(-2.0),
        bits(2.0),
        seed,
        10,
        255,
    );
    assert_eq!(counts, vec![3, 3, 3, 98]);
}

#[test]
fn mandelbrot_count_grid_matches_per_pixel_calls() {
    let counts = mandelbrot_count_grid(
        1,
        1,
        bits(0.12),
        bits(0.22),
        bits(-0.65),
        bits(-0.55),
        255,
    );
    assert_eq!(counts, vec![20]);
}

#[test]
fn animation_hue_table_matches_conversion() {
    let t = animation_hue_table();
    assert_eq!(t.len(), 256);
    assert_eq!(t[0], (255, 0, 0));
    assert_eq!(t[10], (0, 119, 255));
    for n in 0..256u32 {
        let hue = n as f32 * 15.0 / 255.0 * 360.0;
        assert_eq!(
            t[n as usize],
            hsl_to_rgb(hue.to_bits(), (100.0f32).to_bits(), (50.0f32).to_bits())
        );
    }
}

#[test]
fn hsl_periodic_in_hue() {
    for (h, s, l) in [(30.0f32, 100.0f32, 50.0f32), (123.0, 60.0, 40.0), (260.0, 80.0, 70.0)] {
        assert_eq!(
            hsl_to_rgb(bits32(h), bits32(s), bits32(l)),
            hsl_to_rgb(bits32(h + 360.0), bits32(s), bits32(l))
        );
    }
}
