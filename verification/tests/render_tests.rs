use fractals::render::julia_animation_frame;
use fractals::render::julia_greyscale_image;
use fractals::render::mandelbrot_palette_image;
use fractals::render::render_grid;

#[test]
fn render_grid_places_colours_row_major() {
    let colours = vec![(9u8, 8u8, 7u8), (1u8, 2u8, 3u8)];
    let g = render_grid(2, 1, &colours);
    assert_eq!(g.pixel_at(0, 0), (9, 8, 7));
    assert_eq!(g.pixel_at(1, 0), (1, 2, 3));
}

#[test]
fn render_grid_overwrites_blank_pixels() {
    let colours = vec![(5u8, 6u8, 7u8)];
    let g = render_grid(1, 1, &colours);
    assert_eq!(g.pixel_at(0, 0), (5, 6, 7));
}

#[test]
fn mandelbrot_image_uses_palette_per_pixel() {
    let counts = vec![1u32, 2, 3, 10];
    let g = mandelbrot_palette_image(2, 2, &counts);
    assert_eq!(g.pixel_at(0, 0), (255, 255, 255));
    assert_eq!(g.pixel_at(1, 0), (0, 178, 51));
    assert_eq!(g.pixel_at(0, 1), (255, 237, 0));
    assert_eq!(g.pixel_at(1, 1), (0, 205, 255));
}

#[test]
fn greyscale_image_uses_low_bits_per_pixel() {
    let counts = vec![1u32, 255, 256, 300];
    let g = julia_greyscale_image(2, 2, &counts);
    assert_eq!(g.pixel_at(0, 0), (1, 1, 1));
    assert_eq!(g.pixel_at(1, 0), (255, 255, 255));
    assert_eq!(g.pixel_at(0, 1), (0, 0, 0));
    assert_eq!(g.pixel_at(1, 1), (44, 44, 44));
}

#[test]
fn animation_frame_uses_colour_table() {
    let mut table: Vec<(u8, u8, u8)> = Vec::new();
    for i in 0..256 {
        table.push((i as u8, 2, 3));
    }
    let counts = vec![0u32, 1, 255, 257];
    let g = julia_animation_frame(4, 1, &counts, &table);
    assert_eq!(g.pixel_at(0, 0), (0, 2, 3));
    assert_eq!(g.pixel_at(1, 0), (1, 2, 3));
    assert_eq!(g.pixel_at(2, 0), (255, 2, 3));
    assert_eq!(g.pixel_at(3, 0), (1, 2, 3));
}

#[test]
fn widest_row_of_tall_image_is_reachable() {
    let counts = vec![7u32; 3 * 5];
    let g = mandelbrot_palette_image(3, 5, &counts);
    assert_eq!(g.pixel_at(2, 4), (0, 178, 51));
    assert_eq!(g.pixel_at(0, 0), (0, 178, 51));
}
