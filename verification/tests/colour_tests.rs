use fractals::colour::iteration_to_grey;
use fractals::colour::iteration_to_palette;
use fractals::colour::last_decimal_digit;

#[test]
fn palette_white_for_digit_one() {
    assert_eq!(iteration_to_palette(1), (255, 255, 255));
    assert_eq!(iteration_to_palette(11), (255, 255, 255));
    assert_eq!(iteration_to_palette(6), (255, 255, 255));
}

#[test]
fn palette_blue_for_digits_zero_and_five() {
    assert_eq!(iteration_to_palette(10), (0, 205, 255));
    assert_eq!(iteration_to_palette(5), (0, 205, 255));
    assert_eq!(iteration_to_palette(0), (0, 205, 255));
    assert_eq!(iteration_to_palette(255), (0, 205, 255));
}

#[test]
fn palette_all_digits() {
    assert_eq!(iteration_to_palette(2), (0, 178, 51));
    assert_eq!(iteration_to_palette(7), (0, 178, 51));
    assert_eq!(iteration_to_palette(3), (255, 237, 0));
    assert_eq!(iteration_to_palette(8), (255, 237, 0));
    assert_eq!(iteration_to_palette(4), (255, 63, 49));
    assert_eq!(iteration_to_palette(9), (255, 63, 49));
}

#[test]
fn palette_same_for_same_last_digit() {
    for d in 0u32..10 {
        assert_eq!(iteration_to_palette(d), iteration_to_palette(d + 10));
        assert_eq!(iteration_to_palette(d), iteration_to_palette(d + 250));
    }
}

#[test]
fn last_digit_matches_decimal_text() {
    for n in [0u32, 7, 10, 255, 12345, 4294967295] {
        let expected: u32 = n
            .to_string()
            .chars()
            .last()
            .unwrap()
            .to_digit(10)
            .unwrap();
        assert_eq!(last_decimal_digit(n), expected);
    }
}

#[test]
fn grey_takes_low_eight_bits() {
    assert_eq!(iteration_to_grey(0), (0, 0, 0));
    assert_eq!(iteration_to_grey(255), (255, 255, 255));
    assert_eq!(iteration_to_grey(256), (0, 0, 0));
    assert_eq!(iteration_to_grey(300), (44, 44, 44));
}
