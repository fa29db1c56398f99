use tui_big_text::{
    get_symbol_full, get_symbol_half_height, get_symbol_half_width, get_symbol_quadrant_size,
    get_symbol_sextantant_size, get_symbol_third_height, pixel_at,
};

#[test]
fn check_full_symbols() {
    assert_eq!(get_symbol_full(0), ' ');
    assert_eq!(get_symbol_full(1), '█');
    assert_eq!(get_symbol_full(0x80), '█');
}

#[test]
fn check_half_height_symbols() {
    assert_eq!(get_symbol_half_height(0, 0), ' ');
    assert_eq!(get_symbol_half_height(1, 0), '▀');
    assert_eq!(get_symbol_half_height(0, 1), '▄');
    assert_eq!(get_symbol_half_height(1, 1), '█');
}

#[test]
fn check_half_width_symbols() {
    assert_eq!(get_symbol_half_width(0, 0), ' ');
    assert_eq!(get_symbol_half_width(1, 0), '▌');
    assert_eq!(get_symbol_half_width(0, 1), '▐');
    assert_eq!(get_symbol_half_width(1, 1), '█');
}

#[test]
fn any_set_bit_counts_as_a_pixel() {
    assert_eq!(get_symbol_half_height(0x10, 0), '▀');
    assert_eq!(get_symbol_half_width(0, 0x80), '▐');
    assert_eq!(get_symbol_quadrant_size(0x40, 0, 0, 2), '▚');
    assert_eq!(get_symbol_sextantant_size(4, 0, 4, 0, 4, 0), '▌');
    assert_eq!(get_symbol_sextantant_size(0, 8, 0, 8, 0, 8), '▐');
    assert_eq!(get_symbol_third_height(0, 0xff, 0), '🬋');
}

#[test]
fn third_height_is_sextant_with_doubled_pixels() {
    for top in 0..2u8 {
        for middle in 0..2u8 {
            for bottom in 0..2u8 {
                assert_eq!(
                    get_symbol_third_height(top, middle, bottom),
                    get_symbol_sextantant_size(top, top, middle, middle, bottom, bottom)
                );
            }
        }
    }
}

#[test]
fn coarser_blocks_agree_with_finer_ones() {
    for a in 0..2u8 {
        assert_eq!(get_symbol_full(a), get_symbol_half_height(a, a));
        assert_eq!(get_symbol_full(a), get_symbol_half_width(a, a));
        for b in 0..2u8 {
            assert_eq!(
                get_symbol_half_height(a, b),
                get_symbol_quadrant_size(a, a, b, b)
            );
            assert_eq!(
                get_symbol_half_width(a, b),
                get_symbol_quadrant_size(a, b, a, b)
            );
            assert_eq!(
                get_symbol_half_width(a, b),
                get_symbol_sextantant_size(a, b, a, b, a, b)
            );
        }
    }
}

#[test]
fn sextant_symbols_follow_unicode() {
    for index in 0..64u32 {
        let bit = |n: u32| ((index >> n) & 1) as u8;
        let symbol = get_symbol_sextantant_size(bit(0), bit(1), bit(2), bit(3), bit(4), bit(5));
        let expected = match index {
            0 => 0x20,
            21 => 0x258c,
            42 => 0x2590,
            63 => 0x2588,
            1..=20 => 0x1fb00 + index - 1,
            22..=41 => 0x1fb00 + index - 2,
            _ => 0x1fb00 + index - 3,
        };
        assert_eq!(symbol as u32, expected);
    }
}

#[test]
fn quadrant_and_sextant_symbols_are_distinct() {
    let mut quadrants = Vec::new();
    for index in 0..16u32 {
        let bit = |n: u32| ((index >> n) & 1) as u8;
        quadrants.push(get_symbol_quadrant_size(bit(0), bit(1), bit(2), bit(3)));
    }
    let mut sextants = Vec::new();
    for index in 0..64u32 {
        let bit = |n: u32| ((index >> n) & 1) as u8;
        sextants.push(get_symbol_sextantant_size(bit(0), bit(1), bit(2), bit(3), bit(4), bit(5)));
    }
    for i in 0..16 {
        for j in 0..i {
            assert_ne!(quadrants[i], quadrants[j]);
        }
    }
    for i in 0..64 {
        for j in 0..i {
            assert_ne!(sextants[i], sextants[j]);
        }
    }
}

#[test]
fn pixel_at_reads_bit_zero_as_the_leftmost_pixel() {
    let glyph = [0x01, 0x80, 0x00, 0x00, 0x00, 0x00, 0x00, 0x06];
    assert_eq!(pixel_at(&glyph, 0, 0), 0x01);
    assert_eq!(pixel_at(&glyph, 0, 1), 0);
    assert_eq!(pixel_at(&glyph, 1, 7), 0x80);
    assert_eq!(pixel_at(&glyph, 1, 0), 0);
    assert_eq!(pixel_at(&glyph, 7, 1), 0x02);
    assert_eq!(pixel_at(&glyph, 7, 2), 0x04);
    assert_eq!(pixel_at(&glyph, 7, 3), 0);
}

#[test]
fn pixel_at_reads_nothing_outside_the_bitmap() {
    let glyph = [0xff; 8];
    assert_eq!(pixel_at(&glyph, 8, 0), 0);
    assert_eq!(pixel_at(&glyph, 9, 7), 0);
    assert_eq!(pixel_at(&glyph, 0, 8), 0);
    assert_eq!(pixel_at(&glyph, 7, 7), 0x80);
}
