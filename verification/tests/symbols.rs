use tui_big_text::{
    get_symbol_quadrant_size, get_symbol_sextantant_size, get_symbol_third_height,
    BigTextBuilderError,
};

type Result<T> = std::result::Result<T, BigTextBuilderError>;

#[test]
fn check_quadrant_size_symbols() -> Result<()> {
    assert_eq!(get_symbol_quadrant_size(0, 0, 0, 0), ' ');
    assert_eq!(get_symbol_quadrant_size(1, 0, 0, 0), '▘');
    assert_eq!(get_symbol_quadrant_size(0, 1, 0, 0), '▝');
    assert_eq!(get_symbol_quadrant_size(1, 1, 0, 0), '▀');
    assert_eq!(get_symbol_quadrant_size(0, 0, 1, 0), '▖');
    assert_eq!(get_symbol_quadrant_size(1, 0, 1, 0), '▌');
    assert_eq!(get_symbol_quadrant_size(0, 1, 1, 0), '▞');
    assert_eq!(get_symbol_quadrant_size(1, 1, 1, 0), '▛');
    assert_eq!(get_symbol_quadrant_size(0, 0, 0, 1), '▗');
    assert_eq!(get_symbol_quadrant_size(1, 0, 0, 1), '▚');
    assert_eq!(get_symbol_quadrant_size(0, 1, 0, 1), '▐');
    assert_eq!(get_symbol_quadrant_size(1, 1, 0, 1), '▜');
    assert_eq!(get_symbol_quadrant_size(0, 0, 1, 1), '▄');
    assert_eq!(get_symbol_quadrant_size(1, 0, 1, 1), '▙');
    assert_eq!(get_symbol_quadrant_size(0, 1, 1, 1), '▟');
    assert_eq!(get_symbol_quadrant_size(1, 1, 1, 1), '█');
    Ok(())
}

#[test]
fn check_sextant_size_symbols() -> Result<()> {
    assert_eq!(get_symbol_sextantant_size(0, 0, 0, 0, 0, 0), ' ');
    assert_eq!(get_symbol_sextantant_size(1, 0, 0, 0, 0, 0), '🬀');
    assert_eq!(get_symbol_sextantant_size(0, 1, 0, 0, 0, 0), '🬁');
    assert_eq!(get_symbol_sextantant_size(1, 1, 0, 0, 0, 0), '🬂');
    assert_eq!(get_symbol_sextantant_size(0, 0, 1, 0, 0, 0), '🬃');
    assert_eq!(get_symbol_sextantant_size(1, 0, 1, 0, 0, 0), '🬄');
    assert_eq!(get_symbol_sextantant_size(0, 1, 1, 0, 0, 0), '🬅');
    assert_eq!(get_symbol_sextantant_size(1, 1, 1, 0, 0, 0), '🬆');
    assert_eq!(get_symbol_sextantant_size(0, 0, 0, 1, 0, 0), '🬇');
    assert_eq!(get_symbol_sextantant_size(1, 0, 0, 1, 0, 0), '🬈');
    assert_eq!(get_symbol_sextantant_size(0, 1, 0, 1, 0, 0), '🬉');
    assert_eq!(get_symbol_sextantant_size(1, 1, 0, 1, 0, 0), '🬊');
    assert_eq!(get_symbol_sextantant_size(0, 0, 1, 1, 0, 0), '🬋');
    assert_eq!(get_symbol_sextantant_size(1, 0, 1, 1, 0, 0), '🬌');
    assert_eq!(get_symbol_sextantant_size(0, 1, 1, 1, 0, 0), '🬍');
    assert_eq!(get_symbol_sextantant_size(1, 1, 1, 1, 0, 0), '🬎');
    assert_eq!(get_symbol_sextantant_size(0, 0, 0, 0, 1, 0), '🬏');
    assert_eq!(get_symbol_sextantant_size(1, 0, 0, 0, 1, 0), '🬐');
    assert_eq!(get_symbol_sextantant_size(0, 1, 0, 0, 1, 0), '🬑');
    assert_eq!(get_symbol_sextantant_size(1, 1, 0, 0, 1, 0), '🬒');
    assert_eq!(get_symbol_sextantant_size(0, 0, 1, 0, 1, 0), '🬓');
    assert_eq!(get_symbol_sextantant_size(1, 0, 1, 0, 1, 0), '▌');
    assert_eq!(get_symbol_sextantant_size(0, 1, 1, 0, 1, 0), '🬔');
    assert_eq!(get_symbol_sextantant_size(1, 1, 1, 0, 1, 0), '🬕');
    assert_eq!(get_symbol_sextantant_size(0, 0, 0, 1, 1, 0), '🬖');
    assert_eq!(get_symbol_sextantant_size(1, 0, 0, 1, 1, 0), '🬗');
    assert_eq!(get_symbol_sextantant_size(0, 1, 0, 1, 1, 0), '🬘');
    assert_eq!(get_symbol_sextantant_size(1, 1, 0, 1, 1, 0), '🬙');
    assert_eq!(get_symbol_sextantant_size(0, 0, 1, 1, 1, 0), '🬚');
    assert_eq!(get_symbol_sextantant_size(1, 0, 1, 1, 1, 0), '🬛');
    assert_eq!(get_symbol_sextantant_size(0, 1, 1, 1, 1, 0), '🬜');
    assert_eq!(get_symbol_sextantant_size(1, 1, 1, 1, 1, 0), '🬝');
    assert_eq!(get_symbol_sextantant_size(0, 0, 0, 0, 0, 1), '🬞');
    assert_eq!(get_symbol_sextantant_size(1, 0, 0, 0, 0, 1), '🬟');
    assert_eq!(get_symbol_sextantant_size(0, 1, 0, 0, 0, 1), '🬠');
    assert_eq!(get_symbol_sextantant_size(1, 1, 0, 0, 0, 1), '🬡');
    assert_eq!(get_symbol_sextantant_size(0, 0, 1, 0, 0, 1), '🬢');
    assert_eq!(get_symbol_sextantant_size(1, 0, 1, 0, 0, 1), '🬣');
    assert_eq!(get_symbol_sextantant_size(0, 1, 1, 0, 0, 1), '🬤');
    assert_eq!(get_symbol_sextantant_size(1, 1, 1, 0, 0, 1), '🬥');
    assert_eq!(get_symbol_sextantant_size(0, 0, 0, 1, 0, 1), '🬦');
    assert_eq!(get_symbol_sextantant_size(1, 0, 0, 1, 0, 1), '🬧');
    assert_eq!(get_symbol_sextantant_size(0, 1, 0, 1, 0, 1), '▐');
    assert_eq!(get_symbol_sextantant_size(1, 1, 0, 1, 0, 1), '🬨');
    assert_eq!(get_symbol_sextantant_size(0, 0, 1, 1, 0, 1), '🬩');
    assert_eq!(get_symbol_sextantant_size(1, 0, 1, 1, 0, 1), '🬪');
    assert_eq!(get_symbol_sextantant_size(0, 1, 1, 1, 0, 1), '🬫');
    assert_eq!(get_symbol_sextantant_size(1, 1, 1, 1, 0, 1), '🬬');
    assert_eq!(get_symbol_sextantant_size(0, 0, 0, 0, 1, 1), '🬭');
    assert_eq!(get_symbol_sextantant_size(1, 0, 0, 0, 1, 1), '🬮');
    assert_eq!(get_symbol_sextantant_size(0, 1, 0, 0, 1, 1), '🬯');
    assert_eq!(get_symbol_sextantant_size(1, 1, 0, 0, 1, 1), '🬰');
    assert_eq!(get_symbol_sextantant_size(0, 0, 1, 0, 1, 1), '🬱');
    assert_eq!(get_symbol_sextantant_size(1, 0, 1, 0, 1, 1), '🬲');
    assert_eq!(get_symbol_sextantant_size(0, 1, 1, 0, 1, 1), '🬳');
    assert_eq!(get_symbol_sextantant_size(1, 1, 1, 0, 1, 1), '🬴');
    assert_eq!(get_symbol_sextantant_size(0, 0, 0, 1, 1, 1), '🬵');
    assert_eq!(get_symbol_sextantant_size(1, 0, 0, 1, 1, 1), '🬶');
    assert_eq!(get_symbol_sextantant_size(0, 1, 0, 1, 1, 1), '🬷');
    assert_eq!(get_symbol_sextantant_size(1, 1, 0, 1, 1, 1), '🬸');
    assert_eq!(get_symbol_sextantant_size(0, 0, 1, 1, 1, 1), '🬹');
    assert_eq!(get_symbol_sextantant_size(1, 0, 1, 1, 1, 1), '🬺');
    assert_eq!(get_symbol_sextantant_size(0, 1, 1, 1, 1, 1), '🬻');
    assert_eq!(get_symbol_sextantant_size(1, 1, 1, 1, 1, 1), '█');
    Ok(())
}

#[test]
fn check_third_height_symbols() -> Result<()> {
    assert_eq!(get_symbol_third_height(0, 0, 0), ' ');
    assert_eq!(get_symbol_third_height(1, 0, 0), '🬂');
    assert_eq!(get_symbol_third_height(0, 1, 0), '🬋');
    assert_eq!(get_symbol_third_height(1, 1, 0), '🬎');
    assert_eq!(get_symbol_third_height(0, 0, 1), '🬭');
    assert_eq!(get_symbol_third_height(1, 0, 1), '🬰');
    assert_eq!(get_symbol_third_height(0, 1, 1), '🬹');
    assert_eq!(get_symbol_third_height(1, 1, 1), '█');
    Ok(())
}
