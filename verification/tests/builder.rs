use ratatui::buffer::Buffer;
use ratatui::style::{Style, Stylize};
use ratatui::text::Line;
use tui_big_text::{BigText, BigTextBuilder, BigTextBuilderError, PixelSize};

#[test]
fn build_without_lines_fails() {
    assert_eq!(
        BigTextBuilder::default().build(),
        Err(BigTextBuilderError::UninitializedField("lines"))
    );
    assert_eq!(
        BigTextBuilder::default()
            .style(Style::new().red())
            .pixel_size(PixelSize::Sextant)
            .build(),
        Err(BigTextBuilderError::UninitializedField("lines"))
    );
}

#[test]
fn build_with_defaults() {
    let lines = vec![Line::from("defaults")];
    assert_eq!(
        BigTextBuilder::default().lines(lines.clone()).build(),
        Ok(BigText {
            lines,
            style: Style::default(),
            pixel_size: PixelSize::Full
        })
    );
}

#[test]
fn build_with_no_lines_at_all() {
    assert_eq!(
        BigTextBuilder::default().lines(Vec::new()).build(),
        Ok(BigText {
            lines: Vec::new(),
            style: Style::default(),
            pixel_size: PixelSize::Full
        })
    );
}

#[test]
fn build_with_every_field_set() {
    let lines = vec![Line::from("one".red()), Line::from("two")];
    let built = BigTextBuilder::default()
        .pixel_size(PixelSize::ThirdHeight)
        .style(Style::new().on_blue())
        .lines(lines.clone())
        .build();
    assert_eq!(
        built,
        Ok(BigText {
            lines,
            style: Style::new().on_blue(),
            pixel_size: PixelSize::ThirdHeight
        })
    );
}

#[test]
fn the_last_value_of_a_field_counts() {
    let built = BigTextBuilder::default()
        .lines(vec![Line::from("first")])
        .pixel_size(PixelSize::Quadrant)
        .lines(vec![Line::from("second")])
        .pixel_size(PixelSize::HalfWidth)
        .build()
        .unwrap();
    assert_eq!(built.lines, vec![Line::from("second")]);
    assert_eq!(built.pixel_size, PixelSize::HalfWidth);
}

#[test]
fn default_style_changes_no_cell() {
    let text = BigTextBuilder::default()
        .lines(vec![Line::from("A")])
        .build()
        .unwrap();
    let mut buf = Buffer::empty(ratatui::layout::Rect::new(0, 0, 8, 8));
    buf.set_style(buf.area, Style::new().red().on_blue().bold());
    text.render(tui_big_text::Rect::new(0, 0, 8, 8), &mut buf);
    let mut expected = Buffer::with_lines(vec![
        "  ██    ",
        " ████   ",
        "██  ██  ",
        "██  ██  ",
        "██████  ",
        "██  ██  ",
        "██  ██  ",
        "        ",
    ]);
    expected.set_style(expected.area, Style::new().red().on_blue().bold());
    assert_eq!(buf, expected);
}
