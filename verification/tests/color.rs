use quarto_term::color::{color_to_css, color_to_hex, indexed_color_rgb, Color};

#[test]
fn ansi16_colors() {
    assert_eq!(indexed_color_rgb(0), (0, 0, 0));
    assert_eq!(indexed_color_rgb(1), (205, 49, 49));
    assert_eq!(indexed_color_rgb(15), (229, 229, 229));
}

#[test]
fn cube_colors() {
    assert_eq!(indexed_color_rgb(16), (0, 0, 0));
    assert_eq!(indexed_color_rgb(196), (255, 0, 0));
    assert_eq!(indexed_color_rgb(231), (255, 255, 255));
}

#[test]
fn grayscale_colors() {
    assert_eq!(indexed_color_rgb(232), (8, 8, 8));
    assert_eq!(indexed_color_rgb(255), (238, 238, 238));
}

#[test]
fn color_color_to_hex_rgb() {
    assert_eq!(color_to_hex(Color::Rgb(255, 0, 128)), "FF0080");
}

#[test]
fn color_to_hex_indexed() {
    assert_eq!(color_to_hex(Color::Indexed(1)), "CD3131");
    assert_eq!(color_to_hex(Color::Indexed(232)), "080808");
}

#[test]
fn cube_level_steps() {
    // 16 + 1*36 + 2*6 + 3: levels 95, 135, 175
    assert_eq!(indexed_color_rgb(67), (95, 135, 175));
    assert_eq!(color_to_css(Color::Indexed(67)), "#5f87af");
}
