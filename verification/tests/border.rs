use tmux_pane_border::border::{parse_hex_color, render_border};
use tmux_pane_border::config::BorderStyle;

#[test]
fn test_parse_hex_color() {
    assert_eq!(parse_hex_color("#61afef"), Some((0x61, 0xaf, 0xef)));
    assert_eq!(parse_hex_color("#000000"), Some((0, 0, 0)));
    assert_eq!(parse_hex_color("#ffffff"), Some((255, 255, 255)));
    assert_eq!(parse_hex_color("invalid"), None);
}

#[test]
fn test_render_border_small() {
    // Too small should return empty
    assert!(render_border(2, 2, BorderStyle::Rounded, "#ffffff").is_empty());
}

#[test]
fn test_render_border_contains_corners() {
    let output = render_border(10, 5, BorderStyle::Rounded, "#ffffff");
    assert!(output.contains('╭'));
    assert!(output.contains('╮'));
    assert!(output.contains('╰'));
    assert!(output.contains('╯'));
}
