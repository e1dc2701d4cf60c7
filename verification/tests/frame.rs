use tmux_pane_border::border::{
    can_read_color, fg_color_seq, parse_hex_color, render_border, style_chars,
};
use tmux_pane_border::config::BorderStyle;

#[test]
fn frame_exactly() {
    assert_eq!(
        render_border(4, 3, BorderStyle::Ascii, "#010203"),
        "\x1b[?25l\x1b[1;1H\x1b[38;2;1;2;3m+--+\x1b[0m\
         \x1b[2;1H\x1b[38;2;1;2;3m|\x1b[0m\x1b[2;4H\x1b[38;2;1;2;3m|\x1b[0m\
         \x1b[3;1H\x1b[38;2;1;2;3m+--+\x1b[0m\x1b[?25h"
    );
}

#[test]
fn frame_without_a_color() {
    assert_eq!(
        render_border(3, 4, BorderStyle::Double, "blue"),
        "\x1b[?25l\x1b[1;1H╔═╗\x1b[0m\
         \x1b[2;1H║\x1b[0m\x1b[2;3H║\x1b[0m\x1b[3;1H║\x1b[0m\x1b[3;3H║\x1b[0m\
         \x1b[4;1H╚═╝\x1b[0m\x1b[?25h"
    );
}

#[test]
fn frames_need_three_cells() {
    assert_eq!(render_border(2, 50, BorderStyle::Heavy, "#ffffff"), "");
    assert_eq!(render_border(50, 2, BorderStyle::Heavy, "#ffffff"), "");
    assert!(!render_border(3, 3, BorderStyle::Heavy, "#ffffff").is_empty());
}

#[test]
fn styles() {
    assert_eq!(style_chars(BorderStyle::Rounded), ('╭', '╮', '╰', '╯', '─', '│'));
    assert_eq!(style_chars(BorderStyle::Heavy), ('┏', '┓', '┗', '┛', '━', '┃'));
    assert_eq!(style_chars(BorderStyle::Double), ('╔', '╗', '╚', '╝', '═', '║'));
    assert_eq!(style_chars(BorderStyle::Single), ('┌', '┐', '└', '┘', '─', '│'));
    assert_eq!(style_chars(BorderStyle::Ascii), ('+', '+', '+', '+', '-', '|'));
}

#[test]
fn colors() {
    assert_eq!(fg_color_seq("#61afef"), "\x1b[38;2;97;175;239m");
    assert_eq!(fg_color_seq("#61AFEF"), "\x1b[38;2;97;175;239m");
    assert_eq!(fg_color_seq("red"), "");
    assert_eq!(parse_hex_color("#61afe"), None);
    assert_eq!(parse_hex_color("#61afef0"), None);
    assert_eq!(parse_hex_color("61afef"), None);
    assert_eq!(parse_hex_color("#61afeg"), None);
    assert_eq!(parse_hex_color("#-1-1-1"), None);
    assert_eq!(parse_hex_color("#+1+2+f"), Some((1, 2, 15)));
    assert_eq!(parse_hex_color("#1+2233"), None);
    assert_eq!(parse_hex_color("#ééé"), None);
    assert_eq!(parse_hex_color(""), None);
}

#[test]
fn every_color_reads_back() {
    for n in 0..=255u8 {
        let color = format!("#{:02x}{:02x}{:02x}", n, 255 - n, n / 2);
        assert_eq!(parse_hex_color(&color), Some((n, 255 - n, n / 2)));
    }
}

#[test]
fn colors_cut_inside_a_character() {
    assert!(can_read_color("#61afef"));
    assert!(can_read_color("anything"));
    assert!(can_read_color("#ééé"));
    assert!(can_read_color("#zzaéa"));
    assert!(!can_read_color("#aéaaa"));
    assert!(!can_read_color("#11aéa"));
}

#[test]
fn color_changes_nothing_else() {
    for (width, height) in [(3, 3), (25, 40), (200, 50)] {
        let color = fg_color_seq("#61afef");
        let framed = render_border(width, height, BorderStyle::Rounded, "#61afef");
        let bare = render_border(width, height, BorderStyle::Rounded, "invalid");
        assert_eq!(framed.matches(&color).count(), 2 * (height as usize - 1));
        assert_eq!(framed.replace(&color, ""), bare);
    }
}
