use tmux_pane_border::dimming::Dimming;
use tmux_pane_border::vt_filter::{filter_child_output, BorderInfo, FilterState};

const COLOR: &str = "\x1b[38;2;1;2;3m";

fn border() -> BorderInfo<'static> {
    BorderInfo {
        vertical_char: '|',
        color_seq: COLOR,
    }
}

fn run(input: &[u8], state: &mut FilterState) -> String {
    String::from_utf8(filter_child_output(input, 10, 6, &border(), state)).unwrap()
}

fn fresh(input: &[u8]) -> String {
    run(input, &mut FilterState::new())
}

fn cell() -> String {
    format!("{}|\x1b[39m", COLOR)
}

fn side_row(row: u16) -> String {
    format!("\x1b[{};1H{}\x1b[{};10H{}", row, cell(), row, cell())
}

#[test]
fn split_anywhere_gives_the_same() {
    let input: &[u8] =
        b"a\x1b[3;4Hb\r\n\x1b]0;title\x07\x1bPq\x1b[1;1H\x1b\\\x9b2J\x1b[?1049h\x1bM\x1b[5B\x1b[<0;3;2M";
    let mut whole_state = FilterState::new();
    let whole = filter_child_output(input, 10, 6, &border(), &mut whole_state);
    for cut in 0..=input.len() {
        let mut state = FilterState::new();
        let mut out = filter_child_output(&input[..cut], 10, 6, &border(), &mut state);
        out.extend(filter_child_output(&input[cut..], 10, 6, &border(), &mut state));
        assert_eq!(out, whole);
        assert_eq!(state.cursor_row(), whole_state.cursor_row());
        assert_eq!(state.needs_border_redraw, whole_state.needs_border_redraw);
    }
}

#[test]
fn raw_bytes_pass() {
    let input: &[u8] = &[0xff, 0xfe, 0x00, 0x08, 0x09, 0xc3, 0x28, 0x7f];
    let out = filter_child_output(input, 10, 6, &border(), &mut FilterState::new());
    assert_eq!(out, input);
}

#[test]
fn erase_to_end_of_display_exactly() {
    let mut state = FilterState::new();
    assert_eq!(run(b"\x1b[2;1H", &mut state), "\x1b[3;2H");
    assert_eq!(
        run(b"\x1b[J", &mut state),
        format!(
            "\x1b[?2026h\x1b[K\x1b7\x1b[10G{}\x1b8\x1b7\x1b[4;2H\x1b[8X\x1b[5;2H\x1b[8X\x1b8\x1b[?2026l",
            cell()
        )
    );
}

#[test]
fn erase_to_cursor_exactly() {
    let mut state = FilterState::new();
    run(b"\x1b[3d", &mut state);
    assert_eq!(
        run(b"\x1b[1J", &mut state),
        format!(
            "\x1b[?2026h\x1b7\x1b[2;2H\x1b[8X\x1b[3;2H\x1b[8X\x1b8\x1b[1K\x1b7\x1b[1G{}\x1b8\x1b[?2026l",
            cell()
        )
    );
}

#[test]
fn erase_all_exactly() {
    assert_eq!(
        fresh(b"\x1b[2J"),
        "\x1b[?2026h\x1b[2;2H\x1b[8X\x1b[3;2H\x1b[8X\x1b[4;2H\x1b[8X\x1b[5;2H\x1b[8X\x1b[2;2H\x1b[?2026l"
    );
}

#[test]
fn other_erase_modes_pass() {
    assert_eq!(fresh(b"\x1b[7J"), "\x1b[7J");
    assert_eq!(fresh(b"\x1b[007J"), "\x1b[007J");
    assert_eq!(fresh(b"\x1b[?7J"), "\x1b[?7J");
    assert_eq!(fresh(b"\x1b[?7K"), "\x1b[?7K");
}

#[test]
fn erase_lines_exactly() {
    assert_eq!(fresh(b"\x1b[K"), format!("\x1b[K\x1b7\x1b[10G{}\x1b8", cell()));
    assert_eq!(fresh(b"\x1b[1K"), format!("\x1b[1K\x1b7\x1b[1G{}\x1b8", cell()));
    assert_eq!(
        fresh(b"\x1b[2K"),
        format!("\x1b[2K\x1b7\x1b[1G{}\x1b[10G{}\x1b8", cell(), cell())
    );
}

#[test]
fn line_feed_at_the_bottom_exactly() {
    let mut state = FilterState::new();
    assert_eq!(run(b"\n\n\n", &mut state), "\n\n\n");
    assert_eq!(state.cursor_row(), 4);
    assert_eq!(
        run(b"\n", &mut state),
        format!("\n\x1b[?2026h\x1b7{}\x1b8\x1b[?2026l", side_row(5))
    );
    assert_eq!(state.cursor_row(), 4);
}

#[test]
fn reverse_index_below_the_top_moves_up() {
    let mut state = FilterState::new();
    run(b"\x1b[3;1H", &mut state);
    assert_eq!(run(b"\x1bM", &mut state), "\x1bM");
    assert_eq!(state.cursor_row(), 2);
}

#[test]
fn insert_lines_in_region_exactly() {
    let mut state = FilterState::new();
    assert_eq!(run(b"\x1b[2;3r", &mut state), "\x1b[3;4r");
    assert_eq!(
        run(b"\x1b[L", &mut state),
        format!(
            "\x1b[L\x1b[?2026h\x1b7{}{}\x1b8\x1b[?2026l",
            side_row(3),
            side_row(4)
        )
    );
}

#[test]
fn region_with_bottom_zero() {
    let mut state = FilterState::new();
    assert_eq!(run(b"\x1b[2;0r", &mut state), "\x1b[3;1r");
    assert_eq!(
        run(b"\x1b[S", &mut state),
        format!("\x1b[S\x1b[?2026h\x1b7{}\x1b8\x1b[?2026l", side_row(5))
    );
}

#[test]
fn private_region_passes() {
    assert_eq!(fresh(b"\x1b[?1;2r"), "\x1b[?1;2r");
}

#[test]
fn positions_are_clamped() {
    assert_eq!(fresh(b"\x1b[99;99H"), "\x1b[5;9H");
    assert_eq!(fresh(b"\x1b[0;0f"), "\x1b[2;2H");
    assert_eq!(fresh(b"\x1b[;3H"), "\x1b[2;4H");
    assert_eq!(fresh(b"\x1b[+2;-;H"), "\x1b[3;2H");
    assert_eq!(fresh(b"\x1b[65536;2H"), "\x1b[2;3H");
}

#[test]
fn tiny_frames_are_no_trouble() {
    for size in 0..4u16 {
        let mut state = FilterState::new();
        let out = filter_child_output(
            b"\x1b[5;5H\n\x1bM\x1b[J\x1b[1J\x1b[2J\x1b[L\x1b[S\x1b[T\x1b[9B",
            size,
            size,
            &border(),
            &mut state,
        );
        assert!(!out.is_empty());
    }
    let mut state = FilterState::new();
    let out = filter_child_output(b"\x1b[5;5H", 2, 2, &border(), &mut state);
    assert_eq!(out, b"\x1b[1;1H");
    assert_eq!(state.cursor_row(), 0);
}

#[test]
fn largest_coordinates_wrap() {
    assert_eq!(fresh(b"\x1b[65535;3r"), "\x1b[0;4r");
    assert_eq!(fresh(b"\x1b[<0;65535;65535M"), "\x1b[<0;0;0M");
}

#[test]
fn huge_counts_stay_inside() {
    let mut state = FilterState::new();
    assert_eq!(run(b"\x1b[65535B", &mut state), "\x1b[65535B");
    assert_eq!(state.cursor_row(), 4);
    run(b"\x1b[H\x1b[65535E", &mut state);
    assert_eq!(state.cursor_row(), 4);
    let all: String = (2..=5).map(side_row).collect();
    assert_eq!(
        fresh(b"\x1b[65535T"),
        format!("\x1b[65535T\x1b[?2026h\x1b7{all}\x1b8\x1b[?2026l")
    );
    assert_eq!(
        fresh(b"\x1b[65535S"),
        format!("\x1b[65535S\x1b[?2026h\x1b7{all}\x1b8\x1b[?2026l")
    );
    let mut state = FilterState::new();
    let tall = |input: &[u8], state: &mut FilterState| {
        String::from_utf8(filter_child_output(input, 10, 65535, &border(), state)).unwrap()
    };
    tall(b"\x1b[60000;60001r", &mut state);
    assert_eq!(
        tall(b"\x1b[9999T", &mut state),
        format!(
            "\x1b[9999T\x1b[?2026h\x1b7{}{}\x1b8\x1b[?2026l",
            side_row(60001),
            side_row(60002)
        )
    );
}

#[test]
fn empty_regions_are_not_repaired() {
    for region in [&b"\x1b[65535r"[..], b"\x1b[100r"] {
        for damage in ["\x1b[L", "\x1b[M", "\x1b[2S", "\x1b[2T"] {
            let mut state = FilterState::new();
            run(region, &mut state);
            assert_eq!(
                run(damage.as_bytes(), &mut state),
                format!("{damage}\x1b[?2026h\x1b7\x1b8\x1b[?2026l")
            );
        }
    }
}

#[test]
fn faint_content_stays_faint() {
    for (input, renewed) in [
        ("\x1b[m", true),
        ("\x1b[0;1m", true),
        ("\x1b[22m", true),
        ("\x1b[38;5;3m", true),
        ("\x1b[!p", true),
        ("\x1b[u", true),
        ("\x1b[?1049l", true),
        ("\x1b[?25;1048l", true),
        ("\x1b8", true),
        ("\x1bc", true),
        ("\x1b[?1049h", false),
        ("\x1b[?25l", false),
        ("\x1b[>4;2m", false),
        ("\x1b[2u", false),
        ("\x1b7", false),
        ("text", false),
    ] {
        let mut state = FilterState::new();
        state.set_dimming(Dimming::Faint);
        let expected = if renewed {
            format!("{input}\x1b[2m")
        } else {
            input.to_string()
        };
        assert_eq!(run(input.as_bytes(), &mut state), expected);
    }
}

#[test]
fn renditions_saved_undimmed_are_restored_alone() {
    for input in [
        "\x1b7\x1b8",
        "\x1b8",
        "\x1b[s\x1b[u",
        "\x1b[?1049h\x1b[?1049l",
        "\x1b[?1048h\x1b[?1048l",
        "\x1b[m",
        "\x1b[2m",
        "\x1bc",
        "\x1b[!p",
    ] {
        let mut state = FilterState::new();
        state.set_dimming(Dimming::Lifted);
        assert_eq!(run(input.as_bytes(), &mut state), input);
        assert_eq!(fresh(input.as_bytes()), input);
    }
}

#[test]
fn renditions_saved_faint_are_lifted() {
    for (save, between, restore, lifted) in [
        ("\x1b7", "", "\x1b8", true),
        ("\x1b[s", "", "\x1b[u", true),
        ("\x1b7", "", "\x1b[?1048l", true),
        ("\x1b[?25;1048h", "", "\x1b8", true),
        ("\x1b[?1049h", "", "\x1b[?1049l", true),
        ("\x1b[?1049h", "\x1b7", "\x1b[?1049l", true),
        ("\x1b[?1049h", "", "\x1b8", false),
        ("\x1b7", "\x1b7", "\x1b8", false),
        ("\x1b7", "\x1b[K", "\x1b8", false),
        ("\x1b7", "\x1b[2J", "\x1b8", true),
        ("\x1b7", "\x1b[!p", "\x1b8", false),
        ("\x1b7", "\x1bc", "\x1b8", false),
        ("\x1b[K", "", "\x1b8", true),
        ("\x1b[J", "", "\x1b8", true),
        ("\x1b[L", "", "\x1b8", true),
        ("\x1bM", "", "\x1b8", true),
        ("\n\n\n\n", "", "\x1b8", true),
        ("\n", "", "\x1b8", false),
        ("text", "", "\x1b8", false),
    ] {
        let mut state = FilterState::new();
        state.set_dimming(Dimming::Faint);
        run(save.as_bytes(), &mut state);
        state.set_dimming(Dimming::Lifted);
        run(between.as_bytes(), &mut state);
        let expected = if lifted {
            format!("{restore}\x1b[22m")
        } else {
            restore.to_string()
        };
        assert_eq!(run(restore.as_bytes(), &mut state), expected, "{save:?} {between:?}");
    }
}

#[test]
fn mouse_reports_of_the_program_move() {
    assert_eq!(fresh(b"\x1b[<35;7;4m"), "\x1b[<35;8;5m");
    assert_eq!(fresh(b"\x1b[<0;;4M"), "\x1b[<0;2;5M");
    assert_eq!(fresh(b"\x1b[<0;-;4M"), "\x1b[<0;2;5M");
    assert_eq!(fresh(b"\x1b[<0;4M"), "\x1b[<0;4M");
    assert_eq!(fresh(b"\x1b[<M"), "\x1b[<M");
}

#[test]
fn eight_bit_introducer() {
    let out = filter_child_output(b"\x9b2;3H", 10, 6, &border(), &mut FilterState::new());
    assert_eq!(out, b"\x1b[3;4H");
}

#[test]
fn broken_control_sequence_passes() {
    let out = filter_child_output(b"\x1b[12\x18x", 10, 6, &border(), &mut FilterState::new());
    assert_eq!(out, b"\x1b[12\x18x");
}

#[test]
fn strings_pass_with_escapes_inside() {
    let input = b"\x1b]8;;\x1b[1;1H\x1b\x1b\\x\x07\x1b[1;1H";
    let out = filter_child_output(input, 10, 6, &border(), &mut FilterState::new());
    assert_eq!(&out[..], b"\x1b]8;;\x1b[1;1H\x1b\x1b\\x\x07\x1b[2;2H");
}

#[test]
fn other_escapes_and_sequences_pass() {
    for input in [
        &b"\x1b7\x1b8"[..],
        b"\x1b(B",
        b"\x1b[2 q",
        b"\x1b[>c",
        b"\x1b[6n",
        b"\x1b[4C",
        b"\x1b[4D",
        b"\x1b[4h",
    ] {
        let mut state = FilterState::new();
        let out = filter_child_output(input, 10, 6, &border(), &mut state);
        assert_eq!(out, input);
        assert!(!state.needs_border_redraw);
    }
}

#[test]
fn multi_byte_border_character() {
    let info = BorderInfo {
        vertical_char: '┃',
        color_seq: "",
    };
    let out = filter_child_output(b"\x1b[1K", 10, 6, &info, &mut FilterState::new());
    assert_eq!(
        String::from_utf8(out).unwrap(),
        "\x1b[1K\x1b7\x1b[1G┃\x1b[39m\x1b8"
    );
}

#[test]
fn scrolling_repairs_as_many_rows() {
    let end = "\x1b8\x1b[?2026l";
    assert_eq!(
        fresh(b"\x1b[2S"),
        format!("\x1b[2S\x1b[?2026h\x1b7{}{}{}", side_row(4), side_row(5), end)
    );
    assert_eq!(
        fresh(b"\x1b[2T"),
        format!("\x1b[2T\x1b[?2026h\x1b7{}{}{}", side_row(2), side_row(3), end)
    );
    let all: String = (2..=5).map(side_row).collect();
    assert_eq!(fresh(b"\x1b[9S"), format!("\x1b[9S\x1b[?2026h\x1b7{all}{end}"));
    assert_eq!(fresh(b"\x1b[9T"), format!("\x1b[9T\x1b[?2026h\x1b7{all}{end}"));
}

#[test]
fn tracked_row_stays_inside() {
    let mut state = FilterState::new();
    run(b"\x1b[99B", &mut state);
    assert_eq!(state.cursor_row(), 4);
    run(b"\n\n\x1b[99A", &mut state);
    assert_eq!(state.cursor_row(), 1);
    run(b"\x1bM\x1b[99E", &mut state);
    assert_eq!(state.cursor_row(), 4);
    run(b"\x1b[2F", &mut state);
    assert_eq!(state.cursor_row(), 2);
}

#[test]
fn redraw_is_due_after_the_first_spoiler() {
    for input in [
        &b"x\x1bcy\x1b[1;1Hz"[..],
        b"\x1b[2Jabc",
        b"\x1b[3J",
        b"\x1b[?47l text",
        b"\x1b[?1047h",
        b"\x1b[?1049l\r\n",
    ] {
        let mut state = FilterState::new();
        filter_child_output(input, 10, 6, &border(), &mut state);
        assert!(state.take_border_redraw());
        assert!(!state.take_border_redraw());
    }
    let mut state = FilterState::new();
    run(b"\x1b[J\x1b[1J\x1b[?25l\x1b[?69h\x1b]c\x07", &mut state);
    assert!(!state.needs_border_redraw);
}
