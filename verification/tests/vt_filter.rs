use tmux_pane_border::vt_filter::{
    filter_child_output, transform_mouse_input, BorderInfo, FilterState, MouseTransform,
};

fn test_border_info() -> BorderInfo<'static> {
    BorderInfo {
        vertical_char: '│',
        color_seq: "\x1b[38;2;97;175;239m",
    }
}

fn filter(input: &[u8], outer_width: u16, outer_height: u16, state: &mut FilterState) -> Vec<u8> {
    filter_child_output(input, outer_width, outer_height, &test_border_info(), state)
}

#[test]
fn test_cup_offset() {
    // CSI 1;1 H should become CSI 2;2 H
    let input = b"\x1b[1;1H";
    let output = filter(input, 80, 24, &mut FilterState::new());
    assert_eq!(std::str::from_utf8(&output).unwrap(), "\x1b[2;2H");
}

#[test]
fn test_cup_default_params() {
    // CSI H (no params) = row 1, col 1
    let input = b"\x1b[H";
    let output = filter(input, 80, 24, &mut FilterState::new());
    assert_eq!(std::str::from_utf8(&output).unwrap(), "\x1b[2;2H");
}

#[test]
fn test_vpa_offset() {
    let input = b"\x1b[5d";
    let output = filter(input, 80, 24, &mut FilterState::new());
    assert_eq!(std::str::from_utf8(&output).unwrap(), "\x1b[6d");
}

#[test]
fn test_cha_offset() {
    let input = b"\x1b[10G";
    let output = filter(input, 80, 24, &mut FilterState::new());
    assert_eq!(std::str::from_utf8(&output).unwrap(), "\x1b[11G");
}

#[test]
fn test_decstbm_offset() {
    // CSI 1;22 r → CSI 2;23 r
    let input = b"\x1b[1;22r";
    let output = filter(input, 80, 24, &mut FilterState::new());
    assert_eq!(std::str::from_utf8(&output).unwrap(), "\x1b[2;23r");
}

#[test]
fn test_relative_movement_passthrough() {
    // Relative cursor movement should pass through unchanged
    let input = b"\x1b[5A";
    let output = filter(input, 80, 24, &mut FilterState::new());
    assert_eq!(std::str::from_utf8(&output).unwrap(), "\x1b[5A");
}

#[test]
fn test_plain_text_passthrough() {
    let input = b"Hello, world!";
    let output = filter(input, 80, 24, &mut FilterState::new());
    assert_eq!(&output, input);
}

#[test]
fn test_sgr_passthrough() {
    // Color sequences should pass through
    let input = b"\x1b[31mred\x1b[39m";
    let output = filter(input, 80, 24, &mut FilterState::new());
    assert_eq!(std::str::from_utf8(&output).unwrap(), "\x1b[31mred\x1b[39m");
}

#[test]
fn test_mouse_input_transform() {
    // SGR mouse click at col 5, row 3 -> inner col 4, row 2
    let input = b"\x1b[<0;5;3M";
    match transform_mouse_input(input, 80, 24) {
        MouseTransform::Transformed(out) => {
            assert_eq!(std::str::from_utf8(&out).unwrap(), "\x1b[<0;4;2M");
        }
        _ => panic!("expected Transformed"),
    }
}

#[test]
fn test_mouse_input_on_border() {
    // Click at col 1, row 1 (top-left border) should be OnBorder
    let input = b"\x1b[<0;1;1M";
    assert!(matches!(transform_mouse_input(input, 80, 24), MouseTransform::OnBorder));
}

#[test]
fn test_mouse_input_incomplete_sgr() {
    // Incomplete SGR sequence should return ParseError, not drop input
    let input = b"\x1b[<0;5";
    assert!(matches!(transform_mouse_input(input, 80, 24), MouseTransform::ParseError));
}

#[test]
fn test_split_csi_across_calls() {
    // CSI 1;1H split across two reads: first "\x1b[1" then ";1H"
    let bi = test_border_info();
    let mut state = FilterState::new();
    let out1 = filter_child_output(b"\x1b[1", 80, 24, &bi, &mut state);
    let out2 = filter_child_output(b";1H", 80, 24, &bi, &mut state);

    let combined = [out1, out2].concat();
    // Should produce the same result as a single call
    assert_eq!(std::str::from_utf8(&combined).unwrap(), "\x1b[2;2H");
}

#[test]
fn test_split_escape_then_bracket() {
    // ESC at end of first read, '[' at start of second
    let bi = test_border_info();
    let mut state = FilterState::new();
    let out1 = filter_child_output(b"hello\x1b", 80, 24, &bi, &mut state);
    let out2 = filter_child_output(b"[5;10H", 80, 24, &bi, &mut state);

    let combined = [out1, out2].concat();
    assert_eq!(
        std::str::from_utf8(&combined).unwrap(),
        "hello\x1b[6;11H"
    );
}

#[test]
fn test_split_sgr_color_sequence() {
    // Color sequence split: "\x1b[38;2;255" then ";128;0m"
    let bi = test_border_info();
    let mut state = FilterState::new();
    let out1 = filter_child_output(b"\x1b[38;2;255", 80, 24, &bi, &mut state);
    let out2 = filter_child_output(b";128;0m", 80, 24, &bi, &mut state);

    let combined = [out1, out2].concat();
    assert_eq!(
        std::str::from_utf8(&combined).unwrap(),
        "\x1b[38;2;255;128;0m"
    );
}

#[test]
fn test_split_text_between_sequences() {
    // Normal text followed by a split sequence
    let bi = test_border_info();
    let mut state = FilterState::new();
    let out1 = filter_child_output(b"abc\x1b[", 80, 24, &bi, &mut state);
    let out2 = filter_child_output(b"1;1Hxyz", 80, 24, &bi, &mut state);

    let combined = [out1, out2].concat();
    assert_eq!(
        std::str::from_utf8(&combined).unwrap(),
        "abc\x1b[2;2Hxyz"
    );
}

// === Line starts and erased lines ===

#[test]
fn test_cr_converts_to_cha2() {
    // \r should become \x1b[2G (CHA column 2) instead of going to column 1
    let input = b"\r";
    let output = filter(input, 80, 24, &mut FilterState::new());
    assert_eq!(std::str::from_utf8(&output).unwrap(), "\x1b[2G");
}

#[test]
fn test_newline_with_cr() {
    // \r should become CHA(2), \n should pass through
    // At cursor_row=1 (not at scroll bottom), no repair occurs
    let input = b"\r\n";
    let output = filter(input, 80, 24, &mut FilterState::new());
    let s = std::str::from_utf8(&output).unwrap();
    // Starts with CR->CHA(2) then LF
    assert!(s.starts_with("\x1b[2G\n"));
    // No repair at cursor_row=1 (not at scroll bottom)
    assert!(!s.contains('│'));
}

#[test]
fn test_newline_at_scroll_bottom_repairs() {
    // LF at scroll bottom should trigger repair
    let mut state = FilterState::new();
    let bi = test_border_info();
    // Move cursor to bottom of scroll region (inner_height = 22)
    let _ = filter_child_output(b"\x1b[22;1H", 80, 24, &bi, &mut state);
    let output = filter_child_output(b"\r\n", 80, 24, &bi, &mut state);
    let s = std::str::from_utf8(&output).unwrap();
    assert!(s.contains("\x1b7"));
    assert!(s.contains("\x1b[23;1H"));
    assert!(s.contains("\x1b[23;80H"));
    assert!(s.contains("\x1b8"));
    assert_eq!(s.matches('│').count(), 2);
}

#[test]
fn test_csi_e_cnl_converts_to_b_plus_cha() {
    // CSI 3E (Cursor Next Line) should become CSI 3B + CHA(2)
    let input = b"\x1b[3E";
    let output = filter(input, 80, 24, &mut FilterState::new());
    assert_eq!(std::str::from_utf8(&output).unwrap(), "\x1b[3B\x1b[2G");
}

#[test]
fn test_csi_f_cpl_converts_to_a_plus_cha() {
    // CSI 2F (Cursor Previous Line) should become CSI 2A + CHA(2)
    let input = b"\x1b[2F";
    let output = filter(input, 80, 24, &mut FilterState::new());
    assert_eq!(std::str::from_utf8(&output).unwrap(), "\x1b[2A\x1b[2G");
}

#[test]
fn test_el_0k_redraws_right_border() {
    // CSI K (erase to end of line) should pass through and redraw right border
    let input = b"\x1b[K";
    let output = filter(input, 80, 24, &mut FilterState::new());
    let s = std::str::from_utf8(&output).unwrap();
    // Should contain the EL sequence
    assert!(s.starts_with("\x1b[K"));
    // Should contain save cursor (CSI s), move to column 80, draw border char, reset, restore cursor (CSI u)
    assert!(s.contains("\x1b7"));
    assert!(s.contains("\x1b[80G"));
    assert!(s.contains('│'));
    assert!(s.contains("\x1b[39m"));
    assert!(s.contains("\x1b8"));
}

#[test]
fn test_el_1k_redraws_left_border() {
    // CSI 1K (erase from start of line) should pass through and redraw left border
    let input = b"\x1b[1K";
    let output = filter(input, 80, 24, &mut FilterState::new());
    let s = std::str::from_utf8(&output).unwrap();
    // Should contain the EL 1K sequence
    assert!(s.starts_with("\x1b[1K"));
    // Should contain save cursor (CSI s), move to column 1, draw border char, reset, restore cursor (CSI u)
    assert!(s.contains("\x1b7"));
    assert!(s.contains("\x1b[1G"));
    assert!(s.contains('│'));
    assert!(s.contains("\x1b[39m"));
    assert!(s.contains("\x1b8"));
}

#[test]
fn test_el_2k_redraws_both_borders() {
    // CSI 2K (erase entire line) should redraw both borders
    let input = b"\x1b[2K";
    let output = filter(input, 80, 24, &mut FilterState::new());
    let s = std::str::from_utf8(&output).unwrap();
    assert!(s.starts_with("\x1b[2K"));
    // Should redraw left border at column 1
    assert!(s.contains("\x1b[1G"));
    // Should redraw right border at column 80
    assert!(s.contains("\x1b[80G"));
    // Should contain two border chars
    assert_eq!(s.matches('│').count(), 2);
}

// === Erased displays, columns and line feeds ===

#[test]
fn test_ed_0j_converts_to_ech_rows() {
    // ED 0J (erase from cursor to end) should:
    // 1. Clear cursor line remainder (EL 0K) + repair right border
    // 2. ECH for all rows below cursor
    let input = b"\x1b[J"; // ED 0J (default)
    let output = filter(input, 80, 24, &mut FilterState::new());
    let s = std::str::from_utf8(&output).unwrap();
    // Should begin with synchronized output
    assert!(s.starts_with("\x1b[?2026h"));
    // Should contain EL 0K for cursor line
    assert!(s.contains("\x1b[K"));
    // Should repair right border on cursor line
    assert!(s.contains("\x1b[80G"));
    // cursor_row defaults to 1, so rows below = row 3 (inner 2+1) to row 23
    assert!(s.contains("\x1b[3;2H\x1b[78X"));
    assert!(s.contains("\x1b[23;2H\x1b[78X"));
    // Should use DECSC/DECRC
    assert!(s.contains("\x1b7"));
    assert!(s.contains("\x1b8"));
    assert!(s.ends_with("\x1b[?2026l"));
}

#[test]
fn test_ed_0j_explicit_param() {
    // ED with explicit 0 parameter
    let input = b"\x1b[0J";
    let output = filter(input, 80, 24, &mut FilterState::new());
    let s = std::str::from_utf8(&output).unwrap();
    assert!(s.starts_with("\x1b[?2026h"));
    // Should contain EL 0K for cursor line
    assert!(s.contains("\x1b[K"));
    assert!(s.contains("\x1b[3;2H\x1b[78X"));
    assert!(s.ends_with("\x1b[?2026l"));
}

#[test]
fn test_ed_0j_with_cursor_position() {
    // ED 0J after moving cursor to row 10 should clear cursor line (EL 0K)
    // + ECH for rows 11..=22 (outer 12..=23)
    let mut state = FilterState::new();
    let bi = test_border_info();
    // Move cursor to row 10
    let _ = filter_child_output(b"\x1b[10;1H", 80, 24, &bi, &mut state);
    // Now ED 0J
    let output = filter_child_output(b"\x1b[J", 80, 24, &bi, &mut state);
    let s = std::str::from_utf8(&output).unwrap();
    // Should contain EL 0K for cursor line
    assert!(s.contains("\x1b[K"));
    // Should NOT erase rows 2..10 (before cursor)
    assert!(!s.contains("\x1b[2;2H"));
    assert!(!s.contains("\x1b[10;2H"));
    // Should erase from row 12 (inner row 11 + 1) to row 23
    assert!(s.contains("\x1b[12;2H\x1b[78X"));
    assert!(s.contains("\x1b[23;2H\x1b[78X"));
}

#[test]
fn test_ed_1j_converts_to_ech_rows() {
    // ED 1J (erase from beginning to cursor) with default cursor_row=1
    // should: no rows above (loop 2..=1 is empty), then EL 1K + left border repair
    let input = b"\x1b[1J";
    let output = filter(input, 80, 24, &mut FilterState::new());
    let s = std::str::from_utf8(&output).unwrap();
    assert!(s.starts_with("\x1b[?2026h"));
    assert!(s.contains("\x1b7"));
    // No ECH rows (cursor at row 1, no rows above)
    assert!(!s.contains("\x1b[2;2H\x1b[78X"));
    // Should contain EL 1K for cursor line
    assert!(s.contains("\x1b[1K"));
    // Should repair left border
    assert!(s.contains("\x1b[1G"));
    assert!(s.contains("\x1b8"));
    assert!(s.ends_with("\x1b[?2026l"));
}

#[test]
fn test_ed_1j_with_cursor_position() {
    // ED 1J after moving cursor to row 10 should:
    // ECH for rows 1..=9 (outer 2..=10), then EL 1K + left border on cursor line
    let mut state = FilterState::new();
    let bi = test_border_info();
    // Move cursor to row 10
    let _ = filter_child_output(b"\x1b[10;1H", 80, 24, &bi, &mut state);
    // Now ED 1J
    let output = filter_child_output(b"\x1b[1J", 80, 24, &bi, &mut state);
    let s = std::str::from_utf8(&output).unwrap();
    // Should erase rows 2..=10 (inner rows 1..=9, outer rows 2..=10) with ECH
    assert!(s.contains("\x1b[2;2H\x1b[78X"));
    assert!(s.contains("\x1b[10;2H\x1b[78X"));
    // Should NOT erase row 11 with ECH (that's cursor line — uses EL 1K instead)
    assert!(!s.contains("\x1b[11;2H\x1b[78X"));
    // Should contain EL 1K for cursor line
    assert!(s.contains("\x1b[1K"));
    // Should NOT erase row 12 (inner row 11)
    assert!(!s.contains("\x1b[12;2H"));
}

#[test]
fn test_hpa_offset() {
    // HPA (CSI col `) should get same offset as CHA (CSI col G)
    let input = b"\x1b[10`";
    let output = filter(input, 80, 24, &mut FilterState::new());
    assert_eq!(std::str::from_utf8(&output).unwrap(), "\x1b[11`");
}

#[test]
fn test_hpa_default_param() {
    // HPA with no param defaults to column 1
    let input = b"\x1b[`";
    let output = filter(input, 80, 24, &mut FilterState::new());
    assert_eq!(std::str::from_utf8(&output).unwrap(), "\x1b[2`");
}

#[test]
fn test_hpa_clamped() {
    // HPA beyond inner width should be clamped
    let input = b"\x1b[200`";
    let output = filter(input, 80, 24, &mut FilterState::new());
    // inner_width = 78, so clamped to 78+1=79
    assert_eq!(std::str::from_utf8(&output).unwrap(), "\x1b[79`");
}

#[test]
fn test_lf_no_repair_when_not_at_scroll_bottom() {
    // LF at cursor_row=1 (not at scroll bottom) should NOT repair borders
    let input = b"\n";
    let output = filter(input, 80, 24, &mut FilterState::new());
    let s = std::str::from_utf8(&output).unwrap();
    // Should start with the LF itself
    assert!(s.starts_with('\n'));
    // No border repair
    assert_eq!(s.matches('│').count(), 0);
    assert_eq!(s, "\n");
}

#[test]
fn test_lf_repairs_at_scroll_bottom() {
    // LF at scroll bottom should trigger border repair
    let mut state = FilterState::new();
    let bi = test_border_info();
    // Move cursor to inner_height (22)
    let _ = filter_child_output(b"\x1b[22;1H", 80, 24, &bi, &mut state);
    let output = filter_child_output(b"\n", 80, 24, &bi, &mut state);
    let s = std::str::from_utf8(&output).unwrap();
    assert!(s.starts_with('\n'));
    assert!(s.contains("\x1b7"));
    assert!(s.contains("\x1b[23;1H"));
    assert!(s.contains("\x1b[23;80H"));
    assert_eq!(s.matches('│').count(), 2);
    assert!(s.contains("\x1b8"));
}

#[test]
fn test_lf_in_text_stream_no_repair_until_bottom() {
    // Multiple LFs in text from cursor_row=1 should not get border repair
    // (cursor moves from 1 to 3, never reaches scroll bottom 22)
    let input = b"a\nb\n";
    let output = filter(input, 80, 24, &mut FilterState::new());
    let s = std::str::from_utf8(&output).unwrap();
    assert_eq!(s.matches('│').count(), 0);
}

#[test]
fn test_reverse_index_repairs_top_border() {
    // ESC M (Reverse Index) should pass through and repair top row side borders
    let input = b"\x1bM";
    let output = filter(input, 80, 24, &mut FilterState::new());
    let s = std::str::from_utf8(&output).unwrap();
    // Should start with ESC M
    assert!(s.starts_with("\x1bM"));
    // Should save cursor with CSI s
    assert!(s.contains("\x1b7"));
    // Should draw left border at top row (row 2), col 1
    assert!(s.contains("\x1b[2;1H"));
    // Should draw right border at top row, col 80
    assert!(s.contains("\x1b[2;80H"));
    // Should contain two border chars
    assert_eq!(s.matches('│').count(), 2);
    // Should restore cursor with CSI u
    assert!(s.contains("\x1b8"));
}

// === IL/DL/SU/SD/ICH/DCH/ECH/DECLRMM tests ===

#[test]
fn test_il_repairs_all_side_borders() {
    // IL (CSI 3L) should pass through and repair all side borders
    let input = b"\x1b[3L";
    let output = filter(input, 80, 24, &mut FilterState::new());
    let s = std::str::from_utf8(&output).unwrap();
    // Should start with the IL sequence
    assert!(s.starts_with("\x1b[3L"));
    // Should use synchronized output and CSI s/u
    assert!(s.contains("\x1b[?2026h"));
    assert!(s.contains("\x1b7"));
    assert!(s.contains("\x1b8"));
    assert!(s.contains("\x1b[?2026l"));
    // Should repair all 22 inner rows (rows 2..=23), 2 borders each = 44
    assert_eq!(s.matches('│').count(), 44);
    // Check first and last inner rows
    assert!(s.contains("\x1b[2;1H"));
    assert!(s.contains("\x1b[2;80H"));
    assert!(s.contains("\x1b[23;1H"));
    assert!(s.contains("\x1b[23;80H"));
}

#[test]
fn test_dl_repairs_all_side_borders() {
    // DL (CSI 2M) should pass through and repair all side borders
    let input = b"\x1b[2M";
    let output = filter(input, 80, 24, &mut FilterState::new());
    let s = std::str::from_utf8(&output).unwrap();
    assert!(s.starts_with("\x1b[2M"));
    assert!(s.contains("\x1b7"));
    assert!(s.contains("\x1b8"));
    assert_eq!(s.matches('│').count(), 44);
}

#[test]
fn test_dl_default_param() {
    // DL with no param (CSI M) should default to 1 and still repair
    let input = b"\x1b[M";
    let output = filter(input, 80, 24, &mut FilterState::new());
    let s = std::str::from_utf8(&output).unwrap();
    assert!(s.starts_with("\x1b[M"));
    assert_eq!(s.matches('│').count(), 44);
}

#[test]
fn test_su_repairs_bottom_borders() {
    // SU (CSI 3S) should pass through and repair bottom 3 rows
    let input = b"\x1b[3S";
    let output = filter(input, 80, 24, &mut FilterState::new());
    let s = std::str::from_utf8(&output).unwrap();
    assert!(s.starts_with("\x1b[3S"));
    assert!(s.contains("\x1b7"));
    assert!(s.contains("\x1b8"));
    // 3 rows × 2 borders = 6
    assert_eq!(s.matches('│').count(), 6);
    // Should repair rows 21, 22, 23 (bottom 3 of inner area)
    assert!(s.contains("\x1b[21;1H"));
    assert!(s.contains("\x1b[23;80H"));
}

#[test]
fn test_su_default_param() {
    // SU with no param defaults to 1
    let input = b"\x1b[S";
    let output = filter(input, 80, 24, &mut FilterState::new());
    let s = std::str::from_utf8(&output).unwrap();
    assert!(s.starts_with("\x1b[S"));
    // 1 row × 2 borders = 2
    assert_eq!(s.matches('│').count(), 2);
    // Should repair bottom row (row 23)
    assert!(s.contains("\x1b[23;1H"));
    assert!(s.contains("\x1b[23;80H"));
}

#[test]
fn test_sd_repairs_top_borders() {
    // SD (CSI 3T) should pass through and repair top 3 rows
    let input = b"\x1b[3T";
    let output = filter(input, 80, 24, &mut FilterState::new());
    let s = std::str::from_utf8(&output).unwrap();
    assert!(s.starts_with("\x1b[3T"));
    assert!(s.contains("\x1b7"));
    assert!(s.contains("\x1b8"));
    // 3 rows × 2 borders = 6
    assert_eq!(s.matches('│').count(), 6);
    // Should repair rows 2, 3, 4 (top 3 of inner area)
    assert!(s.contains("\x1b[2;1H"));
    assert!(s.contains("\x1b[4;80H"));
}

#[test]
fn test_sd_default_param() {
    // SD with no param defaults to 1
    let input = b"\x1b[T";
    let output = filter(input, 80, 24, &mut FilterState::new());
    let s = std::str::from_utf8(&output).unwrap();
    assert!(s.starts_with("\x1b[T"));
    // 1 row × 2 borders = 2
    assert_eq!(s.matches('│').count(), 2);
    // Should repair top row (row 2)
    assert!(s.contains("\x1b[2;1H"));
    assert!(s.contains("\x1b[2;80H"));
}

#[test]
fn test_ich_repairs_right_border() {
    // ICH (CSI 5@) should pass through and repair right border
    let input = b"\x1b[5@";
    let output = filter(input, 80, 24, &mut FilterState::new());
    let s = std::str::from_utf8(&output).unwrap();
    assert!(s.starts_with("\x1b[5@"));
    assert!(s.contains("\x1b7"));
    assert!(s.contains("\x1b[80G"));
    assert_eq!(s.matches('│').count(), 1);
    assert!(s.contains("\x1b8"));
}

#[test]
fn test_dch_repairs_right_border() {
    // DCH (CSI 5P) should pass through and repair right border
    let input = b"\x1b[5P";
    let output = filter(input, 80, 24, &mut FilterState::new());
    let s = std::str::from_utf8(&output).unwrap();
    assert!(s.starts_with("\x1b[5P"));
    assert!(s.contains("\x1b7"));
    assert!(s.contains("\x1b[80G"));
    assert_eq!(s.matches('│').count(), 1);
    assert!(s.contains("\x1b8"));
}

#[test]
fn test_ech_repairs_right_border() {
    // ECH (CSI 20X) should pass through and repair right border
    let input = b"\x1b[20X";
    let output = filter(input, 80, 24, &mut FilterState::new());
    let s = std::str::from_utf8(&output).unwrap();
    assert!(s.starts_with("\x1b[20X"));
    assert!(s.contains("\x1b7"));
    assert!(s.contains("\x1b[80G"));
    assert_eq!(s.matches('│').count(), 1);
    assert!(s.contains("\x1b8"));
}

#[test]
fn test_declrmm_blocked() {
    // CSI ?69h (DECLRMM enable) should be silently dropped
    let input = b"\x1b[?69h";
    let output = filter(input, 80, 24, &mut FilterState::new());
    assert_eq!(output, b"");
}

#[test]
fn test_declrmm_disable_blocked() {
    // CSI ?69l (DECLRMM disable) should also be silently dropped
    let input = b"\x1b[?69l";
    let output = filter(input, 80, 24, &mut FilterState::new());
    assert_eq!(output, b"");
}

#[test]
fn test_other_private_modes_pass_through() {
    // Other private modes like ?25h (show cursor) should still pass through
    let input = b"\x1b[?25h";
    let output = filter(input, 80, 24, &mut FilterState::new());
    assert_eq!(std::str::from_utf8(&output).unwrap(), "\x1b[?25h");
}

#[test]
fn test_private_sd_passes_through() {
    // CSI ? ... T (private T) should pass through unchanged, not be treated as SD
    let input = b"\x1b[?1T";
    let output = filter(input, 80, 24, &mut FilterState::new());
    let s = std::str::from_utf8(&output).unwrap();
    assert_eq!(s, "\x1b[?1T");
    // Should NOT contain border repair
    assert!(!s.contains('│'));
}

// === Alt screen / RIS / ED detection in state machine ===

#[test]
fn test_alt_screen_enter_sets_redraw_flag() {
    let mut state = FilterState::new();
    let bi = test_border_info();
    let _ = filter_child_output(b"\x1b[?1049h", 80, 24, &bi, &mut state);
    assert!(state.take_border_redraw());
    // Flag should be cleared after take
    assert!(!state.take_border_redraw());
}

#[test]
fn test_alt_screen_leave_sets_redraw_flag() {
    let mut state = FilterState::new();
    let bi = test_border_info();
    let _ = filter_child_output(b"\x1b[?1049l", 80, 24, &bi, &mut state);
    assert!(state.take_border_redraw());
}

#[test]
fn test_alt_screen_47_sets_redraw_flag() {
    let mut state = FilterState::new();
    let bi = test_border_info();
    let _ = filter_child_output(b"\x1b[?47h", 80, 24, &bi, &mut state);
    assert!(state.take_border_redraw());
}

#[test]
fn test_alt_screen_1047_sets_redraw_flag() {
    let mut state = FilterState::new();
    let bi = test_border_info();
    let _ = filter_child_output(b"\x1b[?1047h", 80, 24, &bi, &mut state);
    assert!(state.take_border_redraw());
}

#[test]
fn test_alt_screen_1047_leave_sets_redraw_flag() {
    let mut state = FilterState::new();
    let bi = test_border_info();
    let _ = filter_child_output(b"\x1b[?1047l", 80, 24, &bi, &mut state);
    assert!(state.take_border_redraw());
}

#[test]
fn test_alt_screen_split_across_buffers() {
    // Alt screen sequence split across two reads should still be detected
    let mut state = FilterState::new();
    let bi = test_border_info();
    let _ = filter_child_output(b"\x1b[?1049", 80, 24, &bi, &mut state);
    assert!(!state.needs_border_redraw); // not yet complete
    let _ = filter_child_output(b"h", 80, 24, &bi, &mut state);
    assert!(state.take_border_redraw());
}

#[test]
fn test_ris_sets_redraw_flag() {
    let mut state = FilterState::new();
    let bi = test_border_info();
    let _ = filter_child_output(b"\x1bc", 80, 24, &bi, &mut state);
    assert!(state.take_border_redraw());
}

#[test]
fn test_ris_split_across_buffers() {
    // ESC c split across two reads
    let mut state = FilterState::new();
    let bi = test_border_info();
    let _ = filter_child_output(b"\x1b", 80, 24, &bi, &mut state);
    assert!(!state.needs_border_redraw);
    let _ = filter_child_output(b"c", 80, 24, &bi, &mut state);
    assert!(state.take_border_redraw());
}

#[test]
fn test_ed_2j_sets_redraw_flag() {
    let mut state = FilterState::new();
    let bi = test_border_info();
    let _ = filter_child_output(b"\x1b[2J", 80, 24, &bi, &mut state);
    assert!(state.take_border_redraw());
}

#[test]
fn test_ed_3j_sets_redraw_flag() {
    let mut state = FilterState::new();
    let bi = test_border_info();
    let _ = filter_child_output(b"\x1b[3J", 80, 24, &bi, &mut state);
    assert!(state.take_border_redraw());
}

#[test]
fn test_normal_output_no_redraw_flag() {
    let mut state = FilterState::new();
    let bi = test_border_info();
    let _ = filter_child_output(b"hello world\x1b[5;10H", 80, 24, &bi, &mut state);
    assert!(!state.needs_border_redraw);
}

// === DCS passthrough tests ===

#[test]
fn test_dcs_sequence_passthrough() {
    // DCS sequence (ESC P ... ESC \) should pass through without
    // interpreting inner bytes as CSI sequences
    let input = b"\x1bPtest\x1b[1;1Hdata\x1b\\";
    let output = filter(input, 80, 24, &mut FilterState::new());
    let s = std::str::from_utf8(&output).unwrap();
    // Should contain the DCS content verbatim (CSI inside should NOT be transformed)
    assert!(s.contains("\x1bPtest\x1b[1;1Hdata\x1b\\"));
}

#[test]
fn test_dcs_split_across_buffers() {
    // DCS split across reads should not corrupt state
    let mut state = FilterState::new();
    let bi = test_border_info();
    let out1 = filter_child_output(b"\x1bPsome", 80, 24, &bi, &mut state);
    let out2 = filter_child_output(b"\x1b[1;1H", 80, 24, &bi, &mut state); // should NOT be treated as CUP
    let out3 = filter_child_output(b"\x1b\\", 80, 24, &bi, &mut state);
    let combined = [out1, out2, out3].concat();
    let s = std::str::from_utf8(&combined).unwrap();
    // The CSI inside DCS should be passed through literally
    assert!(s.contains("\x1b[1;1H"));
    // Should NOT contain the transformed \x1b[2;2H
    assert!(!s.contains("\x1b[2;2H"));
}

// === Cursor row tracking tests ===

#[test]
fn test_cursor_row_tracks_cup() {
    let mut state = FilterState::new();
    let bi = test_border_info();
    assert_eq!(state.cursor_row(), 1);
    let _ = filter_child_output(b"\x1b[5;1H", 80, 24, &bi, &mut state);
    assert_eq!(state.cursor_row(), 5);
}

#[test]
fn test_cursor_row_tracks_vpa() {
    let mut state = FilterState::new();
    let bi = test_border_info();
    let _ = filter_child_output(b"\x1b[10d", 80, 24, &bi, &mut state);
    assert_eq!(state.cursor_row(), 10);
}

#[test]
fn test_cursor_row_tracks_cuu_cud() {
    let mut state = FilterState::new();
    let bi = test_border_info();
    // Start at row 10
    let _ = filter_child_output(b"\x1b[10;1H", 80, 24, &bi, &mut state);
    assert_eq!(state.cursor_row(), 10);
    // Move up 3
    let _ = filter_child_output(b"\x1b[3A", 80, 24, &bi, &mut state);
    assert_eq!(state.cursor_row(), 7);
    // Move down 5
    let _ = filter_child_output(b"\x1b[5B", 80, 24, &bi, &mut state);
    assert_eq!(state.cursor_row(), 12);
}

#[test]
fn test_cursor_row_tracks_lf() {
    let mut state = FilterState::new();
    let bi = test_border_info();
    assert_eq!(state.cursor_row(), 1);
    let _ = filter_child_output(b"\n\n\n", 80, 24, &bi, &mut state);
    assert_eq!(state.cursor_row(), 4);
}

#[test]
fn test_cursor_row_clamps_at_bottom() {
    let mut state = FilterState::new();
    let bi = test_border_info();
    // inner_height = 22, move to row 22
    let _ = filter_child_output(b"\x1b[22;1H", 80, 24, &bi, &mut state);
    assert_eq!(state.cursor_row(), 22);
    // LF should not go beyond inner_height
    let _ = filter_child_output(b"\n", 80, 24, &bi, &mut state);
    assert_eq!(state.cursor_row(), 22);
}

#[test]
fn test_cursor_row_clamps_at_top() {
    let mut state = FilterState::new();
    let bi = test_border_info();
    assert_eq!(state.cursor_row(), 1);
    // CUU should not go below 1
    let _ = filter_child_output(b"\x1b[5A", 80, 24, &bi, &mut state);
    assert_eq!(state.cursor_row(), 1);
}

#[test]
fn test_cursor_row_resets_on_ed2j() {
    let mut state = FilterState::new();
    let bi = test_border_info();
    let _ = filter_child_output(b"\x1b[10;1H", 80, 24, &bi, &mut state);
    assert_eq!(state.cursor_row(), 10);
    let _ = filter_child_output(b"\x1b[2J", 80, 24, &bi, &mut state);
    assert_eq!(state.cursor_row(), 1);
}

#[test]
fn test_cursor_row_resets_on_alt_screen() {
    let mut state = FilterState::new();
    let bi = test_border_info();
    let _ = filter_child_output(b"\x1b[10;1H", 80, 24, &bi, &mut state);
    assert_eq!(state.cursor_row(), 10);
    let _ = filter_child_output(b"\x1b[?1049h", 80, 24, &bi, &mut state);
    assert_eq!(state.cursor_row(), 1);
}

#[test]
fn test_cursor_row_resets_on_ris() {
    let mut state = FilterState::new();
    let bi = test_border_info();
    let _ = filter_child_output(b"\x1b[10;1H", 80, 24, &bi, &mut state);
    assert_eq!(state.cursor_row(), 10);
    let _ = filter_child_output(b"\x1bc", 80, 24, &bi, &mut state);
    assert_eq!(state.cursor_row(), 1);
}

// === SU/SD large count clamp tests ===

#[test]
fn test_su_huge_count_does_not_corrupt_top_border() {
    // CSI 9999S should repair all inner rows but NOT touch row 1 (top border)
    let input = b"\x1b[9999S";
    let output = filter(input, 80, 24, &mut FilterState::new());
    let s = std::str::from_utf8(&output).unwrap();
    assert!(s.starts_with("\x1b[9999S"));
    // Should repair all 22 inner rows (rows 2..=23), clamped by .max(2)
    assert_eq!(s.matches('│').count(), 44);
    // Must NOT write to row 1 (top border)
    assert!(!s.contains("\x1b[1;1H"));
    assert!(!s.contains("\x1b[1;80H"));
    // First repaired row should be row 2
    assert!(s.contains("\x1b[2;1H"));
}

#[test]
fn test_su_count_equals_inner_height() {
    // count == inner_height (22) should repair all inner rows
    let input = b"\x1b[22S";
    let output = filter(input, 80, 24, &mut FilterState::new());
    let s = std::str::from_utf8(&output).unwrap();
    assert_eq!(s.matches('│').count(), 44);
    assert!(s.contains("\x1b[2;1H"));
    assert!(s.contains("\x1b[23;80H"));
}

#[test]
fn test_sd_huge_count_does_not_corrupt_bottom_border() {
    // CSI 9999T should repair all inner rows but NOT touch bottom border row
    let input = b"\x1b[9999T";
    let output = filter(input, 80, 24, &mut FilterState::new());
    let s = std::str::from_utf8(&output).unwrap();
    assert!(s.starts_with("\x1b[9999T"));
    // Should repair all 22 inner rows (rows 2..=23), clamped by .min(inner_height+1)
    assert_eq!(s.matches('│').count(), 44);
    // Must NOT write to row 24 (bottom border)
    assert!(!s.contains("\x1b[24;1H"));
    assert!(!s.contains("\x1b[24;80H"));
    // Last repaired row should be row 23
    assert!(s.contains("\x1b[23;1H"));
    assert!(s.contains("\x1b[23;80H"));
}

#[test]
fn test_sd_count_equals_inner_height() {
    // count == inner_height (22) should repair all inner rows
    let input = b"\x1b[22T";
    let output = filter(input, 80, 24, &mut FilterState::new());
    let s = std::str::from_utf8(&output).unwrap();
    assert_eq!(s.matches('│').count(), 44);
    assert!(s.contains("\x1b[2;1H"));
    assert!(s.contains("\x1b[23;80H"));
}

// === Repairs inside a scroll region ===

#[test]
fn test_il_with_scroll_region_only_repairs_region() {
    // Set scroll region to rows 5..=15 (inner), then IL should only repair that region
    let mut state = FilterState::new();
    let bi = test_border_info();
    // Set scroll region: CSI 5;15 r
    let _ = filter_child_output(b"\x1b[5;15r", 80, 24, &bi, &mut state);
    // IL
    let output = filter_child_output(b"\x1b[3L", 80, 24, &bi, &mut state);
    let s = std::str::from_utf8(&output).unwrap();
    // Should repair 11 rows (5..=15 inner -> 6..=16 outer), 2 borders each = 22
    assert_eq!(s.matches('│').count(), 22);
    // Should repair row 6 (first in region)
    assert!(s.contains("\x1b[6;1H"));
    // Should repair row 16 (last in region)
    assert!(s.contains("\x1b[16;80H"));
    // Should NOT repair row 2 (outside region)
    assert!(!s.contains("\x1b[2;1H"));
    // Should NOT repair row 23 (outside region)
    assert!(!s.contains("\x1b[23;1H"));
}

#[test]
fn test_dl_with_scroll_region_only_repairs_region() {
    let mut state = FilterState::new();
    let bi = test_border_info();
    let _ = filter_child_output(b"\x1b[5;15r", 80, 24, &bi, &mut state);
    let output = filter_child_output(b"\x1b[2M", 80, 24, &bi, &mut state);
    let s = std::str::from_utf8(&output).unwrap();
    assert_eq!(s.matches('│').count(), 22);
    assert!(s.contains("\x1b[6;1H"));
    assert!(s.contains("\x1b[16;80H"));
    assert!(!s.contains("\x1b[2;1H"));
}

#[test]
fn test_su_with_scroll_region_only_repairs_region_bottom() {
    // Set scroll region to rows 5..=15, SU 2 should repair bottom 2 rows of region
    let mut state = FilterState::new();
    let bi = test_border_info();
    let _ = filter_child_output(b"\x1b[5;15r", 80, 24, &bi, &mut state);
    let output = filter_child_output(b"\x1b[2S", 80, 24, &bi, &mut state);
    let s = std::str::from_utf8(&output).unwrap();
    // 2 rows × 2 borders = 4
    assert_eq!(s.matches('│').count(), 4);
    // Should repair rows 15 and 16 (outer) = inner 14 and 15
    assert!(s.contains("\x1b[15;1H"));
    assert!(s.contains("\x1b[16;80H"));
    // Should NOT repair row 23 (outside region)
    assert!(!s.contains("\x1b[23;1H"));
}

#[test]
fn test_sd_with_scroll_region_only_repairs_region_top() {
    // Set scroll region to rows 5..=15, SD 2 should repair top 2 rows of region
    let mut state = FilterState::new();
    let bi = test_border_info();
    let _ = filter_child_output(b"\x1b[5;15r", 80, 24, &bi, &mut state);
    let output = filter_child_output(b"\x1b[2T", 80, 24, &bi, &mut state);
    let s = std::str::from_utf8(&output).unwrap();
    // 2 rows × 2 borders = 4
    assert_eq!(s.matches('│').count(), 4);
    // Should repair rows 6 and 7 (outer) = inner 5 and 6
    assert!(s.contains("\x1b[6;1H"));
    assert!(s.contains("\x1b[7;80H"));
    // Should NOT repair row 2 (outside region)
    assert!(!s.contains("\x1b[2;1H"));
}

// === WINCH cursor_row reset test ===

#[test]
fn test_reset_cursor_row() {
    let mut state = FilterState::new();
    let bi = test_border_info();
    // Move cursor to row 20
    let _ = filter_child_output(b"\x1b[20;1H", 80, 24, &bi, &mut state);
    assert_eq!(state.cursor_row(), 20);
    // Simulate WINCH: reset cursor_row
    state.reset_cursor_row();
    assert_eq!(state.cursor_row(), 1);
}
