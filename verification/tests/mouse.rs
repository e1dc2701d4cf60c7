use tmux_pane_border::mouse::{
    forward_input as forward_read, is_mouse_sequence, transform_mouse_input, MouseTransform,
};
use tmux_pane_border::paste::Paste;
use tmux_pane_border::vt_filter::{filter_child_output, BorderInfo, FilterState};

fn forward_input(input: &[u8], width: u16, height: u16) -> Option<Vec<u8>> {
    forward_read(input, width, height, &mut Paste::new())
}

fn transformed(input: &[u8], width: u16, height: u16) -> Vec<u8> {
    match transform_mouse_input(input, width, height) {
        MouseTransform::Transformed(bytes) => bytes,
        _ => panic!("expected a transformed event"),
    }
}

fn is_on_border(input: &[u8], width: u16, height: u16) -> bool {
    matches!(
        transform_mouse_input(input, width, height),
        MouseTransform::OnBorder
    )
}

fn is_unreadable(input: &[u8]) -> bool {
    matches!(
        transform_mouse_input(input, 80, 24),
        MouseTransform::ParseError
    )
}

#[test]
fn extended_edges() {
    assert_eq!(transformed(b"\x1b[<0;2;2M", 80, 24), b"\x1b[<0;1;1M");
    assert_eq!(transformed(b"\x1b[<0;79;23m", 80, 24), b"\x1b[<0;78;22m");
    assert!(is_on_border(b"\x1b[<0;80;10M", 80, 24));
    assert!(is_on_border(b"\x1b[<0;10;24M", 80, 24));
    assert!(is_on_border(b"\x1b[<0;1;10M", 80, 24));
    assert!(is_on_border(b"\x1b[<0;10;1M", 80, 24));
    assert!(is_on_border(b"\x1b[<0;0;0M", 80, 24));
}

#[test]
fn extended_numbers() {
    assert_eq!(transformed(b"\x1b[<64;+010;0011M", 80, 24), b"\x1b[<64;9;10M");
    assert_eq!(transformed("\x1b[<é;3;3M".as_bytes(), 80, 24), "\x1b[<é;2;2M".as_bytes());
    assert!(is_unreadable(b"\x1b[<0;x;3M"));
    assert!(is_unreadable(b"\x1b[<0;3;M"));
    assert!(is_unreadable(b"\x1b[<0;70000;3M"));
    assert!(is_unreadable(b"\x1b[<0;3M"));
    assert!(is_unreadable(b"\x1b[<0;3;3;3M"));
    assert!(is_unreadable(b"\x1b[<0;3;-3M"));
    assert!(is_unreadable(b"\x1b[<"));
}

#[test]
fn every_event_of_a_read_is_moved() {
    assert_eq!(
        forward_input(b"\x1b[<0;5;5M\x1b[<0;6;5m", 80, 24),
        Some(b"\x1b[<0;4;4M\x1b[<0;5;4m".to_vec())
    );
    assert_eq!(
        forward_input(b"ab\x1b[<0;5;5Mcd\x1b[M \x25\x25ef\x1b[A", 80, 24),
        Some(b"ab\x1b[<0;4;4Mcd\x1b[M \x24\x24ef\x1b[A".to_vec())
    );
    assert_eq!(
        forward_input(b"\x1b[<0;1;5M\x1b[<0;5;5M\x1b[<0;5;1M", 80, 24),
        Some(b"\x1b[<0;4;4M".to_vec())
    );
    assert_eq!(forward_input(b"\x1b[<0;1;5M\x1b[<0;1;5m", 80, 24), None);
    assert_eq!(
        forward_input(b"\x1b[<0;5\x1b[<0;5;5M", 80, 24),
        Some(b"\x1b[<0;5\x1b[<0;4;4M".to_vec())
    );
    assert_eq!(
        forward_input(b"\x1b[<0;5;5M\xc3", 80, 24),
        Some(b"\x1b[<0;4;4M\xc3".to_vec())
    );
    assert_eq!(forward_input(b"", 80, 24), Some(vec![]));
}

#[test]
fn classic_events() {
    assert_eq!(
        transformed(&[0x1b, b'[', b'M', 32, 32 + 5, 32 + 3], 80, 24),
        [0x1b, b'[', b'M', 32, 32 + 4, 32 + 2]
    );
    assert!(is_on_border(&[0x1b, b'[', b'M', 32, 33, 40], 80, 24));
    assert!(is_on_border(&[0x1b, b'[', b'M', 32, 40, 32 + 24], 80, 24));
    assert!(is_unreadable(&[0x1b, b'[', b'M', 32, 40]));
    // Columns and rows past 95 take bytes beyond ASCII.
    assert_eq!(
        transformed(&[0x1b, b'[', b'M', 32, 132, 35], 200, 24),
        [0x1b, b'[', b'M', 32, 131, 34]
    );
    assert_eq!(
        transformed(&[0x1b, b'[', b'M', 32, 0xc3, 0xa9], 300, 300),
        [0x1b, b'[', b'M', 32, 0xc2, 0xa8]
    );
    assert_eq!(
        transformed(&[0x1b, b'[', b'M', 32, 255, 255], 300, 300),
        [0x1b, b'[', b'M', 32, 254, 254]
    );
    assert!(is_on_border(&[0x1b, b'[', b'M', 32, 132, 35], 100, 24));
    // A coordinate byte below 32 wraps around.
    assert!(is_on_border(&[0x1b, b'[', b'M', 32, 31, 40], 300, 300));
}

#[test]
fn what_is_no_event() {
    assert!(is_unreadable(b"hello"));
    assert!(is_unreadable(b""));
    assert!(is_unreadable(&[0xff, 0xfe]));
    assert!(is_unreadable(b"\x1b[<\xff;3;3M"));
    assert!(!is_mouse_sequence(b"\x1b[A"));
    assert!(!is_mouse_sequence(b"\x1b[M12"));
    assert!(is_mouse_sequence(b"\x1b[M123"));
    assert!(is_mouse_sequence(b"\x1b[<"));
}

#[test]
fn forwarding() {
    assert_eq!(forward_input(b"ls\r", 80, 24), Some(b"ls\r".to_vec()));
    assert_eq!(
        forward_input(b"\x1b[<0;5;3M", 80, 24),
        Some(b"\x1b[<0;4;2M".to_vec())
    );
    assert_eq!(forward_input(b"\x1b[<0;1;1M", 80, 24), None);
    assert_eq!(
        forward_input(b"\x1b[<0;5", 80, 24),
        Some(b"\x1b[<0;5".to_vec())
    );
    assert_eq!(
        forward_input(&[0x1b, b'[', b'M', 32, 0x85, 40], 200, 24),
        Some(vec![0x1b, b'[', b'M', 32, 0x84, 39])
    );
}

#[test]
fn reports_return() {
    let info = BorderInfo {
        vertical_char: '|',
        color_seq: "",
    };
    for (column, row) in [(1u16, 1u16), (78, 22), (40, 7)] {
        let report = format!("\x1b[<0;{column};{row}M").into_bytes();
        let printed = filter_child_output(&report, 80, 24, &info, &mut FilterState::new());
        assert_eq!(forward_input(&printed, 80, 24), Some(report));
    }
}

#[test]
fn pasted_text_is_left_alone() {
    let input = b"\x1b[<0;5;5M\x1b[200~x\x1b[<0;5;5M\x1b[M\x25\x25\x25\x1b\x1b[201~\x1b[<0;5;5M";
    let expected = b"\x1b[<0;4;4M\x1b[200~x\x1b[<0;5;5M\x1b[M\x25\x25\x25\x1b\x1b[201~\x1b[<0;4;4M";
    assert_eq!(forward_input(input, 80, 24), Some(expected.to_vec()));
    // Cut anywhere but inside an event, it comes to the same.
    for cut in (9..=17).chain(26..=38) {
        let mut paste = Paste::new();
        let mut out = Vec::new();
        for piece in [&input[..cut], &input[cut..]] {
            out.extend(forward_read(piece, 80, 24, &mut paste).unwrap());
        }
        assert_eq!(out, expected);
        assert_eq!(paste, Paste::new());
    }
}

#[test]
fn events_on_the_border_in_a_paste_are_kept() {
    let input = b"\x1b[200~\x1b[<0;1;1M";
    let mut paste = Paste::new();
    assert_eq!(
        forward_read(input, 80, 24, &mut paste),
        Some(input.to_vec())
    );
    assert!(paste.inside);
    assert_eq!(
        forward_read(b"\x1b[<0;1;1M", 80, 24, &mut paste),
        Some(b"\x1b[<0;1;1M".to_vec())
    );
    forward_read(b"\x1b[201~", 80, 24, &mut paste);
    assert_eq!(forward_read(b"\x1b[<0;1;1M", 80, 24, &mut paste), None);
}
