use tmux_pane_border::text::{
    bytes_of, parse_number, push_number, put, put_number, put_slice, same, split_fields,
};

#[test]
fn numbers_are_written() {
    for n in [0u16, 9, 10, 99, 100, 12345, 65535] {
        let mut bytes = Vec::new();
        put_number(&mut bytes, n);
        assert_eq!(bytes, n.to_string().into_bytes());
        let mut text = String::new();
        push_number(&mut text, n);
        assert_eq!(text, n.to_string());
        assert_eq!(parse_number(&bytes), Some(n));
    }
}

#[test]
fn numbers_are_read() {
    assert_eq!(parse_number(b"+7"), Some(7));
    assert_eq!(parse_number(b"0000000000065535"), Some(65535));
    for field in [&b""[..], b"+", b"-1", b"++1", b"1 ", b"65536", b"99999999999999999999", b"1x"] {
        assert_eq!(parse_number(field), None);
    }
}

#[test]
fn fields_are_split() {
    assert_eq!(split_fields(b"", b';'), vec![b"".to_vec()]);
    assert_eq!(
        split_fields(b"a;;bc;", b';'),
        vec![b"a".to_vec(), b"".to_vec(), b"bc".to_vec(), b"".to_vec()]
    );
}

#[test]
fn bytes_are_appended() {
    let mut out = bytes_of("é");
    put(&mut out, "x");
    put_slice(&mut out, &[0xff]);
    assert_eq!(out, [0xc3, 0xa9, b'x', 0xff]);
    assert!(same(&out, &[0xc3, 0xa9, b'x', 0xff]));
    assert!(!same(&out, b"x"));
    assert!(!same(b"ab", b"ac"));
}
