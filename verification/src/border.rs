//! Draws the border frame.

use crate::config::BorderStyle;
use crate::text;
use vstd::prelude::*;
use vstd::utf8::*;

verus! {

/// The characters of a style: top left, top right, bottom left and bottom
/// right corner, horizontal and vertical line.
pub open spec fn glyphs(style: BorderStyle) -> (char, char, char, char, char, char) {
    match style {
        BorderStyle::Rounded => ('╭', '╮', '╰', '╯', '─', '│'),
        BorderStyle::Heavy => ('┏', '┓', '┗', '┛', '━', '┃'),
        BorderStyle::Double => ('╔', '╗', '╚', '╝', '═', '║'),
        BorderStyle::Single => ('┌', '┐', '└', '┘', '─', '│'),
        BorderStyle::Ascii => ('+', '+', '+', '+', '-', '|'),
    }
}

/// The value of a hexadecimal digit in either case.
pub open spec fn hex_digit(b: u8) -> Option<u8> {
    if 0x30 <= b <= 0x39 {
        Some((b - 0x30) as u8)
    } else if 0x41 <= b <= 0x46 {
        Some((b - 0x41 + 10) as u8)
    } else if 0x61 <= b <= 0x66 {
        Some((b - 0x61 + 10) as u8)
    } else {
        None
    }
}

/// The value of a colour component: two hexadecimal digits, or a plus sign
/// and one.
pub open spec fn component(hi: u8, lo: u8) -> Option<u8> {
    if hi == 0x2b {
        hex_digit(lo)
    } else {
        match (hex_digit(hi), hex_digit(lo)) {
            (Some(h), Some(l)) => Some((h * 16 + l) as u8),
            _ => None,
        }
    }
}

/// The colour has the shape of `#` and six bytes.
pub open spec fn is_hash_color(color: Seq<u8>) -> bool {
    color.len() == 7 && color[0] == 0x23
}

/// The byte is inside the encoding of a character, not at its start.
pub open spec fn is_inside_char(b: u8) -> bool {
    0x80 <= b <= 0xbf
}

/// The components of the colour can be told apart: as far as they are read,
/// none of them ends inside a character.
pub open spec fn has_components(color: Seq<u8>) -> bool {
    is_hash_color(color) ==> !is_inside_char(color[3]) && (component(color[1], color[2]) is Some
        ==> !is_inside_char(color[5]))
}

/// The red, green and blue that a colour like `#61afef` denotes.
pub open spec fn rgb(color: Seq<u8>) -> Option<(u8, u8, u8)> {
    if is_hash_color(color) {
        match (
            component(color[1], color[2]),
            component(color[3], color[4]),
            component(color[5], color[6]),
        ) {
            (Some(r), Some(g), Some(b)) => Some((r, g, b)),
            _ => None,
        }
    } else {
        None
    }
}

/// The sequence that sets the foreground to a colour; nothing where the
/// colour denotes none.
pub open spec fn color_text(color: Seq<char>) -> Seq<char> {
    match rgb(encode_utf8(color)) {
        Some((r, g, b)) => "\x1b[38;2;"@ + text::numeral(r as nat) + ";"@ + text::numeral(
            g as nat,
        ) + ";"@ + text::numeral(b as nat) + "m"@,
        None => Seq::empty(),
    }
}

/// A horizontal edge: a corner, `n` line characters and the other corner.
pub open spec fn edge(color: Seq<char>, left: char, line: char, right: char, n: nat) -> Seq<char> {
    color + seq![left] + Seq::new(n, |i: int| line) + seq![right] + "\x1b[0m"@
}

/// The two side border cells of a row.
pub open spec fn side_pair(color: Seq<char>, vertical: char, width: u16, row: int) -> Seq<char> {
    "\x1b["@ + text::numeral(row as nat) + ";1H"@ + color + seq![vertical] + "\x1b[0m\x1b["@
        + text::numeral(row as nat) + ";"@ + text::numeral(width as nat) + "H"@ + color
        + seq![vertical] + "\x1b[0m"@
}

/// The side border cells of the rows 2 to `last`.
pub open spec fn side_pairs(color: Seq<char>, vertical: char, width: u16, last: int) -> Seq<char>
    decreases last,
{
    if last < 2 {
        Seq::empty()
    } else {
        side_pairs(color, vertical, width, last - 1) + side_pair(color, vertical, width, last)
    }
}

/// The text that draws the frame: with the cursor hidden, the top edge, the
/// sides and the bottom edge. A frame needs three rows and columns.
pub open spec fn frame_text(width: u16, height: u16, style: BorderStyle, color: Seq<char>) -> Seq<
    char,
> {
    if width < 3 || height < 3 {
        Seq::empty()
    } else {
        let (tl, tr, bl, br, h, v) = glyphs(style);
        let c = color_text(color);
        let n = (width - 2) as nat;
        "\x1b[?25l\x1b[1;1H"@ + edge(c, tl, h, tr, n) + side_pairs(c, v, width, height - 1)
            + "\x1b["@ + text::numeral(height as nat) + ";1H"@ + edge(c, bl, h, br, n)
            + "\x1b[?25h"@
    }
}

/// The lower-case hexadecimal digit of a value below 16.
pub open spec fn hex_byte(d: u8) -> u8 {
    if d < 10 {
        (0x30 + d) as u8
    } else {
        (0x61 + d - 10) as u8
    }
}

/// The colour `#rrggbb` of a red, green and blue.
pub open spec fn hash_color(r: u8, g: u8, b: u8) -> Seq<u8> {
    seq![
        0x23u8,
        hex_byte(r / 16),
        hex_byte(r % 16),
        hex_byte(g / 16),
        hex_byte(g % 16),
        hex_byte(b / 16),
        hex_byte(b % 16),
    ]
}

proof fn lemma_component_reads_back(n: u8)
    ensures
        component(hex_byte(n / 16), hex_byte(n % 16)) == Some(n),
{
}

/// Every red, green and blue is read back from its colour.
pub proof fn law_colors_read_back(r: u8, g: u8, b: u8)
    ensures
        has_components(hash_color(r, g, b)),
        rgb(hash_color(r, g, b)) == Some((r, g, b)),
{
    lemma_component_reads_back(r);
    lemma_component_reads_back(g);
    lemma_component_reads_back(b);
}

/// The components of a colour in ASCII, well formed or not, can be told apart.
pub proof fn law_ascii_colors_can_be_read(color: Seq<u8>)
    requires
        text::is_ascii(color),
    ensures
        has_components(color),
{
}

/// A colour that denotes none leaves the foreground as it is.
pub proof fn law_other_colors_set_nothing(color: Seq<char>)
    requires
        rgb(encode_utf8(color)) is None,
    ensures
        color_text(color) == Seq::<char>::empty(),
{
}

/// The characters of a style.
pub fn style_chars(style: BorderStyle) -> (r: (char, char, char, char, char, char))
    ensures
        r == glyphs(style),
{
    match style {
        BorderStyle::Rounded => ('╭', '╮', '╰', '╯', '─', '│'),
        BorderStyle::Heavy => ('┏', '┓', '┗', '┛', '━', '┃'),
        BorderStyle::Double => ('╔', '╗', '╚', '╝', '═', '║'),
        BorderStyle::Single => ('┌', '┐', '└', '┘', '─', '│'),
        BorderStyle::Ascii => ('+', '+', '+', '+', '-', '|'),
    }
}

fn parse_hex_digit(b: u8) -> (r: Option<u8>)
    ensures
        r == hex_digit(b),
        r matches Some(d) ==> d < 16,
{
    if 0x30 <= b && b <= 0x39 {
        Some(b - 0x30)
    } else if 0x41 <= b && b <= 0x46 {
        Some(b - 0x41 + 10)
    } else if 0x61 <= b && b <= 0x66 {
        Some(b - 0x61 + 10)
    } else {
        None
    }
}

fn parse_component(hi: u8, lo: u8) -> (r: Option<u8>)
    ensures
        r == component(hi, lo),
{
    if hi == 0x2b {
        return parse_hex_digit(lo);
    }
    match (parse_hex_digit(hi), parse_hex_digit(lo)) {
        (Some(h), Some(l)) => Some(h * 16 + l),
        _ => None,
    }
}

/// Tells whether a colour's components can be told apart.
pub fn can_read_color(color: &str) -> (r: bool)
    ensures
        r == has_components(encode_utf8(color@)),
{
    let c: &[u8] = color.as_bytes();
    if c.len() != 7 || c[0] != 0x23 {
        return true;
    }
    if 0x80 <= c[3] && c[3] <= 0xbf {
        return false;
    }
    parse_component(c[1], c[2]).is_none() || c[5] < 0x80 || c[5] > 0xbf
}

/// Reads a colour like `#61afef` as red, green and blue.
pub fn parse_hex_color(color: &str) -> (r: Option<(u8, u8, u8)>)
    requires
        has_components(encode_utf8(color@)),
    ensures
        r == rgb(encode_utf8(color@)),
{
    let c: &[u8] = color.as_bytes();
    if c.len() != 7 || c[0] != 0x23 {
        return None;
    }
    match (parse_component(c[1], c[2]), parse_component(c[3], c[4]), parse_component(c[5], c[6])) {
        (Some(r), Some(g), Some(b)) => Some((r, g, b)),
        _ => None,
    }
}

/// The sequence that sets the foreground to a colour.
pub fn fg_color_seq(color: &str) -> (r: String)
    requires
        has_components(encode_utf8(color@)),
    ensures
        r@ == color_text(color@),
{
    match parse_hex_color(color) {
        Some((r, g, b)) => {
            let mut seq_text: String = "\x1b[38;2;".to_owned();
            text::push_number(&mut seq_text, r as u16);
            seq_text.append(";");
            text::push_number(&mut seq_text, g as u16);
            seq_text.append(";");
            text::push_number(&mut seq_text, b as u16);
            seq_text.append("m");
            seq_text
        },
        None => String::new(),
    }
}

/// Appends a horizontal edge.
fn push_edge(buf: &mut String, color: &str, left: char, line: char, right: char, n: u16)
    ensures
        final(buf)@ == old(buf)@ + edge(color@, left, line, right, n as nat),
{
    let ghost before = buf@;
    buf.append(color);
    buf.push(left);
    let ghost corner = buf@;
    let mut i: u16 = 0;
    assert(buf@ =~= corner + Seq::new(i as nat, |j: int| line));
    while i < n
        invariant
            i <= n,
            buf@ == corner + Seq::new(i as nat, |j: int| line),
        decreases n - i,
    {
        buf.push(line);
        i += 1;
        assert(buf@ =~= corner + Seq::new(i as nat, |j: int| line));
    }
    buf.push(right);
    buf.append("\x1b[0m");
    assert(buf@ =~= before + edge(color@, left, line, right, n as nat));
}

/// Appends the two side border cells of a row.
fn push_side_pair(buf: &mut String, color: &str, vertical: char, width: u16, row: u16)
    ensures
        final(buf)@ == old(buf)@ + side_pair(color@, vertical, width, row as int),
{
    let mut piece: String = "\x1b[".to_owned();
    text::push_number(&mut piece, row);
    piece.append(";1H");
    piece.append(color);
    let ghost left = piece@;
    piece.push(vertical);
    assert(piece@ =~= left + seq![vertical]);
    piece.append("\x1b[0m\x1b[");
    text::push_number(&mut piece, row);
    piece.append(";");
    text::push_number(&mut piece, width);
    piece.append("H");
    piece.append(color);
    let ghost right = piece@;
    piece.push(vertical);
    assert(piece@ =~= right + seq![vertical]);
    piece.append("\x1b[0m");
    buf.append(piece.as_str());
}

/// Renders the frame for a pane of the given outer size.
pub fn render_border(width: u16, height: u16, style: BorderStyle, color: &str) -> (r: String)
    requires
        width >= 3 && height >= 3 ==> has_components(encode_utf8(color@)),
    ensures
        r@ == frame_text(width, height, style, color@),
{
    if width < 3 || height < 3 {
        return String::new();
    }
    let (tl, tr, bl, br, h, v) = style_chars(style);
    let color_seq: String = fg_color_seq(color);
    let ghost c = color_seq@;
    let mut buf: String = "\x1b[?25l\x1b[1;1H".to_owned();
    push_edge(&mut buf, color_seq.as_str(), tl, h, tr, width - 2);
    let ghost top = buf@;
    let mut row: u16 = 2;
    assert(buf@ =~= top + side_pairs(c, v, width, row - 1));
    while row < height
        invariant
            2 <= row <= height,
            c == color_seq@,
            buf@ == top + side_pairs(c, v, width, row - 1),
        decreases height - row,
    {
        push_side_pair(&mut buf, color_seq.as_str(), v, width, row);
        assert(buf@ =~= top + side_pairs(c, v, width, row as int));
        row += 1;
    }
    buf.append("\x1b[");
    text::push_number(&mut buf, height);
    buf.append(";1H");
    push_edge(&mut buf, color_seq.as_str(), bl, h, br, width - 2);
    buf.append("\x1b[?25h");
    buf
}

} // verus!
