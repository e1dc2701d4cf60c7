//! What the text of a frame puts on a screen.

use crate::border;
use crate::border_laws;
use crate::config::BorderStyle;
use crate::text;
use vstd::prelude::*;
use vstd::utf8::*;

verus! {

/// Where in an escape sequence a terminal stands that reads the text.
pub enum Scan {
    /// Between sequences.
    Text,
    /// After ESC.
    Escape,
    /// After `ESC [`, with the parameters so far: as they came, and as the two
    /// numbers that a movement of the cursor has.
    Params { raw: Seq<char>, first: int, second: int, at_second: bool },
}

/// A terminal that text is written to: its cursor, the rendition that was
/// selected last, and the cells that were written with theirs.
pub struct Screen {
    pub row: int,
    pub column: int,
    pub rendition: Seq<char>,
    pub cells: Map<(int, int), (char, Seq<char>)>,
    pub scan: Scan,
}

/// The terminal after one character. `H` moves the cursor and `m` selects a
/// rendition; other sequences do nothing that can be seen. Any other character
/// takes the cell at the cursor, which goes on to the next one.
pub open spec fn written(t: Screen, c: char) -> Screen {
    match t.scan {
        Scan::Text => {
            if c == '\x1b' {
                Screen { scan: Scan::Escape, ..t }
            } else {
                Screen {
                    cells: t.cells.insert((t.row, t.column), (c, t.rendition)),
                    column: t.column + 1,
                    ..t
                }
            }
        },
        Scan::Escape => {
            if c == '[' {
                Screen {
                    scan: Scan::Params {
                        raw: Seq::empty(),
                        first: 0,
                        second: 0,
                        at_second: false,
                    },
                    ..t
                }
            } else {
                Screen { scan: Scan::Text, ..t }
            }
        },
        Scan::Params { raw, first, second, at_second } => {
            if '0' <= c <= '9' {
                let digit = c as int - '0' as int;
                Screen {
                    scan: if at_second {
                        Scan::Params {
                            raw: raw.push(c),
                            first,
                            second: second * 10 + digit,
                            at_second,
                        }
                    } else {
                        Scan::Params {
                            raw: raw.push(c),
                            first: first * 10 + digit,
                            second,
                            at_second,
                        }
                    },
                    ..t
                }
            } else if c == ';' {
                Screen {
                    scan: Scan::Params { raw: raw.push(c), first, second, at_second: true },
                    ..t
                }
            } else if c == '?' {
                Screen { scan: Scan::Params { raw: raw.push(c), first, second, at_second }, ..t }
            } else if c == 'H' {
                Screen { row: first, column: second, scan: Scan::Text, ..t }
            } else if c == 'm' {
                Screen { rendition: raw, scan: Scan::Text, ..t }
            } else {
                Screen { scan: Scan::Text, ..t }
            }
        },
    }
}

/// The terminal after a text.
pub open spec fn shown(t: Screen, s: Seq<char>) -> Screen
    decreases s.len(),
{
    if s.len() == 0 {
        t
    } else {
        shown(written(t, s[0]), s.skip(1))
    }
}

proof fn lemma_shown_joined(t: Screen, a: Seq<char>, b: Seq<char>)
    ensures
        shown(t, a + b) == shown(shown(t, a), b),
    decreases a.len(),
{
    if a.len() == 0 {
        assert(a + b =~= b);
    } else {
        lemma_shown_joined(written(t, a[0]), a.skip(1), b);
        assert((a + b).skip(1) =~= a.skip(1) + b);
    }
}

proof fn lemma_shown_one(t: Screen, c: char)
    ensures
        shown(t, seq![c]) == written(t, c),
{
    reveal_with_fuel(shown, 2);
    assert(seq![c].skip(1) =~= Seq::empty());
}

/// A parameter character of the sequences that a frame is made of.
spec fn is_param(c: char) -> bool {
    '0' <= c <= '9' || c == ';' || c == '?'
}

/// Parameters are kept as they came.
proof fn lemma_params(t: Screen, p: Seq<char>)
    requires
        t.scan is Params,
        forall|i: int| 0 <= i < p.len() ==> is_param(#[trigger] p[i]),
    ensures
        shown(t, p).scan is Params,
        shown(t, p).scan->raw == t.scan->raw + p,
        shown(t, p) == (Screen { scan: shown(t, p).scan, ..t }),
    decreases p.len(),
{
    if p.len() == 0 {
        assert(t.scan->raw + p =~= t.scan->raw);
    } else {
        assert(is_param(p[0]));
        let next = written(t, p[0]);
        assert forall|i: int| 0 <= i < p.skip(1).len() implies is_param(#[trigger] p.skip(1)[i]) by {
            assert(is_param(p[i + 1]));
        }
        lemma_params(next, p.skip(1));
        assert(next.scan->raw + p.skip(1) =~= t.scan->raw + p);
    }
}

/// A sequence that ends in `f`.
proof fn lemma_sequence(t: Screen, p: Seq<char>, f: char)
    requires
        t.scan is Text,
        forall|i: int| 0 <= i < p.len() ==> is_param(#[trigger] p[i]),
        f == 'm' || f == 'l' || f == 'h',
    ensures
        shown(t, seq!['\x1b', '['] + p + seq![f]) == (if f == 'm' {
            Screen { rendition: p, ..t }
        } else {
            t
        }),
{
    let open = seq!['\x1b', '['];
    lemma_shown_joined(t, open + p, seq![f]);
    lemma_shown_joined(t, open, p);
    lemma_opened(t);
    let inside = shown(t, open);
    lemma_params(inside, p);
    lemma_shown_one(shown(inside, p), f);
    assert(Seq::<char>::empty() + p =~= p);
}

proof fn lemma_opened(t: Screen)
    requires
        t.scan is Text,
    ensures
        shown(t, seq!['\x1b', '[']) == (Screen {
            scan: Scan::Params { raw: Seq::empty(), first: 0, second: 0, at_second: false },
            ..t
        }),
{
    assert(seq!['\x1b', '['] =~= seq!['\x1b'] + seq!['[']);
    lemma_shown_joined(t, seq!['\x1b'], seq!['[']);
    lemma_shown_one(t, '\x1b');
    lemma_shown_one(Screen { scan: Scan::Escape, ..t }, '[');
}

/// A numeral is read as its number.
proof fn lemma_numeral(t: Screen, n: nat)
    requires
        t.scan is Params,
        t.scan->at_second ==> t.scan->second == 0,
        !t.scan->at_second ==> t.scan->first == 0,
    ensures
        ({
            let after = shown(t, text::numeral(n));
            &&& after.scan is Params
            &&& after == (Screen { scan: after.scan, ..t })
            &&& after.scan->at_second == t.scan->at_second
            &&& t.scan->at_second ==> after.scan->second == n && after.scan->first
                == t.scan->first
            &&& !t.scan->at_second ==> after.scan->first == n && after.scan->second
                == t.scan->second
        }),
    decreases n,
{
    let c = (48 + n % 10) as u8 as char;
    if n < 10 {
        assert(text::numeral(n) =~= seq![c]);
        lemma_shown_one(t, c);
    } else {
        lemma_numeral(t, n / 10);
        assert(text::numeral(n) =~= text::numeral(n / 10) + seq![c]);
        lemma_shown_joined(t, text::numeral(n / 10), seq![c]);
        lemma_shown_one(shown(t, text::numeral(n / 10)), c);
    }
}

/// A movement of the cursor.
proof fn lemma_goto(t: Screen, row: nat, column: nat)
    requires
        t.scan is Text,
    ensures
        shown(t, "\x1b["@ + text::numeral(row) + ";"@ + text::numeral(column) + "H"@) == (Screen {
            row: row as int,
            column: column as int,
            ..t
        }),
{
    reveal_strlit("\x1b[");
    reveal_strlit(";");
    reveal_strlit("H");
    let open = "\x1b["@;
    assert(open =~= seq!['\x1b', '[']);
    assert(";"@ =~= seq![';']);
    assert("H"@ =~= seq!['H']);
    let a = text::numeral(row);
    let b = text::numeral(column);
    lemma_shown_joined(t, open + a + ";"@ + b, "H"@);
    lemma_shown_joined(t, open + a + ";"@, b);
    lemma_shown_joined(t, open + a, ";"@);
    lemma_shown_joined(t, open, a);
    lemma_opened(t);
    let t1 = shown(t, open);
    lemma_numeral(t1, row);
    let t2 = shown(t1, a);
    lemma_shown_one(t2, ';');
    let t3 = shown(t2, ";"@);
    lemma_numeral(t3, column);
    lemma_shown_one(shown(t3, b), 'H');
}

/// The movement to the first column of a row.
proof fn lemma_row_start(t: Screen, row: nat)
    requires
        t.scan is Text,
    ensures
        shown(t, "\x1b["@ + text::numeral(row) + ";1H"@) == (Screen {
            row: row as int,
            column: 1,
            ..t
        }),
{
    lemma_goto(t, row, 1);
    reveal_strlit(";1H");
    reveal_strlit(";");
    reveal_strlit("H");
    assert(text::digits(1) =~= seq![49u8]);
    assert(text::numeral(1) =~= seq!['1']);
    assert("\x1b["@ + text::numeral(row) + ";1H"@ =~= "\x1b["@ + text::numeral(row) + ";"@
        + text::numeral(1) + "H"@);
}

/// The literal sequences of a frame.
proof fn lemma_literals(t: Screen)
    requires
        t.scan is Text,
    ensures
        shown(t, "\x1b[0m"@) == (Screen { rendition: seq!['0'], ..t }),
        shown(t, "\x1b[?25h"@) == t,
        shown(t, "\x1b[?25l\x1b[1;1H"@) == (Screen { row: 1, column: 1, ..t }),
{
    reveal_strlit("\x1b[0m");
    reveal_strlit("\x1b[?25h");
    reveal_strlit("\x1b[?25l\x1b[1;1H");
    reveal_strlit("\x1b[");
    reveal_strlit(";");
    reveal_strlit("H");
    lemma_sequence(t, seq!['0'], 'm');
    lemma_sequence(t, seq!['?', '2', '5'], 'h');
    lemma_sequence(t, seq!['?', '2', '5'], 'l');
    assert("\x1b[0m"@ =~= seq!['\x1b', '['] + seq!['0'] + seq!['m']);
    assert("\x1b[?25h"@ =~= seq!['\x1b', '['] + seq!['?', '2', '5'] + seq!['h']);
    let hide = seq!['\x1b', '['] + seq!['?', '2', '5'] + seq!['l'];
    let home = "\x1b["@ + text::numeral(1) + ";"@ + text::numeral(1) + "H"@;
    assert(text::digits(1) =~= seq![49u8]);
    assert(text::numeral(1) =~= seq!['1']);
    assert("\x1b[?25l\x1b[1;1H"@ =~= hide + home);
    lemma_shown_joined(t, hide, home);
    lemma_goto(t, 1, 1);
}

/// The parameters that select a colour.
pub open spec fn color_params(r: u8, g: u8, b: u8) -> Seq<char> {
    seq!['3', '8', ';', '2', ';'] + text::numeral(r as nat) + seq![';'] + text::numeral(g as nat)
        + seq![';'] + text::numeral(b as nat)
}

/// The text that sets a colour selects it.
proof fn lemma_color(t: Screen, color: Seq<char>)
    requires
        t.scan is Text,
        border::rgb(encode_utf8(color)) is Some,
    ensures
        ({
            let (r, g, b) = border::rgb(encode_utf8(color))->0;
            shown(t, border::color_text(color)) == (Screen { rendition: color_params(r, g, b), ..t })
        }),
{
    let (r, g, b) = border::rgb(encode_utf8(color))->0;
    let p = color_params(r, g, b);
    let red = text::numeral(r as nat);
    let green = text::numeral(g as nat);
    let blue = text::numeral(b as nat);
    border_laws::lemma_numeral(r as nat);
    border_laws::lemma_numeral(g as nat);
    border_laws::lemma_numeral(b as nat);
    assert forall|i: int| 0 <= i < p.len() implies is_param(#[trigger] p[i]) by {
        let a = 5 + red.len();
        let c = a + 1 + green.len();
        if 5 <= i < a {
            assert(p[i] == red[i - 5]);
        } else if a < i < c {
            assert(p[i] == green[i - a - 1]);
        } else if c < i {
            assert(p[i] == blue[i - c - 1]);
        }
    }
    lemma_sequence(t, p, 'm');
    reveal_strlit("\x1b[38;2;");
    reveal_strlit(";");
    reveal_strlit("m");
    assert(border::color_text(color) =~= seq!['\x1b', '['] + p + seq!['m']);
}

/// A run of one character fills a stretch of the row.
proof fn lemma_line(t: Screen, line: char, n: nat)
    requires
        t.scan is Text,
        line != '\x1b',
    ensures
        ({
            let after = shown(t, Seq::new(n, |i: int| line));
            &&& after.scan is Text
            &&& after.row == t.row
            &&& after.column == t.column + n
            &&& after.rendition == t.rendition
            &&& forall|k: (int, int)| #[trigger]
                after.cells.contains_key(k) <==> t.cells.contains_key(k) || k.0 == t.row && t.column
                    <= k.1 < t.column + n
            &&& forall|k: (int, int)| #[trigger]
                after.cells.contains_key(k) ==> after.cells[k] == (if k.0 == t.row && t.column
                    <= k.1 < t.column + n {
                    (line, t.rendition)
                } else {
                    t.cells[k]
                })
        }),
    decreases n,
{
    let run = Seq::new(n, |i: int| line);
    if n > 0 {
        let front = Seq::new((n - 1) as nat, |i: int| line);
        lemma_line(t, line, (n - 1) as nat);
        assert(run =~= front + seq![line]);
        lemma_shown_joined(t, front, seq![line]);
        lemma_shown_one(shown(t, front), line);
    } else {
        assert(run =~= Seq::empty());
    }
}

/// The terminal has taken in a whole piece: it stands between sequences, and
/// its cells are those of `before` with the ones of `look` over them.
spec fn painted(
    before: Screen,
    after: Screen,
    covers: spec_fn(int, int) -> bool,
    look: spec_fn(int, int) -> char,
    rendition: Seq<char>,
) -> bool {
    &&& after.scan is Text
    &&& forall|row: int, column: int| #[trigger]
        after.cells.contains_key((row, column)) <==> before.cells.contains_key((row, column))
            || covers(row, column)
    &&& forall|row: int, column: int| #[trigger]
        after.cells.contains_key((row, column)) ==> after.cells[(row, column)] == (if covers(
            row,
            column,
        ) {
            (look(row, column), rendition)
        } else {
            before.cells[(row, column)]
        })
}

/// The rendition that a colour is drawn in.
pub open spec fn rendition_of(color: Seq<char>) -> Seq<char> {
    let (r, g, b) = border::rgb(encode_utf8(color))->0;
    color_params(r, g, b)
}

/// A horizontal edge fills its row from the first column to the last.
proof fn lemma_edge(
    t: Screen,
    color: Seq<char>,
    left: char,
    line: char,
    right: char,
    width: u16,
    row: int,
)
    requires
        t.scan is Text,
        t.row == row && t.column == 1,
        width >= 3,
        left != '\x1b' && line != '\x1b' && right != '\x1b',
        border::rgb(encode_utf8(color)) is Some,
    ensures
        painted(
            t,
            shown(
                t,
                border::edge(border::color_text(color), left, line, right, (width - 2) as nat),
            ),
            |r: int, c: int| r == row && 1 <= c <= width,
            |r: int, c: int|
                if c == 1 {
                    left
                } else if c == width {
                    right
                } else {
                    line
                },
            rendition_of(color),
        ),
{
    let c = border::color_text(color);
    let n = (width - 2) as nat;
    let middle = Seq::new(n, |i: int| line);
    lemma_shown_joined(t, c + seq![left] + middle + seq![right], "\x1b[0m"@);
    lemma_shown_joined(t, c + seq![left] + middle, seq![right]);
    lemma_shown_joined(t, c + seq![left], middle);
    lemma_shown_joined(t, c, seq![left]);
    lemma_color(t, color);
    let t1 = shown(t, c);
    lemma_shown_one(t1, left);
    let t2 = shown(t1, seq![left]);
    lemma_line(t2, line, n);
    let t3 = shown(t2, middle);
    lemma_shown_one(t3, right);
    let t4 = shown(t3, seq![right]);
    lemma_literals(t4);
    let t5 = shown(t4, "\x1b[0m"@);
    assert(shown(t, border::edge(c, left, line, right, n)) == t5);
    assert(t5.cells == t4.cells);
    assert forall|r: int, q: int|
        #![trigger t5.cells.contains_key((r, q))]
        t5.cells.contains_key((r, q)) <==> t.cells.contains_key((r, q)) || (r == row && 1 <= q
            <= width) by {
        assert(t3.cells.contains_key((r, q)) <==> t2.cells.contains_key((r, q)) || r == row && 2
            <= q < 2 + n);
    }
    assert forall|r: int, q: int|
        #![trigger t5.cells.contains_key((r, q))]
        t5.cells.contains_key((r, q)) implies t5.cells[(r, q)] == (if r == row && 1 <= q <= width {
        (
            if q == 1 {
                left
            } else if q == width {
                right
            } else {
                line
            },
            rendition_of(color),
        )
    } else {
        t.cells[(r, q)]
    }) by {
        assert(t3.cells.contains_key((r, q)) <==> t2.cells.contains_key((r, q)) || r == row && 2
            <= q < 2 + n);
    }
}

/// The cells of a row take its first column and its last.
proof fn lemma_side_pair(t: Screen, color: Seq<char>, vertical: char, width: u16, row: int)
    requires
        t.scan is Text,
        row >= 0,
        width >= 3,
        vertical != '\x1b',
        border::rgb(encode_utf8(color)) is Some,
    ensures
        painted(
            t,
            shown(t, border::side_pair(border::color_text(color), vertical, width, row)),
            |r: int, c: int| r == row && (c == 1 || c == width),
            |r: int, c: int| vertical,
            rendition_of(color),
        ),
{
    let c = border::color_text(color);
    let cell = seq![vertical];
    let reset = "\x1b[0m"@;
    let start = "\x1b["@ + text::numeral(row as nat) + ";1H"@;
    let end = "\x1b["@ + text::numeral(row as nat) + ";"@ + text::numeral(width as nat) + "H"@;
    border_laws::lemma_pair_shape(c, vertical, width, row);
    let mid = cell + (reset + end);
    let last = cell + reset;
    lemma_shown_joined(t, start + c + mid + c, last);
    lemma_shown_joined(t, start + c + mid, c);
    lemma_shown_joined(t, start + c, mid);
    lemma_shown_joined(t, start, c);
    lemma_row_start(t, row as nat);
    let t1 = shown(t, start);
    lemma_color(t1, color);
    let t2 = shown(t1, c);
    lemma_shown_joined(t2, cell, reset + end);
    lemma_shown_one(t2, vertical);
    let t3 = shown(t2, cell);
    lemma_shown_joined(t3, reset, end);
    lemma_literals(t3);
    let t4 = shown(t3, reset);
    lemma_goto(t4, row as nat, width as nat);
    let t5 = shown(t4, end);
    lemma_color(t5, color);
    let t6 = shown(t5, c);
    lemma_shown_joined(t6, cell, reset);
    lemma_shown_one(t6, vertical);
    lemma_literals(shown(t6, cell));
}

/// The cells of the rows 2 to `last` take their first columns and their last.
proof fn lemma_side_pairs(t: Screen, color: Seq<char>, vertical: char, width: u16, last: int)
    requires
        t.scan is Text,
        width >= 3,
        vertical != '\x1b',
        border::rgb(encode_utf8(color)) is Some,
    ensures
        painted(
            t,
            shown(t, border::side_pairs(border::color_text(color), vertical, width, last)),
            |r: int, c: int| 2 <= r <= last && (c == 1 || c == width),
            |r: int, c: int| vertical,
            rendition_of(color),
        ),
    decreases last,
{
    let c = border::color_text(color);
    if last >= 2 {
        let front = border::side_pairs(c, vertical, width, last - 1);
        lemma_side_pairs(t, color, vertical, width, last - 1);
        lemma_shown_joined(t, front, border::side_pair(c, vertical, width, last));
        let mid = shown(t, front);
        lemma_side_pair(mid, color, vertical, width, last);
        let end = shown(mid, border::side_pair(c, vertical, width, last));
        assert forall|r: int, q: int|
            #![trigger end.cells.contains_key((r, q))]
            end.cells.contains_key((r, q)) <==> t.cells.contains_key((r, q)) || (2 <= r <= last && (
            q == 1 || q == width)) by {
            assert(mid.cells.contains_key((r, q)) <==> t.cells.contains_key((r, q)) || (2 <= r
                <= last - 1 && (q == 1 || q == width)));
        }
        assert forall|r: int, q: int|
            #![trigger end.cells.contains_key((r, q))]
            end.cells.contains_key((r, q)) implies end.cells[(r, q)] == (if 2 <= r <= last && (q == 1
            || q == width) {
            (vertical, rendition_of(color))
        } else {
            t.cells[(r, q)]
        }) by {
            assert(mid.cells.contains_key((r, q)) <==> t.cells.contains_key((r, q)) || (2 <= r
                <= last - 1 && (q == 1 || q == width)));
        }
    }
}

/// The cell is on the border of a screen of the given size.
pub open spec fn on_border(row: int, column: int, width: u16, height: u16) -> bool {
    &&& 1 <= row <= height && 1 <= column <= width
    &&& row == 1 || row == height || column == 1 || column == width
}

/// How a border cell looks in a style.
pub open spec fn border_cell(
    style: BorderStyle,
    row: int,
    column: int,
    width: u16,
    height: u16,
) -> char {
    let (top_left, top_right, bottom_left, bottom_right, line, side) = match style {
        BorderStyle::Rounded => ('╭', '╮', '╰', '╯', '─', '│'),
        BorderStyle::Heavy => ('┏', '┓', '┗', '┛', '━', '┃'),
        BorderStyle::Double => ('╔', '╗', '╚', '╝', '═', '║'),
        BorderStyle::Single => ('┌', '┐', '└', '┘', '─', '│'),
        BorderStyle::Ascii => ('+', '+', '+', '+', '-', '|'),
    };
    if row == 1 {
        if column == 1 {
            top_left
        } else if column == width {
            top_right
        } else {
            line
        }
    } else if row == height {
        if column == 1 {
            bottom_left
        } else if column == width {
            bottom_right
        } else {
            line
        }
    } else {
        side
    }
}

/// Written to any terminal, a frame takes exactly the cells on the border of
/// its size, each with the character of the style for its place and in the
/// colour; all other cells stay as they were.
#[verifier::rlimit(40)]
pub proof fn law_frame_is_drawn(
    before: Screen,
    width: u16,
    height: u16,
    style: BorderStyle,
    color: Seq<char>,
    row: int,
    column: int,
)
    requires
        before.scan is Text,
        width >= 3 && height >= 3,
        border::rgb(encode_utf8(color)) is Some,
    ensures
        ({
            let after = shown(before, border::frame_text(width, height, style, color));
            &&& after.scan is Text
            &&& if on_border(row, column, width, height) {
                after.cells.contains_key((row, column)) && after.cells[(row, column)] == (
                    border_cell(style, row, column, width, height),
                    rendition_of(color),
                )
            } else {
                &&& after.cells.contains_key((row, column)) == before.cells.contains_key(
                    (row, column),
                )
                &&& after.cells.contains_key((row, column)) ==> after.cells[(row, column)]
                    == before.cells[(row, column)]
            }
        }),
{
    let (tl, tr, bl, br, h, v) = border::glyphs(style);
    let c = border::color_text(color);
    let n = (width - 2) as nat;
    let open = "\x1b[?25l\x1b[1;1H"@;
    let top = border::edge(c, tl, h, tr, n);
    let sides = border::side_pairs(c, v, width, height - 1);
    let start = "\x1b["@ + text::numeral(height as nat) + ";1H"@;
    let bottom = border::edge(c, bl, h, br, n);
    let close = "\x1b[?25h"@;
    let whole = open + top + sides + start + bottom + close;
    assert(border::frame_text(width, height, style, color) =~= whole);
    lemma_shown_joined(before, open + top + sides + start + bottom, close);
    lemma_shown_joined(before, open + top + sides + start, bottom);
    lemma_shown_joined(before, open + top + sides, start);
    lemma_shown_joined(before, open + top, sides);
    lemma_shown_joined(before, open, top);
    lemma_literals(before);
    let t1 = shown(before, open);
    lemma_edge(t1, color, tl, h, tr, width, 1);
    let t2 = shown(t1, top);
    lemma_side_pairs(t2, color, v, width, height - 1);
    let t3 = shown(t2, sides);
    lemma_row_start(t3, height as nat);
    let t4 = shown(t3, start);
    lemma_edge(t4, color, bl, h, br, width, height as int);
    let t5 = shown(t4, bottom);
    lemma_literals(t5);
    assert(t2.cells.contains_key((row, column)) <==> t1.cells.contains_key((row, column)) || (row
        == 1 && 1 <= column <= width));
    assert(t3.cells.contains_key((row, column)) <==> t2.cells.contains_key((row, column)) || (2
        <= row <= height - 1 && (column == 1 || column == width)));
    assert(t5.cells.contains_key((row, column)) <==> t4.cells.contains_key((row, column)) || (row
        == height && 1 <= column <= width));
}

/// The text of a frame in full: with the cursor hidden, the top edge from the
/// first cell on, the two sides of each row between, and the bottom edge.
pub proof fn law_frame_in_full(width: u16, height: u16, style: BorderStyle, color: Seq<char>)
    requires
        width >= 3 && height >= 3,
    ensures
        ({
            let c = border::color_text(color);
            let at = |row: int, column: int| border_cell(style, row, column, width, height);
            let last = height as int;
            let edge = |row: int|
                c + seq![at(row, 1)] + Seq::new((width - 2) as nat, |i: int| at(row, i + 2)) + seq![
                    at(row, width as int),
                ] + "\x1b[0m"@;
            let sides = Seq::new(
                (height - 2) as nat,
                |i: int|
                    "\x1b["@ + text::numeral((i + 2) as nat) + ";1H"@ + c + seq![at(i + 2, 1)]
                        + "\x1b[0m\x1b["@ + text::numeral((i + 2) as nat) + ";"@ + text::numeral(
                        width as nat,
                    ) + "H"@ + c + seq![at(i + 2, width as int)] + "\x1b[0m"@,
            );
            border::frame_text(width, height, style, color) == "\x1b[?25l\x1b[1;1H"@ + edge(1)
                + sides.flatten() + "\x1b["@ + text::numeral(last as nat) + ";1H"@ + edge(last)
                + "\x1b[?25h"@
        }),
{
    let (tl, tr, bl, br, h, v) = border::glyphs(style);
    let c = border::color_text(color);
    let at = |row: int, column: int| border_cell(style, row, column, width, height);
    let last = height as int;
    let n = (width - 2) as nat;
    assert(Seq::new(n, |i: int| at(1, i + 2)) =~= Seq::new(n, |i: int| h));
    assert(Seq::new(n, |i: int| at(last, i + 2)) =~= Seq::new(n, |i: int| h));
    let sides = Seq::new(
        (height - 2) as nat,
        |i: int|
            "\x1b["@ + text::numeral((i + 2) as nat) + ";1H"@ + c + seq![at(i + 2, 1)]
                + "\x1b[0m\x1b["@ + text::numeral((i + 2) as nat) + ";"@ + text::numeral(
                width as nat,
            ) + "H"@ + c + seq![at(i + 2, width as int)] + "\x1b[0m"@,
    );
    let pairs = Seq::new((height - 2) as nat, |i: int| border::side_pair(c, v, width, i + 2));
    assert(sides =~= pairs);
    lemma_pairs_flat(c, v, width, height - 2);
}

proof fn lemma_pairs_flat(color: Seq<char>, vertical: char, width: u16, n: int)
    requires
        n >= 0,
    ensures
        border::side_pairs(color, vertical, width, n + 1) == Seq::new(
            n as nat,
            |i: int| border::side_pair(color, vertical, width, i + 2),
        ).flatten(),
    decreases n,
{
    let pairs = Seq::new(n as nat, |i: int| border::side_pair(color, vertical, width, i + 2));
    if n > 0 {
        let front = Seq::new(
            (n - 1) as nat,
            |i: int| border::side_pair(color, vertical, width, i + 2),
        );
        let pair = border::side_pair(color, vertical, width, n + 1);
        lemma_pairs_flat(color, vertical, width, n - 1);
        assert(pairs =~= front.push(pair));
        front.lemma_flatten_push(pair);
    } else {
        assert(pairs =~= Seq::empty());
    }
}

/// No frame is drawn where there is no room inside it.
pub proof fn law_no_frame(width: u16, height: u16, style: BorderStyle, color: Seq<char>)
    requires
        width < 3 || height < 3,
    ensures
        border::frame_text(width, height, style, color) == Seq::<char>::empty(),
{
}

} // verus!
