//! What holds of the frame whatever its colour.

use crate::border;
use crate::config::BorderStyle;
use crate::text;
use vstd::prelude::*;
use vstd::utf8::*;

verus! {

/// The text starts with the pattern.
pub open spec fn starts_with(s: Seq<char>, pattern: Seq<char>) -> bool {
    pattern.len() <= s.len() && s.take(pattern.len() as int) == pattern
}

/// How often the pattern occurs in the text.
pub open spec fn occurrences(s: Seq<char>, pattern: Seq<char>) -> nat
    decreases s.len(),
{
    if s.len() == 0 {
        0
    } else {
        (if starts_with(s, pattern) {
            1nat
        } else {
            0nat
        }) + occurrences(s.skip(1), pattern)
    }
}

/// The text with every occurrence of the pattern, from the left, deleted.
pub open spec fn without(s: Seq<char>, pattern: Seq<char>) -> Seq<char>
    decreases s.len(),
{
    if s.len() == 0 || pattern.len() == 0 {
        s
    } else if starts_with(s, pattern) {
        without(s.skip(pattern.len() as int), pattern)
    } else {
        seq![s[0]] + without(s.skip(1), pattern)
    }
}

/// In front of any text, the piece adds `n` occurrences of the pattern, and
/// `rest` is what is left of it without them.
spec fn comes_to(piece: Seq<char>, pattern: Seq<char>, n: nat, rest: Seq<char>) -> bool {
    forall|tail: Seq<char>|
        {
            &&& #[trigger] occurrences(piece + tail, pattern) == n + occurrences(tail, pattern)
            &&& without(piece + tail, pattern) == rest + without(tail, pattern)
        }
}

/// What two pieces come to, they come to together.
proof fn lemma_together(
    pattern: Seq<char>,
    a: Seq<char>,
    m: nat,
    a_rest: Seq<char>,
    b: Seq<char>,
    n: nat,
    b_rest: Seq<char>,
)
    requires
        comes_to(a, pattern, m, a_rest),
        comes_to(b, pattern, n, b_rest),
    ensures
        comes_to(a + b, pattern, m + n, a_rest + b_rest),
{
    assert forall|tail: Seq<char>|
        {
            &&& #[trigger] occurrences((a + b) + tail, pattern) == (m + n) + occurrences(
                tail,
                pattern,
            )
            &&& without((a + b) + tail, pattern) == (a_rest + b_rest) + without(tail, pattern)
        } by {
        assert((a + b) + tail =~= a + (b + tail));
        assert(occurrences(a + (b + tail), pattern) == m + occurrences(b + tail, pattern));
        assert(occurrences(b + tail, pattern) == n + occurrences(tail, pattern));
        assert((a_rest + b_rest) + without(tail, pattern) =~= a_rest + (b_rest + without(
            tail,
            pattern,
        )));
    }
}

/// Every colour sequence starts with these characters.
spec fn opening() -> Seq<char> {
    seq!['\x1b', '[', '3', '8', ';', '2', ';']
}

/// The pattern is a colour sequence: it starts like one, and holds no other
/// escape.
spec fn is_color_sequence(pattern: Seq<char>) -> bool {
    &&& pattern.len() > 7
    &&& pattern.take(7) == opening()
    &&& forall|i: int| 0 < i < pattern.len() ==> #[trigger] pattern[i] != '\x1b'
}

/// Within the piece the escape at `i` turns out to start no colour sequence.
spec fn differs_at(piece: Seq<char>, i: int, j: int) -> bool {
    0 < j < 7 && i + j < piece.len() && piece[i + j] != opening()[j]
}

/// No colour sequence starts in the piece.
spec fn is_quiet(piece: Seq<char>) -> bool {
    forall|i: int|
        0 <= i < piece.len() && #[trigger] piece[i] == '\x1b' ==> exists|j: int|
            differs_at(piece, i, j)
}

proof fn lemma_quiet_text(piece: Seq<char>, pattern: Seq<char>, tail: Seq<char>)
    requires
        is_quiet(piece),
        is_color_sequence(pattern),
    ensures
        occurrences(piece + tail, pattern) == occurrences(tail, pattern),
        without(piece + tail, pattern) == piece + without(tail, pattern),
    decreases piece.len(),
{
    let whole = piece + tail;
    if piece.len() == 0 {
        assert(whole =~= tail);
        assert(piece + without(tail, pattern) =~= without(tail, pattern));
    } else {
        let rest = piece.skip(1);
        assert forall|i: int| 0 <= i < rest.len() && #[trigger] rest[i] == '\x1b' implies exists|
            j: int,
        | differs_at(rest, i, j) by {
            assert(piece[i + 1] == '\x1b');
            let at = i + 1;
            let j = choose|j: int| differs_at(piece, at, j);
            assert(differs_at(rest, i, j));
        }
        lemma_quiet_text(rest, pattern, tail);
        assert(whole.skip(1) =~= rest + tail);
        if starts_with(whole, pattern) {
            let start = whole.take(pattern.len() as int);
            assert(start[0] == pattern.take(7)[0]);
            assert(piece[0] == '\x1b');
            let j = choose|j: int| differs_at(piece, 0, j);
            assert(start[j] == pattern.take(7)[j]);
        }
        assert(!starts_with(whole, pattern));
        assert(seq![whole[0]] + (rest + without(tail, pattern)) =~= piece + without(tail, pattern));
    }
}

/// A quiet piece comes to itself.
proof fn lemma_quiet(piece: Seq<char>, pattern: Seq<char>)
    requires
        is_quiet(piece),
        is_color_sequence(pattern),
    ensures
        comes_to(piece, pattern, 0, piece),
{
    assert forall|tail: Seq<char>|
        {
            &&& #[trigger] occurrences(piece + tail, pattern) == 0 + occurrences(tail, pattern)
            &&& without(piece + tail, pattern) == piece + without(tail, pattern)
        } by {
        lemma_quiet_text(piece, pattern, tail);
    }
}

/// The colour sequence itself comes to one occurrence and nothing else.
proof fn lemma_pattern(pattern: Seq<char>)
    requires
        is_color_sequence(pattern),
    ensures
        comes_to(pattern, pattern, 1, Seq::empty()),
{
    assert forall|tail: Seq<char>|
        {
            &&& #[trigger] occurrences(pattern + tail, pattern) == 1 + occurrences(tail, pattern)
            &&& without(pattern + tail, pattern) == Seq::<char>::empty() + without(tail, pattern)
        } by {
        let whole = pattern + tail;
        let rest = pattern.skip(1);
        assert(whole.take(pattern.len() as int) =~= pattern);
        assert(whole.skip(1) =~= rest + tail);
        assert(whole.skip(pattern.len() as int) =~= tail);
        assert forall|i: int| 0 <= i < rest.len() implies #[trigger] rest[i] != '\x1b' by {
            assert(pattern[i + 1] != '\x1b');
        }
        assert(is_quiet(rest));
        lemma_quiet_text(rest, pattern, tail);
        assert(Seq::<char>::empty() + without(tail, pattern) =~= without(tail, pattern));
    }
}

/// Quiet pieces make quiet pieces.
proof fn lemma_quiet_joined(a: Seq<char>, b: Seq<char>)
    requires
        is_quiet(a),
        is_quiet(b),
    ensures
        is_quiet(a + b),
{
    let whole = a + b;
    assert forall|i: int| 0 <= i < whole.len() && #[trigger] whole[i] == '\x1b' implies exists|
        j: int,
    | differs_at(whole, i, j) by {
        if i < a.len() {
            assert(a[i] == '\x1b');
            let j = choose|j: int| differs_at(a, i, j);
            assert(differs_at(whole, i, j));
        } else {
            assert(b[i - a.len()] == '\x1b');
            let at = i - a.len();
            let j = choose|j: int| differs_at(b, at, j);
            assert(differs_at(whole, i, j));
        }
    }
}

/// A numeral is at least one digit, and digits are no escapes.
pub proof fn lemma_numeral(n: nat)
    ensures
        text::numeral(n).len() > 0,
        forall|i: int|
            0 <= i < text::numeral(n).len() ==> '0' <= #[trigger] text::numeral(n)[i] <= '9',
{
    text::lemma_digits(n);
    assert forall|i: int| 0 <= i < text::numeral(n).len() implies '0'
        <= #[trigger] text::numeral(n)[i] <= '9' by {
        assert(text::is_digit(text::digits(n)[i]));
    }
}

/// A cursor movement is quiet: it holds one separator, a colour sequence opens
/// with two.
proof fn lemma_movement(row: nat, column: nat)
    ensures
        is_quiet("\x1b["@ + text::numeral(row) + ";"@ + text::numeral(column) + "H"@),
{
    let a = text::numeral(row);
    let b = text::numeral(column);
    let piece = "\x1b["@ + a + ";"@ + b + "H"@;
    reveal_strlit("\x1b[");
    reveal_strlit(";");
    reveal_strlit("H");
    lemma_numeral(row);
    lemma_numeral(column);
    assert(piece.len() == 4 + a.len() + b.len());
    assert forall|i: int| 0 <= i < piece.len() && #[trigger] piece[i] == '\x1b' implies exists|
        j: int,
    | differs_at(piece, i, j) by {
        if 2 <= i < 2 + a.len() {
            assert(piece[i] == a[i - 2]);
        } else if 3 + a.len() <= i < 3 + a.len() + b.len() {
            assert(piece[i] == b[i - 3 - a.len()]);
        }
        assert(i == 0);
        if a.len() == 1 {
            assert(piece[3] == ';');
            assert(differs_at(piece, i, 3));
        } else if a.len() == 2 {
            if b.len() == 1 {
                assert(piece[6] == 'H');
            } else {
                assert(piece[6] == b[1]);
            }
            assert(differs_at(piece, i, 6));
        } else {
            assert(piece[4] == a[2]);
            assert(differs_at(piece, i, 4));
        }
    }
}

/// The literal pieces of a frame are quiet.
proof fn lemma_literals()
    ensures
        is_quiet("\x1b[?25l\x1b[1;1H"@),
        is_quiet("\x1b[?25h"@),
        is_quiet("\x1b[0m"@),
{
    reveal_strlit("\x1b[?25l\x1b[1;1H");
    reveal_strlit("\x1b[?25h");
    reveal_strlit("\x1b[0m");
    let top = "\x1b[?25l\x1b[1;1H"@;
    assert(differs_at(top, 0, 2));
    assert(differs_at(top, 6, 2));
    assert(differs_at("\x1b[?25h"@, 0, 2));
    assert(differs_at("\x1b[0m"@, 0, 2));
}

/// A horizontal edge holds its colour once.
proof fn lemma_edge(pattern: Seq<char>, left: char, line: char, right: char, n: nat)
    requires
        is_color_sequence(pattern),
        left != '\x1b' && line != '\x1b' && right != '\x1b',
    ensures
        comes_to(
            border::edge(pattern, left, line, right, n),
            pattern,
            1,
            border::edge(Seq::empty(), left, line, right, n),
        ),
{
    let none = Seq::<char>::empty();
    let middle = Seq::new(n, |i: int| line);
    lemma_literals();
    lemma_pattern(pattern);
    lemma_quiet(seq![left], pattern);
    lemma_quiet(middle, pattern);
    lemma_quiet(seq![right], pattern);
    lemma_quiet("\x1b[0m"@, pattern);
    lemma_together(pattern, pattern, 1, none, seq![left], 0, seq![left]);
    lemma_together(pattern, pattern + seq![left], 1, none + seq![left], middle, 0, middle);
    lemma_together(
        pattern,
        pattern + seq![left] + middle,
        1,
        none + seq![left] + middle,
        seq![right],
        0,
        seq![right],
    );
    lemma_together(
        pattern,
        pattern + seq![left] + middle + seq![right],
        1,
        none + seq![left] + middle + seq![right],
        "\x1b[0m"@,
        0,
        "\x1b[0m"@,
    );
}

/// The movement to the first column of a row.
proof fn lemma_row_start(row: nat)
    ensures
        is_quiet("\x1b["@ + text::numeral(row) + ";1H"@),
{
    lemma_movement(row, 1);
    reveal_strlit(";1H");
    reveal_strlit(";");
    reveal_strlit("H");
    assert(text::digits(1) =~= seq![49u8]);
    assert(text::numeral(1) =~= seq!['1']);
    assert("\x1b["@ + text::numeral(row) + ";1H"@ =~= "\x1b["@ + text::numeral(row) + ";"@
        + text::numeral(1) + "H"@);
}

/// The two cells of a row hold their colour twice.
proof fn lemma_side_pair(pattern: Seq<char>, vertical: char, width: u16, row: int)
    requires
        is_color_sequence(pattern),
        vertical != '\x1b',
    ensures
        comes_to(
            border::side_pair(pattern, vertical, width, row),
            pattern,
            2,
            border::side_pair(Seq::empty(), vertical, width, row),
        ),
{
    let none = Seq::<char>::empty();
    let reset = "\x1b[0m"@;
    let cell = seq![vertical];
    let start = "\x1b["@ + text::numeral(row as nat) + ";1H"@;
    let end = "\x1b["@ + text::numeral(row as nat) + ";"@ + text::numeral(width as nat) + "H"@;
    lemma_literals();
    lemma_row_start(row as nat);
    lemma_movement(row as nat, width as nat);
    lemma_quiet_joined(reset, end);
    lemma_quiet_joined(cell, reset + end);
    lemma_quiet_joined(cell, reset);
    lemma_quiet(start, pattern);
    lemma_quiet(cell + (reset + end), pattern);
    lemma_quiet(cell + reset, pattern);
    lemma_pattern(pattern);
    lemma_together(pattern, start, 0, start, pattern, 1, none);
    let mid = cell + (reset + end);
    let last = cell + reset;
    lemma_together(pattern, start + pattern, 1, start + none, mid, 0, mid);
    lemma_together(pattern, start + pattern + mid, 1, start + none + mid, pattern, 1, none);
    lemma_together(
        pattern,
        start + pattern + mid + pattern,
        2,
        start + none + mid + none,
        last,
        0,
        last,
    );
    lemma_pair_shape(pattern, vertical, width, row);
    lemma_pair_shape(none, vertical, width, row);
}

/// The cells of a row, cut where their colours stand.
pub proof fn lemma_pair_shape(color: Seq<char>, vertical: char, width: u16, row: int)
    ensures
        border::side_pair(color, vertical, width, row) == ("\x1b["@ + text::numeral(row as nat)
            + ";1H"@) + color + (seq![vertical] + ("\x1b[0m"@ + ("\x1b["@ + text::numeral(
            row as nat,
        ) + ";"@ + text::numeral(width as nat) + "H"@))) + color + (seq![vertical] + "\x1b[0m"@),
{
    reveal_strlit("\x1b[0m\x1b[");
    reveal_strlit("\x1b[0m");
    reveal_strlit("\x1b[");
    assert("\x1b[0m\x1b["@ =~= "\x1b[0m"@ + "\x1b["@);
    assert(border::side_pair(color, vertical, width, row) =~= ("\x1b["@ + text::numeral(row as nat)
        + ";1H"@) + color + (seq![vertical] + ("\x1b[0m"@ + ("\x1b["@ + text::numeral(row as nat)
        + ";"@ + text::numeral(width as nat) + "H"@))) + color + (seq![vertical] + "\x1b[0m"@));
}

/// The cells of the rows 2 to `last` hold their colour twice each.
proof fn lemma_side_pairs(pattern: Seq<char>, vertical: char, width: u16, last: int)
    requires
        is_color_sequence(pattern),
        vertical != '\x1b',
        last >= 1,
    ensures
        comes_to(
            border::side_pairs(pattern, vertical, width, last),
            pattern,
            (2 * (last - 1)) as nat,
            border::side_pairs(Seq::empty(), vertical, width, last),
        ),
    decreases last,
{
    if last < 2 {
        lemma_quiet(Seq::empty(), pattern);
    } else {
        lemma_side_pairs(pattern, vertical, width, last - 1);
        lemma_side_pair(pattern, vertical, width, last);
        lemma_together(
            pattern,
            border::side_pairs(pattern, vertical, width, last - 1),
            (2 * (last - 2)) as nat,
            border::side_pairs(Seq::empty(), vertical, width, last - 1),
            border::side_pair(pattern, vertical, width, last),
            2,
            border::side_pair(Seq::empty(), vertical, width, last),
        );
    }
}

/// The sequence of a colour is a colour sequence.
proof fn lemma_color_text(color: Seq<char>)
    requires
        border::rgb(encode_utf8(color)) is Some,
    ensures
        is_color_sequence(border::color_text(color)),
{
    let (r, g, b) = border::rgb(encode_utf8(color))->0;
    let pattern = border::color_text(color);
    reveal_strlit("\x1b[38;2;");
    reveal_strlit(";");
    reveal_strlit("m");
    lemma_numeral(r as nat);
    lemma_numeral(g as nat);
    lemma_numeral(b as nat);
    let red = text::numeral(r as nat);
    let green = text::numeral(g as nat);
    let blue = text::numeral(b as nat);
    assert(pattern.take(7) =~= opening());
    assert forall|i: int| 0 < i < pattern.len() implies #[trigger] pattern[i] != '\x1b' by {
        let after_red = 7 + red.len();
        let after_green = after_red + 1 + green.len();
        if i < 7 {
            assert(pattern[i] == pattern.take(7)[i]);
        } else if i < after_red {
            assert(pattern[i] == red[i - 7]);
        } else if after_red < i < after_green {
            assert(pattern[i] == green[i - after_red - 1]);
        } else if after_green < i < after_green + 1 + blue.len() {
            assert(pattern[i] == blue[i - after_green - 1]);
        }
    }
}

/// The colour changes nothing of a frame but its colour sequences: there are
/// two of them for each row but one, and without them the frame is the one of
/// a colour that denotes none.
#[verifier::rlimit(40)]
pub proof fn law_color_changes_nothing_else(
    width: u16,
    height: u16,
    style: BorderStyle,
    color: Seq<char>,
    other: Seq<char>,
)
    requires
        width >= 3 && height >= 3,
        border::rgb(encode_utf8(color)) is Some,
        border::rgb(encode_utf8(other)) is None,
    ensures
        occurrences(
            border::frame_text(width, height, style, color),
            border::color_text(color),
        ) == 2 * (height - 1),
        without(border::frame_text(width, height, style, color), border::color_text(color))
            == border::frame_text(width, height, style, other),
{
    let (tl, tr, bl, br, h, v) = border::glyphs(style);
    let c = border::color_text(color);
    let none = Seq::<char>::empty();
    let n = (width - 2) as nat;
    let open = "\x1b[?25l\x1b[1;1H"@;
    let start = "\x1b["@ + text::numeral(height as nat) + ";1H"@;
    let close = "\x1b[?25h"@;
    let sides = border::side_pairs(c, v, width, height - 1);
    let bare_sides = border::side_pairs(none, v, width, height - 1);
    let top = border::edge(c, tl, h, tr, n);
    let bare_top = border::edge(none, tl, h, tr, n);
    let bottom = border::edge(c, bl, h, br, n);
    let bare_bottom = border::edge(none, bl, h, br, n);
    let m = (2 * (height - 2)) as nat;
    lemma_color_text(color);
    lemma_literals();
    lemma_row_start(height as nat);
    lemma_quiet(open, c);
    lemma_quiet(start, c);
    lemma_quiet(close, c);
    lemma_edge(c, tl, h, tr, n);
    lemma_edge(c, bl, h, br, n);
    lemma_side_pairs(c, v, width, height - 1);
    lemma_together(c, open, 0, open, top, 1, bare_top);
    lemma_together(c, open + top, 1, open + bare_top, sides, m, bare_sides);
    lemma_together(
        c,
        open + top + sides,
        1 + m,
        open + bare_top + bare_sides,
        start,
        0,
        start,
    );
    lemma_together(
        c,
        open + top + sides + start,
        1 + m,
        open + bare_top + bare_sides + start,
        bottom,
        1,
        bare_bottom,
    );
    lemma_together(
        c,
        open + top + sides + start + bottom,
        2 + m,
        open + bare_top + bare_sides + start + bare_bottom,
        close,
        0,
        close,
    );
    let whole = open + top + sides + start + bottom + close;
    let bare = open + bare_top + bare_sides + start + bare_bottom + close;
    assert(border::frame_text(width, height, style, color) =~= whole);
    assert(border::frame_text(width, height, style, other) =~= bare);
    assert(whole + none =~= whole);
    assert(bare + none =~= bare);
    assert(occurrences(whole + none, c) == 2 + m + occurrences(none, c));
}

/// The value of a hexadecimal digit, in either case.
pub open spec fn nibble(b: u8) -> int {
    if 0x30 <= b <= 0x39 {
        b - 0x30
    } else if 0x41 <= b <= 0x46 {
        b - 0x41 + 10
    } else if 0x61 <= b <= 0x66 {
        b - 0x61 + 10
    } else {
        -1
    }
}

/// A `#` and six hexadecimal digits are a colour, two digits for each of red,
/// green and blue; with any other byte among them, but for a plus sign in the
/// place of a first digit, they are none.
pub proof fn law_hexadecimal_colors(a: u8, b: u8, c: u8, d: u8, e: u8, f: u8)
    ensures
        ({
            let color = seq![0x23u8, a, b, c, d, e, f];
            &&& nibble(a) >= 0 && nibble(b) >= 0 && nibble(c) >= 0 && nibble(d) >= 0 && nibble(e)
                >= 0 && nibble(f) >= 0 ==> border::has_components(color) && border::rgb(color)
                == Some(
                (
                    (16 * nibble(a) + nibble(b)) as u8,
                    (16 * nibble(c) + nibble(d)) as u8,
                    (16 * nibble(e) + nibble(f)) as u8,
                ),
            )
            &&& nibble(b) < 0 || nibble(d) < 0 || nibble(f) < 0 ==> border::rgb(color) is None
            &&& nibble(a) < 0 && a != 0x2b ==> border::rgb(color) is None
            &&& nibble(c) < 0 && c != 0x2b ==> border::rgb(color) is None
            &&& nibble(e) < 0 && e != 0x2b ==> border::rgb(color) is None
        }),
{
    let color = seq![0x23u8, a, b, c, d, e, f];
    assert(color[1] == a && color[2] == b && color[3] == c && color[4] == d && color[5] == e
        && color[6] == f);
}

/// Anything but a `#` and six bytes is no colour, and can be told to be none.
pub proof fn law_other_colors(color: Seq<u8>)
    requires
        color.len() != 7 || color[0] != 0x23,
    ensures
        border::rgb(color) is None,
        border::has_components(color),
{
}

/// A colour cannot be read where its second component starts inside a
/// character, or its third does and its first is one.
pub proof fn law_unreadable_colors(color: Seq<u8>)
    requires
        color.len() == 7 && color[0] == 0x23,
    ensures
        !border::has_components(color) <==> 0x80 <= color[3] <= 0xbf || 0x80 <= color[5] <= 0xbf
            && nibble(color[2]) >= 0 && (nibble(color[1]) >= 0 || color[1] == 0x2b),
{
}

/// The text that sets a colour.
pub proof fn law_color_text(color: Seq<char>)
    ensures
        border::color_text(color) == (match border::rgb(encode_utf8(color)) {
            Some((r, g, b)) => "\x1b[38;2;"@ + text::numeral(r as nat) + ";"@ + text::numeral(
                g as nat,
            ) + ";"@ + text::numeral(b as nat) + "m"@,
            None => Seq::<char>::empty(),
        }),
{
}

} // verus!
