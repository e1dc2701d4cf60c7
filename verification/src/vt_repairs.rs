//! What erasing, inserting, deleting and scrolling come out as, byte for byte:
//! which inner cells are blanked, and on which rows the side borders are drawn
//! again.

use crate::dimming::Dimming;
use crate::text;
use crate::vt_laws;
use crate::vt_model;
use crate::vt_model::{Filter, Frame, Parser};
use crate::vt_sequences;
use vstd::prelude::*;
use vstd::utf8::*;

verus! {

/// Draws both side border cells of an outer row: one in the first column, one
/// in the last.
pub open spec fn border_pair(frame: Frame, row: int) -> Seq<u8> {
    vt_sequences::csi(vt_sequences::two(row, 1), 0x48) + frame.cell + vt_sequences::csi(
        vt_sequences::two(row, frame.width as int),
        0x48,
    ) + frame.cell
}

/// Blanks the inner cells of an outer row, from the second column on.
pub open spec fn blank_row(frame: Frame, row: int) -> Seq<u8> {
    vt_sequences::csi(vt_sequences::two(row, 2), 0x48) + vt_sequences::csi(
        vt_sequences::one(vt_sequences::inner(frame.width)),
        0x58,
    )
}

/// `n` rows' border pairs from an outer row on, in one synchronized update that
/// leaves the cursor where it was.
pub open spec fn pairs_from(frame: Frame, first: int, n: int) -> Seq<u8> {
    text::bytes("\x1b[?2026h\x1b7") + Seq::new(
        n as nat,
        |i: int| border_pair(frame, first + i),
    ).flatten() + text::bytes("\x1b8\x1b[?2026l")
}

/// The last row of the scroll region.
pub open spec fn region_end(frame: Frame, s: Filter) -> int {
    if s.scroll_bottom == 0 {
        vt_sequences::inner(frame.height)
    } else {
        s.scroll_bottom as int
    }
}

/// How many rows the scroll region has.
pub open spec fn region_len(frame: Frame, s: Filter) -> int {
    if s.scroll_top <= region_end(frame, s) {
        region_end(frame, s) - s.scroll_top + 1
    } else {
        0
    }
}

pub open spec fn least(m: int, n: int) -> int {
    if m <= n {
        m
    } else {
        n
    }
}

/// The filter after its cursor was saved: whether that was while the content
/// was faint is remembered.
pub open spec fn noted(s: Filter) -> Filter {
    Filter { cursor_saved_faint: s.dimming == Dimming::Faint, ..s }
}

/// Between sequences, with a scroll region that ends on some screen.
pub open spec fn ready(s: Filter) -> bool {
    s.parser == Parser::Ground && s.scroll_bottom <= 0xfffd
}

proof fn lemma_pairs(frame: Frame, first: int, n: int)
    requires
        0 <= n,
        0 <= first,
        first + n <= 0x1_0000,
    ensures
        vt_model::side_rows(frame, first, first + n - 1) == Seq::new(
            n as nat,
            |i: int| border_pair(frame, first + i),
        ).flatten(),
    decreases n,
{
    let rows = Seq::new(n as nat, |i: int| border_pair(frame, first + i));
    if n > 0 {
        let front = Seq::new((n - 1) as nat, |i: int| border_pair(frame, first + i));
        let last = first + n - 1;
        lemma_pairs(frame, first, n - 1);
        assert(rows =~= front.push(border_pair(frame, last)));
        front.lemma_flatten_push(border_pair(frame, last));
        vt_sequences::lemma_goto(last as u16, 1);
        vt_sequences::lemma_goto(last as u16, frame.width);
    } else {
        assert(rows =~= Seq::empty());
    }
}

proof fn lemma_blanks(frame: Frame, first: int, n: int)
    requires
        0 <= n,
        0 <= first,
        first + n <= 0x1_0000,
    ensures
        vt_model::erase_rows(frame, first, first + n - 1) == Seq::new(
            n as nat,
            |i: int| blank_row(frame, first + i),
        ).flatten(),
    decreases n,
{
    let rows = Seq::new(n as nat, |i: int| blank_row(frame, first + i));
    if n > 0 {
        let front = Seq::new((n - 1) as nat, |i: int| blank_row(frame, first + i));
        let last = first + n - 1;
        lemma_blanks(frame, first, n - 1);
        assert(rows =~= front.push(blank_row(frame, last)));
        front.lemma_flatten_push(blank_row(frame, last));
        vt_sequences::lemma_goto(last as u16, 2);
        vt_laws::lemma_introducer();
        reveal_strlit("X");
        is_ascii_chars_encode_utf8("X"@);
        assert(text::bytes("X") =~= seq![0x58u8]);
        assert(vt_model::erase_cells(frame, last as u16) =~= blank_row(frame, last));
    } else {
        assert(rows =~= Seq::empty());
    }
}

proof fn lemma_no_blanks(frame: Frame, first: int)
    ensures
        Seq::new(0, |i: int| blank_row(frame, first + i)).flatten() == Seq::<u8>::empty(),
{
    assert(Seq::new(0, |i: int| blank_row(frame, first + i)) =~= Seq::empty());
}

/// A repair of some rows, or of none.
proof fn lemma_repair(frame: Frame, first: u16, last: u16, n: int)
    requires
        n == (if first <= last {
            last - first + 1
        } else {
            0
        }),
    ensures
        vt_model::repair(frame, first, last) == pairs_from(frame, first as int, n),
{
    if first <= last {
        lemma_pairs(frame, first as int, n);
    } else {
        lemma_pairs(frame, first as int, 0);
        assert(vt_model::side_rows(frame, first as int, last as int) == Seq::<u8>::empty());
    }
}

/// A right border cell of the cursor's row.
pub open spec fn right_cell(frame: Frame) -> Seq<u8> {
    text::bytes("\x1b7") + vt_sequences::csi(vt_sequences::one(frame.width as int), 0x47)
        + frame.cell + text::bytes("\x1b8")
}

/// A left border cell of the cursor's row.
pub open spec fn left_cell(frame: Frame) -> Seq<u8> {
    text::bytes("\x1b7\x1b[1G") + frame.cell + text::bytes("\x1b8")
}

// Scrolling and lines.

/// Inserting and deleting lines damages the whole scroll region: it passes, and
/// every row of the region gets its side borders again.
pub proof fn law_lines(frame: Frame, s: Filter, params: Seq<u8>, f: u8)
    requires
        ready(s),
        vt_model::all_params(params),
        params.len() == 0 || params[0] != 0x3c,
        f == 0x4c || f == 0x4d,
    ensures
        vt_model::run_output(frame, s, vt_sequences::csi(params, f)) == vt_sequences::csi(params, f)
            + pairs_from(frame, s.scroll_top + 1, region_len(frame, s)),
        vt_model::run_state(frame, s, vt_sequences::csi(params, f)) == noted(s),
{
    vt_sequences::lemma_csi(params, f);
    vt_laws::law_control_sequence(frame, s, params, f);
    lemma_region(frame, s);
}

/// Scrolling up by `n` rows bares that many rows at the end of the region,
/// scrolling down as many at its start: those get their side borders again.
pub proof fn law_scrolling(frame: Frame, s: Filter, n: u16)
    requires
        ready(s),
        s.scroll_top <= region_end(frame, s),
    ensures
        ({
            let p = vt_sequences::one(n as int);
            let k = least(vt_sequences::steps(n), region_len(frame, s));
            let up = vt_sequences::csi(p, 0x53);
            let down = vt_sequences::csi(p, 0x54);
            &&& vt_model::run_output(frame, s, up) == up + pairs_from(
                frame,
                region_end(frame, s) + 2 - k,
                k,
            )
            &&& vt_model::run_output(frame, s, down) == down + pairs_from(
                frame,
                s.scroll_top + 1,
                k,
            )
            &&& vt_model::run_state(frame, s, up) == noted(s)
            &&& vt_model::run_state(frame, s, down) == noted(s)
        }),
{
    let p = vt_sequences::one(n as int);
    let k = least(vt_sequences::steps(n), region_len(frame, s));
    vt_sequences::lemma_one(n);
    vt_sequences::lemma_csi(p, 0x53);
    vt_sequences::lemma_csi(p, 0x54);
    vt_laws::law_control_sequence(frame, s, p, 0x53);
    vt_laws::law_control_sequence(frame, s, p, 0x54);
    let count = vt_sequences::steps(n) as u16;
    let bottom = s.bottom(frame);
    lemma_repair(
        frame,
        vt_model::scrolled_up_first(s.scroll_top, bottom, count),
        vt_model::below(bottom, 1),
        k,
    );
    lemma_repair(
        frame,
        vt_model::below(s.scroll_top, 1),
        vt_model::scrolled_down_last(s.scroll_top, bottom, count),
        k,
    );
}

/// Without a number the region scrolls by one row. A region that has no rows
/// gets no borders.
pub proof fn law_scrolling_by_one(frame: Frame, s: Filter)
    requires
        ready(s),
    ensures
        ({
            let k = least(1, region_len(frame, s));
            let up = vt_sequences::csi(vt_sequences::none(), 0x53);
            let down = vt_sequences::csi(vt_sequences::none(), 0x54);
            &&& k == 1 ==> vt_model::run_output(frame, s, up) == up + pairs_from(
                frame,
                region_end(frame, s) + 1,
                1,
            )
            &&& k == 1 ==> vt_model::run_output(frame, s, down) == down + pairs_from(
                frame,
                s.scroll_top + 1,
                1,
            )
            &&& k == 0 ==> vt_model::run_output(frame, s, up) == up + text::bytes(
                "\x1b[?2026h\x1b7",
            ) + text::bytes("\x1b8\x1b[?2026l")
            &&& k == 0 ==> vt_model::run_output(frame, s, down) == down + text::bytes(
                "\x1b[?2026h\x1b7",
            ) + text::bytes("\x1b8\x1b[?2026l")
            &&& vt_model::run_state(frame, s, up) == noted(s)
            &&& vt_model::run_state(frame, s, down) == noted(s)
        }),
{
    let k = least(1, region_len(frame, s));
    let none = vt_sequences::none();
    vt_sequences::lemma_none();
    vt_sequences::lemma_csi(none, 0x53);
    vt_sequences::lemma_csi(none, 0x54);
    vt_laws::law_control_sequence(frame, s, none, 0x53);
    vt_laws::law_control_sequence(frame, s, none, 0x54);
    let bottom = s.bottom(frame);
    let up_first = vt_model::scrolled_up_first(s.scroll_top, bottom, 1);
    let down_last = vt_model::scrolled_down_last(s.scroll_top, bottom, 1);
    lemma_repair(frame, up_first, vt_model::below(bottom, 1), k);
    lemma_repair(frame, vt_model::below(s.scroll_top, 1), down_last, k);
    if k == 0 {
        lemma_no_pairs(frame, up_first as int);
        lemma_no_pairs(frame, vt_model::below(s.scroll_top, 1) as int);
        let up = vt_sequences::csi(none, 0x53);
        let down = vt_sequences::csi(none, 0x54);
        let a = text::bytes("\x1b[?2026h\x1b7");
        let b = text::bytes("\x1b8\x1b[?2026l");
        assert(up + (a + b) =~= up + a + b);
        assert(down + (a + b) =~= down + a + b);
    }
}

proof fn lemma_no_pairs(frame: Frame, first: int)
    ensures
        pairs_from(frame, first, 0) == text::bytes("\x1b[?2026h\x1b7") + text::bytes(
            "\x1b8\x1b[?2026l",
        ),
{
    let rows = Seq::new(0, |i: int| border_pair(frame, first + i));
    assert(rows =~= Seq::empty());
    assert(pairs_from(frame, first, 0) =~= text::bytes("\x1b[?2026h\x1b7") + text::bytes(
        "\x1b8\x1b[?2026l",
    ));
}

proof fn lemma_region(frame: Frame, s: Filter)
    requires
        ready(s),
    ensures
        vt_model::repair(
            frame,
            vt_model::below(s.scroll_top, 1),
            vt_model::below(s.bottom(frame), 1),
        ) == pairs_from(frame, s.scroll_top + 1, region_len(frame, s)),
{
    let n = region_len(frame, s);
    lemma_repair(
        frame,
        vt_model::below(s.scroll_top, 1),
        vt_model::below(s.bottom(frame), 1),
        n,
    );
    if n == 0 {
        lemma_no_pairs(frame, s.scroll_top + 1);
        lemma_no_pairs(frame, vt_model::below(s.scroll_top, 1) as int);
    }
}

/// A line feed at or below the end of the region scrolls it: the last row gets
/// its side borders again. Above the end it goes down a row.
pub proof fn law_line_feeds(frame: Frame, s: Filter)
    requires
        ready(s),
    ensures
        ({
            let out = vt_model::run_output(frame, s, seq![0x0au8]);
            let after = vt_model::run_state(frame, s, seq![0x0au8]);
            if s.cursor_row < region_end(frame, s) {
                out == seq![0x0au8] && after == (Filter {
                    cursor_row: (s.cursor_row + 1) as u16,
                    ..s
                })
            } else {
                out == seq![0x0au8] + pairs_from(frame, region_end(frame, s) + 1, 1) && after
                    == noted(s)
            }
        }),
{
    reveal(vt_model::next);
    reveal(vt_model::emitted);
    vt_laws::lemma_one_byte(frame, s, 0x0a);
    let row = (region_end(frame, s) + 1) as u16;
    lemma_repair(frame, row, row, 1);
}

/// A reverse index at or above the start of the region scrolls it back: the
/// first row gets its side borders again. Below the start it goes up a row.
pub proof fn law_reverse_indexes(frame: Frame, s: Filter)
    requires
        ready(s),
        s.scroll_top < 0xffff,
    ensures
        ({
            let input = seq![0x1bu8, 0x4du8];
            let out = vt_model::run_output(frame, s, input);
            let after = vt_model::run_state(frame, s, input);
            if s.cursor_row > s.scroll_top {
                out == input && after == (Filter { cursor_row: (s.cursor_row - 1) as u16, ..s })
            } else {
                out == input + pairs_from(frame, s.scroll_top + 1, 1) && after == noted(s)
            }
        }),
{
    vt_laws::law_reverse_index(frame, s);
    let row = (s.scroll_top + 1) as u16;
    lemma_repair(frame, row, row, 1);
}

/// A carriage return goes to the first inner column.
pub proof fn law_carriage_returns(frame: Frame, s: Filter)
    requires
        s.parser == Parser::Ground,
    ensures
        vt_model::run_output(frame, s, seq![0x0du8]) == text::bytes("\x1b[2G"),
        vt_model::run_state(frame, s, seq![0x0du8]) == s,
{
    reveal(vt_model::next);
    reveal(vt_model::emitted);
    vt_laws::lemma_one_byte(frame, s, 0x0d);
}

/// Inserting, deleting and erasing characters damages the right border of the
/// row.
pub proof fn law_characters(frame: Frame, s: Filter, params: Seq<u8>, f: u8)
    requires
        s.parser == Parser::Ground,
        vt_model::all_params(params),
        params.len() == 0 || params[0] != 0x3c,
        f == 0x40 || f == 0x50 || f == 0x58,
    ensures
        vt_model::run_output(frame, s, vt_sequences::csi(params, f)) == vt_sequences::csi(params, f)
            + right_cell(frame),
        vt_model::run_state(frame, s, vt_sequences::csi(params, f)) == noted(s),
{
    vt_sequences::lemma_csi(params, f);
    vt_laws::law_control_sequence(frame, s, params, f);
    vt_sequences::lemma_to_column(frame.width);
}

// Erasing.

/// Erasures in a mode that there is not pass as they are written.
pub proof fn law_other_erasures(frame: Frame, s: Filter, params: Seq<u8>)
    requires
        s.parser == Parser::Ground,
        vt_model::all_params(params),
        params.len() == 0 || params[0] != 0x3c,
        vt_model::arguments(params).len() > 0,
    ensures
        ({
            let mode = vt_model::arguments(params)[0];
            let display = vt_sequences::csi(params, 0x4a);
            let row = vt_sequences::csi(params, 0x4b);
            &&& mode > 3 ==> vt_model::run_output(frame, s, display) == display
                && vt_model::run_state(frame, s, display) == s
            &&& mode > 2 ==> vt_model::run_output(frame, s, row) == row && vt_model::run_state(
                frame,
                s,
                row,
            ) == s
        }),
{
    vt_sequences::lemma_csi(params, 0x4a);
    vt_sequences::lemma_csi(params, 0x4b);
    vt_laws::law_control_sequence(frame, s, params, 0x4a);
    vt_laws::law_control_sequence(frame, s, params, 0x4b);
}

/// Erasing in the cursor's row takes the right border cell with it, the left
/// one or both, and those are drawn again.
pub proof fn law_row_erasures(frame: Frame, s: Filter, n: u16)
    requires
        s.parser == Parser::Ground,
    ensures
        ({
            let input = vt_sequences::csi(vt_sequences::one(n as int), 0x4b);
            let short = vt_sequences::csi(vt_sequences::none(), 0x4b);
            let out = vt_model::run_output(frame, s, input);
            &&& n == 0 ==> out == text::bytes("\x1b[K") + right_cell(frame)
            &&& n == 1 ==> out == text::bytes("\x1b[1K") + left_cell(frame)
            &&& n == 2 ==> out == text::bytes("\x1b[2K\x1b7\x1b[1G") + frame.cell
                + vt_sequences::csi(vt_sequences::one(frame.width as int), 0x47) + frame.cell
                + text::bytes("\x1b8")
            &&& n > 2 ==> out == input
            &&& vt_model::run_output(frame, s, short) == text::bytes("\x1b[K") + right_cell(frame)
            &&& vt_model::run_state(frame, s, short) == noted(s)
            &&& vt_model::run_state(frame, s, input) == (if n > 2 {
                s
            } else {
                noted(s)
            })
        }),
{
    let p = vt_sequences::one(n as int);
    let none = vt_sequences::none();
    vt_sequences::lemma_one(n);
    vt_sequences::lemma_none();
    vt_sequences::lemma_csi(p, 0x4b);
    vt_sequences::lemma_csi(none, 0x4b);
    vt_laws::law_control_sequence(frame, s, p, 0x4b);
    vt_laws::law_control_sequence(frame, s, none, 0x4b);
    vt_sequences::lemma_to_column(frame.width);
}

/// What erases from the cursor to the end of the display: the rest of its row,
/// and every inner row below it.
pub open spec fn erased_below(frame: Frame, row: int) -> Seq<u8> {
    text::bytes("\x1b[?2026h") + (text::bytes("\x1b[K") + right_cell(frame)) + text::bytes("\x1b7")
        + Seq::new(
        if row < vt_sequences::inner(frame.height) {
            (vt_sequences::inner(frame.height) - row) as nat
        } else {
            0
        },
        |i: int| blank_row(frame, row + 2 + i),
    ).flatten() + text::bytes("\x1b8\x1b[?2026l")
}

/// What erases from the start of the display to the cursor: every inner row
/// above it, and its row up to there.
pub open spec fn erased_above(frame: Frame, row: int) -> Seq<u8> {
    text::bytes("\x1b[?2026h\x1b7") + Seq::new(
        if row >= 1 {
            (row - 1) as nat
        } else {
            0
        },
        |i: int| blank_row(frame, 2 + i),
    ).flatten() + text::bytes("\x1b8") + (text::bytes("\x1b[1K") + left_cell(frame)) + text::bytes(
        "\x1b[?2026l",
    )
}

/// What erases the whole inner screen and goes to its first cell.
pub open spec fn erased_all(frame: Frame) -> Seq<u8> {
    text::bytes("\x1b[?2026h") + Seq::new(
        (vt_sequences::inner(frame.height)) as nat,
        |i: int| blank_row(frame, 2 + i),
    ).flatten() + text::bytes("\x1b[2;2H\x1b[?2026l")
}

/// Erasing in the display blanks exactly the inner cells that it asks for, by
/// the tracked row. Erasing all of it homes the cursor, lets the whole screen
/// scroll and makes a redraw of the border due.
#[verifier::rlimit(40)]
pub proof fn law_display_erasures(frame: Frame, s: Filter, n: u16)
    requires
        ready(s),
    ensures
        ({
            let input = vt_sequences::csi(vt_sequences::one(n as int), 0x4a);
            let short = vt_sequences::csi(vt_sequences::none(), 0x4a);
            let out = vt_model::run_output(frame, s, input);
            let after = vt_model::run_state(frame, s, input);
            let row: int = if s.cursor_row == 0 {
                1
            } else {
                s.cursor_row as int
            };
            let last = least(s.cursor_row as int, vt_sequences::inner(frame.height));
            &&& n == 0 ==> out == erased_below(frame, row) && after == noted(s)
            &&& n == 1 ==> out == erased_above(frame, last) && after == noted(s)
            &&& n == 2 || n == 3 ==> out == erased_all(frame) && after == (Filter {
                needs_border_redraw: true,
                cursor_row: 1,
                scroll_top: 1,
                scroll_bottom: 0,
                ..s
            })
            &&& n > 3 ==> out == input && after == s
            &&& vt_model::run_output(frame, s, short) == erased_below(frame, row)
            &&& vt_model::run_state(frame, s, short) == noted(s)
        }),
{
    let p = vt_sequences::one(n as int);
    let none = vt_sequences::none();
    let row: int = if s.cursor_row == 0 {
        1
    } else {
        s.cursor_row as int
    };
    let last = least(s.cursor_row as int, vt_sequences::inner(frame.height));
    vt_sequences::lemma_one(n);
    vt_sequences::lemma_none();
    vt_sequences::lemma_csi(p, 0x4a);
    vt_sequences::lemma_csi(none, 0x4a);
    vt_laws::law_control_sequence(frame, s, p, 0x4a);
    vt_laws::law_control_sequence(frame, s, none, 0x4a);
    vt_sequences::lemma_to_column(frame.width);
    if row < vt_sequences::inner(frame.height) {
        lemma_blanks(frame, row + 2, vt_sequences::inner(frame.height) - row);
    } else {
        lemma_no_blanks(frame, row + 2);
    }
    if last >= 1 {
        lemma_blanks(frame, 2, last - 1);
    } else {
        lemma_no_blanks(frame, 2);
    }
    lemma_blanks(frame, 2, vt_sequences::inner(frame.height));
}

} // verus!
