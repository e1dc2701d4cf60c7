//! What the output filter does, stated on byte sequences.
//!
//! `next` and `emitted` say what one byte of program output does to the filter
//! and what reaches the terminal for it; `run_state` and `run_output` say the
//! same of a whole stretch of output.

use crate::codes;
use crate::dimming::Dimming;
use crate::text;
use vstd::prelude::*;
use vstd::utf8::*;

verus! {

/// Where in an escape sequence the filter stands.
#[verifier::ext_equal]
pub enum Parser {
    /// Between sequences.
    Ground,
    /// After ESC.
    Escape,
    /// Inside a control sequence, with the parameter bytes so far.
    Csi(Seq<u8>),
    /// Inside an operating system command.
    Osc,
    /// Inside an operating system command, after ESC.
    OscEscape,
    /// Inside a device control string.
    Dcs,
    /// Inside a device control string, after ESC.
    DcsEscape,
}

/// The state of the filter. Rows are counted from 1 in inner coordinates; a
/// `scroll_bottom` of 0 stands for the last inner row.
#[verifier::ext_equal]
pub struct Filter {
    pub parser: Parser,
    pub needs_border_redraw: bool,
    pub cursor_row: u16,
    pub scroll_top: u16,
    pub scroll_bottom: u16,
    pub dimming: Dimming,
    /// The rendition that the terminal saved with the cursor was made faint.
    pub cursor_saved_faint: bool,
    /// The rendition that the terminal saved when it left the main screen was
    /// made faint.
    pub screen_saved_faint: bool,
}

/// The frame that the output has to stay in: the outer size, and the bytes
/// that draw one cell of a side border.
#[verifier::ext_equal]
pub struct Frame {
    pub width: u16,
    pub height: u16,
    pub cell: Seq<u8>,
}

impl Frame {
    pub open spec fn inner_width(self) -> u16 {
        if self.width >= 2 {
            (self.width - 2) as u16
        } else {
            0
        }
    }

    pub open spec fn inner_height(self) -> u16 {
        if self.height >= 2 {
            (self.height - 2) as u16
        } else {
            0
        }
    }
}

impl Filter {
    /// The state before any output.
    pub open spec fn initial() -> Filter {
        Filter {
            parser: Parser::Ground,
            needs_border_redraw: false,
            cursor_row: 1,
            scroll_top: 1,
            scroll_bottom: 0,
            dimming: Dimming::Off,
            cursor_saved_faint: false,
            screen_saved_faint: false,
        }
    }

    /// The same, with the given dimming.
    pub open spec fn dimmed(self, dimming: Dimming) -> Filter {
        Filter { dimming, ..self }
    }

    /// The cursor in the first row and the whole inner screen scrolling.
    pub open spec fn homed(self) -> Filter {
        Filter { cursor_row: 1, scroll_top: 1, scroll_bottom: 0, ..self }
    }

    /// Homed, with the border due for a redraw.
    pub open spec fn cleared(self) -> Filter {
        Filter { needs_border_redraw: true, ..self.homed() }
    }

    /// Cleared, with nothing saved.
    pub open spec fn reset(self) -> Filter {
        Filter { cursor_saved_faint: false, screen_saved_faint: false, ..self.cleared() }
    }

    /// With the cursor and its rendition saved.
    pub open spec fn saving(self) -> Filter {
        Filter { cursor_saved_faint: self.dimming == Dimming::Faint, ..self }
    }

    /// With the main screen and its rendition saved.
    pub open spec fn saving_screen(self) -> Filter {
        Filter { screen_saved_faint: self.dimming == Dimming::Faint, ..self }
    }

    pub open spec fn in_parser(self, parser: Parser) -> Filter {
        Filter { parser, ..self }
    }

    pub open spec fn at_row(self, row: u16) -> Filter {
        Filter { cursor_row: row, ..self }
    }

    /// The last inner row of the scroll region.
    pub open spec fn bottom(self, frame: Frame) -> u16 {
        if self.scroll_bottom == 0 {
            frame.inner_height()
        } else {
            self.scroll_bottom
        }
    }
}

// Pieces of output.

/// Moves the cursor to a row and column of the outer screen.
pub open spec fn goto(row: u16, column: u16) -> Seq<u8> {
    text::bytes("\x1b[") + text::digits(row as nat) + text::bytes(";") + text::digits(
        column as nat,
    ) + text::bytes("H")
}

/// Moves the cursor to a column of its row.
pub open spec fn to_column(column: u16) -> Seq<u8> {
    text::bytes("\x1b[") + text::digits(column as nat) + text::bytes("G")
}

/// Draws both side border cells of a row.
pub open spec fn side_cells(frame: Frame, row: u16) -> Seq<u8> {
    goto(row, 1) + frame.cell + goto(row, frame.width) + frame.cell
}

/// Draws the side border cells of the rows `first` to `last`, none where
/// `last` comes before `first`.
pub open spec fn side_rows(frame: Frame, first: int, last: int) -> Seq<u8>
    decreases last - first + 1,
{
    if last < first {
        Seq::empty()
    } else {
        side_rows(frame, first, last - 1) + side_cells(frame, last as u16)
    }
}

/// Repairs the side borders of the rows `first` to `last` in one synchronized
/// update that leaves the cursor where it was.
pub open spec fn repair(frame: Frame, first: u16, last: u16) -> Seq<u8> {
    text::bytes("\x1b[?2026h\x1b7") + side_rows(frame, first as int, last as int) + text::bytes(
        "\x1b8\x1b[?2026l",
    )
}

/// Repairs the right border of the cursor's row.
pub open spec fn repair_right(frame: Frame) -> Seq<u8> {
    text::bytes("\x1b7") + to_column(frame.width) + frame.cell + text::bytes("\x1b8")
}

/// Repairs the left border of the cursor's row.
pub open spec fn repair_left(frame: Frame) -> Seq<u8> {
    text::bytes("\x1b7\x1b[1G") + frame.cell + text::bytes("\x1b8")
}

/// Blanks the inner cells of a row.
pub open spec fn erase_cells(frame: Frame, row: u16) -> Seq<u8> {
    goto(row, 2) + text::bytes("\x1b[") + text::digits(frame.inner_width() as nat) + text::bytes(
        "X",
    )
}

/// Blanks the inner cells of the rows `first` to `last`.
pub open spec fn erase_rows(frame: Frame, first: int, last: int) -> Seq<u8>
    decreases last - first + 1,
{
    if last < first {
        Seq::empty()
    } else {
        erase_rows(frame, first, last - 1) + erase_cells(frame, last as u16)
    }
}

// Control sequences.

/// The parameters open with the private mark `?`.
pub open spec fn is_private(params: Seq<u8>) -> bool {
    params.len() > 0 && params[0] == codes::PRIVATE
}

/// The parameters open with the mark `<` of a mouse report.
pub open spec fn is_mouse_report(params: Seq<u8>) -> bool {
    params.len() > 0 && params[0] == codes::MOUSE
}

pub open spec fn number_or(field: Seq<u8>, default: u16) -> u16 {
    match text::number(field) {
        Some(n) => n,
        None => default,
    }
}

/// The numbers between the semicolons; a field that is no number counts as 0.
pub open spec fn numbers(params: Seq<u8>) -> Seq<u16> {
    if params.len() == 0 {
        Seq::empty()
    } else {
        text::fields(params, codes::SEPARATOR).map_values(|field: Seq<u8>| number_or(field, 0))
    }
}

/// The numeric arguments of a control sequence, its private mark left out.
pub open spec fn arguments(params: Seq<u8>) -> Seq<u16> {
    if is_private(params) {
        numbers(params.drop_first())
    } else {
        numbers(params)
    }
}

/// The argument at an index, or its default where there is none.
pub open spec fn argument(params: Seq<u8>, i: int, default: u16) -> u16 {
    if i < arguments(params).len() {
        arguments(params)[i]
    } else {
        default
    }
}

pub open spec fn smaller(a: u16, b: u16) -> u16 {
    if a <= b {
        a
    } else {
        b
    }
}

pub open spec fn larger(a: u16, b: u16) -> u16 {
    if a >= b {
        a
    } else {
        b
    }
}

/// A position or count argument: at least 1, and 1 where it is missing.
pub open spec fn position(params: Seq<u8>, i: int) -> u16 {
    larger(argument(params, i, 1), 1)
}

/// A row or column argument, held inside an inner extent.
pub open spec fn clamped(params: Seq<u8>, i: int, extent: u16) -> u16 {
    smaller(position(params, i), extent)
}

/// The inner coordinate `n` as an outer one. Coordinates are 16 bits wide: one
/// that the program gives as 65535 wraps.
pub open spec fn outer(n: u16) -> u16 {
    n.wrapping_add(1)
}

/// The control sequence as it came in.
pub open spec fn sequence(params: Seq<u8>, f: u8) -> Seq<u8> {
    (text::bytes("\x1b[") + params).push(f)
}

/// A private mode is being set or reset.
pub open spec fn is_mode_switch(params: Seq<u8>, f: u8) -> bool {
    is_private(params) && (f == codes::SM || f == codes::RM)
}

/// The mode switched is the left and right margin mode.
pub open spec fn is_margin_mode(params: Seq<u8>) -> bool {
    params.drop_first() == text::bytes("69")
}

/// The mode switched is one of those that swap the alternate screen in or out.
pub open spec fn is_screen_mode(params: Seq<u8>) -> bool {
    let mode = params.drop_first();
    mode == text::bytes("1049") || mode == text::bytes("1047") || mode == text::bytes("47")
}

/// The margin mode is none of the screen modes.
pub proof fn lemma_modes_differ(params: Seq<u8>)
    ensures
        is_margin_mode(params) ==> !is_screen_mode(params),
{
    reveal_strlit("69");
    reveal_strlit("1049");
    reveal_strlit("1047");
    reveal_strlit("47");
    is_ascii_chars_encode_utf8("69"@);
    is_ascii_chars_encode_utf8("1049"@);
    is_ascii_chars_encode_utf8("1047"@);
    is_ascii_chars_encode_utf8("47"@);
    assert(text::bytes("69")[0] == 0x36);
    assert(text::bytes("47")[0] == 0x34);
    assert(text::bytes("1049")[0] == 0x31);
    assert(text::bytes("1047")[0] == 0x31);
}

/// The row that the cursor reaches by going up.
pub open spec fn row_above(s: Filter, count: u16) -> u16 {
    if s.cursor_row > count {
        (s.cursor_row - count) as u16
    } else {
        1
    }
}

/// The row that the cursor reaches by going down: the last inner row at most.
pub open spec fn row_below(frame: Frame, s: Filter, count: u16) -> u16 {
    if s.cursor_row + count <= frame.inner_height() {
        (s.cursor_row + count) as u16
    } else {
        frame.inner_height()
    }
}

/// The scroll region that a margin request asks for: top and bottom inner row.
pub open spec fn region_top(params: Seq<u8>) -> u16 {
    position(params, 0)
}

pub open spec fn region_bottom(frame: Frame, params: Seq<u8>) -> u16 {
    smaller(argument(params, 1, frame.inner_height()), frame.inner_height())
}

/// The row `count` rows below `row`, or the last that 16 bits can number.
pub open spec fn below(row: u16, count: u16) -> u16 {
    if row + count <= 0xffff {
        (row + count) as u16
    } else {
        0xffff
    }
}

/// The first outer row to repair after the region of the inner rows `top` to
/// `bottom` scrolled up by `count`.
pub open spec fn scrolled_up_first(top: u16, bottom: u16, count: u16) -> u16 {
    let rows_above = if count >= 1 {
        count - 1
    } else {
        0
    };
    let first = if below(bottom, 1) >= rows_above {
        (below(bottom, 1) - rows_above) as u16
    } else {
        0
    };
    larger(first, below(top, 1))
}

/// The last outer row to repair after the region of the inner rows `top` to
/// `bottom` scrolled down by `count`.
pub open spec fn scrolled_down_last(top: u16, bottom: u16, count: u16) -> u16 {
    smaller(below(top, count), below(bottom, 1))
}

/// What an erase-in-display request turns into.
pub open spec fn erase_display(frame: Frame, cursor_row: u16, params: Seq<u8>) -> Seq<u8> {
    let mode = argument(params, 0, 0);
    if mode == 0 {
        text::bytes("\x1b[?2026h") + erase_line_end(frame) + text::bytes("\x1b7") + erase_rows(
            frame,
            larger(cursor_row, 1) + 2,
            frame.inner_height() + 1,
        ) + text::bytes("\x1b8\x1b[?2026l")
    } else if mode == 1 {
        text::bytes("\x1b[?2026h\x1b7") + erase_rows(
            frame,
            2,
            smaller(cursor_row, frame.inner_height()) as int,
        ) + text::bytes("\x1b8") + erase_line_start(frame) + text::bytes("\x1b[?2026l")
    } else if mode == 2 || mode == 3 {
        text::bytes("\x1b[?2026h") + erase_rows(frame, 2, frame.inner_height() + 1) + text::bytes(
            "\x1b[2;2H\x1b[?2026l",
        )
    } else {
        sequence(params, codes::ED)
    }
}

/// Erases from the cursor to the end of its row.
pub open spec fn erase_line_end(frame: Frame) -> Seq<u8> {
    text::bytes("\x1b[K") + repair_right(frame)
}

/// Erases from the start of the cursor's row to the cursor.
pub open spec fn erase_line_start(frame: Frame) -> Seq<u8> {
    text::bytes("\x1b[1K") + repair_left(frame)
}

/// What an erase-in-line request turns into.
pub open spec fn erase_line(frame: Frame, params: Seq<u8>) -> Seq<u8> {
    let mode = argument(params, 0, 0);
    if mode == 0 {
        erase_line_end(frame)
    } else if mode == 1 {
        erase_line_start(frame)
    } else if mode == 2 {
        text::bytes("\x1b[2K\x1b7\x1b[1G") + frame.cell + to_column(frame.width) + frame.cell
            + text::bytes("\x1b8")
    } else {
        sequence(params, codes::EL)
    }
}

/// A mouse report of the program, moved into outer coordinates.
pub open spec fn mouse_report(params: Seq<u8>, f: u8) -> Seq<u8> {
    let parts = text::fields(params.drop_first(), codes::SEPARATOR);
    if parts.len() == 3 {
        (text::bytes("\x1b[<") + parts[0] + text::bytes(";") + text::digits(
            outer(number_or(parts[1], 1)) as nat,
        ) + text::bytes(";") + text::digits(outer(number_or(parts[2], 1)) as nat)).push(f)
    } else {
        sequence(params, f)
    }
}

/// What the control sequence with the given parameters and final byte turns
/// into, dimming aside.
pub open spec fn csi_text(frame: Frame, s: Filter, params: Seq<u8>, f: u8) -> Seq<u8> {
    if is_mouse_report(params) {
        mouse_report(params, f)
    } else if f == codes::CUP || f == codes::HVP {
        goto(
            outer(clamped(params, 0, frame.inner_height())),
            outer(clamped(params, 1, frame.inner_width())),
        )
    } else if f == codes::VPA {
        text::bytes("\x1b[") + text::digits(
            outer(clamped(params, 0, frame.inner_height())) as nat,
        ) + text::bytes("d")
    } else if f == codes::CHA || f == codes::HPA {
        (text::bytes("\x1b[") + text::digits(
            outer(clamped(params, 0, frame.inner_width())) as nat,
        )).push(f)
    } else if f == codes::DECSTBM && !is_private(params) {
        text::bytes("\x1b[") + text::digits(outer(region_top(params)) as nat) + text::bytes(";")
            + text::digits(outer(region_bottom(frame, params)) as nat) + text::bytes("r")
    } else if f == codes::ED {
        erase_display(frame, s.cursor_row, params)
    } else if f == codes::EL {
        erase_line(frame, params)
    } else if f == codes::CNL {
        sequence(params, codes::CUD) + text::bytes("\x1b[2G")
    } else if f == codes::CPL {
        sequence(params, codes::CUU) + text::bytes("\x1b[2G")
    } else if is_mode_switch(params, f) && is_margin_mode(params) {
        Seq::empty()
    } else if f == codes::IL || f == codes::DL {
        sequence(params, f) + repair(frame, below(s.scroll_top, 1), below(s.bottom(frame), 1))
    } else if f == codes::SU {
        sequence(params, f) + repair(
            frame,
            scrolled_up_first(s.scroll_top, s.bottom(frame), position(params, 0)),
            below(s.bottom(frame), 1),
        )
    } else if f == codes::SD && !is_private(params) {
        sequence(params, f) + repair(
            frame,
            below(s.scroll_top, 1),
            scrolled_down_last(s.scroll_top, s.bottom(frame), position(params, 0)),
        )
    } else if f == codes::ICH || f == codes::DCH || f == codes::ECH {
        sequence(params, f) + repair_right(frame)
    } else {
        sequence(params, f)
    }
}

/// The sequence selects a graphic rendition.
pub open spec fn selects_rendition(params: Seq<u8>, f: u8) -> bool {
    f == codes::SGR && (params.len() == 0 || 0x30 <= params[0] <= codes::SEPARATOR)
}

/// The sequence is a soft reset.
pub open spec fn is_soft_reset(params: Seq<u8>, f: u8) -> bool {
    f == codes::DECSTR && params == seq![codes::SOFT]
}

/// The sequence sets, or resets, a private mode among others.
pub open spec fn switches(params: Seq<u8>, f: u8, switch: u8, mode: u16) -> bool {
    f == switch && is_private(params) && arguments(params).contains(mode)
}

/// The sequence saves the cursor, and with it the rendition.
pub open spec fn saves_cursor(params: Seq<u8>, f: u8) -> bool {
    f == codes::SCOSC && params.len() == 0 || switches(params, f, codes::SM, 1048)
}

/// The sequence restores the saved cursor, and with it the saved rendition.
pub open spec fn restores_cursor(params: Seq<u8>, f: u8) -> bool {
    f == codes::SCORC && params.len() == 0 || switches(params, f, codes::RM, 1048)
}

/// The sequence leaves the main screen, and saves the rendition with it.
pub open spec fn saves_screen(params: Seq<u8>, f: u8) -> bool {
    switches(params, f, codes::SM, 1049)
}

/// The sequence returns to the main screen, and to the rendition saved with it.
pub open spec fn restores_screen(params: Seq<u8>, f: u8) -> bool {
    switches(params, f, codes::RM, 1049)
}

/// What the sequence turns into saves the cursor to draw border cells or to
/// blank rows.
pub open spec fn draws(params: Seq<u8>, f: u8) -> bool {
    &&& !is_mouse_report(params)
    &&& {
        ||| f == codes::IL || f == codes::DL || f == codes::SU
        ||| f == codes::ICH || f == codes::DCH || f == codes::ECH
        ||| f == codes::SD && !is_private(params)
        ||| f == codes::ED && argument(params, 0, 0) <= 1
        ||| f == codes::EL && argument(params, 0, 0) <= 2
    }
}

/// The sequence may undo the dimming, which has to be renewed after it: faint
/// content by any that sets the rendition, undimmed content only by one that
/// restores a rendition that was saved faint.
pub open spec fn undoes_dimming(s: Filter, params: Seq<u8>, f: u8) -> bool {
    match s.dimming {
        Dimming::Off => false,
        Dimming::Lifted => restores_cursor(params, f) && s.cursor_saved_faint || restores_screen(
            params,
            f,
        ) && s.screen_saved_faint,
        Dimming::Faint => selects_rendition(params, f) || is_soft_reset(params, f)
            || restores_cursor(params, f) || restores_screen(params, f),
    }
}

/// What reaches the terminal for the control sequence with the given
/// parameters and final byte.
pub open spec fn csi_output(frame: Frame, s: Filter, params: Seq<u8>, f: u8) -> Seq<u8> {
    if undoes_dimming(s, params, f) {
        csi_text(frame, s, params, f) + s.dimming.renewal()
    } else {
        csi_text(frame, s, params, f)
    }
}

/// What the control sequence with the given parameters and final byte does to
/// the tracked rows and to the mark for a redraw.
pub open spec fn csi_tracked(frame: Frame, s: Filter, params: Seq<u8>, f: u8) -> Filter {
    if is_mouse_report(params) {
        s
    } else if f == codes::CUP || f == codes::HVP || f == codes::VPA {
        s.at_row(clamped(params, 0, frame.inner_height()))
    } else if f == codes::DECSTBM && !is_private(params) {
        Filter {
            scroll_top: region_top(params),
            scroll_bottom: region_bottom(frame, params),
            ..s
        }
    } else if f == codes::ED && (argument(params, 0, 0) == 2 || argument(params, 0, 0) == 3) {
        s.cleared()
    } else if f == codes::CUU || f == codes::CPL {
        s.at_row(row_above(s, position(params, 0)))
    } else if f == codes::CUD || f == codes::CNL {
        s.at_row(row_below(frame, s, position(params, 0)))
    } else if is_mode_switch(params, f) && is_screen_mode(params) {
        s.cleared()
    } else {
        s
    }
}

/// What the control sequence does to what is known of saved renditions.
pub open spec fn csi_remembered(s: Filter, params: Seq<u8>, f: u8) -> Filter {
    if saves_cursor(params, f) && saves_screen(params, f) {
        s.saving().saving_screen()
    } else if saves_cursor(params, f) || draws(params, f) {
        s.saving()
    } else if saves_screen(params, f) {
        s.saving_screen()
    } else if is_soft_reset(params, f) {
        Filter { cursor_saved_faint: false, ..s }
    } else {
        s
    }
}

/// What the control sequence with the given parameters and final byte does to
/// the filter, its parser aside.
pub open spec fn csi_state(frame: Frame, s: Filter, params: Seq<u8>, f: u8) -> Filter {
    csi_remembered(csi_tracked(frame, s, params, f), params, f)
}

// One byte of output.

/// A line feed here scrolls the region.
pub open spec fn scrolls_up(frame: Frame, s: Filter) -> bool {
    s.cursor_row >= s.bottom(frame)
}

/// A reverse index here scrolls the region back.
pub open spec fn scrolls_down(s: Filter) -> bool {
    s.cursor_row <= s.scroll_top
}

pub open spec fn is_param_byte(b: u8) -> bool {
    0x20 <= b <= 0x3f
}

pub open spec fn is_final_byte(b: u8) -> bool {
    0x40 <= b <= 0x7e
}

/// Every byte is a parameter byte of a control sequence.
pub open spec fn all_params(params: Seq<u8>) -> bool {
    forall|i: int| 0 <= i < params.len() ==> is_param_byte(#[trigger] params[i])
}

/// The escape sequence may undo the dimming: it restores a saved rendition, or
/// resets the terminal.
pub open spec fn escape_undoes_dimming(s: Filter, b: u8) -> bool {
    match s.dimming {
        Dimming::Off => false,
        Dimming::Lifted => b == codes::DECRC && s.cursor_saved_faint,
        Dimming::Faint => b == codes::DECRC || b == codes::RIS,
    }
}

/// The filter after one byte of output.
#[verifier::opaque]
pub open spec fn next(frame: Frame, s: Filter, b: u8) -> Filter {
    match s.parser {
        Parser::Ground => {
            if b == codes::ESC {
                s.in_parser(Parser::Escape)
            } else if b == codes::CSI {
                s.in_parser(Parser::Csi(Seq::empty()))
            } else if b == codes::LF {
                if scrolls_up(frame, s) {
                    s.saving()
                } else {
                    s.at_row((s.cursor_row + 1) as u16)
                }
            } else {
                s
            }
        },
        Parser::Escape => {
            if b == codes::OPEN_CSI {
                s.in_parser(Parser::Csi(Seq::empty()))
            } else if b == codes::OPEN_OSC {
                s.in_parser(Parser::Osc)
            } else if b == codes::OPEN_DCS {
                s.in_parser(Parser::Dcs)
            } else if b == codes::RI && !scrolls_down(s) {
                s.at_row((s.cursor_row - 1) as u16).in_parser(Parser::Ground)
            } else if b == codes::RI || b == codes::DECSC {
                s.saving().in_parser(Parser::Ground)
            } else if b == codes::RIS {
                s.reset().in_parser(Parser::Ground)
            } else {
                s.in_parser(Parser::Ground)
            }
        },
        Parser::Csi(params) => {
            if is_param_byte(b) {
                s.in_parser(Parser::Csi(params.push(b)))
            } else if is_final_byte(b) {
                csi_state(frame, s, params, b).in_parser(Parser::Ground)
            } else {
                s.in_parser(Parser::Ground)
            }
        },
        Parser::Osc => {
            if b == codes::BEL {
                s.in_parser(Parser::Ground)
            } else if b == codes::ESC {
                s.in_parser(Parser::OscEscape)
            } else {
                s
            }
        },
        Parser::OscEscape => s.in_parser(
            if b == codes::ST {
                Parser::Ground
            } else {
                Parser::Osc
            },
        ),
        Parser::Dcs => {
            if b == codes::ESC {
                s.in_parser(Parser::DcsEscape)
            } else {
                s
            }
        },
        Parser::DcsEscape => s.in_parser(
            if b == codes::ST {
                Parser::Ground
            } else {
                Parser::Dcs
            },
        ),
    }
}

/// What reaches the terminal for one byte of output.
#[verifier::opaque]
pub open spec fn emitted(frame: Frame, s: Filter, b: u8) -> Seq<u8> {
    match s.parser {
        Parser::Ground => {
            if b == codes::ESC || b == codes::CSI {
                Seq::empty()
            } else if b == codes::CR {
                text::bytes("\x1b[2G")
            } else if b == codes::LF && scrolls_up(frame, s) {
                seq![b] + repair(frame, below(s.bottom(frame), 1), below(s.bottom(frame), 1))
            } else {
                seq![b]
            }
        },
        Parser::Escape => {
            if b == codes::OPEN_CSI {
                Seq::empty()
            } else if b == codes::RI && scrolls_down(s) {
                seq![codes::ESC, b] + repair(frame, below(s.scroll_top, 1), below(s.scroll_top, 1))
            } else if escape_undoes_dimming(s, b) {
                seq![codes::ESC, b] + s.dimming.renewal()
            } else {
                seq![codes::ESC, b]
            }
        },
        Parser::Csi(params) => {
            if is_param_byte(b) {
                Seq::empty()
            } else if is_final_byte(b) {
                csi_output(frame, s, params, b)
            } else {
                sequence(params, b)
            }
        },
        Parser::Osc | Parser::Dcs => {
            if b == codes::ESC {
                Seq::empty()
            } else {
                seq![b]
            }
        },
        Parser::OscEscape | Parser::DcsEscape => seq![codes::ESC, b],
    }
}

/// The filter after a stretch of output.
pub open spec fn run_state(frame: Frame, s: Filter, input: Seq<u8>) -> Filter
    decreases input.len(),
{
    if input.len() == 0 {
        s
    } else {
        next(frame, run_state(frame, s, input.drop_last()), input.last())
    }
}

/// What reaches the terminal for a stretch of output.
pub open spec fn run_output(frame: Frame, s: Filter, input: Seq<u8>) -> Seq<u8>
    decreases input.len(),
{
    if input.len() == 0 {
        Seq::empty()
    } else {
        run_output(frame, s, input.drop_last()) + emitted(
            frame,
            run_state(frame, s, input.drop_last()),
            input.last(),
        )
    }
}

} // verus!
