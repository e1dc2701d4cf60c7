//! Filters the output of the wrapped program so that it stays inside the
//! border: absolute coordinates move by one row and column, and border cells
//! that an erase or a scroll damages are drawn again. Where the content is
//! dimmed, that is renewed after sequences that undo it. All other bytes pass
//! unchanged.
//!
//! What the functions here do is stated in `vt_model`.

use crate::codes;
use crate::dimming::Dimming;
pub use crate::mouse::{transform_mouse_input, MouseTransform};
use crate::text;
use crate::vt_model;
use crate::vt_model::{Filter, Frame, Parser};
use vstd::prelude::*;
use vstd::slice::slice_subrange;
use vstd::utf8::*;

verus! {

/// Where in an escape sequence the filter stands. It outlives a call, so that
/// a sequence split over two reads is still recognised.
enum ParserState {
    /// Between sequences.
    Ground,
    /// After ESC.
    Escape,
    /// Inside a control sequence, with its parameter bytes so far.
    Csi { params: Vec<u8> },
    /// Inside an operating system command.
    Osc,
    /// Inside an operating system command, after ESC.
    OscEscape,
    /// Inside a device control string.
    Dcs,
    /// Inside a device control string, after ESC.
    DcsEscape,
}

impl ParserState {
    /// What is held of a control sequence are parameter bytes.
    #[verifier::type_invariant]
    spec fn holds_params(self) -> bool {
        self matches ParserState::Csi { params } ==> vt_model::all_params(params@)
    }

    spec fn model(self) -> Parser {
        match self {
            ParserState::Ground => Parser::Ground,
            ParserState::Escape => Parser::Escape,
            ParserState::Csi { params } => Parser::Csi(params@),
            ParserState::Osc => Parser::Osc,
            ParserState::OscEscape => Parser::OscEscape,
            ParserState::Dcs => Parser::Dcs,
            ParserState::DcsEscape => Parser::DcsEscape,
        }
    }
}

/// Where the filter stands in the output, and on the inner screen.
pub struct Tracker {
    parser: ParserState,
    /// The row of the cursor in inner coordinates, counted from 1.
    cursor_row: u16,
    /// The first row of the scroll region in inner coordinates.
    scroll_top: u16,
    /// The last row of the scroll region in inner coordinates, or 0 for the
    /// last inner row.
    scroll_bottom: u16,
    /// How the content is written.
    dimming: Dimming,
    /// What the terminal saved with the cursor was made faint.
    cursor_saved_faint: bool,
    /// What the terminal saved with the main screen was made faint.
    screen_saved_faint: bool,
}

impl View for Tracker {
    type V = Filter;

    /// The filter without its mark for a redraw.
    closed spec fn view(&self) -> Filter {
        Filter {
            parser: self.parser.model(),
            needs_border_redraw: false,
            cursor_row: self.cursor_row,
            scroll_top: self.scroll_top,
            scroll_bottom: self.scroll_bottom,
            dimming: self.dimming,
            cursor_saved_faint: self.cursor_saved_faint,
            screen_saved_faint: self.screen_saved_faint,
        }
    }
}

/// What the filter remembers from one call to the next.
pub struct FilterState {
    /// Set when the output switched the alternate screen, cleared the whole
    /// display or reset the terminal: the border has to be drawn anew.
    pub needs_border_redraw: bool,
    /// Where the output left off.
    pub tracker: Tracker,
}

impl View for FilterState {
    type V = Filter;

    open spec fn view(&self) -> Filter {
        Filter { needs_border_redraw: self.needs_border_redraw, ..self.tracker@ }
    }
}

impl FilterState {
    pub fn new() -> (state: Self)
        ensures
            state@ == Filter::initial(),
    {
        FilterState {
            needs_border_redraw: false,
            tracker: Tracker {
                parser: ParserState::Ground,
                cursor_row: 1,
                scroll_top: 1,
                scroll_bottom: 0,
                dimming: Dimming::Off,
                cursor_saved_faint: false,
                screen_saved_faint: false,
            },
        }
    }

    /// Sets how the content is written from here on.
    pub fn set_dimming(&mut self, dimming: Dimming)
        ensures
            final(self)@ == old(self)@.dimmed(dimming),
    {
        self.tracker.dimming = dimming;
    }

    /// The tracked row of the cursor.
    pub fn cursor_row(&self) -> (row: u16)
        ensures
            row == self@.cursor_row,
    {
        self.tracker.cursor_row
    }

    /// Puts the cursor row and the scroll region back to their defaults, as
    /// after a resize.
    pub fn reset_cursor_row(&mut self)
        ensures
            final(self)@ == old(self)@.homed(),
    {
        self.tracker.cursor_row = 1;
        self.reset_scroll_region();
    }

    /// Lets the whole inner screen scroll.
    fn reset_scroll_region(&mut self)
        ensures
            final(self)@ == (Filter { scroll_top: 1, scroll_bottom: 0, ..old(self)@ }),
    {
        self.tracker.scroll_top = 1;
        self.tracker.scroll_bottom = 0;
    }

    /// The last row of the scroll region.
    fn effective_scroll_bottom(&self, inner_height: u16) -> (bottom: u16)
        ensures
            bottom == (if self@.scroll_bottom == 0 {
                inner_height
            } else {
                self@.scroll_bottom
            }),
    {
        if self.tracker.scroll_bottom == 0 {
            inner_height
        } else {
            self.tracker.scroll_bottom
        }
    }

    /// Homes the cursor and asks for a redraw of the border.
    fn clear_screen(&mut self)
        ensures
            final(self)@ == old(self)@.cleared(),
    {
        self.needs_border_redraw = true;
        self.reset_cursor_row();
    }

    /// Takes note that the terminal saved the cursor with its rendition.
    fn note_saved_cursor(&mut self)
        ensures
            final(self)@ == old(self)@.saving(),
    {
        self.tracker.cursor_saved_faint = self.tracker.dimming == Dimming::Faint;
    }

    /// Takes note that the terminal saved the main screen with its rendition.
    fn note_saved_screen(&mut self)
        ensures
            final(self)@ == old(self)@.saving_screen(),
    {
        self.tracker.screen_saved_faint = self.tracker.dimming == Dimming::Faint;
    }

    /// Takes note that the terminal was reset.
    fn note_reset(&mut self)
        ensures
            final(self)@ == old(self)@.reset(),
    {
        self.tracker.cursor_saved_faint = false;
        self.tracker.screen_saved_faint = false;
        self.clear_screen();
    }

    /// Tells whether the border is due for a redraw, and clears that mark.
    pub fn take_border_redraw(&mut self) -> (due: bool)
        ensures
            due == old(self)@.needs_border_redraw,
            final(self)@ == (Filter { needs_border_redraw: false, ..old(self)@ }),
    {
        let due = self.needs_border_redraw;
        self.needs_border_redraw = false;
        due
    }
}

/// How a side border cell looks, for drawing it again.
pub struct BorderInfo<'a> {
    /// The vertical border character.
    pub vertical_char: char,
    /// The sequence that sets the border's colour.
    pub color_seq: &'a str,
}

/// The bytes that draw one side border cell and leave the default foreground.
pub open spec fn cell_bytes(vertical_char: char, color: Seq<char>) -> Seq<u8> {
    encode_utf8(color) + encode_utf8(seq![vertical_char]) + text::bytes("\x1b[39m")
}

/// The frame that an outer size and a border make.
pub open spec fn frame_of(outer_width: u16, outer_height: u16, border_info: &BorderInfo) -> Frame {
    Frame {
        width: outer_width,
        height: outer_height,
        cell: cell_bytes(border_info.vertical_char, border_info.color_seq@),
    }
}

impl<'a> BorderInfo<'a> {
    fn put_cell(&self, out: &mut Vec<u8>)
        ensures
            final(out)@ == old(out)@ + cell_bytes(self.vertical_char, self.color_seq@),
    {
        let ghost before = out@;
        text::put(out, self.color_seq);
        let mut glyph: String = String::new();
        glyph.push(self.vertical_char);
        assert(glyph@ =~= seq![self.vertical_char]);
        text::put_slice(out, glyph.as_str().as_bytes());
        text::put(out, "\x1b[39m");
        assert(out@ =~= before + cell_bytes(self.vertical_char, self.color_seq@));
    }
}

fn lower(a: u16, b: u16) -> (r: u16)
    ensures
        r == vt_model::smaller(a, b),
{
    if a <= b {
        a
    } else {
        b
    }
}

fn upper(a: u16, b: u16) -> (r: u16)
    ensures
        r == vt_model::larger(a, b),
{
    if a >= b {
        a
    } else {
        b
    }
}

/// Appends a cursor movement to an outer row and column.
fn put_goto(out: &mut Vec<u8>, row: u16, column: u16)
    ensures
        final(out)@ == old(out)@ + vt_model::goto(row, column),
{
    let mut piece: Vec<u8> = text::bytes_of("\x1b[");
    text::put_number(&mut piece, row);
    text::put(&mut piece, ";");
    text::put_number(&mut piece, column);
    text::put(&mut piece, "H");
    text::put_slice(out, piece.as_slice());
}

/// Appends a cursor movement to an outer column.
fn put_to_column(out: &mut Vec<u8>, column: u16)
    ensures
        final(out)@ == old(out)@ + vt_model::to_column(column),
{
    let mut piece: Vec<u8> = text::bytes_of("\x1b[");
    text::put_number(&mut piece, column);
    text::put(&mut piece, "G");
    text::put_slice(out, piece.as_slice());
}

/// Appends a redraw of the side borders of the outer rows `first` to `last`.
fn put_side_rows(
    out: &mut Vec<u8>,
    outer_width: u16,
    outer_height: u16,
    first: u16,
    last: u16,
    border_info: &BorderInfo,
)
    ensures
        final(out)@ == old(out)@ + vt_model::side_rows(
            frame_of(outer_width, outer_height, border_info),
            first as int,
            last as int,
        ),
{
    let ghost frame = frame_of(outer_width, outer_height, border_info);
    let mut piece: Vec<u8> = Vec::new();
    let mut row: u32 = first as u32;
    assert(piece@ =~= vt_model::side_rows(frame, first as int, row - 1));
    while row <= last as u32
        invariant
            frame == frame_of(outer_width, outer_height, border_info),
            first <= row,
            row <= last + 1 || row == first,
            piece@ == vt_model::side_rows(frame, first as int, row - 1),
        decreases last + 1 - row,
    {
        let ghost before = piece@;
        put_goto(&mut piece, row as u16, 1);
        border_info.put_cell(&mut piece);
        put_goto(&mut piece, row as u16, outer_width);
        border_info.put_cell(&mut piece);
        assert(piece@ =~= before + vt_model::side_cells(frame, row as u16));
        row += 1;
    }
    assert(vt_model::side_rows(frame, first as int, row - 1) == vt_model::side_rows(
        frame,
        first as int,
        last as int,
    ));
    text::put_slice(out, piece.as_slice());
}

/// Appends a repair of the side borders of the outer rows `first` to `last`.
fn put_repair(
    out: &mut Vec<u8>,
    outer_width: u16,
    outer_height: u16,
    first: u16,
    last: u16,
    border_info: &BorderInfo,
)
    ensures
        final(out)@ == old(out)@ + vt_model::repair(
            frame_of(outer_width, outer_height, border_info),
            first,
            last,
        ),
{
    let mut piece: Vec<u8> = text::bytes_of("\x1b[?2026h\x1b7");
    put_side_rows(&mut piece, outer_width, outer_height, first, last, border_info);
    text::put(&mut piece, "\x1b8\x1b[?2026l");
    text::put_slice(out, piece.as_slice());
}

/// Appends the blanking of the inner cells of the outer rows `first` to `last`.
fn put_erase_rows(
    out: &mut Vec<u8>,
    outer_width: u16,
    outer_height: u16,
    first: u16,
    last: u16,
    border_info: &BorderInfo,
)
    ensures
        final(out)@ == old(out)@ + vt_model::erase_rows(
            frame_of(outer_width, outer_height, border_info),
            first as int,
            last as int,
        ),
{
    let ghost frame = frame_of(outer_width, outer_height, border_info);
    let inner_width: u16 = outer_width.saturating_sub(2);
    let mut piece: Vec<u8> = Vec::new();
    let mut row: u32 = first as u32;
    assert(piece@ =~= vt_model::erase_rows(frame, first as int, row - 1));
    while row <= last as u32
        invariant
            frame == frame_of(outer_width, outer_height, border_info),
            inner_width == frame.inner_width(),
            first <= row,
            row <= last + 1 || row == first,
            piece@ == vt_model::erase_rows(frame, first as int, row - 1),
        decreases last + 1 - row,
    {
        let ghost before = piece@;
        put_goto(&mut piece, row as u16, 2);
        text::put(&mut piece, "\x1b[");
        text::put_number(&mut piece, inner_width);
        text::put(&mut piece, "X");
        assert(piece@ =~= before + vt_model::erase_cells(frame, row as u16));
        row += 1;
    }
    assert(vt_model::erase_rows(frame, first as int, row - 1) == vt_model::erase_rows(
        frame,
        first as int,
        last as int,
    ));
    text::put_slice(out, piece.as_slice());
}

/// Reads the numbers between the semicolons of the parameter bytes.
fn parse_params(params: &[u8]) -> (nums: Vec<u16>)
    requires
        text::is_ascii(params@),
    ensures
        nums@ == vt_model::numbers(params@),
{
    let mut nums: Vec<u16> = Vec::new();
    if params.len() == 0 {
        return nums;
    }
    let fields: Vec<Vec<u8>> = text::split_fields(params, codes::SEPARATOR);
    let ghost parts = text::fields(params@, codes::SEPARATOR);
    let mut i: usize = 0;
    while i < fields.len()
        invariant
            i <= fields.len(),
            text::parts(fields@) == parts,
            nums.len() == i,
            forall|j: int|
                0 <= j < i ==> nums@[j] == vt_model::number_or(#[trigger] parts[j], 0),
        decreases fields.len() - i,
    {
        assert(parts[i as int] == fields@[i as int]@);
        let n: u16 = match text::parse_number(fields[i].as_slice()) {
            Some(n) => n,
            None => 0,
        };
        nums.push(n);
        i += 1;
    }
    assert(parts.len() == fields@.len());
    assert(nums@ =~= vt_model::numbers(params@));
    nums
}

/// Appends a repair of the side borders of the scroll region, as after lines
/// were inserted or deleted. The rows are inner ones.
fn repair_side_borders_in_region(
    out: &mut Vec<u8>,
    outer_width: u16,
    outer_height: u16,
    scroll_top: u16,
    scroll_bottom: u16,
    border_info: &BorderInfo,
)
    ensures
        final(out)@ == old(out)@ + vt_model::repair(
            frame_of(outer_width, outer_height, border_info),
            vt_model::below(scroll_top, 1),
            vt_model::below(scroll_bottom, 1),
        ),
{
    put_repair(
        out,
        outer_width,
        outer_height,
        scroll_top.saturating_add(1),
        scroll_bottom.saturating_add(1),
        border_info,
    );
}

/// Appends a repair of the last `count` rows of the scroll region, as after it
/// scrolled up.
fn repair_bottom_side_borders(
    out: &mut Vec<u8>,
    outer_width: u16,
    outer_height: u16,
    scroll_top: u16,
    scroll_bottom: u16,
    count: u16,
    border_info: &BorderInfo,
)
    ensures
        final(out)@ == old(out)@ + vt_model::repair(
            frame_of(outer_width, outer_height, border_info),
            vt_model::scrolled_up_first(scroll_top, scroll_bottom, count),
            vt_model::below(scroll_bottom, 1),
        ),
{
    let outer_bottom: u16 = scroll_bottom.saturating_add(1);
    let first: u16 = upper(
        outer_bottom.saturating_sub(count.saturating_sub(1)),
        scroll_top.saturating_add(1),
    );
    put_repair(out, outer_width, outer_height, first, outer_bottom, border_info);
}

/// Appends a repair of the first `count` rows of the scroll region, as after
/// it scrolled down.
fn repair_top_side_borders(
    out: &mut Vec<u8>,
    outer_width: u16,
    outer_height: u16,
    scroll_top: u16,
    scroll_bottom: u16,
    count: u16,
    border_info: &BorderInfo,
)
    ensures
        final(out)@ == old(out)@ + vt_model::repair(
            frame_of(outer_width, outer_height, border_info),
            vt_model::below(scroll_top, 1),
            vt_model::scrolled_down_last(scroll_top, scroll_bottom, count),
        ),
{
    let last: u16 = lower(scroll_top.saturating_add(count), scroll_bottom.saturating_add(1));
    put_repair(
        out,
        outer_width,
        outer_height,
        scroll_top.saturating_add(1),
        last,
        border_info,
    );
}

/// Appends a repair of the right border of the cursor's row.
fn repair_right_border_current_row(
    out: &mut Vec<u8>,
    outer_width: u16,
    outer_height: u16,
    border_info: &BorderInfo,
)
    ensures
        final(out)@ == old(out)@ + vt_model::repair_right(
            frame_of(outer_width, outer_height, border_info),
        ),
{
    let mut piece: Vec<u8> = text::bytes_of("\x1b7");
    put_to_column(&mut piece, outer_width);
    border_info.put_cell(&mut piece);
    text::put(&mut piece, "\x1b8");
    text::put_slice(out, piece.as_slice());
}

/// Appends a repair of the left border of the cursor's row.
fn repair_left_border_current_row(
    out: &mut Vec<u8>,
    outer_width: u16,
    outer_height: u16,
    border_info: &BorderInfo,
)
    ensures
        final(out)@ == old(out)@ + vt_model::repair_left(
            frame_of(outer_width, outer_height, border_info),
        ),
{
    let mut piece: Vec<u8> = text::bytes_of("\x1b7\x1b[1G");
    border_info.put_cell(&mut piece);
    text::put(&mut piece, "\x1b8");
    text::put_slice(out, piece.as_slice());
}

/// Moves a mouse report of the program into outer coordinates.
fn transform_sgr_mouse(params: &[u8], final_byte: u8) -> (out: Vec<u8>)
    requires
        params.len() > 0,
        text::is_ascii(params@),
        final_byte < 0x80,
    ensures
        out@ == vt_model::mouse_report(params@, final_byte),
{
    let body: &[u8] = slice_subrange(params, 1, params.len());
    let fields: Vec<Vec<u8>> = text::split_fields(body, codes::SEPARATOR);
    let ghost parts = text::fields(params@.drop_first(), codes::SEPARATOR);
    assert(text::parts(fields@) == parts);
    assert(parts.len() == fields@.len());
    if fields.len() == 3 {
        assert(parts[0] == fields@[0]@ && parts[1] == fields@[1]@ && parts[2] == fields@[2]@);
        let column: u16 = match text::parse_number(fields[1].as_slice()) {
            Some(n) => n,
            None => 1,
        };
        let row: u16 = match text::parse_number(fields[2].as_slice()) {
            Some(n) => n,
            None => 1,
        };
        let mut out: Vec<u8> = text::bytes_of("\x1b[<");
        text::put_slice(&mut out, fields[0].as_slice());
        text::put(&mut out, ";");
        text::put_number(&mut out, column.wrapping_add(1));
        text::put(&mut out, ";");
        text::put_number(&mut out, row.wrapping_add(1));
        out.push(final_byte);
        out
    } else {
        pass_through(params, final_byte)
    }
}

/// The control sequence with the given parameters and final byte.
fn pass_through(params: &[u8], final_byte: u8) -> (out: Vec<u8>)
    ensures
        out@ == vt_model::sequence(params@, final_byte),
{
    let mut out: Vec<u8> = text::bytes_of("\x1b[");
    text::put_slice(&mut out, params);
    out.push(final_byte);
    out
}

/// Turns an erase-in-display request into erasures of inner cells.
fn erase_display(
    mode: u16,
    params: &[u8],
    outer_width: u16,
    outer_height: u16,
    border_info: &BorderInfo,
    cursor_row: u16,
) -> (out: Vec<u8>)
    requires
        text::is_ascii(params@),
        mode == vt_model::argument(params@, 0, 0),
    ensures
        out@ == vt_model::erase_display(
            frame_of(outer_width, outer_height, border_info),
            cursor_row,
            params@,
        ),
{
    let inner_height: u16 = outer_height.saturating_sub(2);
    let outer_bottom: u16 = inner_height + 1;
    if mode == 0 {
        let mut out: Vec<u8> = text::bytes_of("\x1b[?2026h");
        let line: Vec<u8> = erase_line_end(outer_width, outer_height, border_info);
        text::put_slice(&mut out, line.as_slice());
        text::put(&mut out, "\x1b7");
        let first: u16 = upper(cursor_row, 1).saturating_add(2);
        put_erase_rows(&mut out, outer_width, outer_height, first, outer_bottom, border_info);
        text::put(&mut out, "\x1b8\x1b[?2026l");
        out
    } else if mode == 1 {
        let mut out: Vec<u8> = text::bytes_of("\x1b[?2026h\x1b7");
        let last: u16 = lower(cursor_row, inner_height);
        put_erase_rows(&mut out, outer_width, outer_height, 2, last, border_info);
        text::put(&mut out, "\x1b8");
        let line: Vec<u8> = erase_line_start(outer_width, outer_height, border_info);
        text::put_slice(&mut out, line.as_slice());
        text::put(&mut out, "\x1b[?2026l");
        out
    } else if mode == 2 || mode == 3 {
        let mut out: Vec<u8> = text::bytes_of("\x1b[?2026h");
        put_erase_rows(&mut out, outer_width, outer_height, 2, outer_bottom, border_info);
        text::put(&mut out, "\x1b[2;2H\x1b[?2026l");
        out
    } else {
        pass_through(params, codes::ED)
    }
}

/// Erases from the cursor to the end of its row, then repairs the right border.
fn erase_line_end(outer_width: u16, outer_height: u16, border_info: &BorderInfo) -> (out: Vec<u8>)
    ensures
        out@ == vt_model::erase_line_end(frame_of(outer_width, outer_height, border_info)),
{
    let mut out: Vec<u8> = text::bytes_of("\x1b[K");
    repair_right_border_current_row(&mut out, outer_width, outer_height, border_info);
    out
}

/// Erases from the start of the row to the cursor, then repairs the left border.
fn erase_line_start(outer_width: u16, outer_height: u16, border_info: &BorderInfo) -> (out: Vec<u8>)
    ensures
        out@ == vt_model::erase_line_start(frame_of(outer_width, outer_height, border_info)),
{
    let mut out: Vec<u8> = text::bytes_of("\x1b[1K");
    repair_left_border_current_row(&mut out, outer_width, outer_height, border_info);
    out
}

/// Lets an erase-in-line request pass and repairs the border cells it blanks.
fn erase_line(
    mode: u16,
    params: &[u8],
    outer_width: u16,
    outer_height: u16,
    border_info: &BorderInfo,
) -> (out: Vec<u8>)
    requires
        text::is_ascii(params@),
        mode == vt_model::argument(params@, 0, 0),
    ensures
        out@ == vt_model::erase_line(frame_of(outer_width, outer_height, border_info), params@),
{
    if mode == 0 {
        erase_line_end(outer_width, outer_height, border_info)
    } else if mode == 1 {
        erase_line_start(outer_width, outer_height, border_info)
    } else if mode == 2 {
        let mut out: Vec<u8> = text::bytes_of("\x1b[2K\x1b7\x1b[1G");
        border_info.put_cell(&mut out);
        put_to_column(&mut out, outer_width);
        border_info.put_cell(&mut out);
        text::put(&mut out, "\x1b8");
        out
    } else {
        pass_through(params, codes::EL)
    }
}

/// The argument at an index, or its default.
fn argument_or(nums: &Vec<u16>, i: usize, default: u16) -> (n: u16)
    ensures
        n == (if i < nums.len() {
            nums@[i as int]
        } else {
            default
        }),
{
    if i < nums.len() {
        nums[i]
    } else {
        default
    }
}

/// Handles one control sequence, dimming aside: updates the tracked state, and
/// returns what the sequence turns into.
fn rewrite_csi(
    params: &[u8],
    final_byte: u8,
    outer_width: u16,
    outer_height: u16,
    border_info: &BorderInfo,
    state: &mut FilterState,
) -> (out: Vec<u8>)
    requires
        text::is_ascii(params@),
        final_byte < 0x80,
    ensures
        out@ == vt_model::csi_text(
            frame_of(outer_width, outer_height, border_info),
            old(state)@,
            params@,
            final_byte,
        ),
        final(state)@ == vt_model::csi_tracked(
            frame_of(outer_width, outer_height, border_info),
            old(state)@,
            params@,
            final_byte,
        ),
{
    let ghost frame = frame_of(outer_width, outer_height, border_info);
    let inner_width: u16 = outer_width.saturating_sub(2);
    let inner_height: u16 = outer_height.saturating_sub(2);
    assert(inner_height == frame.inner_height() && inner_width == frame.inner_width());

    if params.len() > 0 && params[0] == codes::MOUSE {
        return transform_sgr_mouse(params, final_byte);
    }
    let is_private: bool = params.len() > 0 && params[0] == codes::PRIVATE;
    let body: &[u8] = if is_private {
        slice_subrange(params, 1, params.len())
    } else {
        params
    };
    assert(text::is_ascii(body@));
    let nums: Vec<u16> = parse_params(body);
    assert(nums@ == vt_model::arguments(params@));
    let first: u16 = upper(argument_or(&nums, 0, 1), 1);
    assert(first == vt_model::position(params@, 0));

    if final_byte == codes::CUP || final_byte == codes::HVP {
        let column: u16 = lower(upper(argument_or(&nums, 1, 1), 1), inner_width);
        let row: u16 = lower(first, inner_height);
        state.tracker.cursor_row = row;
        let mut out: Vec<u8> = Vec::new();
        put_goto(&mut out, row.wrapping_add(1), column.wrapping_add(1));
        assert(out@ =~= vt_model::goto(vt_model::outer(row), vt_model::outer(column)));
        out
    } else if final_byte == codes::VPA {
        let row: u16 = lower(first, inner_height);
        state.tracker.cursor_row = row;
        let mut out: Vec<u8> = text::bytes_of("\x1b[");
        text::put_number(&mut out, row.wrapping_add(1));
        text::put(&mut out, "d");
        out
    } else if final_byte == codes::CHA || final_byte == codes::HPA {
        let column: u16 = lower(first, inner_width);
        let mut out: Vec<u8> = text::bytes_of("\x1b[");
        text::put_number(&mut out, column.wrapping_add(1));
        out.push(final_byte);
        out
    } else if final_byte == codes::DECSTBM && !is_private {
        let bottom: u16 = lower(argument_or(&nums, 1, inner_height), inner_height);
        state.tracker.scroll_top = first;
        state.tracker.scroll_bottom = bottom;
        let mut out: Vec<u8> = text::bytes_of("\x1b[");
        text::put_number(&mut out, first.wrapping_add(1));
        text::put(&mut out, ";");
        text::put_number(&mut out, bottom.wrapping_add(1));
        text::put(&mut out, "r");
        out
    } else if final_byte == codes::ED {
        let mode: u16 = argument_or(&nums, 0, 0);
        let out: Vec<u8> = erase_display(
            mode,
            params,
            outer_width,
            outer_height,
            border_info,
            state.tracker.cursor_row,
        );
        if mode == 2 || mode == 3 {
            state.clear_screen();
        }
        out
    } else if final_byte == codes::EL {
        let mode: u16 = argument_or(&nums, 0, 0);
        erase_line(mode, params, outer_width, outer_height, border_info)
    } else if final_byte == codes::CUU {
        state.tracker.cursor_row = upper(state.tracker.cursor_row.saturating_sub(first), 1);
        pass_through(params, final_byte)
    } else if final_byte == codes::CUD {
        state.tracker.cursor_row = lower(
            state.tracker.cursor_row.saturating_add(first),
            inner_height,
        );
        pass_through(params, final_byte)
    } else if final_byte == codes::CNL {
        // Going to column 1 would reach the left border: go down, and to the
        // first inner column.
        state.tracker.cursor_row = lower(
            state.tracker.cursor_row.saturating_add(first),
            inner_height,
        );
        let mut out: Vec<u8> = pass_through(params, codes::CUD);
        text::put(&mut out, "\x1b[2G");
        out
    } else if final_byte == codes::CPL {
        state.tracker.cursor_row = upper(state.tracker.cursor_row.saturating_sub(first), 1);
        let mut out: Vec<u8> = pass_through(params, codes::CUU);
        text::put(&mut out, "\x1b[2G");
        out
    } else if is_private && (final_byte == codes::SM || final_byte == codes::RM) {
        if text::same(body, "69".as_bytes()) {
            // Left and right margins would break the border.
            proof {
                vt_model::lemma_modes_differ(params@);
            }
            Vec::new()
        } else {
            if text::same(body, "1049".as_bytes()) || text::same(body, "1047".as_bytes())
                || text::same(body, "47".as_bytes()) {
                state.clear_screen();
            }
            pass_through(params, final_byte)
        }
    } else if final_byte == codes::IL || final_byte == codes::DL {
        let mut out: Vec<u8> = pass_through(params, final_byte);
        let bottom: u16 = state.effective_scroll_bottom(inner_height);
        assert(state@.bottom(frame) == bottom);
        repair_side_borders_in_region(
            &mut out,
            outer_width,
            outer_height,
            state.tracker.scroll_top,
            bottom,
            border_info,
        );
        out
    } else if final_byte == codes::SU {
        let mut out: Vec<u8> = pass_through(params, final_byte);
        let bottom: u16 = state.effective_scroll_bottom(inner_height);
        assert(state@.bottom(frame) == bottom);
        repair_bottom_side_borders(
            &mut out,
            outer_width,
            outer_height,
            state.tracker.scroll_top,
            bottom,
            first,
            border_info,
        );
        out
    } else if final_byte == codes::SD && !is_private {
        let mut out: Vec<u8> = pass_through(params, final_byte);
        let bottom: u16 = state.effective_scroll_bottom(inner_height);
        assert(state@.bottom(frame) == bottom);
        repair_top_side_borders(
            &mut out,
            outer_width,
            outer_height,
            state.tracker.scroll_top,
            bottom,
            first,
            border_info,
        );
        out
    } else if final_byte == codes::ICH || final_byte == codes::DCH || final_byte == codes::ECH {
        let mut out: Vec<u8> = pass_through(params, final_byte);
        repair_right_border_current_row(&mut out, outer_width, outer_height, border_info);
        out
    } else {
        pass_through(params, final_byte)
    }
}

/// Tells whether a number is among the given ones.
fn is_among(nums: &Vec<u16>, n: u16) -> (r: bool)
    ensures
        r == nums@.contains(n),
{
    let mut i: usize = 0;
    while i < nums.len()
        invariant
            i <= nums.len(),
            forall|j: int| 0 <= j < i ==> nums@[j] != n,
        decreases nums.len() - i,
    {
        if nums[i] == n {
            return true;
        }
        i += 1;
    }
    false
}

/// Tells whether a control sequence sets, or resets, a private mode.
fn switches(params: &[u8], final_byte: u8, switch: u8, mode: u16) -> (r: bool)
    requires
        text::is_ascii(params@),
    ensures
        r == vt_model::switches(params@, final_byte, switch, mode),
{
    if final_byte == switch && params.len() > 0 && params[0] == codes::PRIVATE {
        let body: &[u8] = slice_subrange(params, 1, params.len());
        assert(body@ =~= params@.drop_first());
        assert(text::is_ascii(body@));
        let nums: Vec<u16> = parse_params(body);
        is_among(&nums, mode)
    } else {
        false
    }
}

/// Tells whether a control sequence restores the saved cursor.
fn restores_cursor(params: &[u8], final_byte: u8) -> (r: bool)
    requires
        text::is_ascii(params@),
    ensures
        r == vt_model::restores_cursor(params@, final_byte),
{
    final_byte == codes::SCORC && params.len() == 0 || switches(
        params,
        final_byte,
        codes::RM,
        1048,
    )
}

/// Tells whether a control sequence saves the cursor.
fn saves_cursor(params: &[u8], final_byte: u8) -> (r: bool)
    requires
        text::is_ascii(params@),
    ensures
        r == vt_model::saves_cursor(params@, final_byte),
{
    final_byte == codes::SCOSC && params.len() == 0 || switches(
        params,
        final_byte,
        codes::SM,
        1048,
    )
}

/// Tells whether a control sequence is a soft reset.
fn is_soft_reset(params: &[u8], final_byte: u8) -> (r: bool)
    ensures
        r == vt_model::is_soft_reset(params@, final_byte),
{
    let soft: bool = params.len() == 1 && params[0] == codes::SOFT;
    assert(soft ==> params@ =~= seq![codes::SOFT]);
    final_byte == codes::DECSTR && soft
}

/// The first argument of a control sequence, 0 where it has none.
fn first_argument(params: &[u8]) -> (n: u16)
    requires
        text::is_ascii(params@),
    ensures
        n == vt_model::argument(params@, 0, 0),
{
    let body: &[u8] = if params.len() > 0 && params[0] == codes::PRIVATE {
        slice_subrange(params, 1, params.len())
    } else {
        params
    };
    assert(text::is_ascii(body@));
    let nums: Vec<u16> = parse_params(body);
    assert(nums@ == vt_model::arguments(params@));
    argument_or(&nums, 0, 0)
}

/// Tells whether the cursor is saved to draw what a control sequence turns
/// into.
fn draws(params: &[u8], final_byte: u8) -> (r: bool)
    requires
        text::is_ascii(params@),
    ensures
        r == vt_model::draws(params@, final_byte),
{
    if params.len() > 0 && params[0] == codes::MOUSE {
        false
    } else if final_byte == codes::ED {
        first_argument(params) <= 1
    } else if final_byte == codes::EL {
        first_argument(params) <= 2
    } else if final_byte == codes::SD {
        params.len() == 0 || params[0] != codes::PRIVATE
    } else {
        final_byte == codes::IL || final_byte == codes::DL || final_byte == codes::SU || final_byte
            == codes::ICH || final_byte == codes::DCH || final_byte == codes::ECH
    }
}

/// Tells whether the dimming has to be renewed after a control sequence.
fn undoes_dimming(state: &FilterState, params: &[u8], final_byte: u8) -> (r: bool)
    requires
        text::is_ascii(params@),
    ensures
        r == vt_model::undoes_dimming(state@, params@, final_byte),
{
    match state.tracker.dimming {
        Dimming::Off => false,
        Dimming::Lifted => state.tracker.cursor_saved_faint && restores_cursor(params, final_byte)
            || state.tracker.screen_saved_faint && switches(params, final_byte, codes::RM, 1049),
        Dimming::Faint => final_byte == codes::SGR && (params.len() == 0 || (params[0] >= 0x30
            && params[0] <= codes::SEPARATOR)) || is_soft_reset(params, final_byte)
            || restores_cursor(params, final_byte) || switches(params, final_byte, codes::RM, 1049),
    }
}

/// Takes note of what a control sequence saves.
fn remember_csi(state: &mut FilterState, params: &[u8], final_byte: u8)
    requires
        text::is_ascii(params@),
    ensures
        final(state)@ == vt_model::csi_remembered(old(state)@, params@, final_byte),
{
    if saves_cursor(params, final_byte) || draws(params, final_byte) {
        state.note_saved_cursor();
    }
    if switches(params, final_byte, codes::SM, 1049) {
        state.note_saved_screen();
    }
    if is_soft_reset(params, final_byte) {
        state.tracker.cursor_saved_faint = false;
    }
}

/// Handles one control sequence: updates the tracked state, and returns what
/// reaches the terminal.
fn transform_csi(
    params: &[u8],
    final_byte: u8,
    outer_width: u16,
    outer_height: u16,
    border_info: &BorderInfo,
    state: &mut FilterState,
) -> (out: Vec<u8>)
    requires
        text::is_ascii(params@),
        final_byte < 0x80,
    ensures
        out@ == vt_model::csi_output(
            frame_of(outer_width, outer_height, border_info),
            old(state)@,
            params@,
            final_byte,
        ),
        final(state)@ == vt_model::csi_state(
            frame_of(outer_width, outer_height, border_info),
            old(state)@,
            params@,
            final_byte,
        ),
{
    let dimming: Dimming = state.tracker.dimming;
    let renews: bool = undoes_dimming(state, params, final_byte);
    let mut out: Vec<u8> = rewrite_csi(
        params,
        final_byte,
        outer_width,
        outer_height,
        border_info,
        state,
    );
    remember_csi(state, params, final_byte);
    if renews {
        text::put(&mut out, dimming.rendition_text());
    }
    out
}

/// Handles a byte between sequences.
fn step_ground(
    byte: u8,
    outer_width: u16,
    outer_height: u16,
    border_info: &BorderInfo,
    state: &mut FilterState,
    output: &mut Vec<u8>,
)
    requires
        old(state)@.parser == Parser::Ground,
    ensures
        final(state)@ == vt_model::next(
            frame_of(outer_width, outer_height, border_info),
            old(state)@,
            byte,
        ),
        final(output)@ == old(output)@ + vt_model::emitted(
            frame_of(outer_width, outer_height, border_info),
            old(state)@,
            byte,
        ),
{
    let ghost frame = frame_of(outer_width, outer_height, border_info);
    proof {
        reveal(vt_model::next);
        reveal(vt_model::emitted);
    }
    let ghost before = output@;
    if byte == codes::ESC {
        state.tracker.parser = ParserState::Escape;
    } else if byte == codes::CSI {
        let params: Vec<u8> = Vec::new();
        assert(params@ =~= Seq::empty());
        state.tracker.parser = ParserState::Csi { params };
    } else if byte == codes::CR {
        // Column 1 is the left border: go to the first inner column instead.
        text::put(output, "\x1b[2G");
    } else if byte == codes::LF {
        output.push(byte);
        let bottom: u16 = state.effective_scroll_bottom(outer_height.saturating_sub(2));
        assert(state@.bottom(frame) == bottom);
        if state.tracker.cursor_row >= bottom {
            let row: u16 = bottom.saturating_add(1);
            put_repair(output, outer_width, outer_height, row, row, border_info);
            state.note_saved_cursor();
        } else {
            state.tracker.cursor_row += 1;
        }
    } else {
        output.push(byte);
    }
    assert(output@ =~= before + vt_model::emitted(frame, old(state)@, byte));
}

/// Handles the byte after ESC.
fn step_escape(
    byte: u8,
    outer_width: u16,
    outer_height: u16,
    border_info: &BorderInfo,
    state: &mut FilterState,
    output: &mut Vec<u8>,
)
    requires
        old(state)@.parser == Parser::Escape,
    ensures
        final(state)@ == vt_model::next(
            frame_of(outer_width, outer_height, border_info),
            old(state)@,
            byte,
        ),
        final(output)@ == old(output)@ + vt_model::emitted(
            frame_of(outer_width, outer_height, border_info),
            old(state)@,
            byte,
        ),
{
    let ghost frame = frame_of(outer_width, outer_height, border_info);
    proof {
        reveal(vt_model::next);
        reveal(vt_model::emitted);
    }
    let ghost before = output@;
    if byte == codes::OPEN_CSI {
        let params: Vec<u8> = Vec::new();
        assert(params@ =~= Seq::empty());
        state.tracker.parser = ParserState::Csi { params };
    } else {
        output.push(codes::ESC);
        output.push(byte);
        if byte == codes::OPEN_OSC {
            state.tracker.parser = ParserState::Osc;
        } else if byte == codes::OPEN_DCS {
            state.tracker.parser = ParserState::Dcs;
        } else {
            state.tracker.parser = ParserState::Ground;
            if byte == codes::RI {
                if state.tracker.cursor_row <= state.tracker.scroll_top {
                    let row: u16 = state.tracker.scroll_top.saturating_add(1);
                    put_repair(output, outer_width, outer_height, row, row, border_info);
                    state.note_saved_cursor();
                } else {
                    state.tracker.cursor_row -= 1;
                }
            } else {
                let dimming: Dimming = state.tracker.dimming;
                if byte == codes::DECRC && (dimming == Dimming::Faint || dimming == Dimming::Lifted
                    && state.tracker.cursor_saved_faint) || byte == codes::RIS && dimming
                    == Dimming::Faint {
                    text::put(output, dimming.rendition_text());
                }
                if byte == codes::DECSC {
                    state.note_saved_cursor();
                } else if byte == codes::RIS {
                    state.note_reset();
                }
            }
        }
    }
    assert(output@ =~= before + vt_model::emitted(frame, old(state)@, byte));
}

/// Handles one byte of the program's output.
#[verifier::rlimit(40)]
fn step(
    byte: u8,
    outer_width: u16,
    outer_height: u16,
    border_info: &BorderInfo,
    state: &mut FilterState,
    output: &mut Vec<u8>,
)
    ensures
        final(state)@ == vt_model::next(
            frame_of(outer_width, outer_height, border_info),
            old(state)@,
            byte,
        ),
        final(output)@ == old(output)@ + vt_model::emitted(
            frame_of(outer_width, outer_height, border_info),
            old(state)@,
            byte,
        ),
{
    let ghost frame = frame_of(outer_width, outer_height, border_info);
    proof {
        reveal(vt_model::next);
        reveal(vt_model::emitted);
    }
    let ghost before = output@;
    let mut parser: ParserState = ParserState::Ground;
    std::mem::swap(&mut parser, &mut state.tracker.parser);
    proof {
        use_type_invariant(&parser);
    }
    match parser {
        ParserState::Ground => {
            step_ground(byte, outer_width, outer_height, border_info, state, output);
        },
        ParserState::Escape => {
            state.tracker.parser = ParserState::Escape;
            step_escape(byte, outer_width, outer_height, border_info, state, output);
        },
        ParserState::Csi { params } => {
            let mut params = params;
            if byte >= 0x20 && byte <= 0x3f {
                params.push(byte);
                assert(vt_model::all_params(params@));
                state.tracker.parser = ParserState::Csi { params };
            } else if byte >= 0x40 && byte <= 0x7e {
                assert forall|i: int| 0 <= i < params@.len() implies #[trigger] params@[i]
                    < 0x80 by {
                    assert(vt_model::is_param_byte(params@[i]));
                }
                let transformed: Vec<u8> = transform_csi(
                    params.as_slice(),
                    byte,
                    outer_width,
                    outer_height,
                    border_info,
                    state,
                );
                text::put_slice(output, transformed.as_slice());
            } else {
                // No control sequence after all: let through what was held.
                let held: Vec<u8> = pass_through(params.as_slice(), byte);
                text::put_slice(output, held.as_slice());
            }
        },
        ParserState::Osc => {
            if byte == codes::ESC {
                state.tracker.parser = ParserState::OscEscape;
            } else {
                output.push(byte);
                if byte != codes::BEL {
                    state.tracker.parser = ParserState::Osc;
                }
            }
        },
        ParserState::OscEscape => {
            output.push(codes::ESC);
            output.push(byte);
            if byte != codes::ST {
                state.tracker.parser = ParserState::Osc;
            }
        },
        ParserState::Dcs => {
            if byte == codes::ESC {
                state.tracker.parser = ParserState::DcsEscape;
            } else {
                output.push(byte);
                state.tracker.parser = ParserState::Dcs;
            }
        },
        ParserState::DcsEscape => {
            output.push(codes::ESC);
            output.push(byte);
            if byte != codes::ST {
                state.tracker.parser = ParserState::Dcs;
            }
        },
    }
    assert(output@ =~= before + vt_model::emitted(frame, old(state)@, byte));
}

/// Filters a stretch of the program's output and returns the bytes for the
/// outer terminal. `state` carries what is pending to the next call.
pub fn filter_child_output(
    input: &[u8],
    outer_width: u16,
    outer_height: u16,
    border_info: &BorderInfo,
    state: &mut FilterState,
) -> (output: Vec<u8>)
    ensures
        output@ == vt_model::run_output(
            frame_of(outer_width, outer_height, border_info),
            old(state)@,
            input@,
        ),
        final(state)@ == vt_model::run_state(
            frame_of(outer_width, outer_height, border_info),
            old(state)@,
            input@,
        ),
{
    let ghost frame = frame_of(outer_width, outer_height, border_info);
    let ghost start = state@;
    let mut output: Vec<u8> = Vec::new();
    let mut i: usize = 0;
    assert(input@.take(0) =~= Seq::empty());
    while i < input.len()
        invariant
            i <= input.len(),
            frame == frame_of(outer_width, outer_height, border_info),
            output@ == vt_model::run_output(frame, start, input@.take(i as int)),
            state@ == vt_model::run_state(frame, start, input@.take(i as int)),
        decreases input.len() - i,
    {
        assert(input@.take(i + 1).drop_last() =~= input@.take(i as int));
        step(input[i], outer_width, outer_height, border_info, state, &mut output);
        i += 1;
    }
    assert(input@.take(i as int) =~= input@);
    output
}

} // verus!
