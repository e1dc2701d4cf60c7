//! Moves mouse events of the outer terminal into the coordinates of the
//! wrapped program, one row and one column less.

use crate::codes;
use crate::paste::Paste;
use crate::text;
use vstd::prelude::*;
use vstd::slice::slice_subrange;
use vstd::utf8::*;

verus! {

/// What becomes of a piece of terminal input that should be a mouse event.
pub enum MouseTransform {
    /// The event, in inner coordinates.
    Transformed(Vec<u8>),
    /// The event hit the border and is to be dropped.
    OnBorder,
    /// Not an event after all; to be forwarded as it is.
    ParseError,
}

/// `MouseTransform` with its bytes as a sequence.
#[verifier::ext_equal]
pub enum Outcome {
    Transformed(Seq<u8>),
    OnBorder,
    ParseError,
}

impl View for MouseTransform {
    type V = Outcome;

    open spec fn view(&self) -> Outcome {
        match *self {
            MouseTransform::Transformed(bytes) => Outcome::Transformed(bytes@),
            MouseTransform::OnBorder => Outcome::OnBorder,
            MouseTransform::ParseError => Outcome::ParseError,
        }
    }
}

/// The cell lies inside the border.
pub open spec fn is_inside(column: u16, row: u16, outer_width: u16, outer_height: u16) -> bool {
    2 <= column < outer_width && 2 <= row < outer_height
}

/// The byte ends an extended report: a button was pressed or released.
pub open spec fn ends_report(b: u8) -> bool {
    b == codes::DL || b == codes::SGR
}

/// How many bytes come before the one that ends the report.
pub open spec fn report_len(s: Seq<u8>) -> nat
    decreases s.len(),
{
    if s.len() == 0 || ends_report(s[0]) {
        0
    } else {
        1 + report_len(s.drop_first())
    }
}

/// An extended report: button, column and row in decimal, and its last byte.
pub open spec fn extended_report(button: Seq<u8>, column: u16, row: u16, end: u8) -> Seq<u8> {
    (text::bytes("\x1b[<") + button + text::bytes(";") + text::digits(column as nat) + text::bytes(
        ";",
    ) + text::digits(row as nat)).push(end)
}

/// What becomes of an extended report; `rest` is what follows `ESC [ <`.
pub open spec fn extended_outcome(
    rest: Seq<u8>,
    outer_width: u16,
    outer_height: u16,
) -> Outcome {
    let n = report_len(rest) as int;
    let parts = text::fields(rest.take(n), codes::SEPARATOR);
    if n == rest.len() || parts.len() != 3 {
        Outcome::ParseError
    } else {
        match (text::number(parts[1]), text::number(parts[2])) {
            (Some(column), Some(row)) => {
                if is_inside(column, row, outer_width, outer_height) {
                    Outcome::Transformed(
                        extended_report(parts[0], (column - 1) as u16, (row - 1) as u16, rest[n]),
                    )
                } else {
                    Outcome::OnBorder
                }
            },
            _ => Outcome::ParseError,
        }
    }
}

/// The coordinate that a byte of a classic report stands for.
pub open spec fn classic_coordinate(b: u8) -> u16 {
    b.wrapping_sub(32) as u16
}

/// What becomes of a classic report with the given button, column and row
/// bytes. The inner coordinates have to fit in a byte again.
pub open spec fn classic_outcome(
    button: u8,
    x: u8,
    y: u8,
    outer_width: u16,
    outer_height: u16,
) -> Outcome {
    let column = classic_coordinate(x);
    let row = classic_coordinate(y);
    if is_inside(column, row, outer_width, outer_height) && column + 31 <= 255 && row + 31 <= 255 {
        Outcome::Transformed(
            seq![
                codes::ESC,
                codes::OPEN_CSI,
                codes::DL,
                button,
                (column + 31) as u8,
                (row + 31) as u8,
            ],
        )
    } else {
        Outcome::OnBorder
    }
}

/// The input opens an extended report.
pub open spec fn opens_extended(input: Seq<u8>) -> bool {
    input.len() >= 3 && input[0] == codes::ESC && input[1] == codes::OPEN_CSI && input[2]
        == codes::MOUSE
}

/// The input opens with a whole classic report.
pub open spec fn opens_classic(input: Seq<u8>) -> bool {
    input.len() >= 6 && input[0] == codes::ESC && input[1] == codes::OPEN_CSI && input[2]
        == codes::DL
}

/// What becomes of the mouse event that a piece of terminal input opens with.
/// An extended report is text; a classic one may hold any byte.
pub open spec fn outcome(input: Seq<u8>, outer_width: u16, outer_height: u16) -> Outcome {
    if opens_classic(input) {
        classic_outcome(input[3], input[4], input[5], outer_width, outer_height)
    } else if opens_extended(input) && valid_utf8(input) {
        extended_outcome(input.skip(3), outer_width, outer_height)
    } else {
        Outcome::ParseError
    }
}

/// How many bytes the event that the input opens with takes, 0 where it opens
/// with none or with an unfinished one.
pub open spec fn event_len(input: Seq<u8>) -> nat {
    if opens_classic(input) {
        6
    } else if opens_extended(input) && report_len(input.skip(3)) + 3 < input.len() {
        report_len(input.skip(3)) + 4
    } else {
        0
    }
}

/// What becomes of the event that the input opens with, taken by itself.
pub open spec fn event_outcome(input: Seq<u8>, outer_width: u16, outer_height: u16) -> Outcome {
    if event_len(input) == 0 {
        Outcome::ParseError
    } else {
        outcome(input.take(event_len(input) as int), outer_width, outer_height)
    }
}

/// The input opens with a mouse event. There are none in pasted text, whatever
/// it spells.
pub open spec fn takes_event(
    paste: Paste,
    input: Seq<u8>,
    outer_width: u16,
    outer_height: u16,
) -> bool {
    !paste.inside && event_outcome(input, outer_width, outer_height) != Outcome::ParseError
}

/// Terminal input with each of its mouse events moved into inner coordinates,
/// those on the border left out, and all other bytes as they are. `paste` says
/// where in a paste the input starts.
pub open spec fn moved(
    paste: Paste,
    input: Seq<u8>,
    outer_width: u16,
    outer_height: u16,
) -> Seq<u8>
    decreases input.len(),
{
    if input.len() == 0 {
        Seq::empty()
    } else if takes_event(paste, input, outer_width, outer_height) {
        let rest = moved(
            Paste::outside(),
            input.skip(event_len(input) as int),
            outer_width,
            outer_height,
        );
        match event_outcome(input, outer_width, outer_height) {
            Outcome::Transformed(bytes) => bytes + rest,
            _ => rest,
        }
    } else {
        seq![input[0]] + moved(
            paste.after(input[0]),
            input.skip(1),
            outer_width,
            outer_height,
        )
    }
}

/// Where in a paste the input ends.
pub open spec fn paste_after(
    paste: Paste,
    input: Seq<u8>,
    outer_width: u16,
    outer_height: u16,
) -> Paste
    decreases input.len(),
{
    if input.len() == 0 {
        paste
    } else if takes_event(paste, input, outer_width, outer_height) {
        paste_after(
            Paste::outside(),
            input.skip(event_len(input) as int),
            outer_width,
            outer_height,
        )
    } else {
        paste_after(paste.after(input[0]), input.skip(1), outer_width, outer_height)
    }
}

/// What is forwarded to the program for what was read from the terminal;
/// nothing where all of it were events on the border.
pub open spec fn forwarded(
    paste: Paste,
    input: Seq<u8>,
    outer_width: u16,
    outer_height: u16,
) -> Option<Seq<u8>> {
    let bytes = moved(paste, input, outer_width, outer_height);
    if input.len() > 0 && bytes.len() == 0 {
        None
    } else {
        Some(bytes)
    }
}

/// `std::str::from_utf8` accepts exactly the valid UTF-8.
#[verifier::external_body]
fn is_utf8(input: &[u8]) -> (valid: bool)
    ensures
        valid == valid_utf8(input@),
{
    std::str::from_utf8(input).is_ok()
}

/// Tells whether the input looks like a mouse event.
pub fn is_mouse_sequence(input: &[u8]) -> (r: bool)
    ensures
        r == (opens_extended(input@) || opens_classic(input@)),
{
    if input.len() >= 3 && input[0] == codes::ESC && input[1] == codes::OPEN_CSI && input[2]
        == codes::MOUSE {
        return true;
    }
    input.len() >= 6 && input[0] == codes::ESC && input[1] == codes::OPEN_CSI && input[2]
        == codes::DL
}

/// Finds the byte that ends an extended report.
fn find_end(s: &[u8]) -> (n: usize)
    ensures
        n == report_len(s@),
        n <= s.len(),
{
    let mut n: usize = 0;
    assert(s@.skip(0) =~= s@);
    while n < s.len()
        invariant
            n <= s.len(),
            report_len(s@) == n + report_len(s@.skip(n as int)),
        decreases s.len() - n,
    {
        if s[n] == codes::DL || s[n] == codes::SGR {
            return n;
        }
        assert(s@.skip(n as int).drop_first() =~= s@.skip(n + 1));
        n += 1;
    }
    n
}

/// Transforms what follows `ESC [ <`.
fn transform_extended(rest: &[u8], outer_width: u16, outer_height: u16) -> (r: MouseTransform)
    ensures
        r@ == extended_outcome(rest@, outer_width, outer_height),
{
    let n: usize = find_end(rest);
    if n == rest.len() {
        return MouseTransform::ParseError;
    }
    let end: u8 = rest[n];
    let params: &[u8] = slice_subrange(rest, 0, n);
    assert(params@ =~= rest@.take(n as int));
    let fields: Vec<Vec<u8>> = text::split_fields(params, codes::SEPARATOR);
    let ghost parts = text::fields(params@, codes::SEPARATOR);
    assert(parts.len() == fields@.len());
    if fields.len() != 3 {
        return MouseTransform::ParseError;
    }
    assert(parts[0] == fields@[0]@ && parts[1] == fields@[1]@ && parts[2] == fields@[2]@);
    let column: u16 = match text::parse_number(fields[1].as_slice()) {
        Some(n) => n,
        None => return MouseTransform::ParseError,
    };
    let row: u16 = match text::parse_number(fields[2].as_slice()) {
        Some(n) => n,
        None => return MouseTransform::ParseError,
    };
    if column < 2 || column >= outer_width || row < 2 || row >= outer_height {
        return MouseTransform::OnBorder;
    }
    let mut out: Vec<u8> = text::bytes_of("\x1b[<");
    text::put_slice(&mut out, fields[0].as_slice());
    text::put(&mut out, ";");
    text::put_number(&mut out, column - 1);
    text::put(&mut out, ";");
    text::put_number(&mut out, row - 1);
    out.push(end);
    MouseTransform::Transformed(out)
}

/// Transforms the mouse event of the outer terminal that the input opens with
/// into inner coordinates.
pub fn transform_mouse_input(input: &[u8], outer_width: u16, outer_height: u16) -> (r:
    MouseTransform)
    ensures
        r@ == outcome(input@, outer_width, outer_height),
{
    if input.len() >= 6 && input[0] == codes::ESC && input[1] == codes::OPEN_CSI && input[2]
        == codes::DL {
        let button: u8 = input[3];
        let column: u16 = input[4].wrapping_sub(32) as u16;
        let row: u16 = input[5].wrapping_sub(32) as u16;
        if column < 2 || column >= outer_width || row < 2 || row >= outer_height {
            return MouseTransform::OnBorder;
        }
        let inner_column: u16 = column - 1 + 32;
        let inner_row: u16 = row - 1 + 32;
        if inner_column > 255 || inner_row > 255 {
            return MouseTransform::OnBorder;
        }
        let mut out: Vec<u8> = Vec::new();
        out.push(codes::ESC);
        out.push(codes::OPEN_CSI);
        out.push(codes::DL);
        out.push(button);
        out.push(inner_column as u8);
        out.push(inner_row as u8);
        assert(out@ =~= seq![
            codes::ESC,
            codes::OPEN_CSI,
            codes::DL,
            button,
            inner_column as u8,
            inner_row as u8,
        ]);
        return MouseTransform::Transformed(out);
    }
    if input.len() >= 3 && input[0] == codes::ESC && input[1] == codes::OPEN_CSI && input[2]
        == codes::MOUSE && is_utf8(input) {
        return transform_extended(
            slice_subrange(input, 3, input.len()),
            outer_width,
            outer_height,
        );
    }
    MouseTransform::ParseError
}

/// How many bytes the event that the input opens with takes.
fn event_size(input: &[u8]) -> (n: usize)
    ensures
        n == event_len(input@),
        n <= input.len(),
{
    if !is_mouse_sequence(input) {
        return 0;
    }
    if input[2] == codes::DL {
        return 6;
    }
    let rest: &[u8] = slice_subrange(input, 3, input.len());
    assert(rest@ =~= input@.skip(3));
    let n: usize = find_end(rest);
    if n < rest.len() {
        n + 4
    } else {
        0
    }
}

/// The bytes to forward to the program for what was read from the terminal;
/// none where all of it were mouse events on the border. `paste` carries to the
/// next call whether the input stands in pasted text.
pub fn forward_input(
    input: &[u8],
    outer_width: u16,
    outer_height: u16,
    paste: &mut Paste,
) -> (r: Option<Vec<u8>>)
    ensures
        match (r, forwarded(*old(paste), input@, outer_width, outer_height)) {
            (Some(bytes), Some(expected)) => bytes@ == expected,
            (None, None) => true,
            _ => false,
        },
        *final(paste) == paste_after(*old(paste), input@, outer_width, outer_height),
{
    let ghost start = *paste;
    let mut out: Vec<u8> = Vec::new();
    let mut i: usize = 0;
    assert(input@.skip(0) =~= input@);
    assert(out@ + moved(start, input@, outer_width, outer_height) =~= moved(
        start,
        input@,
        outer_width,
        outer_height,
    ));
    while i < input.len()
        invariant
            i <= input.len(),
            out@ + moved(*paste, input@.skip(i as int), outer_width, outer_height) == moved(
                start,
                input@,
                outer_width,
                outer_height,
            ),
            paste_after(*paste, input@.skip(i as int), outer_width, outer_height) == paste_after(
                start,
                input@,
                outer_width,
                outer_height,
            ),
        decreases input.len() - i,
    {
        let ghost before = out@;
        let rest: &[u8] = slice_subrange(input, i, input.len());
        assert(rest@ =~= input@.skip(i as int));
        let n: usize = if paste.inside {
            0
        } else {
            event_size(rest)
        };
        let event: &[u8] = slice_subrange(rest, 0, n);
        assert(event@ =~= rest@.take(n as int));
        assert(input@.skip(i + n) =~= rest@.skip(n as int));
        assert(input@.skip(i + 1) =~= rest@.skip(1));
        match transform_mouse_input(event, outer_width, outer_height) {
            MouseTransform::Transformed(bytes) => {
                text::put_slice(&mut out, bytes.as_slice());
                i += n;
                *paste = Paste::new();
                let ghost tail = moved(*paste, rest@.skip(n as int), outer_width, outer_height);
                assert(out@ + tail =~= before + (bytes@ + tail));
            },
            MouseTransform::OnBorder => {
                i += n;
                *paste = Paste::new();
            },
            MouseTransform::ParseError => {
                out.push(input[i]);
                paste.advance(input[i]);
                i += 1;
                let ghost tail = moved(*paste, rest@.skip(1), outer_width, outer_height);
                assert(out@ + tail =~= before + (seq![rest@[0]] + tail));
            },
        }
    }
    assert(input@.skip(i as int) =~= Seq::empty());
    assert(out@ =~= moved(start, input@, outer_width, outer_height));
    if input.len() > 0 && out.len() == 0 {
        None
    } else {
        Some(out)
    }
}

/// The bytes may stand for the button of an extended report: none of them
/// separates fields or ends the report.
pub open spec fn is_button(button: Seq<u8>) -> bool {
    forall|i: int|
        0 <= i < button.len() ==> #[trigger] button[i] != codes::SEPARATOR && !ends_report(
            button[i],
        )
}

pub proof fn lemma_report_len(body: Seq<u8>, tail: Seq<u8>)
    requires
        forall|i: int| 0 <= i < body.len() ==> !ends_report(#[trigger] body[i]),
        tail.len() > 0,
        ends_report(tail[0]),
    ensures
        report_len(body + tail) == body.len(),
    decreases body.len(),
{
    if body.len() > 0 {
        lemma_report_len(body.drop_first(), tail);
        assert((body + tail).drop_first() =~= body.drop_first() + tail);
        assert((body + tail)[0] == body[0]);
        assert(!ends_report(body[0]));
    } else {
        assert(body + tail =~= tail);
    }
}

/// Button, column and row of a report with their separators.
pub open spec fn report_body(button: Seq<u8>, column: u16, row: u16) -> Seq<u8> {
    button.push(codes::SEPARATOR) + (text::digits(column as nat).push(codes::SEPARATOR)
        + text::digits(row as nat))
}

/// After the button a report's body holds digits and separators only.
pub proof fn lemma_report_bytes(button: Seq<u8>, column: u16, row: u16)
    ensures
        forall|i: int|
            0 <= i < report_body(button, column, row).len() ==> {
                let b = #[trigger] report_body(button, column, row)[i];
                if i < button.len() {
                    b == button[i]
                } else {
                    text::is_digit(b) || b == codes::SEPARATOR
                }
            },
{
    let c = text::digits(column as nat);
    let r = text::digits(row as nat);
    let tail = c.push(codes::SEPARATOR) + r;
    let body = report_body(button, column, row);
    text::lemma_digits(column as nat);
    text::lemma_digits(row as nat);
    assert forall|i: int| button.len() <= i < body.len() implies text::is_digit(#[trigger] body[i])
        || body[i] == codes::SEPARATOR by {
        if i > button.len() {
            let j = i - button.len() - 1;
            assert(body[i] == tail[j]);
            if j < c.len() {
                assert(text::is_digit(c[j]));
            } else if j > c.len() {
                assert(text::is_digit(r[j - c.len() - 1]));
            }
        }
    }
}

/// An extended report is its opening, its body and its last byte.
pub proof fn lemma_report_shape(button: Seq<u8>, column: u16, row: u16, end: u8)
    ensures
        extended_report(button, column, row, end) == seq![
            codes::ESC,
            codes::OPEN_CSI,
            codes::MOUSE,
        ] + report_body(button, column, row) + seq![end],
{
    reveal_strlit("\x1b[<");
    reveal_strlit(";");
    is_ascii_chars_encode_utf8("\x1b[<"@);
    is_ascii_chars_encode_utf8(";"@);
    assert(text::bytes("\x1b[<") =~= seq![codes::ESC, codes::OPEN_CSI, codes::MOUSE]);
    assert(text::bytes(";") =~= seq![codes::SEPARATOR]);
    assert(extended_report(button, column, row, end) =~= seq![
        codes::ESC,
        codes::OPEN_CSI,
        codes::MOUSE,
    ] + report_body(button, column, row) + seq![end]);
}

/// The fields of a report's body are its button, column and row.
pub proof fn lemma_report_fields(button: Seq<u8>, column: u16, row: u16)
    requires
        text::is_one_field(button, codes::SEPARATOR),
    ensures
        text::fields(report_body(button, column, row), codes::SEPARATOR) == seq![
            button,
            text::digits(column as nat),
            text::digits(row as nat),
        ],
{
    let c = text::digits(column as nat);
    let r = text::digits(row as nat);
    text::lemma_digits(column as nat);
    text::lemma_digits(row as nat);
    assert forall|i: int| 0 <= i < c.len() implies #[trigger] c[i] != codes::SEPARATOR by {
        assert(text::is_digit(c[i]));
    }
    assert forall|i: int| 0 <= i < r.len() implies #[trigger] r[i] != codes::SEPARATOR by {
        assert(text::is_digit(r[i]));
    }
    text::lemma_one_field(button, codes::SEPARATOR);
    text::lemma_one_field(c, codes::SEPARATOR);
    text::lemma_one_field(r, codes::SEPARATOR);
    text::law_fields_of_joined(c, r, codes::SEPARATOR);
    text::law_fields_of_joined(
        button,
        c.push(codes::SEPARATOR) + r,
        codes::SEPARATOR,
    );
    assert(text::fields(report_body(button, column, row), codes::SEPARATOR) =~= seq![button, c, r]);
}

/// A report of valid text is valid text.
pub proof fn lemma_report_is_utf8(button: Seq<u8>, column: u16, row: u16, end: u8)
    requires
        valid_utf8(button),
        ends_report(end),
    ensures
        valid_utf8(extended_report(button, column, row, end)),
{
    let c = text::digits(column as nat);
    let r = text::digits(row as nat);
    text::lemma_digits(column as nat);
    text::lemma_digits(row as nat);
    assert forall|i: int| 0 <= i < c.len() implies #[trigger] c[i] < 0x80 by {
        assert(text::is_digit(c[i]));
    }
    assert forall|i: int| 0 <= i < r.len() implies #[trigger] r[i] < 0x80 by {
        assert(text::is_digit(r[i]));
    }
    text::lemma_ascii_is_utf8(c);
    text::lemma_ascii_is_utf8(r);
    text::lemma_ascii_is_utf8(seq![end]);
    encode_utf8_valid_utf8("\x1b[<"@);
    encode_utf8_valid_utf8(";"@);
    let s1 = text::bytes("\x1b[<") + button;
    let s2 = s1 + text::bytes(";");
    let s3 = s2 + c;
    let s4 = s3 + text::bytes(";");
    let s5 = s4 + r;
    valid_utf8_concat(text::bytes("\x1b[<"), button);
    valid_utf8_concat(s1, text::bytes(";"));
    valid_utf8_concat(s2, c);
    valid_utf8_concat(s3, text::bytes(";"));
    valid_utf8_concat(s4, r);
    valid_utf8_concat(s5, seq![end]);
    assert(extended_report(button, column, row, end) =~= s5 + seq![end]);
}

/// An extended event inside the border moves by one column and one row; one on
/// the border or beyond it is dropped.
pub proof fn law_extended_events(
    button: Seq<u8>,
    column: u16,
    row: u16,
    end: u8,
    outer_width: u16,
    outer_height: u16,
)
    requires
        valid_utf8(button),
        is_button(button),
        ends_report(end),
    ensures
        outcome(extended_report(button, column, row, end), outer_width, outer_height) == (
        if is_inside(column, row, outer_width, outer_height) {
            Outcome::Transformed(
                extended_report(button, (column - 1) as u16, (row - 1) as u16, end),
            )
        } else {
            Outcome::OnBorder
        }),
{
    let input = extended_report(button, column, row, end);
    let body = report_body(button, column, row);
    let rest = body + seq![end];
    lemma_report_is_utf8(button, column, row, end);
    lemma_report_shape(button, column, row, end);
    assert(input.skip(3) =~= rest);
    assert(opens_extended(input));
    lemma_report_bytes(button, column, row);
    lemma_report_len(body, seq![end]);
    assert(rest.take(body.len() as int) =~= body);
    lemma_report_fields(button, column, row);
    text::law_numbers_read_back(column);
    text::law_numbers_read_back(row);
}

/// A classic event inside the border moves by one column and one row; one on
/// the border or beyond it is dropped.
pub proof fn law_classic_events(button: u8, x: u8, y: u8, outer_width: u16, outer_height: u16)
    requires
        x >= 32 && y >= 32,
    ensures
        outcome(
            seq![codes::ESC, codes::OPEN_CSI, codes::DL, button, x, y],
            outer_width,
            outer_height,
        ) == (if is_inside((x - 32) as u16, (y - 32) as u16, outer_width, outer_height) {
            Outcome::Transformed(
                seq![
                    codes::ESC,
                    codes::OPEN_CSI,
                    codes::DL,
                    button,
                    (x - 1) as u8,
                    (y - 1) as u8,
                ],
            )
        } else {
            Outcome::OnBorder
        }),
{
}

/// An event on its own is taken whole.
proof fn lemma_whole_event(event: Seq<u8>, rest: Seq<u8>)
    requires
        event_len(event) == event.len(),
        event.len() > 0,
    ensures
        event_len(event + rest) == event.len(),
        (event + rest).take(event.len() as int) == event,
        (event + rest).skip(event.len() as int) == rest,
{
    let input = event + rest;
    assert(input.take(event.len() as int) =~= event);
    assert(input.skip(event.len() as int) =~= rest);
    assert(input[0] == event[0] && input[1] == event[1] && input[2] == event[2]);
    if !opens_classic(event) {
        let body = event.skip(3);
        let n = report_len(body);
        assert(input.skip(3) =~= body + rest);
        lemma_report_ends(body);
        assert(body.take(n as int) + (body.skip(n as int) + rest) =~= body + rest);
        lemma_report_len(body.take(n as int), body.skip(n as int) + rest);
    }
}

/// Before its end a report holds no byte that ends it.
proof fn lemma_report_ends(s: Seq<u8>)
    ensures
        report_len(s) <= s.len(),
        forall|i: int|
            0 <= i < report_len(s) ==> !ends_report(#[trigger] s.take(report_len(s) as int)[i]),
        report_len(s) < s.len() ==> ends_report(s[report_len(s) as int]),
    decreases s.len(),
{
    if s.len() > 0 && !ends_report(s[0]) {
        let tail = s.drop_first();
        lemma_report_ends(tail);
        let n = report_len(s) as int;
        assert forall|i: int| 0 <= i < n implies !ends_report(#[trigger] s.take(n)[i]) by {
            if i > 0 {
                assert(!ends_report(tail.take(n - 1)[i - 1]));
            }
        }
    }
}

/// Wherever an event stands in what was read, pasted text aside, it becomes what
/// it becomes by itself, and what follows it is dealt with in turn.
pub proof fn law_every_event_is_moved(
    paste: Paste,
    event: Seq<u8>,
    rest: Seq<u8>,
    outer_width: u16,
    outer_height: u16,
)
    requires
        !paste.inside,
        event.len() > 0,
        event_len(event) == event.len(),
        outcome(event, outer_width, outer_height) != Outcome::ParseError,
    ensures
        moved(paste, event + rest, outer_width, outer_height) == (match outcome(
            event,
            outer_width,
            outer_height,
        ) {
            Outcome::Transformed(bytes) => bytes + moved(
                Paste::outside(),
                rest,
                outer_width,
                outer_height,
            ),
            _ => moved(Paste::outside(), rest, outer_width, outer_height),
        }),
{
    lemma_whole_event(event, rest);
}

/// A whole extended report is one event, as is a whole classic one.
pub proof fn law_reports_are_events(
    button: Seq<u8>,
    column: u16,
    row: u16,
    end: u8,
    classic_button: u8,
    x: u8,
    y: u8,
)
    requires
        is_button(button),
        ends_report(end),
    ensures
        event_len(extended_report(button, column, row, end)) == extended_report(
            button,
            column,
            row,
            end,
        ).len(),
        event_len(seq![codes::ESC, codes::OPEN_CSI, codes::DL, classic_button, x, y]) == 6,
{
    let input = extended_report(button, column, row, end);
    let body = report_body(button, column, row);
    lemma_report_shape(button, column, row, end);
    assert(input.skip(3) =~= body + seq![end]);
    lemma_report_bytes(button, column, row);
    lemma_report_len(body, seq![end]);
}

/// A read that holds one event and nothing else forwards that event in inner
/// coordinates, or nothing where it hit the border.
pub proof fn law_lone_event(paste: Paste, event: Seq<u8>, outer_width: u16, outer_height: u16)
    requires
        !paste.inside,
        event.len() > 0,
        event_len(event) == event.len(),
    ensures
        outcome(event, outer_width, outer_height) matches Outcome::Transformed(bytes) ==> forwarded(
            paste,
            event,
            outer_width,
            outer_height,
        ) == (if bytes.len() == 0 {
            None
        } else {
            Some(bytes)
        }),
        outcome(event, outer_width, outer_height) == Outcome::OnBorder ==> forwarded(
            paste,
            event,
            outer_width,
            outer_height,
        ) is None,
{
    let none = Seq::<u8>::empty();
    if outcome(event, outer_width, outer_height) != Outcome::ParseError {
        law_every_event_is_moved(paste, event, none, outer_width, outer_height);
        assert(event + none =~= event);
        assert(moved(Paste::outside(), none, outer_width, outer_height) == none);
        if let Outcome::Transformed(bytes) = outcome(event, outer_width, outer_height) {
            assert(bytes + none =~= bytes);
        }
    }
}

/// Bytes that open no event are forwarded as they are, and what follows them is
/// dealt with in turn.
pub proof fn law_other_input_is_forwarded(
    paste: Paste,
    input: Seq<u8>,
    rest: Seq<u8>,
    outer_width: u16,
    outer_height: u16,
)
    requires
        forall|i: int|
            0 <= i < input.len() ==> !takes_event(
                paste.after_all(input.take(i)),
                #[trigger] (input + rest).skip(i),
                outer_width,
                outer_height,
            ),
    ensures
        moved(paste, input + rest, outer_width, outer_height) == input + moved(
            paste.after_all(input),
            rest,
            outer_width,
            outer_height,
        ),
    decreases input.len(),
{
    let whole = input + rest;
    if input.len() == 0 {
        assert(whole =~= rest);
        assert(input + moved(paste, rest, outer_width, outer_height) =~= moved(
            paste,
            rest,
            outer_width,
            outer_height,
        ));
    } else {
        let tail = input.skip(1);
        let next = paste.after(input[0]);
        assert(whole.skip(0) =~= whole);
        assert(input.take(0) =~= Seq::<u8>::empty());
        assert(whole.skip(1) =~= tail + rest);
        assert forall|i: int| 0 <= i < tail.len() implies !takes_event(
            next.after_all(tail.take(i)),
            #[trigger] (tail + rest).skip(i),
            outer_width,
            outer_height,
        ) by {
            assert((tail + rest).skip(i) =~= whole.skip(i + 1));
            assert(input.take(i + 1).skip(1) =~= tail.take(i));
            assert(input.take(i + 1)[0] == input[0]);
        }
        law_other_input_is_forwarded(next, tail, rest, outer_width, outer_height);
        let last = moved(next.after_all(tail), rest, outer_width, outer_height);
        assert(seq![whole[0]] + (tail + last) =~= input + last);
    }
}

/// Pasted text is forwarded as it is up to and with the mark that ends it,
/// whatever it spells.
pub proof fn law_pasted_text_is_forwarded(
    paste: Paste,
    input: Seq<u8>,
    rest: Seq<u8>,
    outer_width: u16,
    outer_height: u16,
)
    requires
        forall|i: int|
            0 <= i < input.len() ==> (#[trigger] paste.after_all(input.take(i))).inside,
    ensures
        moved(paste, input + rest, outer_width, outer_height) == input + moved(
            paste.after_all(input),
            rest,
            outer_width,
            outer_height,
        ),
{
    assert forall|i: int| 0 <= i < input.len() implies !takes_event(
        paste.after_all(input.take(i)),
        #[trigger] (input + rest).skip(i),
        outer_width,
        outer_height,
    ) by {
        assert(paste.after_all(input.take(i)).inside);
    }
    law_other_input_is_forwarded(paste, input, rest, outer_width, outer_height);
}

/// Input without an escape holds no event: what the user types reaches the
/// program as it is.
pub proof fn law_typed_text_is_forwarded(
    paste: Paste,
    input: Seq<u8>,
    rest: Seq<u8>,
    outer_width: u16,
    outer_height: u16,
)
    requires
        forall|i: int| 0 <= i < input.len() ==> #[trigger] input[i] != codes::ESC,
    ensures
        moved(paste, input + rest, outer_width, outer_height) == input + moved(
            paste.after_all(input),
            rest,
            outer_width,
            outer_height,
        ),
        forwarded(paste, input, outer_width, outer_height) == Some(input),
{
    assert forall|i: int| 0 <= i < input.len() implies !takes_event(
        paste.after_all(input.take(i)),
        #[trigger] (input + rest).skip(i),
        outer_width,
        outer_height,
    ) by {
        assert((input + rest).skip(i)[0] == input[i]);
    }
    law_other_input_is_forwarded(paste, input, rest, outer_width, outer_height);
    let none = Seq::<u8>::empty();
    assert(input + none =~= input);
    assert forall|i: int| 0 <= i < input.len() implies !takes_event(
        paste.after_all(input.take(i)),
        #[trigger] (input + none).skip(i),
        outer_width,
        outer_height,
    ) by {
        assert((input + none).skip(i)[0] == input[i]);
    }
    law_other_input_is_forwarded(paste, input, none, outer_width, outer_height);
}

} // verus!
