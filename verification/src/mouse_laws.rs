//! What terminal input comes to, byte for byte: which of it are mouse events,
//! where they go, and what is left alone.

use crate::mouse;
use crate::mouse::Outcome;
use crate::paste;
use crate::paste::Paste;
use crate::text;
use vstd::prelude::*;
use vstd::utf8::*;

verus! {

/// The bytes of an extended report: `ESC [ <`, three fields and a last byte.
pub open spec fn report(button: Seq<u8>, x: Seq<u8>, y: Seq<u8>, end: u8) -> Seq<u8> {
    seq![0x1bu8, 0x5bu8, 0x3cu8] + (button + seq![0x3bu8] + x + seq![0x3bu8] + y) + seq![end]
}

/// The bytes of a classic report.
pub open spec fn classic(button: u8, x: u8, y: u8) -> Seq<u8> {
    seq![0x1bu8, 0x5bu8, 0x4du8, button, x, y]
}

/// The byte is `M` or `m`.
pub open spec fn is_end(b: u8) -> bool {
    b == 0x4d || b == 0x6d
}

/// The bytes neither separate fields nor end a report.
pub open spec fn is_field(s: Seq<u8>) -> bool {
    forall|i: int| 0 <= i < s.len() ==> #[trigger] s[i] != 0x3b && !is_end(s[i])
}

/// The cell lies between the borders.
pub open spec fn between_borders(column: int, row: int, width: u16, height: u16) -> bool {
    1 < column && column < width && 1 < row && row < height
}

proof fn lemma_field(s: Seq<u8>)
    requires
        is_field(s),
    ensures
        text::is_one_field(s, 0x3b),
        forall|i: int| 0 <= i < s.len() ==> !mouse::ends_report(#[trigger] s[i]),
{
    assert forall|i: int| 0 <= i < s.len() implies #[trigger] s[i] != 0x3b by {
        assert(!is_end(s[i]));
    }
    assert forall|i: int| 0 <= i < s.len() implies !mouse::ends_report(#[trigger] s[i]) by {
        assert(!is_end(s[i]));
    }
}

/// Where a body ends, and what its fields are.
proof fn lemma_body(button: Seq<u8>, x: Seq<u8>, y: Seq<u8>)
    requires
        is_field(button) && is_field(x) && is_field(y),
    ensures
        ({
            let body = button + seq![0x3bu8] + x + seq![0x3bu8] + y;
            &&& text::fields(body, 0x3b) == seq![button, x, y]
            &&& forall|i: int| 0 <= i < body.len() ==> !mouse::ends_report(#[trigger] body[i])
        }),
{
    let body = button + seq![0x3bu8] + x + seq![0x3bu8] + y;
    lemma_field(button);
    lemma_field(x);
    lemma_field(y);
    text::lemma_one_field(button, 0x3b);
    text::lemma_one_field(x, 0x3b);
    text::lemma_one_field(y, 0x3b);
    text::law_fields_of_joined(x, y, 0x3b);
    text::law_fields_of_joined(button, x.push(0x3b) + y, 0x3b);
    assert(button.push(0x3b) + (x.push(0x3b) + y) =~= body);
    assert(text::fields(body, 0x3b) =~= seq![button, x, y]);
    assert forall|i: int| 0 <= i < body.len() implies !mouse::ends_report(#[trigger] body[i]) by {
        let a = button.len() as int;
        let b = a + 1 + x.len();
        if i < a {
            assert(!mouse::ends_report(button[i]));
        } else if a < i < b {
            assert(!mouse::ends_report(x[i - a - 1]));
        } else if b < i {
            assert(!mouse::ends_report(y[i - b - 1]));
        }
    }
}

/// An extended report is found, with its end, and read field by field; what
/// follows it plays no part.
proof fn lemma_report_found(body: Seq<u8>, end: u8, rest: Seq<u8>)
    requires
        forall|i: int| 0 <= i < body.len() ==> !mouse::ends_report(#[trigger] body[i]),
        is_end(end),
    ensures
        ({
            let input = seq![0x1bu8, 0x5bu8, 0x3cu8] + body + seq![end] + rest;
            &&& mouse::opens_extended(input)
            &&& !mouse::opens_classic(input)
            &&& mouse::report_len(input.skip(3)) == body.len()
            &&& input.skip(3).take(body.len() as int) == body
            &&& input.skip(3)[body.len() as int] == end
            &&& input.skip(3).len() > body.len()
            &&& mouse::event_len(input) == body.len() + 4
            &&& input.take(body.len() as int + 4) == seq![0x1bu8, 0x5bu8, 0x3cu8] + body + seq![end]
            &&& input.skip(body.len() as int + 4) == rest
        }),
{
    let input = seq![0x1bu8, 0x5bu8, 0x3cu8] + body + seq![end] + rest;
    let tail = seq![end] + rest;
    assert(input.skip(3) =~= body + tail);
    mouse::lemma_report_len(body, tail);
    assert((body + tail).take(body.len() as int) =~= body);
    assert(input.take(body.len() as int + 4) =~= seq![0x1bu8, 0x5bu8, 0x3cu8] + body + seq![end]);
    assert(input.skip(body.len() as int + 4) =~= rest);
}

/// The text of a report in inner coordinates.
proof fn lemma_report_text(button: Seq<u8>, column: u16, row: u16, end: u8)
    ensures
        mouse::extended_report(button, column, row, end) == report(
            button,
            text::digits(column as nat),
            text::digits(row as nat),
            end,
        ),
{
    mouse::lemma_report_shape(button, column, row, end);
    assert(mouse::extended_report(button, column, row, end) =~= report(
        button,
        text::digits(column as nat),
        text::digits(row as nat),
        end,
    ));
}

/// An extended report between the borders goes a column and a row back, one on
/// or beyond them is dropped, and one without two numbers, or that is no text,
/// cannot be read.
pub proof fn law_extended_reports(
    button: Seq<u8>,
    x: Seq<u8>,
    y: Seq<u8>,
    end: u8,
    rest: Seq<u8>,
    width: u16,
    height: u16,
)
    requires
        is_field(button) && is_field(x) && is_field(y),
        is_end(end),
    ensures
        mouse::outcome(report(button, x, y, end) + rest, width, height) == (if !valid_utf8(
            report(button, x, y, end) + rest,
        ) {
            Outcome::ParseError
        } else {
            match (text::number(x), text::number(y)) {
                (Some(column), Some(row)) => if between_borders(
                    column as int,
                    row as int,
                    width,
                    height,
                ) {
                    Outcome::Transformed(
                        report(
                            button,
                            text::digits((column - 1) as nat),
                            text::digits((row - 1) as nat),
                            end,
                        ),
                    )
                } else {
                    Outcome::OnBorder
                },
                _ => Outcome::ParseError,
            }
        }),
{
    let body = button + seq![0x3bu8] + x + seq![0x3bu8] + y;
    lemma_body(button, x, y);
    lemma_report_found(body, end, rest);
    let parts = text::fields(body, 0x3b);
    assert(parts[0] == button && parts[1] == x && parts[2] == y);
    if let (Some(column), Some(row)) = (text::number(x), text::number(y)) {
        if between_borders(column as int, row as int, width, height) {
            lemma_report_text(button, (column - 1) as u16, (row - 1) as u16, end);
        }
    }
}

/// What opens like an extended report but does not end, or has not its three
/// fields, cannot be read.
pub proof fn law_unreadable_reports(body: Seq<u8>, end: u8, rest: Seq<u8>, width: u16, height: u16)
    requires
        forall|i: int| 0 <= i < body.len() ==> !is_end(#[trigger] body[i]),
        is_end(end),
    ensures
        mouse::outcome(seq![0x1bu8, 0x5bu8, 0x3cu8] + body, width, height) == Outcome::ParseError,
        text::fields(body, 0x3b).len() != 3 ==> mouse::outcome(
            seq![0x1bu8, 0x5bu8, 0x3cu8] + body + seq![end] + rest,
            width,
            height,
        ) == Outcome::ParseError,
{
    assert forall|i: int| 0 <= i < body.len() implies !mouse::ends_report(#[trigger] body[i]) by {
        assert(!is_end(body[i]));
    }
    lemma_report_found(body, end, rest);
    let open = seq![0x1bu8, 0x5bu8, 0x3cu8] + body;
    assert(open.skip(3) =~= body);
    lemma_no_end(body);
}

proof fn lemma_no_end(body: Seq<u8>)
    requires
        forall|i: int| 0 <= i < body.len() ==> !mouse::ends_report(#[trigger] body[i]),
    ensures
        mouse::report_len(body) == body.len(),
    decreases body.len(),
{
    if body.len() > 0 {
        assert(!mouse::ends_report(body[0]));
        lemma_no_end(body.drop_first());
    }
}

/// A classic report between the borders goes a column and a row back, whatever
/// its bytes; one on or beyond the borders, or that would no longer fit its
/// bytes, is dropped. Coordinates count from 32 and around.
pub proof fn law_classic_reports(
    button: u8,
    x: u8,
    y: u8,
    rest: Seq<u8>,
    width: u16,
    height: u16,
)
    ensures
        ({
            let column: int = if x >= 32 {
                x - 32
            } else {
                x + 224
            };
            let row: int = if y >= 32 {
                y - 32
            } else {
                y + 224
            };
            mouse::outcome(classic(button, x, y) + rest, width, height) == (if between_borders(
                column,
                row,
                width,
                height,
            ) && column <= 224 && row <= 224 {
                Outcome::Transformed(
                    classic(button, (column + 31) as u8, (row + 31) as u8),
                )
            } else {
                Outcome::OnBorder
            })
        }),
{
    let input = classic(button, x, y) + rest;
    assert(mouse::opens_classic(input));
    assert(input[3] == button && input[4] == x && input[5] == y);
}

/// Input that starts neither with `ESC [ <` nor with a whole classic report is
/// no event.
pub proof fn law_no_event(input: Seq<u8>, width: u16, height: u16)
    requires
        !(input.len() >= 3 && input[0] == 0x1b && input[1] == 0x5b && input[2] == 0x3c),
        !(input.len() >= 6 && input[0] == 0x1b && input[1] == 0x5b && input[2] == 0x4d),
    ensures
        mouse::outcome(input, width, height) == Outcome::ParseError,
        mouse::event_len(input) == 0,
{
}

/// What looks like an event: `ESC [ <`, or `ESC [ M` and three bytes.
pub proof fn law_event_marks(input: Seq<u8>)
    ensures
        mouse::opens_extended(input) <==> input.len() >= 3 && input[0] == 0x1b && input[1] == 0x5b
            && input[2] == 0x3c,
        mouse::opens_classic(input) <==> input.len() >= 6 && input[0] == 0x1b && input[1] == 0x5b
            && input[2] == 0x4d,
{
}

// Whole reads.

/// `ESC [ <` or `ESC [ M` stands at the index.
pub open spec fn opens_at(s: Seq<u8>, i: int) -> bool {
    0 <= i && i + 2 < s.len() && s[i] == 0x1b && s[i + 1] == 0x5b && (s[i + 2] == 0x3c || s[i + 2]
        == 0x4d)
}

/// Keys and text are forwarded as they are, whatever other escape sequences
/// they hold, and what follows them is dealt with in turn.
pub proof fn law_keys_are_forwarded(
    paste: Paste,
    keys: Seq<u8>,
    rest: Seq<u8>,
    width: u16,
    height: u16,
)
    requires
        forall|i: int| 0 <= i < keys.len() ==> !#[trigger] opens_at(keys + rest, i),
    ensures
        mouse::moved(paste, keys + rest, width, height) == keys + mouse::moved(
            paste.after_all(keys),
            rest,
            width,
            height,
        ),
{
    assert forall|i: int| 0 <= i < keys.len() implies !mouse::takes_event(
        paste.after_all(keys.take(i)),
        #[trigger] (keys + rest).skip(i),
        width,
        height,
    ) by {
        let tail = (keys + rest).skip(i);
        assert(!opens_at(keys + rest, i));
        if tail.len() >= 3 {
            assert(tail[0] == (keys + rest)[i]);
            assert(tail[1] == (keys + rest)[i + 1]);
            assert(tail[2] == (keys + rest)[i + 2]);
        }
        law_no_event(tail, width, height);
    }
    mouse::law_other_input_is_forwarded(paste, keys, rest, width, height);
}

/// A read in which neither `ESC [ <` nor `ESC [ M` occurs reaches the program
/// unchanged.
pub proof fn law_reads_without_events(paste: Paste, input: Seq<u8>, width: u16, height: u16)
    requires
        forall|i: int| 0 <= i < input.len() ==> !#[trigger] opens_at(input, i),
    ensures
        mouse::forwarded(paste, input, width, height) == Some(input),
        mouse::paste_after(paste, input, width, height) == paste.after_all(input),
{
    let none = Seq::<u8>::empty();
    assert(input + none =~= input);
    law_keys_are_forwarded(paste, input, none, width, height);
    assert(input + none =~= input);
    lemma_paste_after_keys(paste, input, width, height);
}

proof fn lemma_paste_after_keys(paste: Paste, input: Seq<u8>, width: u16, height: u16)
    requires
        forall|i: int| 0 <= i < input.len() ==> !#[trigger] opens_at(input, i),
    ensures
        mouse::paste_after(paste, input, width, height) == paste.after_all(input),
    decreases input.len(),
{
    if input.len() > 0 {
        let tail = input.skip(1);
        assert(!opens_at(input, 0));
        law_no_event(input, width, height);
        assert forall|i: int| 0 <= i < tail.len() implies !#[trigger] opens_at(tail, i) by {
            assert(!opens_at(input, i + 1));
        }
        lemma_paste_after_keys(paste.after(input[0]), tail, width, height);
    }
}

/// An extended report goes to the program in inner coordinates, or not at all,
/// wherever it stands outside of pasted text, and what follows it is dealt with
/// in turn.
pub proof fn law_extended_reports_in_a_read(
    paste: Paste,
    button: Seq<u8>,
    column: u16,
    row: u16,
    end: u8,
    rest: Seq<u8>,
    width: u16,
    height: u16,
)
    requires
        !paste.inside,
        is_field(button),
        valid_utf8(button),
        is_end(end),
    ensures
        ({
            let input = report(
                button,
                text::digits(column as nat),
                text::digits(row as nat),
                end,
            );
            let tail = mouse::moved(Paste::outside(), rest, width, height);
            &&& mouse::moved(paste, input + rest, width, height) == (if between_borders(
                column as int,
                row as int,
                width,
                height,
            ) {
                report(
                    button,
                    text::digits((column - 1) as nat),
                    text::digits((row - 1) as nat),
                    end,
                ) + tail
            } else {
                tail
            })
            &&& mouse::paste_after(paste, input + rest, width, height) == mouse::paste_after(
                Paste::outside(),
                rest,
                width,
                height,
            )
        }),
{
    let x = text::digits(column as nat);
    let y = text::digits(row as nat);
    let input = report(button, x, y, end);
    let none = Seq::<u8>::empty();
    lemma_digits_field(column);
    lemma_digits_field(row);
    text::law_numbers_read_back(column);
    text::law_numbers_read_back(row);
    lemma_report_text(button, column, row, end);
    mouse::lemma_report_is_utf8(button, column, row, end);
    law_extended_reports(button, x, y, end, none, width, height);
    assert(input + none =~= input);
    let body = button + seq![0x3bu8] + x + seq![0x3bu8] + y;
    lemma_body(button, x, y);
    lemma_report_found(body, end, rest);
    assert(input + rest =~= seq![0x1bu8, 0x5bu8, 0x3cu8] + body + seq![end] + rest);
}

proof fn lemma_digits_field(n: u16)
    ensures
        is_field(text::digits(n as nat)),
{
    let d = text::digits(n as nat);
    text::lemma_digits(n as nat);
    assert forall|i: int| 0 <= i < d.len() implies #[trigger] d[i] != 0x3b && !is_end(d[i]) by {
        assert(text::is_digit(d[i]));
    }
}

/// So does a classic report.
pub proof fn law_classic_reports_in_a_read(
    paste: Paste,
    button: u8,
    x: u8,
    y: u8,
    rest: Seq<u8>,
    width: u16,
    height: u16,
)
    requires
        !paste.inside,
        x >= 32 && y >= 32,
    ensures
        ({
            let tail = mouse::moved(Paste::outside(), rest, width, height);
            mouse::moved(paste, classic(button, x, y) + rest, width, height) == (
            if between_borders(x - 32, y - 32, width, height) {
                classic(button, (x - 1) as u8, (y - 1) as u8) + tail
            } else {
                tail
            })
        }),
{
    let input = classic(button, x, y);
    let none = Seq::<u8>::empty();
    law_classic_reports(button, x, y, none, width, height);
    assert(input + none =~= input);
    assert((input + rest).take(6) =~= input);
    assert((input + rest).skip(6) =~= rest);
    assert(mouse::event_len(input + rest) == 6);
}

/// What opens like an extended report but cannot be read as one passes byte by
/// byte, and the search goes on behind its first byte.
pub proof fn law_unreadable_reports_pass(
    paste: Paste,
    body: Seq<u8>,
    end: u8,
    rest: Seq<u8>,
    width: u16,
    height: u16,
)
    requires
        forall|i: int| 0 <= i < body.len() ==> !is_end(#[trigger] body[i]),
        is_end(end),
        text::fields(body, 0x3b).len() != 3,
    ensures
        ({
            let input = seq![0x1bu8, 0x5bu8, 0x3cu8] + body + seq![end] + rest;
            let open = seq![0x1bu8, 0x5bu8, 0x3cu8] + body;
            &&& mouse::moved(paste, input, width, height) == seq![0x1bu8] + mouse::moved(
                paste.after(0x1b),
                input.skip(1),
                width,
                height,
            )
            &&& mouse::moved(paste, open, width, height) == seq![0x1bu8] + mouse::moved(
                paste.after(0x1b),
                open.skip(1),
                width,
                height,
            )
        }),
{
    let none = Seq::<u8>::empty();
    let open = seq![0x1bu8, 0x5bu8, 0x3cu8] + body;
    assert forall|i: int| 0 <= i < body.len() implies !mouse::ends_report(#[trigger] body[i]) by {
        assert(!is_end(body[i]));
    }
    lemma_report_found(body, end, rest);
    law_unreadable_reports(body, end, none, width, height);
    assert(seq![0x1bu8, 0x5bu8, 0x3cu8] + body + seq![end] + none =~= seq![0x1bu8, 0x5bu8, 0x3cu8]
        + body + seq![end]);
    assert(open.skip(3) =~= body);
    lemma_no_end(body);
}

/// So does one whose fields are no numbers, or that is no text.
pub proof fn law_unreadable_fields_pass(
    paste: Paste,
    button: Seq<u8>,
    x: Seq<u8>,
    y: Seq<u8>,
    end: u8,
    rest: Seq<u8>,
    width: u16,
    height: u16,
)
    requires
        is_field(button) && is_field(x) && is_field(y),
        is_end(end),
        !valid_utf8(report(button, x, y, end)) || text::number(x) is None || text::number(
            y,
        ) is None,
    ensures
        ({
            let input = report(button, x, y, end) + rest;
            mouse::moved(paste, input, width, height) == seq![0x1bu8] + mouse::moved(
                paste.after(0x1b),
                input.skip(1),
                width,
                height,
            )
        }),
{
    let none = Seq::<u8>::empty();
    let body = button + seq![0x3bu8] + x + seq![0x3bu8] + y;
    let whole = report(button, x, y, end);
    lemma_body(button, x, y);
    lemma_report_found(body, end, rest);
    law_extended_reports(button, x, y, end, none, width, height);
    assert(whole + none =~= whole);
    assert(whole + rest =~= seq![0x1bu8, 0x5bu8, 0x3cu8] + body + seq![end] + rest);
}

/// The program is written to where anything is left of a read, and not where
/// all of it was dropped.
pub proof fn law_dropped_reads(paste: Paste, input: Seq<u8>, width: u16, height: u16)
    ensures
        mouse::forwarded(paste, input, width, height) is None <==> input.len() > 0
            && mouse::moved(paste, input, width, height).len() == 0,
        mouse::forwarded(paste, input, width, height) matches Some(bytes) ==> bytes == mouse::moved(
            paste,
            input,
            width,
            height,
        ),
        mouse::moved(paste, Seq::empty(), width, height) == Seq::<u8>::empty(),
{
}

// Pasted text.

/// `ESC [ 2 0 0 ~`.
pub open spec fn paste_start() -> Seq<u8> {
    seq![0x1bu8, 0x5bu8, 0x32u8, 0x30u8, 0x30u8, 0x7eu8]
}

/// `ESC [ 2 0 1 ~`.
pub open spec fn paste_end() -> Seq<u8> {
    seq![0x1bu8, 0x5bu8, 0x32u8, 0x30u8, 0x31u8, 0x7eu8]
}

/// The mark ends at the index.
pub open spec fn ends_at(s: Seq<u8>, mark: Seq<u8>, i: int) -> bool {
    6 <= i <= s.len() && s.subrange(i - 6, i) == mark
}

proof fn lemma_after_push(paste: Paste, s: Seq<u8>, b: u8)
    ensures
        paste.after_all(s.push(b)) == paste.after_all(s).after(b),
    decreases s.len(),
{
    reveal_with_fuel(Paste::after_all, 2);
    if s.len() == 0 {
        assert(s.push(b).skip(1) =~= Seq::empty());
    } else {
        lemma_after_push(paste.after(s[0]), s.skip(1), b);
        assert(s.push(b).skip(1) =~= s.skip(1).push(b));
    }
}

proof fn lemma_after_joined(paste: Paste, a: Seq<u8>, b: Seq<u8>)
    ensures
        paste.after_all(a + b) == paste.after_all(a).after_all(b),
    decreases a.len(),
{
    if a.len() == 0 {
        assert(a + b =~= b);
    } else {
        lemma_after_joined(paste.after(a[0]), a.skip(1), b);
        assert((a + b).skip(1) =~= a.skip(1) + b);
    }
}

/// As long as the mark that is waited for has not come, the input stands where
/// it stood, with as much of the mark at its end as was counted.
proof fn lemma_no_mark(inside: bool, mark: Seq<u8>, s: Seq<u8>)
    requires
        mark == (if inside {
            paste_end()
        } else {
            paste_start()
        }),
        forall|i: int| !#[trigger] ends_at(s, mark, i),
    ensures
        ({
            let p = (Paste { inside, matched: 0 }).after_all(s);
            &&& p.inside == inside
            &&& p.matched < 6
            &&& p.matched <= s.len()
            &&& s.skip(s.len() - p.matched) == mark.take(p.matched as int)
        }),
    decreases s.len(),
{
    let start = Paste { inside, matched: 0 };
    if s.len() == 0 {
        assert(s.skip(0) =~= mark.take(0));
    } else {
        let front = s.drop_last();
        let b = s.last();
        assert forall|i: int| !#[trigger] ends_at(front, mark, i) by {
            if ends_at(front, mark, i) {
                assert(front.subrange(i - 6, i) =~= s.subrange(i - 6, i));
                assert(ends_at(s, mark, i));
            }
        }
        lemma_no_mark(inside, mark, front);
        lemma_after_push(start, front, b);
        assert(front.push(b) =~= s);
        let q = start.after_all(front);
        let k = q.matched as int;
        let tail = front.skip(front.len() - k);
        assert(tail == mark.take(k));
        assert(q.awaited() == mark[k]);
        if b == mark[k] {
            assert(s.skip(s.len() - k - 1) =~= tail.push(b));
            assert(mark.take(k + 1) =~= mark.take(k).push(mark[k]));
            if k == 5 {
                assert(s.subrange(s.len() - 6, s.len() as int) =~= s.skip(s.len() - 6));
                assert(mark.take(6) =~= mark);
                assert(ends_at(s, mark, s.len() as int));
            }
        } else if b == 0x1b {
            assert(s.skip(s.len() - 1) =~= mark.take(1));
        } else {
            assert(s.skip(s.len() as int) =~= mark.take(0));
        }
    }
}

/// Text pasted between the two marks is forwarded as it is with them, whatever
/// events it spells, up to the first closing mark; what follows is dealt with as
/// before.
pub proof fn law_pasted_text(body: Seq<u8>, rest: Seq<u8>, width: u16, height: u16)
    requires
        forall|i: int|
            i < body.len() + 6 ==> !#[trigger] ends_at(body + paste_end(), paste_end(), i),
    ensures
        mouse::moved(
            Paste::outside(),
            paste_start() + (body + paste_end()) + rest,
            width,
            height,
        ) == paste_start() + (body + paste_end()) + mouse::moved(
            Paste::outside(),
            rest,
            width,
            height,
        ),
{
    let start = paste_start();
    let text = body + paste_end();
    let inside = Paste { inside: true, matched: 0 };
    assert(start =~= paste::opening_mark());
    assert(paste_end() =~= paste::closing_mark());
    paste::law_marks(Paste::outside());
    assert(start + text + rest =~= start + (text + rest));
    assert forall|i: int| 0 <= i < start.len() implies !#[trigger] opens_at(
        start + (text + rest),
        i,
    ) by {}
    law_keys_are_forwarded(Paste::outside(), start, text + rest, width, height);
    assert forall|i: int| 0 <= i < text.len() implies (#[trigger] inside.after_all(
        text.take(i),
    )).inside by {
        let front = text.take(i);
        assert forall|j: int| !#[trigger] ends_at(front, paste_end(), j) by {
            if ends_at(front, paste_end(), j) {
                assert(front.subrange(j - 6, j) =~= text.subrange(j - 6, j));
                assert(ends_at(text, paste_end(), j));
            }
        }
        lemma_no_mark(true, paste_end(), front);
    }
    mouse::law_pasted_text_is_forwarded(inside, text, rest, width, height);
    if body.len() < text.len() {
        assert(text.take(body.len() as int) =~= body);
        assert(inside.after_all(text.take(body.len() as int)).inside);
    }
    lemma_after_joined(inside, body, paste_end());
    paste::law_marks(inside.after_all(body));
    let tail = mouse::moved(Paste::outside(), rest, width, height);
    assert(start + (text + tail) =~= start + text + tail);
}

/// A paste that an earlier read opened goes on, up to the first closing mark.
pub proof fn law_paste_goes_on(body: Seq<u8>, rest: Seq<u8>, width: u16, height: u16)
    requires
        forall|i: int|
            i < body.len() + 6 ==> !#[trigger] ends_at(body + paste_end(), paste_end(), i),
    ensures
        ({
            let inside = Paste { inside: true, matched: 0 };
            let text = body + paste_end();
            &&& mouse::moved(inside, text + rest, width, height) == text + mouse::moved(
                Paste::outside(),
                rest,
                width,
                height,
            )
            &&& inside.after_all(text) == Paste::outside()
        }),
{
    let text = body + paste_end();
    let inside = Paste { inside: true, matched: 0 };
    assert(paste_end() =~= paste::closing_mark());
    assert forall|i: int| 0 <= i < text.len() implies (#[trigger] inside.after_all(
        text.take(i),
    )).inside by {
        let front = text.take(i);
        assert forall|j: int| !#[trigger] ends_at(front, paste_end(), j) by {
            if ends_at(front, paste_end(), j) {
                assert(front.subrange(j - 6, j) =~= text.subrange(j - 6, j));
                assert(ends_at(text, paste_end(), j));
            }
        }
        lemma_no_mark(true, paste_end(), front);
    }
    mouse::law_pasted_text_is_forwarded(inside, text, rest, width, height);
    assert(text.take(body.len() as int) =~= body);
    assert(inside.after_all(text.take(body.len() as int)).inside);
    lemma_after_joined(inside, body, paste_end());
    paste::law_marks(inside.after_all(body));
}

/// Reads follow one another: where a paste stands after two of them is where it
/// stands after the second from where the first left it.
pub proof fn law_pastes_span_reads(paste: Paste, a: Seq<u8>, b: Seq<u8>)
    ensures
        paste.after_all(a + b) == paste.after_all(a).after_all(b),
        !paste.inside ==> paste.after_all(paste_start()) == (Paste { inside: true, matched: 0 }),
        paste.inside ==> paste.after_all(paste_end()) == (Paste { inside: false, matched: 0 }),
{
    lemma_after_joined(paste, a, b);
    paste::law_marks(paste);
    assert(paste_start() =~= paste::opening_mark());
    assert(paste_end() =~= paste::closing_mark());
}

/// Outside of a paste, input without the opening mark stays outside.
pub proof fn law_no_paste_without_mark(s: Seq<u8>)
    requires
        forall|i: int| !#[trigger] ends_at(s, paste_start(), i),
    ensures
        !Paste::outside().after_all(s).inside,
{
    lemma_no_mark(false, paste_start(), s);
}

} // verus!
