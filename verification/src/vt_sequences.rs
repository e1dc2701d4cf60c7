//! What the sequences of the wrapped program come out as, byte for byte.
//!
//! Rows and columns of the program count from 1 on the inner screen, which is
//! two rows and two columns smaller than the frame and starts at its second row
//! and column.

use crate::dimming::Dimming;
use crate::text;
use crate::vt_laws;
use crate::vt_model;
use crate::vt_model::{Filter, Frame, Parser};
use vstd::prelude::*;
use vstd::utf8::*;

verus! {

/// `ESC [`, parameters and a final byte.
pub open spec fn csi(params: Seq<u8>, f: u8) -> Seq<u8> {
    seq![0x1bu8, 0x5bu8] + params + seq![f]
}

/// One number as a parameter.
pub open spec fn one(n: int) -> Seq<u8> {
    text::digits(n as nat)
}

/// Two numbers as parameters.
pub open spec fn two(m: int, n: int) -> Seq<u8> {
    text::digits(m as nat) + seq![0x3bu8] + text::digits(n as nat)
}

/// No parameters.
pub open spec fn none() -> Seq<u8> {
    Seq::empty()
}

/// How many rows or columns are inside a frame that has `n` of them.
pub open spec fn inner(n: u16) -> int {
    if n >= 2 {
        n - 2
    } else {
        0
    }
}

/// `n`, or the nearest number from 1 to `last`; where there is none, `last`.
pub open spec fn held(n: int, last: int) -> int {
    if n > last || last < 1 {
        last
    } else if n < 1 {
        1
    } else {
        n
    }
}

// What the model's pieces are in bytes.

pub proof fn lemma_csi(params: Seq<u8>, f: u8)
    ensures
        csi(params, f) == vt_laws::control_sequence(params, f),
        vt_model::sequence(params, f) == csi(params, f),
{
    vt_laws::lemma_sequence(params, f);
    assert(csi(params, f) =~= vt_laws::control_sequence(params, f));
}

pub proof fn lemma_goto(row: u16, column: u16)
    ensures
        vt_model::goto(row, column) == csi(two(row as int, column as int), 0x48),
{
    vt_laws::lemma_introducer();
    reveal_strlit(";");
    reveal_strlit("H");
    is_ascii_chars_encode_utf8(";"@);
    is_ascii_chars_encode_utf8("H"@);
    assert(text::bytes(";") =~= seq![0x3bu8]);
    assert(text::bytes("H") =~= seq![0x48u8]);
    assert(vt_model::goto(row, column) =~= csi(two(row as int, column as int), 0x48));
}

pub proof fn lemma_to_column(column: u16)
    ensures
        vt_model::to_column(column) == csi(one(column as int), 0x47),
{
    vt_laws::lemma_introducer();
    reveal_strlit("G");
    is_ascii_chars_encode_utf8("G"@);
    assert(text::bytes("G") =~= seq![0x47u8]);
    assert(vt_model::to_column(column) =~= csi(one(column as int), 0x47));
}

/// Numbers are parameter bytes, and read back.
pub proof fn lemma_one(n: u16)
    ensures
        vt_model::all_params(one(n as int)),
        one(n as int).len() > 0,
        text::is_digit(one(n as int)[0]),
        !vt_model::is_private(one(n as int)),
        !vt_model::is_mouse_report(one(n as int)),
        vt_model::arguments(one(n as int)) == seq![n],
{
    let p = one(n as int);
    text::lemma_digits(n as nat);
    text::law_numbers_read_back(n);
    assert forall|i: int| 0 <= i < p.len() implies vt_model::is_param_byte(#[trigger] p[i]) by {
        assert(text::is_digit(p[i]));
    }
    assert(text::is_digit(p[0]));
    assert forall|i: int| 0 <= i < p.len() implies #[trigger] p[i] != 0x3b by {
        assert(text::is_digit(p[i]));
    }
    text::lemma_one_field(p, 0x3b);
    assert(vt_model::arguments(p) =~= seq![n]);
}

pub proof fn lemma_two(m: u16, n: u16)
    ensures
        vt_model::all_params(two(m as int, n as int)),
        !vt_model::is_private(two(m as int, n as int)),
        !vt_model::is_mouse_report(two(m as int, n as int)),
        vt_model::arguments(two(m as int, n as int)) == seq![m, n],
{
    let a = one(m as int);
    let b = one(n as int);
    let p = two(m as int, n as int);
    lemma_one(m);
    lemma_one(n);
    text::law_numbers_read_back(m);
    text::law_numbers_read_back(n);
    assert forall|i: int| 0 <= i < p.len() implies vt_model::is_param_byte(#[trigger] p[i]) by {
        if i < a.len() {
            assert(vt_model::is_param_byte(a[i]));
        } else if i > a.len() {
            assert(vt_model::is_param_byte(b[i - a.len() - 1]));
        }
    }
    assert(p[0] == a[0]);
    text::lemma_digits(m as nat);
    text::lemma_digits(n as nat);
    assert forall|i: int| 0 <= i < a.len() implies #[trigger] a[i] != 0x3b by {
        assert(text::is_digit(a[i]));
    }
    assert forall|i: int| 0 <= i < b.len() implies #[trigger] b[i] != 0x3b by {
        assert(text::is_digit(b[i]));
    }
    text::lemma_one_field(a, 0x3b);
    text::lemma_one_field(b, 0x3b);
    text::law_fields_of_joined(a, b, 0x3b);
    assert(a.push(0x3b) + b =~= p);
    assert(vt_model::arguments(p) =~= seq![m, n]);
}

/// A missing first number, and a second one.
pub proof fn lemma_second(n: u16)
    ensures
        vt_model::all_params(seq![0x3bu8] + one(n as int)),
        !vt_model::is_private(seq![0x3bu8] + one(n as int)),
        !vt_model::is_mouse_report(seq![0x3bu8] + one(n as int)),
        vt_model::arguments(seq![0x3bu8] + one(n as int)) == seq![0u16, n],
{
    let a = Seq::<u8>::empty();
    let b = one(n as int);
    let p = seq![0x3bu8] + b;
    lemma_one(n);
    text::law_numbers_read_back(n);
    text::lemma_digits(n as nat);
    assert forall|i: int| 0 <= i < p.len() implies vt_model::is_param_byte(#[trigger] p[i]) by {
        if i > 0 {
            assert(vt_model::is_param_byte(b[i - 1]));
        }
    }
    assert forall|i: int| 0 <= i < b.len() implies #[trigger] b[i] != 0x3b by {
        assert(text::is_digit(b[i]));
    }
    text::lemma_one_field(a, 0x3b);
    text::lemma_one_field(b, 0x3b);
    text::law_fields_of_joined(a, b, 0x3b);
    assert(a.push(0x3b) + b =~= p);
    assert(vt_model::arguments(p) =~= seq![0u16, n]);
}

pub proof fn lemma_none()
    ensures
        vt_model::all_params(none()),
        vt_model::arguments(none()) == Seq::<u16>::empty(),
{
}

// Absolute positions.

/// Going to a row and column goes to the same place on the inner screen, or to
/// the nearest one there; a row or column that is not given is the first.
pub proof fn law_cursor_position(frame: Frame, s: Filter, row: u16, column: u16, f: u8)
    requires
        s.parser == Parser::Ground,
        f == 0x48 || f == 0x66,
    ensures
        ({
            let r = held(row as int, inner(frame.height));
            let c = held(column as int, inner(frame.width));
            let r1 = held(1, inner(frame.height));
            let c1 = held(1, inner(frame.width));
            let both = csi(two(row as int, column as int), f);
            let second = csi(seq![0x3bu8] + one(column as int), f);
            &&& vt_model::run_output(frame, s, both) == csi(two(r + 1, c + 1), 0x48)
            &&& vt_model::run_state(frame, s, both) == (Filter { cursor_row: r as u16, ..s })
            &&& vt_model::run_output(frame, s, csi(one(row as int), f)) == csi(two(r + 1, c1 + 1), 0x48)
            &&& vt_model::run_state(frame, s, csi(one(row as int), f)) == (Filter { cursor_row: r as u16, ..s })
            &&& vt_model::run_output(frame, s, second) == csi(two(r1 + 1, c + 1), 0x48)
            &&& vt_model::run_state(frame, s, second) == (Filter { cursor_row: r1 as u16, ..s })
            &&& vt_model::run_output(frame, s, csi(none(), f)) == csi(two(r1 + 1, c1 + 1), 0x48)
            &&& vt_model::run_state(frame, s, csi(none(), f)) == (Filter { cursor_row: r1 as u16, ..s })
        }),
{
    let r = held(row as int, inner(frame.height));
    let c = held(column as int, inner(frame.width));
    let r1 = held(1, inner(frame.height));
    let c1 = held(1, inner(frame.width));
    let both = two(row as int, column as int);
    let first = one(row as int);
    let second = seq![0x3bu8] + one(column as int);
    lemma_two(row, column);
    lemma_one(row);
    lemma_second(column);
    lemma_none();
    lemma_csi(both, f);
    lemma_csi(first, f);
    lemma_csi(second, f);
    lemma_csi(none(), f);
    vt_laws::law_control_sequence(frame, s, both, f);
    vt_laws::law_control_sequence(frame, s, first, f);
    vt_laws::law_control_sequence(frame, s, second, f);
    vt_laws::law_control_sequence(frame, s, none(), f);
    lemma_goto((r + 1) as u16, (c + 1) as u16);
    lemma_goto((r + 1) as u16, (c1 + 1) as u16);
    lemma_goto((r1 + 1) as u16, (c + 1) as u16);
    lemma_goto((r1 + 1) as u16, (c1 + 1) as u16);
}

/// Going to a row stays in the column, going to a column stays in the row.
pub proof fn law_row_and_column_position(frame: Frame, s: Filter, n: u16, f: u8)
    requires
        s.parser == Parser::Ground,
        f == 0x47 || f == 0x60,
    ensures
        ({
            let r = held(n as int, inner(frame.height));
            let c = held(n as int, inner(frame.width));
            let r1 = held(1, inner(frame.height));
            let c1 = held(1, inner(frame.width));
            &&& vt_model::run_output(frame, s, csi(one(n as int), 0x64)) == csi(one(r + 1), 0x64)
            &&& vt_model::run_state(frame, s, csi(one(n as int), 0x64)) == (Filter { cursor_row: r as u16, ..s })
            &&& vt_model::run_output(frame, s, csi(none(), 0x64)) == csi(one(r1 + 1), 0x64)
            &&& vt_model::run_state(frame, s, csi(none(), 0x64)) == (Filter { cursor_row: r1 as u16, ..s })
            &&& vt_model::run_output(frame, s, csi(one(n as int), f)) == csi(one(c + 1), f)
            &&& vt_model::run_state(frame, s, csi(one(n as int), f)) == s
            &&& vt_model::run_output(frame, s, csi(none(), f)) == csi(one(c1 + 1), f)
            &&& vt_model::run_state(frame, s, csi(none(), f)) == s
        }),
{
    let r = held(n as int, inner(frame.height));
    let c = held(n as int, inner(frame.width));
    let r1 = held(1, inner(frame.height));
    let c1 = held(1, inner(frame.width));
    let p = one(n as int);
    lemma_one(n);
    lemma_none();
    lemma_csi(p, f);
    lemma_csi(none(), f);
    lemma_csi(p, 0x64);
    lemma_csi(none(), 0x64);
    vt_laws::law_control_sequence(frame, s, p, f);
    vt_laws::law_control_sequence(frame, s, none(), f);
    vt_laws::law_control_sequence(frame, s, p, 0x64);
    vt_laws::law_control_sequence(frame, s, none(), 0x64);
    vt_laws::lemma_introducer();
    reveal_strlit("d");
    is_ascii_chars_encode_utf8("d"@);
    assert(text::bytes("d") =~= seq![0x64u8]);
    assert(text::bytes("\x1b[") + one(r + 1) + text::bytes("d") =~= csi(one(r + 1), 0x64));
    assert(text::bytes("\x1b[") + one(r1 + 1) + text::bytes("d") =~= csi(one(r1 + 1), 0x64));
    assert((text::bytes("\x1b[") + one(c + 1)).push(f) =~= csi(one(c + 1), f));
    assert((text::bytes("\x1b[") + one(c1 + 1)).push(f) =~= csi(one(c1 + 1), f));
}

// Scroll regions.

/// A scroll region moves by one row: from the row that is given, or the first,
/// to the row that is given, or the last inner one.
pub proof fn law_scroll_region(frame: Frame, s: Filter, top: u16, bottom: u16)
    requires
        s.parser == Parser::Ground,
        top < 0xffff,
    ensures
        ({
            let last = inner(frame.height);
            let t: int = if top == 0 {
                1
            } else {
                top as int
            };
            let b: int = if bottom > last {
                last
            } else {
                bottom as int
            };
            let both = csi(two(top as int, bottom as int), 0x72);
            let first = csi(one(top as int), 0x72);
            let second = csi(seq![0x3bu8] + one(bottom as int), 0x72);
            &&& vt_model::run_output(frame, s, both) == csi(two(t + 1, b + 1), 0x72)
            &&& vt_model::run_state(frame, s, both) == (Filter {
                scroll_top: t as u16,
                scroll_bottom: b as u16,
                ..s
            })
            &&& vt_model::run_output(frame, s, first) == csi(two(t + 1, inner(frame.height) + 1), 0x72)
            &&& vt_model::run_state(frame, s, first) == (Filter {
                scroll_top: t as u16,
                scroll_bottom: last as u16,
                ..s
            })
            &&& vt_model::run_output(frame, s, second) == csi(two(2, b + 1), 0x72)
            &&& vt_model::run_state(frame, s, second) == (Filter {
                scroll_top: 1,
                scroll_bottom: b as u16,
                ..s
            })
        }),
{
    let last = inner(frame.height);
    let t: int = if top == 0 {
        1
    } else {
        top as int
    };
    let b: int = if bottom > last {
        last
    } else {
        bottom as int
    };
    let both = two(top as int, bottom as int);
    let first = one(top as int);
    let second = seq![0x3bu8] + one(bottom as int);
    lemma_two(top, bottom);
    lemma_one(top);
    lemma_second(bottom);
    lemma_csi(both, 0x72);
    lemma_csi(first, 0x72);
    lemma_csi(second, 0x72);
    vt_laws::law_control_sequence(frame, s, both, 0x72);
    vt_laws::law_control_sequence(frame, s, first, 0x72);
    vt_laws::law_control_sequence(frame, s, second, 0x72);
    lemma_region_text(t, b);
    lemma_region_text(t, last);
    lemma_region_text(1, b);
}

proof fn lemma_region_text(t: int, b: int)
    ensures
        text::bytes("\x1b[") + text::digits((t + 1) as nat) + text::bytes(";") + text::digits(
            (b + 1) as nat,
        ) + text::bytes("r") == csi(two(t + 1, b + 1), 0x72),
{
    vt_laws::lemma_introducer();
    reveal_strlit(";");
    reveal_strlit("r");
    is_ascii_chars_encode_utf8(";"@);
    is_ascii_chars_encode_utf8("r"@);
    assert(text::bytes(";") =~= seq![0x3bu8]);
    assert(text::bytes("r") =~= seq![0x72u8]);
    assert(text::bytes("\x1b[") + text::digits((t + 1) as nat) + text::bytes(";") + text::digits(
        (b + 1) as nat,
    ) + text::bytes("r") =~= csi(two(t + 1, b + 1), 0x72));
}

/// Without parameters the whole inner screen scrolls again.
pub proof fn law_scroll_region_is_reset(frame: Frame, s: Filter)
    requires
        s.parser == Parser::Ground,
    ensures
        ({
            let input = seq![0x1bu8, 0x5bu8, 0x72u8];
            let after = vt_model::run_state(frame, s, input);
            &&& vt_model::run_output(frame, s, input) == csi(two(2, inner(frame.height) + 1), 0x72)
            &&& after == (Filter {
                scroll_top: 1,
                scroll_bottom: (inner(frame.height)) as u16,
                ..s
            })
            &&& after.bottom(frame) == inner(frame.height)
        }),
{
    lemma_none();
    lemma_csi(none(), 0x72);
    assert(csi(none(), 0x72) =~= seq![0x1bu8, 0x5bu8, 0x72u8]);
    vt_laws::law_control_sequence(frame, s, none(), 0x72);
    lemma_region_text(1, inner(frame.height));
}

// Relative movements.

/// The row `n` above `row`, or the first.
pub open spec fn up_from(row: u16, n: int) -> u16 {
    if row - n >= 1 {
        (row - n) as u16
    } else {
        1
    }
}

/// The row `n` below `row`, or the last.
pub open spec fn down_from(row: u16, n: int, last: int) -> u16 {
    if row + n <= last {
        (row + n) as u16
    } else {
        last as u16
    }
}

/// How many rows a movement asks for.
pub open spec fn steps(n: u16) -> int {
    if n == 0 {
        1
    } else {
        n as int
    }
}

/// Going up or down by `n` rows passes unchanged, and the tracked row goes
/// along as far as the inner screen reaches. Going to the start of a line above
/// or below does the same and goes to the first inner column.
pub proof fn law_relative_rows(frame: Frame, s: Filter, n: u16)
    requires
        s.parser == Parser::Ground,
    ensures
        ({
            let p = one(n as int);
            let home = text::bytes("\x1b[2G");
            let up = Filter { cursor_row: up_from(s.cursor_row, steps(n)), ..s };
            let down = Filter {
                cursor_row: down_from(s.cursor_row, steps(n), inner(frame.height)),
                ..s
            };
            &&& vt_model::run_state(frame, s, csi(p, 0x41)) == up
            &&& vt_model::run_state(frame, s, csi(p, 0x42)) == down
            &&& vt_model::run_state(frame, s, csi(p, 0x45)) == down
            &&& vt_model::run_state(frame, s, csi(p, 0x46)) == up
            &&& vt_model::run_output(frame, s, csi(p, 0x41)) == csi(p, 0x41)
            &&& vt_model::run_output(frame, s, csi(p, 0x42)) == csi(p, 0x42)
            &&& vt_model::run_output(frame, s, csi(p, 0x45)) == csi(p, 0x42) + home
            &&& vt_model::run_output(frame, s, csi(p, 0x46)) == csi(p, 0x41) + home
        }),
{
    let p = one(n as int);
    lemma_one(n);
    lemma_csi(p, 0x41);
    lemma_csi(p, 0x42);
    lemma_csi(p, 0x45);
    lemma_csi(p, 0x46);
    vt_laws::law_control_sequence(frame, s, p, 0x41);
    vt_laws::law_control_sequence(frame, s, p, 0x42);
    vt_laws::law_control_sequence(frame, s, p, 0x45);
    vt_laws::law_control_sequence(frame, s, p, 0x46);
}

/// A movement that names no number goes by one row.
pub proof fn law_relative_rows_by_one(frame: Frame, s: Filter)
    requires
        s.parser == Parser::Ground,
    ensures
        ({
            let home = text::bytes("\x1b[2G");
            let up = Filter { cursor_row: up_from(s.cursor_row, 1), ..s };
            let down = Filter {
                cursor_row: down_from(s.cursor_row, 1, inner(frame.height)),
                ..s
            };
            &&& vt_model::run_state(frame, s, csi(none(), 0x41)) == up
            &&& vt_model::run_state(frame, s, csi(none(), 0x42)) == down
            &&& vt_model::run_state(frame, s, csi(none(), 0x45)) == down
            &&& vt_model::run_state(frame, s, csi(none(), 0x46)) == up
            &&& vt_model::run_output(frame, s, csi(none(), 0x41)) == csi(none(), 0x41)
            &&& vt_model::run_output(frame, s, csi(none(), 0x42)) == csi(none(), 0x42)
            &&& vt_model::run_output(frame, s, csi(none(), 0x45)) == csi(none(), 0x42) + home
            &&& vt_model::run_output(frame, s, csi(none(), 0x46)) == csi(none(), 0x41) + home
        }),
{
    lemma_none();
    lemma_csi(none(), 0x41);
    lemma_csi(none(), 0x42);
    lemma_csi(none(), 0x45);
    lemma_csi(none(), 0x46);
    vt_laws::law_control_sequence(frame, s, none(), 0x41);
    vt_laws::law_control_sequence(frame, s, none(), 0x42);
    vt_laws::law_control_sequence(frame, s, none(), 0x45);
    vt_laws::law_control_sequence(frame, s, none(), 0x46);
}

// Parameters in general.

/// The numbers of the parameters are those between the semicolons, in order; a
/// field that is no number counts as 0, and no parameters are no numbers.
pub proof fn law_arguments(field: Seq<u8>, rest: Seq<u8>)
    requires
        text::is_one_field(field, 0x3b),
        field.len() == 0 || field[0] != 0x3f,
    ensures
        ({
            let n: u16 = match text::number(field) {
                Some(n) => n,
                None => 0,
            };
            let tail: Seq<u16> = text::fields(rest, 0x3b).map_values(
                |f: Seq<u8>|
                    match text::number(f) {
                        Some(n) => n,
                        None => 0,
                    },
            );
            &&& field.len() > 0 ==> vt_model::arguments(field) == seq![n]
            &&& vt_model::arguments(field + seq![0x3bu8] + rest) == seq![n] + tail
        }),
        vt_model::arguments(Seq::empty()) == Seq::<u16>::empty(),
{
    let n: u16 = match text::number(field) {
        Some(n) => n,
        None => 0,
    };
    let tail: Seq<u16> = text::fields(rest, 0x3b).map_values(
        |f: Seq<u8>|
            match text::number(f) {
                Some(n) => n,
                None => 0,
            },
    );
    let whole = field + seq![0x3bu8] + rest;
    text::lemma_one_field(field, 0x3b);
    text::law_fields_of_joined(field, rest, 0x3b);
    assert(field.push(0x3b) + rest =~= whole);
    if field.len() > 0 {
        assert(whole[0] == field[0]);
        assert(vt_model::arguments(field) =~= seq![n]);
    }
    assert(vt_model::arguments(whole) =~= seq![n] + tail);
}

/// The private mark is no part of the numbers.
pub proof fn law_private_arguments(params: Seq<u8>)
    requires
        params.len() == 0 || params[0] != 0x3f,
    ensures
        vt_model::arguments(seq![0x3fu8] + params) == vt_model::arguments(params),
{
    assert((seq![0x3fu8] + params).drop_first() =~= params);
}

/// Positions, regions and erasures go by the numbers of their parameters alone,
/// however they are written.
#[verifier::rlimit(40)]
pub proof fn law_numbers_decide(frame: Frame, s: Filter, p: Seq<u8>, q: Seq<u8>, f: u8)
    requires
        s.parser == Parser::Ground,
        vt_model::all_params(p) && vt_model::all_params(q),
        p.len() == 0 || p[0] != 0x3c,
        q.len() == 0 || q[0] != 0x3c,
        vt_model::arguments(p) == vt_model::arguments(q),
        ({
            let mode = vt_model::arguments(p);
            ||| f == 0x48 || f == 0x66 || f == 0x64 || f == 0x47 || f == 0x60
            ||| f == 0x72 && (p.len() == 0 || p[0] != 0x3f) && (q.len() == 0 || q[0] != 0x3f)
            ||| f == 0x4a && (mode.len() == 0 || mode[0] <= 3)
            ||| f == 0x4b && (mode.len() == 0 || mode[0] <= 2)
        }),
    ensures
        vt_model::run_output(frame, s, csi(p, f)) == vt_model::run_output(frame, s, csi(q, f)),
        vt_model::run_state(frame, s, csi(p, f)) == vt_model::run_state(frame, s, csi(q, f)),
{
    lemma_csi(p, f);
    lemma_csi(q, f);
    vt_laws::law_control_sequence(frame, s, p, f);
    vt_laws::law_control_sequence(frame, s, q, f);
}

/// Relative movements and scrolling pass as they are written, but what they do
/// to the tracked rows goes by their numbers alone.
pub proof fn law_numbers_move(frame: Frame, s: Filter, p: Seq<u8>, q: Seq<u8>, f: u8)
    requires
        s.parser == Parser::Ground,
        vt_model::all_params(p) && vt_model::all_params(q),
        p.len() == 0 || p[0] != 0x3c,
        q.len() == 0 || q[0] != 0x3c,
        vt_model::arguments(p) == vt_model::arguments(q),
        f == 0x41 || f == 0x42 || f == 0x45 || f == 0x46 || f == 0x53 || f == 0x54,
        f == 0x54 ==> (p.len() == 0 || p[0] != 0x3f) && (q.len() == 0 || q[0] != 0x3f),
    ensures
        vt_model::run_state(frame, s, csi(p, f)) == vt_model::run_state(frame, s, csi(q, f)),
        f == 0x41 || f == 0x42 ==> vt_model::run_output(frame, s, csi(p, f)) == csi(p, f),
        f == 0x45 ==> vt_model::run_output(frame, s, csi(p, f)) == csi(p, 0x42) + text::bytes(
            "\x1b[2G",
        ),
        f == 0x46 ==> vt_model::run_output(frame, s, csi(p, f)) == csi(p, 0x41) + text::bytes(
            "\x1b[2G",
        ),
        f == 0x53 || f == 0x54 ==> exists|repair: Seq<u8>|
            #![trigger csi(p, f) + repair]
            vt_model::run_output(frame, s, csi(p, f)) == csi(p, f) + repair
                && vt_model::run_output(frame, s, csi(q, f)) == csi(q, f) + repair,
{
    lemma_csi(p, f);
    lemma_csi(q, f);
    lemma_csi(p, 0x42);
    lemma_csi(p, 0x41);
    vt_laws::law_control_sequence(frame, s, p, f);
    vt_laws::law_control_sequence(frame, s, q, f);
    if f == 0x53 {
        let repair = vt_model::repair(
            frame,
            vt_model::scrolled_up_first(
                s.scroll_top,
                s.bottom(frame),
                vt_model::position(p, 0),
            ),
            vt_model::below(s.bottom(frame), 1),
        );
        assert(vt_model::run_output(frame, s, csi(p, f)) == csi(p, f) + repair);
    }
    if f == 0x54 {
        let repair = vt_model::repair(
            frame,
            vt_model::below(s.scroll_top, 1),
            vt_model::scrolled_down_last(
                s.scroll_top,
                s.bottom(frame),
                vt_model::position(p, 0),
            ),
        );
        assert(vt_model::run_output(frame, s, csi(p, f)) == csi(p, f) + repair);
    }
}

} // verus!
