//! What of the program's output passes as it is, and what the few sequences
//! about modes, strings and renditions do, byte for byte.

use crate::dimming::Dimming;
use crate::text;
use crate::vt_filter;
use crate::vt_laws;
use crate::vt_model;
use crate::vt_model::{Filter, Frame, Parser};
use crate::vt_repairs;
use crate::vt_sequences;
use vstd::prelude::*;
use vstd::utf8::*;

verus! {

// Beginnings.

/// A fresh filter stands between sequences, with the cursor in the first row,
/// the whole screen scrolling, nothing due and nothing dimmed or saved.
pub proof fn law_fresh_filter()
    ensures
        Filter::initial() == (Filter {
            parser: Parser::Ground,
            needs_border_redraw: false,
            cursor_row: 1,
            scroll_top: 1,
            scroll_bottom: 0,
            dimming: Dimming::Off,
            cursor_saved_faint: false,
            screen_saved_faint: false,
        }),
{
}

/// Putting a filter back puts its rows back, and dimming it changes nothing
/// else.
pub proof fn law_homed_filter(s: Filter, dimming: Dimming)
    ensures
        s.homed() == (Filter { cursor_row: 1, scroll_top: 1, scroll_bottom: 0, ..s }),
        s.dimmed(dimming) == (Filter { dimming, ..s }),
{
}

/// The frame of a size and a look: a cell sets its colour, draws its character
/// and goes back to the default foreground.
pub proof fn law_frame_of(width: u16, height: u16, border_info: vt_filter::BorderInfo)
    ensures
        vt_filter::frame_of(width, height, &border_info) == (Frame {
            width,
            height,
            cell: encode_utf8(border_info.color_seq@) + encode_utf8(
                seq![border_info.vertical_char],
            ) + text::bytes("\x1b[39m"),
        }),
{
}

// Text and strings.

/// Bytes other than ESC, the 8-bit introducer, CR and LF pass.
pub proof fn law_plain_bytes(frame: Frame, s: Filter, input: Seq<u8>)
    requires
        s.parser == Parser::Ground,
        forall|i: int|
            0 <= i < input.len() ==> #[trigger] input[i] != 0x1b && input[i] != 0x9b && input[i]
                != 0x0d && input[i] != 0x0a,
    ensures
        vt_model::run_output(frame, s, input) == input,
        vt_model::run_state(frame, s, input) == s,
{
    vt_laws::law_text_passes(frame, s, input);
}

/// Nothing in, nothing out.
pub proof fn law_nothing(frame: Frame, s: Filter)
    ensures
        vt_model::run_output(frame, s, Seq::empty()) == Seq::<u8>::empty(),
        vt_model::run_state(frame, s, Seq::empty()) == s,
{
}

/// Two bytes that start with ESC.
proof fn lemma_escape(frame: Frame, s: Filter, b: u8)
    requires
        s.parser == Parser::Ground,
    ensures
        vt_model::run_output(frame, s, seq![0x1bu8, b]) == vt_model::emitted(
            frame,
            s.in_parser(Parser::Escape),
            b,
        ),
        vt_model::run_state(frame, s, seq![0x1bu8, b]) == vt_model::next(
            frame,
            s.in_parser(Parser::Escape),
            b,
        ),
{
    reveal(vt_model::next);
    reveal(vt_model::emitted);
    assert(seq![0x1bu8, b] =~= seq![0x1bu8] + seq![b]);
    vt_laws::law_split(frame, s, seq![0x1bu8], seq![b]);
    vt_laws::lemma_one_byte(frame, s, 0x1b);
    vt_laws::lemma_one_byte(frame, s.in_parser(Parser::Escape), b);
    let out = vt_model::emitted(frame, s.in_parser(Parser::Escape), b);
    assert(Seq::<u8>::empty() + out =~= out);
}

/// `ESC ]` opens an operating system command and `ESC P` a device control
/// string; both pass.
pub proof fn law_strings_open(frame: Frame, s: Filter)
    requires
        s.parser == Parser::Ground,
    ensures
        vt_model::run_output(frame, s, seq![0x1bu8, 0x5du8]) == seq![0x1bu8, 0x5du8],
        vt_model::run_state(frame, s, seq![0x1bu8, 0x5du8]) == (Filter {
            parser: Parser::Osc,
            ..s
        }),
        vt_model::run_output(frame, s, seq![0x1bu8, 0x50u8]) == seq![0x1bu8, 0x50u8],
        vt_model::run_state(frame, s, seq![0x1bu8, 0x50u8]) == (Filter {
            parser: Parser::Dcs,
            ..s
        }),
{
    reveal(vt_model::next);
    reveal(vt_model::emitted);
    lemma_escape(frame, s, 0x5d);
    lemma_escape(frame, s, 0x50);
}

/// Inside a string every byte but ESC passes and leaves it open, but for BEL,
/// which ends an operating system command.
pub proof fn law_string_bytes(frame: Frame, s: Filter, b: u8)
    requires
        s.parser == Parser::Osc || s.parser == Parser::Dcs,
        b != 0x1b,
    ensures
        vt_model::run_output(frame, s, seq![b]) == seq![b],
        vt_model::run_state(frame, s, seq![b]) == (if s.parser == Parser::Osc && b == 0x07 {
            Filter { parser: Parser::Ground, ..s }
        } else {
            s
        }),
{
    reveal(vt_model::next);
    reveal(vt_model::emitted);
    vt_laws::lemma_one_byte(frame, s, b);
}

/// Inside a string ESC and a byte pass together, and end it if that byte is a
/// backslash.
pub proof fn law_string_escapes(frame: Frame, s: Filter, b: u8)
    requires
        s.parser == Parser::Osc || s.parser == Parser::Dcs,
    ensures
        vt_model::run_output(frame, s, seq![0x1bu8, b]) == seq![0x1bu8, b],
        vt_model::run_state(frame, s, seq![0x1bu8, b]) == (if b == 0x5c {
            Filter { parser: Parser::Ground, ..s }
        } else {
            s
        }),
{
    reveal(vt_model::next);
    reveal(vt_model::emitted);
    assert(seq![0x1bu8, b] =~= seq![0x1bu8] + seq![b]);
    vt_laws::law_split(frame, s, seq![0x1bu8], seq![b]);
    vt_laws::lemma_one_byte(frame, s, 0x1b);
    let mid = vt_model::run_state(frame, s, seq![0x1bu8]);
    vt_laws::lemma_one_byte(frame, mid, b);
    assert(Seq::<u8>::empty() + seq![0x1bu8, b] =~= seq![0x1bu8, b]);
}

/// A whole command or string passes, and nothing of it is taken for anything
/// else.
pub proof fn law_whole_strings(frame: Frame, s: Filter, body: Seq<u8>)
    requires
        s.parser == Parser::Ground,
        forall|i: int| 0 <= i < body.len() ==> #[trigger] body[i] != 0x1b && body[i] != 0x07,
    ensures
        ({
            let bel = seq![0x1bu8, 0x5du8] + body + seq![0x07u8];
            let st = seq![0x1bu8, 0x5du8] + body + seq![0x1bu8, 0x5cu8];
            let dcs = seq![0x1bu8, 0x50u8] + body + seq![0x1bu8, 0x5cu8];
            &&& vt_model::run_output(frame, s, bel) == bel
            &&& vt_model::run_state(frame, s, bel) == s
            &&& vt_model::run_output(frame, s, st) == st
            &&& vt_model::run_state(frame, s, st) == s
            &&& vt_model::run_output(frame, s, dcs) == dcs
            &&& vt_model::run_state(frame, s, dcs) == s
        }),
{
    let osc = Filter { parser: Parser::Osc, ..s };
    let in_dcs = Filter { parser: Parser::Dcs, ..s };
    law_strings_open(frame, s);
    lemma_string_body(frame, osc, body);
    lemma_string_body(frame, in_dcs, body);
    law_string_bytes(frame, osc, 0x07);
    law_string_escapes(frame, osc, 0x5c);
    law_string_escapes(frame, in_dcs, 0x5c);
    let a = seq![0x1bu8, 0x5du8];
    let d = seq![0x1bu8, 0x50u8];
    let st = seq![0x1bu8, 0x5cu8];
    vt_laws::law_split(frame, s, a, body);
    vt_laws::law_split(frame, s, a + body, seq![0x07u8]);
    vt_laws::law_split(frame, s, a + body, st);
    vt_laws::law_split(frame, s, d, body);
    vt_laws::law_split(frame, s, d + body, st);
}

proof fn lemma_string_body(frame: Frame, s: Filter, body: Seq<u8>)
    requires
        s.parser == Parser::Osc || s.parser == Parser::Dcs,
        forall|i: int| 0 <= i < body.len() ==> #[trigger] body[i] != 0x1b && body[i] != 0x07,
    ensures
        vt_model::run_output(frame, s, body) == body,
        vt_model::run_state(frame, s, body) == s,
    decreases body.len(),
{
    if body.len() > 0 {
        let front = body.drop_last();
        let b = body.last();
        assert(b != 0x1b && b != 0x07);
        lemma_string_body(frame, s, front);
        law_string_bytes(frame, s, b);
        assert(body =~= front + seq![b]);
        vt_laws::law_split(frame, s, front, seq![b]);
    } else {
        assert(body =~= Seq::empty());
    }
}

// Control sequences that pass.

/// Until its last byte a control sequence is held back, and the 8-bit
/// introducer opens one like `ESC [` does.
pub proof fn law_introducers(frame: Frame, s: Filter, params: Seq<u8>)
    requires
        s.parser == Parser::Ground,
        forall|i: int| 0 <= i < params.len() ==> 0x20 <= #[trigger] params[i] <= 0x3f,
    ensures
        vt_model::run_output(frame, s, seq![0x1bu8, 0x5bu8] + params) == Seq::<u8>::empty(),
        vt_model::run_state(frame, s, seq![0x1bu8, 0x5bu8] + params) == (Filter {
            parser: Parser::Csi(params),
            ..s
        }),
        vt_model::run_output(frame, s, seq![0x9bu8] + params) == Seq::<u8>::empty(),
        vt_model::run_state(frame, s, seq![0x9bu8] + params) == (Filter {
            parser: Parser::Csi(params),
            ..s
        }),
    decreases params.len(),
{
    reveal(vt_model::next);
    reveal(vt_model::emitted);
    if params.len() == 0 {
        lemma_escape(frame, s, 0x5b);
        vt_laws::lemma_one_byte(frame, s, 0x9b);
        assert(seq![0x1bu8, 0x5bu8] + params =~= seq![0x1bu8, 0x5bu8]);
        assert(seq![0x9bu8] + params =~= seq![0x9bu8]);
        assert(params =~= Seq::empty());
    } else {
        let front = params.drop_last();
        let b = params.last();
        assert(0x20 <= b <= 0x3f);
        law_introducers(frame, s, front);
        let held = Filter { parser: Parser::Csi(front), ..s };
        vt_laws::lemma_one_byte(frame, held, b);
        assert(front.push(b) =~= params);
        assert(seq![0x1bu8, 0x5bu8] + params =~= (seq![0x1bu8, 0x5bu8] + front) + seq![b]);
        assert(seq![0x9bu8] + params =~= (seq![0x9bu8] + front) + seq![b]);
        vt_laws::law_split(frame, s, seq![0x1bu8, 0x5bu8] + front, seq![b]);
        vt_laws::law_split(frame, s, seq![0x9bu8] + front, seq![b]);
        assert(Seq::<u8>::empty() + Seq::<u8>::empty() =~= Seq::<u8>::empty());
    }
}

/// A byte that cannot end a control sequence lets through what was held back,
/// and itself.
pub proof fn law_stray_bytes(frame: Frame, s: Filter, params: Seq<u8>, b: u8)
    requires
        s.parser == Parser::Ground,
        vt_model::all_params(params),
        b < 0x20 || b > 0x7e,
    ensures
        vt_model::run_output(frame, s, vt_sequences::csi(params, b)) == vt_sequences::csi(
            params,
            b,
        ),
        vt_model::run_state(frame, s, vt_sequences::csi(params, b)) == s,
{
    vt_sequences::lemma_csi(params, b);
    vt_laws::law_broken_sequences_pass(frame, s, params, b);
}

/// The final bytes of the sequences that the filter does not let pass alone, or
/// that it has to know of: `@ A B E F G H J K L M P S T X`, the grave accent
/// and `d f h l m p r s u`.
pub open spec fn is_known(f: u8) -> bool {
    ||| f == 0x40 || f == 0x41 || f == 0x42 || f == 0x45 || f == 0x46 || f == 0x47 || f == 0x48
    ||| f == 0x4a || f == 0x4b || f == 0x4c || f == 0x4d || f == 0x50 || f == 0x53 || f == 0x54
    ||| f == 0x58 || f == 0x60 || f == 0x64 || f == 0x66 || f == 0x68 || f == 0x6c || f == 0x6d
    ||| f == 0x70 || f == 0x72 || f == 0x73 || f == 0x75
}

/// All other sequences pass and change nothing, and so do `h` and `l` without
/// the private mark, `r` and `T` with it, `s` and `u` with parameters, and `m`
/// and `p` where they mean something else than renditions and soft resets.
pub proof fn law_unknown_sequences(frame: Frame, s: Filter, params: Seq<u8>, f: u8)
    requires
        s.parser == Parser::Ground,
        vt_model::all_params(params),
        0x40 <= f <= 0x7e,
        params.len() == 0 || params[0] != 0x3c,
        ({
            let private = params.len() > 0 && params[0] == 0x3f;
            ||| !is_known(f)
            ||| (f == 0x68 || f == 0x6c) && !private
            ||| (f == 0x72 || f == 0x54) && private
            ||| (f == 0x73 || f == 0x75) && params.len() > 0
            ||| f == 0x6d && params.len() > 0 && !(0x30 <= params[0] <= 0x3b)
            ||| f == 0x70 && params != seq![0x21u8]
        }),
    ensures
        vt_model::run_output(frame, s, vt_sequences::csi(params, f)) == vt_sequences::csi(
            params,
            f,
        ),
        vt_model::run_state(frame, s, vt_sequences::csi(params, f)) == s,
{
    vt_sequences::lemma_csi(params, f);
    vt_laws::law_control_sequence(frame, s, params, f);
}

/// Where nothing is dimmed, selecting a rendition, a soft reset, and saving and
/// restoring the cursor pass alone.
pub proof fn law_renditions_pass(frame: Frame, s: Filter, params: Seq<u8>, f: u8)
    requires
        s.parser == Parser::Ground,
        s.dimming == Dimming::Off,
        vt_model::all_params(params),
        params.len() == 0 || params[0] != 0x3c,
        f == 0x6d || f == 0x70 || f == 0x73 || f == 0x75,
    ensures
        vt_model::run_output(frame, s, vt_sequences::csi(params, f)) == vt_sequences::csi(
            params,
            f,
        ),
        !s.cursor_saved_faint ==> vt_model::run_state(frame, s, vt_sequences::csi(params, f)) == s,
{
    vt_sequences::lemma_csi(params, f);
    vt_laws::law_control_sequence(frame, s, params, f);
}

/// Escape sequences other than `ESC [`, those that open strings, `ESC M`,
/// `ESC 7`, `ESC 8` and `ESC c` pass and change nothing.
pub proof fn law_unknown_escapes(frame: Frame, s: Filter, b: u8)
    requires
        s.parser == Parser::Ground,
        b != 0x5b && b != 0x5d && b != 0x50 && b != 0x4d && b != 0x37 && b != 0x38 && b != 0x63,
    ensures
        vt_model::run_output(frame, s, seq![0x1bu8, b]) == seq![0x1bu8, b],
        vt_model::run_state(frame, s, seq![0x1bu8, b]) == s,
{
    reveal(vt_model::next);
    reveal(vt_model::emitted);
    lemma_escape(frame, s, b);
}

/// A reset of the terminal passes, homes the cursor, lets the whole screen
/// scroll and makes a redraw of the border due. Faint content is faint again
/// after it.
pub proof fn law_terminal_reset(frame: Frame, s: Filter)
    requires
        s.parser == Parser::Ground,
    ensures
        vt_model::run_output(frame, s, seq![0x1bu8, 0x63u8]) == (if s.dimming == Dimming::Faint {
            seq![0x1bu8, 0x63u8] + text::bytes("\x1b[2m")
        } else {
            seq![0x1bu8, 0x63u8]
        }),
        vt_model::run_state(frame, s, seq![0x1bu8, 0x63u8]) == (Filter {
            needs_border_redraw: true,
            cursor_row: 1,
            scroll_top: 1,
            scroll_bottom: 0,
            cursor_saved_faint: false,
            screen_saved_faint: false,
            ..s
        }),
{
    reveal(vt_model::next);
    reveal(vt_model::emitted);
    lemma_escape(frame, s, 0x63);
}

// Modes.

/// `ESC [ ?`, parameters and `h` or `l`.
pub open spec fn mode_switch(body: Seq<u8>, f: u8) -> Seq<u8> {
    vt_sequences::csi(seq![0x3fu8] + body, f)
}

proof fn lemma_mode(frame: Frame, s: Filter, n: u16, f: u8)
    requires
        s.parser == Parser::Ground,
        f == 0x68 || f == 0x6c,
    ensures
        ({
            let params = seq![0x3fu8] + vt_sequences::one(n as int);
            &&& vt_model::run_output(frame, s, mode_switch(vt_sequences::one(n as int), f))
                == vt_model::csi_output(frame, s, params, f)
            &&& vt_model::run_state(frame, s, mode_switch(vt_sequences::one(n as int), f))
                == vt_model::csi_state(frame, s, params, f)
            &&& vt_model::is_private(params)
            &&& !vt_model::is_mouse_report(params)
            &&& vt_model::arguments(params) == seq![n]
            &&& params.drop_first() == vt_sequences::one(n as int)
            &&& vt_model::sequence(params, f) == mode_switch(vt_sequences::one(n as int), f)
        }),
{
    let p = vt_sequences::one(n as int);
    let params = seq![0x3fu8] + p;
    vt_sequences::lemma_one(n);
    assert forall|i: int| 0 <= i < params.len() implies vt_model::is_param_byte(
        #[trigger] params[i],
    ) by {
        if i > 0 {
            assert(vt_model::is_param_byte(p[i - 1]));
        }
    }
    assert(params.drop_first() =~= p);
    vt_sequences::lemma_csi(params, f);
    vt_laws::law_control_sequence(frame, s, params, f);
}

/// The mode numbers that matter, as bytes.
proof fn lemma_mode_numbers(n: u16)
    ensures
        (vt_sequences::one(n as int) == text::bytes("69")) == (n == 69),
        (vt_sequences::one(n as int) == text::bytes("47")) == (n == 47),
        (vt_sequences::one(n as int) == text::bytes("1047")) == (n == 1047),
        (vt_sequences::one(n as int) == text::bytes("1049")) == (n == 1049),
{
    reveal_strlit("69");
    reveal_strlit("47");
    reveal_strlit("1047");
    reveal_strlit("1049");
    is_ascii_chars_encode_utf8("69"@);
    is_ascii_chars_encode_utf8("47"@);
    is_ascii_chars_encode_utf8("1047"@);
    is_ascii_chars_encode_utf8("1049"@);
    reveal_with_fuel(text::digits, 5);
    assert(text::digits(69) =~= text::bytes("69"));
    assert(text::digits(47) =~= text::bytes("47"));
    assert(text::digits(1047) =~= text::bytes("1047"));
    assert(text::digits(1049) =~= text::bytes("1049"));
    text::law_numbers_read_back(n);
    text::law_numbers_read_back(69);
    text::law_numbers_read_back(47);
    text::law_numbers_read_back(1047);
    text::law_numbers_read_back(1049);
}

/// Setting or resetting a private mode passes, but for the left and right
/// margin mode, which is swallowed. Those that switch the alternate screen home
/// the cursor, let the whole screen scroll and make a redraw of the border due.
pub proof fn law_modes(frame: Frame, s: Filter, n: u16, f: u8)
    requires
        s.parser == Parser::Ground,
        s.dimming == Dimming::Off,
        !s.cursor_saved_faint && !s.screen_saved_faint,
        f == 0x68 || f == 0x6c,
    ensures
        ({
            let input = mode_switch(vt_sequences::one(n as int), f);
            &&& vt_model::run_output(frame, s, input) == (if n == 69 {
                Seq::empty()
            } else {
                input
            })
            &&& vt_model::run_state(frame, s, input) == (if n == 47 || n == 1047 || n == 1049 {
                Filter {
                    needs_border_redraw: true,
                    cursor_row: 1,
                    scroll_top: 1,
                    scroll_bottom: 0,
                    ..s
                }
            } else {
                s
            })
        }),
{
    lemma_mode(frame, s, n, f);
    lemma_mode_numbers(n);
}

/// With the content dimmed or lifted they do the same, and what is known of
/// saved renditions follows them.
pub proof fn law_modes_while_dimming(frame: Frame, s: Filter, n: u16, f: u8)
    requires
        s.parser == Parser::Ground,
        f == 0x68 || f == 0x6c,
        n != 69,
    ensures
        ({
            let input = mode_switch(vt_sequences::one(n as int), f);
            let out = vt_model::run_output(frame, s, input);
            let after = vt_model::run_state(frame, s, input);
            let faint = s.dimming == Dimming::Faint;
            let back = f == 0x6c && (n == 1048 || n == 1049);
            &&& after.needs_border_redraw == (s.needs_border_redraw || n == 47 || n == 1047 || n
                == 1049)
            &&& after.cursor_saved_faint == (if f == 0x68 && n == 1048 {
                faint
            } else {
                s.cursor_saved_faint
            })
            &&& after.screen_saved_faint == (if f == 0x68 && n == 1049 {
                faint
            } else {
                s.screen_saved_faint
            })
            &&& !back ==> out == input
            &&& back && faint ==> out == input + text::bytes("\x1b[2m")
            &&& back && s.dimming == Dimming::Lifted ==> out == (if n == 1048
                && s.cursor_saved_faint || n == 1049 && s.screen_saved_faint {
                input + text::bytes("\x1b[22m")
            } else {
                input
            })
        }),
{
    lemma_mode(frame, s, n, f);
    lemma_mode_numbers(n);
    let args = vt_model::arguments(seq![0x3fu8] + vt_sequences::one(n as int));
    assert(args[0] == n);
    assert(args.contains(n));
}

/// Several modes at once, or no number at all, pass.
pub proof fn law_other_modes(frame: Frame, s: Filter, body: Seq<u8>, f: u8)
    requires
        s.parser == Parser::Ground,
        s.dimming == Dimming::Off,
        !s.cursor_saved_faint && !s.screen_saved_faint,
        vt_model::all_params(body),
        f == 0x68 || f == 0x6c,
        body != text::bytes("69") && body != text::bytes("47") && body != text::bytes("1047")
            && body != text::bytes("1049"),
    ensures
        vt_model::run_output(frame, s, mode_switch(body, f)) == mode_switch(body, f),
        vt_model::run_state(frame, s, mode_switch(body, f)) == s,
{
    let params = seq![0x3fu8] + body;
    assert forall|i: int| 0 <= i < params.len() implies vt_model::is_param_byte(
        #[trigger] params[i],
    ) by {
        if i > 0 {
            assert(vt_model::is_param_byte(body[i - 1]));
        }
    }
    assert(params.drop_first() =~= body);
    vt_sequences::lemma_csi(params, f);
    vt_laws::law_control_sequence(frame, s, params, f);
}

/// Modes that save or restore a rendition do so among others, too.
pub proof fn law_saving_modes_among_others(frame: Frame, s: Filter, body: Seq<u8>)
    requires
        s.parser == Parser::Ground,
        vt_model::all_params(body),
        body.len() == 0 || body[0] != 0x3f,
        body != text::bytes("69"),
    ensures
        ({
            let modes = vt_model::arguments(body);
            let set = mode_switch(body, 0x68);
            let reset = mode_switch(body, 0x6c);
            let faint = s.dimming == Dimming::Faint;
            let lifted = s.dimming == Dimming::Lifted;
            let after = vt_model::run_state(frame, s, set);
            let cursor = modes.contains(1048);
            let screen = modes.contains(1049);
            &&& vt_model::run_output(frame, s, set) == set
            &&& after.cursor_saved_faint == (if cursor {
                faint
            } else {
                s.cursor_saved_faint
            })
            &&& after.screen_saved_faint == (if screen {
                faint
            } else {
                s.screen_saved_faint
            })
            &&& vt_model::run_output(frame, s, reset) == (if faint && (cursor || screen) {
                reset + text::bytes("\x1b[2m")
            } else if lifted && (cursor && s.cursor_saved_faint || screen && s.screen_saved_faint) {
                reset + text::bytes("\x1b[22m")
            } else {
                reset
            })
        }),
{
    let params = seq![0x3fu8] + body;
    assert forall|i: int| 0 <= i < params.len() implies vt_model::is_param_byte(
        #[trigger] params[i],
    ) by {
        if i > 0 {
            assert(vt_model::is_param_byte(body[i - 1]));
        }
    }
    assert(params.drop_first() =~= body);
    vt_sequences::law_private_arguments(body);
    vt_sequences::lemma_csi(params, 0x68);
    vt_sequences::lemma_csi(params, 0x6c);
    vt_laws::law_control_sequence(frame, s, params, 0x68);
    vt_laws::law_control_sequence(frame, s, params, 0x6c);
}

// Renditions.

/// `ESC 7` and `ESC 8` in the terms of the model.
proof fn lemma_cursor_escapes(frame: Frame, s: Filter)
    requires
        s.parser == Parser::Ground,
    ensures
        vt_model::run_output(frame, s, seq![0x1bu8, 0x37u8]) == seq![0x1bu8, 0x37u8],
        vt_model::run_state(frame, s, seq![0x1bu8, 0x37u8]) == vt_repairs::noted(s),
        vt_model::run_output(frame, s, seq![0x1bu8, 0x38u8]) == (
        if vt_model::escape_undoes_dimming(s, 0x38) {
            seq![0x1bu8, 0x38u8] + s.dimming.renewal()
        } else {
            seq![0x1bu8, 0x38u8]
        }),
        vt_model::run_state(frame, s, seq![0x1bu8, 0x38u8]) == s,
{
    reveal(vt_model::next);
    reveal(vt_model::emitted);
    lemma_escape(frame, s, 0x37);
    lemma_escape(frame, s, 0x38);
}

/// Faint content is made faint again after every sequence that selects a
/// rendition, a soft reset, and what restores a saved rendition.
pub proof fn law_faint_again(frame: Frame, s: Filter, params: Seq<u8>)
    requires
        s.parser == Parser::Ground,
        s.dimming == Dimming::Faint,
        vt_model::all_params(params),
        params.len() == 0 || 0x30 <= params[0] <= 0x3b,
    ensures
        ({
            let faint = text::bytes("\x1b[2m");
            let sgr = vt_sequences::csi(params, 0x6d);
            let soft = vt_sequences::csi(seq![0x21u8], 0x70);
            let restore = vt_sequences::csi(vt_sequences::none(), 0x75);
            let escape = seq![0x1bu8, 0x38u8];
            &&& vt_model::run_output(frame, s, sgr) == sgr + faint
            &&& vt_model::run_output(frame, s, soft) == soft + faint
            &&& vt_model::run_output(frame, s, restore) == restore + faint
            &&& vt_model::run_output(frame, s, escape) == escape + faint
        }),
{
    let bang = seq![0x21u8];
    let none = vt_sequences::none();
    vt_sequences::lemma_none();
    assert(vt_model::all_params(bang));
    vt_sequences::lemma_csi(params, 0x6d);
    vt_sequences::lemma_csi(bang, 0x70);
    vt_sequences::lemma_csi(none, 0x75);
    vt_laws::law_control_sequence(frame, s, params, 0x6d);
    vt_laws::law_control_sequence(frame, s, bang, 0x70);
    vt_laws::law_control_sequence(frame, s, none, 0x75);
    lemma_cursor_escapes(frame, s);
}

/// Undimmed content is left to the program, but for a rendition that was saved
/// while it was faint: that is lifted when it is restored.
pub proof fn law_lifted_only_when_saved_faint(frame: Frame, s: Filter, params: Seq<u8>)
    requires
        s.parser == Parser::Ground,
        s.dimming != Dimming::Faint,
        vt_model::all_params(params),
        params.len() == 0 || params[0] != 0x3c,
    ensures
        ({
            let lift = s.dimming == Dimming::Lifted && s.cursor_saved_faint;
            let sgr = vt_sequences::csi(params, 0x6d);
            let restore = vt_sequences::csi(vt_sequences::none(), 0x75);
            let escape = seq![0x1bu8, 0x38u8];
            &&& vt_model::run_output(frame, s, sgr) == sgr
            &&& vt_model::run_output(frame, s, restore) == (if lift {
                restore + text::bytes("\x1b[22m")
            } else {
                restore
            })
            &&& vt_model::run_output(frame, s, escape) == (if lift {
                escape + text::bytes("\x1b[22m")
            } else {
                escape
            })
        }),
{
    let none = vt_sequences::none();
    vt_sequences::lemma_none();
    vt_sequences::lemma_csi(params, 0x6d);
    vt_sequences::lemma_csi(none, 0x75);
    vt_laws::law_control_sequence(frame, s, params, 0x6d);
    vt_laws::law_control_sequence(frame, s, none, 0x75);
    lemma_cursor_escapes(frame, s);
}

/// Saving the cursor passes, and is remembered with whether the content was
/// faint; selecting or restoring a rendition changes nothing that is known, and
/// a soft reset forgets what was saved.
pub proof fn law_saves(frame: Frame, s: Filter, params: Seq<u8>)
    requires
        s.parser == Parser::Ground,
        vt_model::all_params(params),
        params.len() == 0 || params[0] != 0x3c,
    ensures
        ({
            let save = vt_sequences::csi(vt_sequences::none(), 0x73);
            let restore = vt_sequences::csi(vt_sequences::none(), 0x75);
            let soft = vt_sequences::csi(seq![0x21u8], 0x70);
            &&& vt_model::run_output(frame, s, seq![0x1bu8, 0x37u8]) == seq![0x1bu8, 0x37u8]
            &&& vt_model::run_state(frame, s, seq![0x1bu8, 0x37u8]) == vt_repairs::noted(s)
            &&& vt_model::run_output(frame, s, save) == save
            &&& vt_model::run_state(frame, s, save) == vt_repairs::noted(s)
            &&& vt_model::run_state(frame, s, seq![0x1bu8, 0x38u8]) == s
            &&& vt_model::run_state(frame, s, restore) == s
            &&& vt_model::run_state(frame, s, vt_sequences::csi(params, 0x6d)) == s
            &&& vt_model::run_state(frame, s, soft) == (Filter { cursor_saved_faint: false, ..s })
        }),
{
    let bang = seq![0x21u8];
    let none = vt_sequences::none();
    vt_sequences::lemma_none();
    assert(vt_model::all_params(bang));
    vt_sequences::lemma_csi(params, 0x6d);
    vt_sequences::lemma_csi(bang, 0x70);
    vt_sequences::lemma_csi(none, 0x73);
    vt_sequences::lemma_csi(none, 0x75);
    vt_laws::law_control_sequence(frame, s, params, 0x6d);
    vt_laws::law_control_sequence(frame, s, bang, 0x70);
    vt_laws::law_control_sequence(frame, s, none, 0x73);
    vt_laws::law_control_sequence(frame, s, none, 0x75);
    lemma_cursor_escapes(frame, s);
}

// Mouse reports of the program.

/// A report of a cell comes out as one of the cell a column and a row further;
/// a coordinate that is no number counts as the first.
pub proof fn law_reports_of_the_program(
    frame: Frame,
    s: Filter,
    button: Seq<u8>,
    x: Seq<u8>,
    y: Seq<u8>,
    f: u8,
)
    requires
        s.parser == Parser::Ground,
        vt_model::all_params(button) && vt_model::all_params(x) && vt_model::all_params(y),
        text::is_one_field(button, 0x3b) && text::is_one_field(x, 0x3b) && text::is_one_field(
            y,
            0x3b,
        ),
        0x40 <= f <= 0x7e,
        text::number(x) != Some(0xffffu16) && text::number(y) != Some(0xffffu16),
    ensures
        ({
            let semi = seq![0x3bu8];
            let input = vt_sequences::csi(seq![0x3cu8] + button + semi + x + semi + y, f);
            let column: int = match text::number(x) {
                Some(n) => n as int,
                None => 1,
            };
            let row: int = match text::number(y) {
                Some(n) => n as int,
                None => 1,
            };
            &&& vt_model::run_output(frame, s, input) == vt_sequences::csi(
                seq![0x3cu8] + button + semi + vt_sequences::one(column + 1) + semi
                    + vt_sequences::one(row + 1),
                f,
            )
            &&& vt_model::run_state(frame, s, input) == s
        }),
{
    let semi = seq![0x3bu8];
    let params = seq![0x3cu8] + button + semi + x + semi + y;
    let column: int = match text::number(x) {
        Some(n) => n as int,
        None => 1,
    };
    let row: int = match text::number(y) {
        Some(n) => n as int,
        None => 1,
    };
    lemma_report_params(button, x, y);
    vt_sequences::lemma_csi(params, f);
    vt_laws::law_control_sequence(frame, s, params, f);
    lemma_report_text(button, column, row, f);
    lemma_report_output(params, f, button, x, y);
}

proof fn lemma_report_params(button: Seq<u8>, x: Seq<u8>, y: Seq<u8>)
    requires
        vt_model::all_params(button) && vt_model::all_params(x) && vt_model::all_params(y),
        text::is_one_field(button, 0x3b) && text::is_one_field(x, 0x3b) && text::is_one_field(
            y,
            0x3b,
        ),
    ensures
        ({
            let params = seq![0x3cu8] + button + seq![0x3bu8] + x + seq![0x3bu8] + y;
            &&& vt_model::all_params(params)
            &&& params.len() > 0 && params[0] == 0x3c
            &&& text::fields(params.drop_first(), 0x3b) == seq![button, x, y]
        }),
{
    let semi = seq![0x3bu8];
    let params = seq![0x3cu8] + button + semi + x + semi + y;
    let body = button.push(0x3b) + (x.push(0x3b) + y);
    assert(params.drop_first() =~= body);
    assert forall|i: int| 0 <= i < params.len() implies vt_model::is_param_byte(
        #[trigger] params[i],
    ) by {
        let a = 1 + button.len();
        let b = a + 1 + x.len();
        if 0 < i < a {
            assert(vt_model::is_param_byte(button[i - 1]));
        } else if a < i < b {
            assert(vt_model::is_param_byte(x[i - a - 1]));
        } else if b < i {
            assert(vt_model::is_param_byte(y[i - b - 1]));
        }
    }
    text::lemma_one_field(button, 0x3b);
    text::lemma_one_field(x, 0x3b);
    text::lemma_one_field(y, 0x3b);
    text::law_fields_of_joined(x, y, 0x3b);
    text::law_fields_of_joined(button, x.push(0x3b) + y, 0x3b);
    assert(text::fields(body, 0x3b) =~= seq![button, x, y]);
}

proof fn lemma_report_text(button: Seq<u8>, column: int, row: int, f: u8)
    ensures
        (text::bytes("\x1b[<") + button + text::bytes(";") + vt_sequences::one(column + 1)
            + text::bytes(";") + vt_sequences::one(row + 1)).push(f) == vt_sequences::csi(
            seq![0x3cu8] + button + seq![0x3bu8] + vt_sequences::one(column + 1) + seq![0x3bu8]
                + vt_sequences::one(row + 1),
            f,
        ),
{
    reveal_strlit("\x1b[<");
    reveal_strlit(";");
    is_ascii_chars_encode_utf8("\x1b[<"@);
    is_ascii_chars_encode_utf8(";"@);
    assert(text::bytes("\x1b[<") =~= seq![0x1bu8, 0x5bu8, 0x3cu8]);
    assert(text::bytes(";") =~= seq![0x3bu8]);
    assert((text::bytes("\x1b[<") + button + text::bytes(";") + vt_sequences::one(column + 1)
        + text::bytes(";") + vt_sequences::one(row + 1)).push(f) =~= vt_sequences::csi(
        seq![0x3cu8] + button + seq![0x3bu8] + vt_sequences::one(column + 1) + seq![0x3bu8]
            + vt_sequences::one(row + 1),
        f,
    ));
}

proof fn lemma_report_output(params: Seq<u8>, f: u8, button: Seq<u8>, x: Seq<u8>, y: Seq<u8>)
    requires
        text::fields(params.drop_first(), 0x3b) == seq![button, x, y],
        text::number(x) != Some(0xffffu16) && text::number(y) != Some(0xffffu16),
    ensures
        ({
            let column: int = match text::number(x) {
                Some(n) => n as int,
                None => 1,
            };
            let row: int = match text::number(y) {
                Some(n) => n as int,
                None => 1,
            };
            vt_model::mouse_report(params, f) == (text::bytes("\x1b[<") + button + text::bytes(";")
                + vt_sequences::one(column + 1) + text::bytes(";") + vt_sequences::one(
                row + 1,
            )).push(f)
        }),
{
    let parts = text::fields(params.drop_first(), 0x3b);
    assert(parts[0] == button && parts[1] == x && parts[2] == y);
}

/// What has the mark of a report but not its three fields passes.
pub proof fn law_other_reports_of_the_program(frame: Frame, s: Filter, body: Seq<u8>, f: u8)
    requires
        s.parser == Parser::Ground,
        vt_model::all_params(body),
        text::fields(body, 0x3b).len() != 3,
        0x40 <= f <= 0x7e,
    ensures
        vt_model::run_output(frame, s, vt_sequences::csi(seq![0x3cu8] + body, f))
            == vt_sequences::csi(seq![0x3cu8] + body, f),
        vt_model::run_state(frame, s, vt_sequences::csi(seq![0x3cu8] + body, f)) == s,
{
    let params = seq![0x3cu8] + body;
    assert(params.drop_first() =~= body);
    assert forall|i: int| 0 <= i < params.len() implies vt_model::is_param_byte(
        #[trigger] params[i],
    ) by {
        if i > 0 {
            assert(vt_model::is_param_byte(body[i - 1]));
        }
    }
    vt_sequences::lemma_csi(params, f);
    vt_laws::law_control_sequence(frame, s, params, f);
}

} // verus!
