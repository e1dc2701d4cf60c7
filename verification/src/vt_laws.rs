//! What holds of the output filter as a whole.

use crate::codes;
use crate::dimming::Dimming;
use crate::mouse;
use crate::paste::Paste;
use crate::text;
use crate::vt_model;
use crate::vt_model::{Filter, Frame, Parser};
use vstd::prelude::*;
use vstd::utf8::*;

verus! {

proof fn lemma_joined(x: Seq<u8>, y: Seq<u8>, z: Seq<u8>)
    ensures
        (x + y) + z == x + (y + z),
        x + Seq::<u8>::empty() == x,
{
    assert((x + y) + z =~= x + (y + z));
    assert(x + Seq::<u8>::empty() =~= x);
}

/// Output may be cut anywhere: filtering the pieces one after the other gives
/// the same bytes and the same state as filtering the whole at once.
#[verifier::spinoff_prover]
pub proof fn law_split(frame: Frame, s: Filter, a: Seq<u8>, b: Seq<u8>)
    ensures
        vt_model::run_state(frame, s, a + b) == vt_model::run_state(
            frame,
            vt_model::run_state(frame, s, a),
            b,
        ),
        vt_model::run_output(frame, s, a + b) == vt_model::run_output(frame, s, a)
            + vt_model::run_output(frame, vt_model::run_state(frame, s, a), b),
    decreases b.len(),
{
    let mid = vt_model::run_state(frame, s, a);
    let out = vt_model::run_output(frame, s, a);
    if b.len() == 0 {
        assert(a + b =~= a);
        lemma_joined(out, out, out);
    } else {
        let front = b.drop_last();
        law_split(frame, s, a, front);
        assert((a + b).drop_last() =~= a + front);
        assert((a + b).last() == b.last());
        lemma_joined(
            out,
            vt_model::run_output(frame, mid, front),
            vt_model::emitted(frame, vt_model::run_state(frame, mid, front), b.last()),
        );
    }
}

/// A single byte does what `next` and `emitted` say.
pub proof fn lemma_one_byte(frame: Frame, s: Filter, b: u8)
    ensures
        vt_model::run_state(frame, s, seq![b]) == vt_model::next(frame, s, b),
        vt_model::run_output(frame, s, seq![b]) == vt_model::emitted(frame, s, b),
{
    assert(seq![b].drop_last() =~= Seq::<u8>::empty());
    assert(vt_model::run_state(frame, s, Seq::<u8>::empty()) == s);
    assert(vt_model::run_output(frame, s, Seq::<u8>::empty()) =~= Seq::<u8>::empty());
    assert(vt_model::run_output(frame, s, seq![b]) =~= vt_model::emitted(frame, s, b));
}

/// The byte has no meaning of its own between sequences.
pub open spec fn is_plain(b: u8) -> bool {
    b != codes::ESC && b != codes::CSI && b != codes::CR && b != codes::LF
}

/// Plain text passes unchanged and leaves the filter as it was.
pub proof fn law_text_passes(frame: Frame, s: Filter, input: Seq<u8>)
    requires
        s.parser == Parser::Ground,
        forall|i: int| 0 <= i < input.len() ==> is_plain(#[trigger] input[i]),
    ensures
        vt_model::run_output(frame, s, input) == input,
        vt_model::run_state(frame, s, input) == s,
    decreases input.len(),
{
    reveal(vt_model::next);
    reveal(vt_model::emitted);
    if input.len() > 0 {
        law_text_passes(frame, s, input.drop_last());
        assert(is_plain(input.last()));
        assert(input =~= input.drop_last() + seq![input.last()]);
    }
    assert(vt_model::run_output(frame, s, input) =~= input);
}

/// The filter is inside an operating system command or a device control string.
pub open spec fn in_string(s: Filter) -> bool {
    s.parser == Parser::Osc || s.parser == Parser::OscEscape || s.parser == Parser::Dcs || s.parser
        == Parser::DcsEscape
}

/// What the filter holds back inside a string: an escape that may end it.
pub open spec fn held(s: Filter) -> Seq<u8> {
    if s.parser == Parser::OscEscape || s.parser == Parser::DcsEscape {
        seq![codes::ESC]
    } else {
        Seq::empty()
    }
}

/// One byte inside a string passes, or is held back in place of what was.
proof fn lemma_string_byte(frame: Frame, s: Filter, b: u8)
    requires
        in_string(s),
    ensures
        held(s) + seq![b] == vt_model::emitted(frame, s, b) + held(vt_model::next(frame, s, b)),
        vt_model::next(frame, s, b) == s.in_parser(vt_model::next(frame, s, b).parser),
{
    reveal(vt_model::next);
    reveal(vt_model::emitted);
    assert(held(s) + seq![b] =~= vt_model::emitted(frame, s, b) + held(
        vt_model::next(frame, s, b),
    ));
}

/// Inside an operating system command or a device control string every byte
/// passes unchanged, whatever sequences it spells, up to and with the end of
/// the string; at most one escape is held back for the next byte. Nothing but
/// the parser changes.
#[verifier::rlimit(40)]
pub proof fn law_strings_pass(frame: Frame, s: Filter, input: Seq<u8>)
    requires
        in_string(s),
        forall|i: int|
            0 <= i < input.len() ==> in_string(
                #[trigger] vt_model::run_state(frame, s, input.take(i)),
            ),
    ensures
        held(s) + input == vt_model::run_output(frame, s, input) + held(
            vt_model::run_state(frame, s, input),
        ),
        vt_model::run_state(frame, s, input) == s.in_parser(
            vt_model::run_state(frame, s, input).parser,
        ),
    decreases input.len(),
{
    if input.len() == 0 {
        assert(held(s) + input =~= vt_model::run_output(frame, s, input) + held(s));
    } else {
        let front = input.drop_last();
        assert forall|i: int| 0 <= i < front.len() implies in_string(
            #[trigger] vt_model::run_state(frame, s, front.take(i)),
        ) by {
            assert(front.take(i) =~= input.take(i));
        }
        law_strings_pass(frame, s, front);
        assert(front =~= input.take(input.len() - 1));
        let mid = vt_model::run_state(frame, s, front);
        assert(in_string(mid));
        let b = input.last();
        lemma_string_byte(frame, mid, b);
        assert(input =~= front + seq![b]);
        let out = vt_model::run_output(frame, s, front);
        assert(held(s) + input =~= (held(s) + front) + seq![b]);
        assert(out + held(mid) + seq![b] =~= out + (held(mid) + seq![b]));
        assert(out + (vt_model::emitted(frame, mid, b) + held(vt_model::next(frame, mid, b)))
            =~= vt_model::run_output(frame, s, input) + held(vt_model::run_state(frame, s, input)));
    }
}

/// The bytes of a control sequence: introducer, parameters and final byte.
pub open spec fn control_sequence(params: Seq<u8>, f: u8) -> Seq<u8> {
    seq![codes::ESC, codes::OPEN_CSI] + params + seq![f]
}

/// `ESC [` as text is the two bytes of the introducer.
pub proof fn lemma_introducer()
    ensures
        text::bytes("\x1b[") == seq![codes::ESC, codes::OPEN_CSI],
{
    reveal_strlit("\x1b[");
    is_ascii_chars_encode_utf8("\x1b["@);
    assert(text::bytes("\x1b[") =~= seq![codes::ESC, codes::OPEN_CSI]);
}

/// The sequence that is let through is the one that came in.
pub proof fn lemma_sequence(params: Seq<u8>, f: u8)
    ensures
        vt_model::sequence(params, f) == control_sequence(params, f),
{
    lemma_introducer();
    assert(vt_model::sequence(params, f) =~= control_sequence(params, f));
}

/// Parameter bytes are collected in silence.
proof fn lemma_params_collected(frame: Frame, s: Filter, held_params: Seq<u8>, params: Seq<u8>)
    requires
        s.parser == Parser::Csi(held_params),
        vt_model::all_params(params),
    ensures
        vt_model::run_state(frame, s, params) == s.in_parser(Parser::Csi(held_params + params)),
        vt_model::run_output(frame, s, params) == Seq::<u8>::empty(),
    decreases params.len(),
{
    reveal(vt_model::next);
    reveal(vt_model::emitted);
    if params.len() == 0 {
        assert(held_params + params =~= held_params);
    } else {
        lemma_params_collected(frame, s, held_params, params.drop_last());
        assert(vt_model::is_param_byte(params.last()));
        assert((held_params + params.drop_last()).push(params.last()) =~= held_params + params);
        assert(Seq::<u8>::empty() + Seq::<u8>::empty() =~= Seq::<u8>::empty());
    }
}

/// Up to its last byte a control sequence is collected in silence.
proof fn lemma_collected(frame: Frame, s: Filter, params: Seq<u8>, b: u8)
    requires
        s.parser == Parser::Ground,
        vt_model::all_params(params),
    ensures
        vt_model::run_output(frame, s, control_sequence(params, b)) == vt_model::run_output(
            frame,
            s.in_parser(Parser::Csi(params)),
            seq![b],
        ),
        vt_model::run_state(frame, s, control_sequence(params, b)) == vt_model::run_state(
            frame,
            s.in_parser(Parser::Csi(params)),
            seq![b],
        ),
{
    reveal(vt_model::next);
    reveal(vt_model::emitted);
    let s1 = s.in_parser(Parser::Escape);
    let s2 = s.in_parser(Parser::Csi(Seq::empty()));
    let s3 = s.in_parser(Parser::Csi(params));
    let intro = seq![codes::ESC, codes::OPEN_CSI];
    assert(intro =~= seq![codes::ESC] + seq![codes::OPEN_CSI]);
    law_split(frame, s, seq![codes::ESC], seq![codes::OPEN_CSI]);
    lemma_one_byte(frame, s, codes::ESC);
    lemma_one_byte(frame, s1, codes::OPEN_CSI);
    assert(vt_model::run_state(frame, s, intro) == s2);
    assert(vt_model::run_output(frame, s, intro) =~= Seq::<u8>::empty());
    law_split(frame, s, intro, params);
    lemma_params_collected(frame, s2, Seq::empty(), params);
    assert(Seq::<u8>::empty() + params =~= params);
    assert(vt_model::run_state(frame, s, intro + params) == s3);
    assert(vt_model::run_output(frame, s, intro + params) =~= Seq::<u8>::empty());
    law_split(frame, s, intro + params, seq![b]);
    assert(vt_model::run_output(frame, s, control_sequence(params, b)) =~= vt_model::run_output(
        frame,
        s3,
        seq![b],
    ));
}

/// A whole control sequence does what `csi_output` and `csi_state` say.
pub proof fn law_control_sequence(frame: Frame, s: Filter, params: Seq<u8>, f: u8)
    requires
        s.parser == Parser::Ground,
        vt_model::all_params(params),
        vt_model::is_final_byte(f),
    ensures
        vt_model::run_output(frame, s, control_sequence(params, f)) == vt_model::csi_output(
            frame,
            s,
            params,
            f,
        ),
        vt_model::run_state(frame, s, control_sequence(params, f)) == vt_model::csi_state(
            frame,
            s,
            params,
            f,
        ).in_parser(Parser::Ground),
{
    reveal(vt_model::next);
    reveal(vt_model::emitted);
    let collected = s.in_parser(Parser::Csi(params));
    lemma_collected(frame, s, params, f);
    lemma_one_byte(frame, collected, f);
    lemma_parser_plays_no_part(frame, s, collected, params, f);
}

/// What a control sequence does is independent of how far it has been parsed.
proof fn lemma_parser_plays_no_part(frame: Frame, s: Filter, t: Filter, params: Seq<u8>, f: u8)
    requires
        t == s.in_parser(t.parser),
    ensures
        vt_model::csi_output(frame, t, params, f) == vt_model::csi_output(frame, s, params, f),
        vt_model::csi_state(frame, t, params, f) == vt_model::csi_state(
            frame,
            s,
            params,
            f,
        ).in_parser(t.parser),
{
    assert(t.bottom(frame) == s.bottom(frame));
}

/// The 8-bit introducer does what `ESC [` does.
pub proof fn law_eight_bit_introducer(frame: Frame, s: Filter, input: Seq<u8>)
    requires
        s.parser == Parser::Ground,
    ensures
        vt_model::run_output(frame, s, seq![codes::CSI] + input) == vt_model::run_output(
            frame,
            s,
            seq![codes::ESC, codes::OPEN_CSI] + input,
        ),
        vt_model::run_state(frame, s, seq![codes::CSI] + input) == vt_model::run_state(
            frame,
            s,
            seq![codes::ESC, codes::OPEN_CSI] + input,
        ),
{
    reveal(vt_model::next);
    reveal(vt_model::emitted);
    let intro = seq![codes::ESC, codes::OPEN_CSI];
    assert(intro =~= seq![codes::ESC] + seq![codes::OPEN_CSI]);
    law_split(frame, s, seq![codes::ESC], seq![codes::OPEN_CSI]);
    lemma_one_byte(frame, s, codes::ESC);
    lemma_one_byte(frame, s, codes::CSI);
    lemma_one_byte(frame, s.in_parser(Parser::Escape), codes::OPEN_CSI);
    assert(vt_model::run_state(frame, s, intro) == vt_model::run_state(
        frame,
        s,
        seq![codes::CSI],
    ));
    assert(vt_model::run_output(frame, s, intro) =~= vt_model::run_output(
        frame,
        s,
        seq![codes::CSI],
    ));
    law_split(frame, s, seq![codes::CSI], input);
    law_split(frame, s, intro, input);
}

/// The control sequence is one that the filter rewrites or adds to.
pub open spec fn is_rewritten(params: Seq<u8>, f: u8) -> bool {
    ||| vt_model::is_mouse_report(params)
    ||| f == codes::CUP || f == codes::HVP || f == codes::VPA || f == codes::CHA || f == codes::HPA
    ||| f == codes::ED || f == codes::EL || f == codes::CNL || f == codes::CPL
    ||| f == codes::IL || f == codes::DL || f == codes::SU
    ||| f == codes::ICH || f == codes::DCH || f == codes::ECH
    ||| (f == codes::DECSTBM || f == codes::SD) && !vt_model::is_private(params)
    ||| vt_model::is_mode_switch(params, f) && vt_model::is_margin_mode(params)
}

/// The control sequence moves the cursor up or down from where it is.
pub open spec fn moves_row(f: u8) -> bool {
    f == codes::CUU || f == codes::CUD
}

/// The control sequence has the terminal save the rendition, or forget one that
/// it saved.
pub open spec fn saves(params: Seq<u8>, f: u8) -> bool {
    vt_model::saves_cursor(params, f) || vt_model::saves_screen(params, f)
        || vt_model::is_soft_reset(params, f)
}

/// Every other control sequence, relative movements among them, passes
/// unchanged, unless it undoes the dimming. It leaves the filter as it was,
/// unless it moves the cursor's row, switches the alternate screen or has the
/// terminal save the rendition.
pub proof fn law_other_sequences_pass(frame: Frame, s: Filter, params: Seq<u8>, f: u8)
    requires
        s.parser == Parser::Ground,
        vt_model::all_params(params),
        vt_model::is_final_byte(f),
        !is_rewritten(params, f),
        !vt_model::undoes_dimming(s, params, f),
    ensures
        vt_model::run_output(frame, s, control_sequence(params, f)) == control_sequence(params, f),
        !moves_row(f) && !(vt_model::is_mode_switch(params, f) && vt_model::is_screen_mode(params))
            ==> vt_model::run_state(frame, s, control_sequence(params, f))
            == vt_model::csi_remembered(s, params, f),
        !moves_row(f) && !(vt_model::is_mode_switch(params, f) && vt_model::is_screen_mode(params))
            && !saves(params, f) ==> vt_model::run_state(frame, s, control_sequence(params, f))
            == s,
{
    law_control_sequence(frame, s, params, f);
    lemma_sequence(params, f);
}

/// An escape sequence that opens no control sequence, a reverse index aside,
/// passes unchanged; where it undoes the dimming, that is renewed after it. Only
/// those that open a string, save the cursor or reset the terminal change the
/// filter.
pub proof fn law_other_escapes_pass(frame: Frame, s: Filter, b: u8)
    requires
        s.parser == Parser::Ground,
        b != codes::OPEN_CSI,
        b != codes::RI,
    ensures
        vt_model::run_output(frame, s, seq![codes::ESC, b]) == (
        if vt_model::escape_undoes_dimming(s, b) {
            seq![codes::ESC, b] + s.dimming.renewal()
        } else {
            seq![codes::ESC, b]
        }),
        vt_model::run_state(frame, s, seq![codes::ESC, b]) == (if b == codes::OPEN_OSC {
            s.in_parser(Parser::Osc)
        } else if b == codes::OPEN_DCS {
            s.in_parser(Parser::Dcs)
        } else if b == codes::DECSC {
            s.saving()
        } else if b == codes::RIS {
            s.reset()
        } else {
            s
        }),
{
    reveal(vt_model::next);
    reveal(vt_model::emitted);
    assert(seq![codes::ESC, b] =~= seq![codes::ESC] + seq![b]);
    law_split(frame, s, seq![codes::ESC], seq![b]);
    lemma_one_byte(frame, s, codes::ESC);
    lemma_one_byte(frame, s.in_parser(Parser::Escape), b);
    let out = vt_model::emitted(frame, s.in_parser(Parser::Escape), b);
    assert(Seq::<u8>::empty() + out =~= out);
}

/// A control sequence that a stray byte breaks off passes unchanged, with that
/// byte, and leaves the filter as it was.
pub proof fn law_broken_sequences_pass(frame: Frame, s: Filter, params: Seq<u8>, b: u8)
    requires
        s.parser == Parser::Ground,
        vt_model::all_params(params),
        !vt_model::is_param_byte(b) && !vt_model::is_final_byte(b),
    ensures
        vt_model::run_output(frame, s, control_sequence(params, b)) == control_sequence(params, b),
        vt_model::run_state(frame, s, control_sequence(params, b)) == s,
{
    reveal(vt_model::next);
    reveal(vt_model::emitted);
    lemma_collected(frame, s, params, b);
    lemma_one_byte(frame, s.in_parser(Parser::Csi(params)), b);
    lemma_sequence(params, b);
}

/// No output changes how the content is dimmed.
pub proof fn law_dimming_is_kept(frame: Frame, s: Filter, input: Seq<u8>)
    ensures
        vt_model::run_state(frame, s, input).dimming == s.dimming,
    decreases input.len(),
{
    reveal(vt_model::next);
    reveal(vt_model::emitted);
    if input.len() > 0 {
        law_dimming_is_kept(frame, s, input.drop_last());
    }
}

/// The sequence restores a rendition that the terminal saved.
pub open spec fn restores(params: Seq<u8>, f: u8) -> bool {
    vt_model::restores_cursor(params, f) || vt_model::restores_screen(params, f)
}

/// Faint content stays faint: after every sequence that selects or restores a
/// rendition or resets it, the faint one is set again.
pub proof fn law_content_stays_faint(frame: Frame, s: Filter, params: Seq<u8>, f: u8)
    requires
        s.parser == Parser::Ground,
        s.dimming == Dimming::Faint,
        vt_model::all_params(params),
    ensures
        vt_model::selects_rendition(params, f) || vt_model::is_soft_reset(params, f) || restores(
            params,
            f,
        ) ==> vt_model::run_output(frame, s, control_sequence(params, f)) == control_sequence(
            params,
            f,
        ) + text::bytes("\x1b[2m"),
        f == codes::DECRC || f == codes::RIS ==> vt_model::run_output(
            frame,
            s,
            seq![codes::ESC, f],
        ) == seq![codes::ESC, f] + text::bytes("\x1b[2m"),
{
    if vt_model::is_final_byte(f) {
        law_control_sequence(frame, s, params, f);
        lemma_sequence(params, f);
        if restores(params, f) && f == codes::RM {
            lemma_margin_mode_arguments(params);
        }
    }
    if f == codes::DECRC || f == codes::RIS {
        law_other_escapes_pass(frame, s, f);
    }
}

/// The content of a pane with the focus is written undimmed: a rendition that
/// was saved while it was faint loses that when it is restored. Every other
/// rendition is the one that the program asks for: what selects it, and what
/// restores one that was saved undimmed, passes alone.
pub proof fn law_content_is_lifted(frame: Frame, s: Filter, params: Seq<u8>, f: u8)
    requires
        s.parser == Parser::Ground,
        s.dimming == Dimming::Lifted,
        vt_model::all_params(params),
    ensures
        restores(params, f) ==> vt_model::run_output(frame, s, control_sequence(params, f)) == (
        if vt_model::restores_cursor(params, f) && s.cursor_saved_faint
            || vt_model::restores_screen(params, f) && s.screen_saved_faint {
            control_sequence(params, f) + text::bytes("\x1b[22m")
        } else {
            control_sequence(params, f)
        }),
        vt_model::run_output(frame, s, seq![codes::ESC, codes::DECRC]) == (
        if s.cursor_saved_faint {
            seq![codes::ESC, codes::DECRC] + text::bytes("\x1b[22m")
        } else {
            seq![codes::ESC, codes::DECRC]
        }),
        vt_model::selects_rendition(params, f) || vt_model::is_soft_reset(params, f)
            ==> vt_model::run_output(frame, s, control_sequence(params, f)) == control_sequence(
            params,
            f,
        ),
{
    if vt_model::is_final_byte(f) {
        law_control_sequence(frame, s, params, f);
        lemma_sequence(params, f);
        if restores(params, f) && f == codes::RM {
            lemma_margin_mode_arguments(params);
        }
    }
    law_other_escapes_pass(frame, s, codes::DECRC);
}

/// What is known of a saved rendition is whether the content was faint when it
/// was saved, by the program or to draw border cells; what is not saved anew
/// stays known.
pub proof fn law_saved_renditions(frame: Frame, s: Filter, params: Seq<u8>, f: u8)
    requires
        s.parser == Parser::Ground,
        vt_model::all_params(params),
        vt_model::is_final_byte(f),
    ensures
        ({
            let after = vt_model::run_state(frame, s, control_sequence(params, f));
            let faint = s.dimming == Dimming::Faint;
            &&& after.cursor_saved_faint == (if vt_model::saves_cursor(params, f)
                || vt_model::draws(params, f) {
                faint
            } else {
                s.cursor_saved_faint && !vt_model::is_soft_reset(params, f)
            })
            &&& after.screen_saved_faint == (if vt_model::saves_screen(params, f) {
                faint
            } else {
                s.screen_saved_faint
            })
        }),
        vt_model::run_state(frame, s, seq![codes::ESC, codes::DECSC]) == s.saving(),
{
    law_control_sequence(frame, s, params, f);
    law_other_escapes_pass(frame, s, codes::DECSC);
}

/// Where the content was never dimmed, no saved rendition is known as faint.
pub proof fn law_undimmed_saves(frame: Frame, s: Filter, input: Seq<u8>)
    requires
        s.dimming != Dimming::Faint,
        !s.cursor_saved_faint && !s.screen_saved_faint,
    ensures
        !vt_model::run_state(frame, s, input).cursor_saved_faint,
        !vt_model::run_state(frame, s, input).screen_saved_faint,
    decreases input.len(),
{
    reveal(vt_model::next);
    reveal(vt_model::emitted);
    if input.len() > 0 {
        law_undimmed_saves(frame, s, input.drop_last());
        law_dimming_is_kept(frame, s, input.drop_last());
    }
}

/// Where nothing is dimmed, nothing is added to any sequence on its account.
pub proof fn law_nothing_is_dimmed(frame: Frame, s: Filter, params: Seq<u8>, f: u8)
    requires
        s.parser == Parser::Ground,
        s.dimming == Dimming::Off,
        vt_model::all_params(params),
        vt_model::is_final_byte(f),
    ensures
        vt_model::run_output(frame, s, control_sequence(params, f)) == vt_model::csi_text(
            frame,
            s,
            params,
            f,
        ),
        f != codes::OPEN_CSI && f != codes::RI ==> vt_model::run_output(
            frame,
            s,
            seq![codes::ESC, f],
        ) == seq![codes::ESC, f],
{
    law_control_sequence(frame, s, params, f);
    if f != codes::OPEN_CSI && f != codes::RI {
        law_other_escapes_pass(frame, s, f);
    }
}

/// The only argument of a switch of the margin mode is its number.
proof fn lemma_margin_mode_arguments(params: Seq<u8>)
    requires
        vt_model::is_private(params),
    ensures
        vt_model::is_margin_mode(params) ==> vt_model::arguments(params) == seq![69u16],
{
    if vt_model::is_margin_mode(params) {
        let mode = params.drop_first();
        reveal_strlit("69");
        is_ascii_chars_encode_utf8("69"@);
        assert(text::bytes("69") =~= seq![0x36u8, 0x39u8]);
        text::lemma_one_field(mode, codes::SEPARATOR);
        assert(mode.drop_last().drop_last() =~= Seq::<u8>::empty());
        assert(text::value(mode) == 69) by {
            reveal_with_fuel(text::value, 3);
        }
        assert(vt_model::arguments(params) =~= seq![69u16]);
    }
}

/// Insertions, deletions and scrolling pass unchanged too, followed by a
/// repair of the borders that they damage.
pub proof fn law_damage_is_repaired(frame: Frame, s: Filter, params: Seq<u8>, f: u8)
    requires
        s.parser == Parser::Ground,
        vt_model::all_params(params),
        !vt_model::is_mouse_report(params),
    ensures
        f == codes::IL || f == codes::DL ==> vt_model::run_output(
            frame,
            s,
            control_sequence(params, f),
        ) == control_sequence(params, f) + vt_model::repair(
            frame,
            vt_model::below(s.scroll_top, 1),
            vt_model::below(s.bottom(frame), 1),
        ),
        f == codes::SU ==> vt_model::run_output(frame, s, control_sequence(params, f))
            == control_sequence(params, f) + vt_model::repair(
            frame,
            vt_model::scrolled_up_first(
                s.scroll_top,
                s.bottom(frame),
                vt_model::position(params, 0),
            ),
            vt_model::below(s.bottom(frame), 1),
        ),
        f == codes::SD && !vt_model::is_private(params) ==> vt_model::run_output(
            frame,
            s,
            control_sequence(params, f),
        ) == control_sequence(params, f) + vt_model::repair(
            frame,
            vt_model::below(s.scroll_top, 1),
            vt_model::scrolled_down_last(
                s.scroll_top,
                s.bottom(frame),
                vt_model::position(params, 0),
            ),
        ),
        f == codes::ICH || f == codes::DCH || f == codes::ECH ==> vt_model::run_output(
            frame,
            s,
            control_sequence(params, f),
        ) == control_sequence(params, f) + vt_model::repair_right(frame),
{
    if vt_model::is_final_byte(f) {
        law_control_sequence(frame, s, params, f);
        lemma_sequence(params, f);
    }
}

/// Setting and resetting the left and right margin mode is swallowed.
pub proof fn law_margin_mode_is_blocked(frame: Frame, s: Filter, f: u8)
    requires
        s.parser == Parser::Ground,
        f == codes::SM || f == codes::RM,
    ensures
        vt_model::run_output(
            frame,
            s,
            control_sequence(seq![codes::PRIVATE] + text::bytes("69"), f),
        ) == Seq::<u8>::empty(),
        vt_model::run_state(
            frame,
            s,
            control_sequence(seq![codes::PRIVATE] + text::bytes("69"), f),
        ) == s,
{
    let params = seq![codes::PRIVATE] + text::bytes("69");
    reveal_strlit("69");
    is_ascii_chars_encode_utf8("69"@);
    assert(text::bytes("69") =~= seq![0x36u8, 0x39u8]);
    assert(params.drop_first() =~= text::bytes("69"));
    law_control_sequence(frame, s, params, f);
    vt_model::lemma_modes_differ(params);
    lemma_margin_mode_arguments(params);
}

/// A carriage return goes to the first inner column, and changes nothing else.
pub proof fn law_carriage_return(frame: Frame, s: Filter)
    requires
        s.parser == Parser::Ground,
    ensures
        vt_model::run_output(frame, s, seq![codes::CR]) == vt_model::to_column(2),
        vt_model::run_state(frame, s, seq![codes::CR]) == s,
{
    reveal(vt_model::next);
    reveal(vt_model::emitted);
    lemma_one_byte(frame, s, codes::CR);
    lemma_first_inner_column();
}

/// The movement to the first inner column as a literal.
proof fn lemma_first_inner_column()
    ensures
        text::bytes("\x1b[2G") == vt_model::to_column(2),
{
    reveal_strlit("\x1b[2G");
    reveal_strlit("\x1b[");
    reveal_strlit("G");
    is_ascii_chars_encode_utf8("\x1b[2G"@);
    is_ascii_chars_encode_utf8("\x1b["@);
    is_ascii_chars_encode_utf8("G"@);
    assert(text::digits(2) =~= seq![50u8]);
    assert(text::bytes("\x1b[2G") =~= vt_model::to_column(2));
}

/// An absolute position inside the inner screen moves by one row and one
/// column; one outside of it ends at the inner edge. Never does the cursor
/// land on the border.
pub proof fn law_positions_move_by_one(frame: Frame, s: Filter, params: Seq<u8>, f: u8)
    requires
        s.parser == Parser::Ground,
        vt_model::all_params(params),
        !vt_model::is_mouse_report(params),
        frame.width >= 3 && frame.height >= 3,
    ensures
        ({
            let row = vt_model::clamped(params, 0, frame.inner_height());
            let column = vt_model::clamped(params, 1, frame.inner_width());
            let only_column = vt_model::clamped(params, 0, frame.inner_width());
            let out = vt_model::run_output(frame, s, control_sequence(params, f));
            let after = vt_model::run_state(frame, s, control_sequence(params, f));
            &&& f == codes::CUP || f == codes::HVP ==> out == vt_model::goto(
                (row + 1) as u16,
                (column + 1) as u16,
            )
            &&& f == codes::VPA ==> out == text::bytes("\x1b[") + text::digits(
                (row + 1) as nat,
            ) + text::bytes("d")
            &&& f == codes::CHA || f == codes::HPA ==> out == (text::bytes("\x1b[")
                + text::digits((only_column + 1) as nat)).push(f)
            &&& f == codes::CUP || f == codes::HVP || f == codes::VPA ==> after.cursor_row == row
            &&& 2 <= row + 1 < frame.height
            &&& 2 <= column + 1 < frame.width
            &&& 2 <= only_column + 1 < frame.width
            &&& vt_model::position(params, 0) < frame.height - 1 ==> row == vt_model::position(
                params,
                0,
            )
            &&& vt_model::position(params, 1) < frame.width - 1 ==> column == vt_model::position(
                params,
                1,
            )
        }),
{
    if vt_model::is_final_byte(f) {
        law_control_sequence(frame, s, params, f);
    }
}

/// The byte completes a switch of the alternate screen, a clear of the whole
/// display or a reset of the terminal.
pub open spec fn spoils_border(s: Filter, b: u8) -> bool {
    match s.parser {
        Parser::Escape => b == codes::RIS,
        Parser::Csi(params) => {
            ||| vt_model::is_mode_switch(params, b) && vt_model::is_screen_mode(params)
            ||| b == codes::ED && !vt_model::is_mouse_report(params) && (vt_model::argument(
                params,
                0,
                0,
            ) == 2 || vt_model::argument(params, 0, 0) == 3)
        },
        _ => false,
    }
}

/// A redraw of the border becomes due exactly where the output spoils it, and
/// stays due. Where that happens the cursor row and the scroll region go back
/// to their defaults.
pub proof fn law_redraw_is_due(frame: Frame, s: Filter, b: u8)
    ensures
        vt_model::next(frame, s, b).needs_border_redraw == (s.needs_border_redraw
            || spoils_border(s, b)),
        spoils_border(s, b) ==> {
            let after = vt_model::next(frame, s, b);
            &&& after.parser == Parser::Ground
            &&& after.cursor_row == 1
            &&& after.scroll_top == 1
            &&& after.scroll_bottom == 0
        },
{
    reveal(vt_model::next);
    reveal(vt_model::emitted);
}

/// After a stretch of output a redraw of the border is due exactly where it was
/// due before, or where some byte of the stretch spoiled the border.
pub proof fn law_redraw_stays_due(frame: Frame, s: Filter, input: Seq<u8>)
    ensures
        vt_model::run_state(frame, s, input).needs_border_redraw == (s.needs_border_redraw || exists|
            i: int,
        |
            0 <= i < input.len() && spoils_border(
                vt_model::run_state(frame, s, #[trigger] input.take(i)),
                input[i],
            )),
    decreases input.len(),
{
    if input.len() > 0 {
        let front = input.drop_last();
        let last = input.len() - 1;
        law_redraw_stays_due(frame, s, front);
        law_redraw_is_due(frame, vt_model::run_state(frame, s, front), input.last());
        assert(front =~= input.take(last));
        assert forall|i: int| 0 <= i < last implies #[trigger] front.take(i) == input.take(i) by {
            assert(front.take(i) =~= input.take(i));
        }
        if exists|i: int|
            0 <= i < front.len() && spoils_border(
                vt_model::run_state(frame, s, #[trigger] front.take(i)),
                front[i],
            ) {
            let i = choose|i: int|
                0 <= i < front.len() && spoils_border(
                    vt_model::run_state(frame, s, #[trigger] front.take(i)),
                    front[i],
                );
            assert(spoils_border(vt_model::run_state(frame, s, input.take(i)), input[i]));
        }
        if exists|i: int|
            0 <= i < input.len() && spoils_border(
                vt_model::run_state(frame, s, #[trigger] input.take(i)),
                input[i],
            ) {
            let i = choose|i: int|
                0 <= i < input.len() && spoils_border(
                    vt_model::run_state(frame, s, #[trigger] input.take(i)),
                    input[i],
                );
            if i < last {
                assert(spoils_border(vt_model::run_state(frame, s, front.take(i)), front[i]));
            }
        }
    }
}

/// The tracked rows lie on the inner screen, and what is held of a control
/// sequence are parameter bytes.
pub open spec fn in_bounds(frame: Frame, s: Filter) -> bool {
    &&& 1 <= s.cursor_row <= frame.inner_height()
    &&& 1 <= s.scroll_top
    &&& s.scroll_bottom <= frame.inner_height()
    &&& s.parser matches Parser::Csi(params) ==> vt_model::all_params(params)
}

/// The tracked rows stay on the inner screen.
pub proof fn law_stays_in_bounds(frame: Frame, s: Filter, b: u8)
    requires
        in_bounds(frame, s),
    ensures
        in_bounds(frame, vt_model::next(frame, s, b)),
{
    reveal(vt_model::next);
    reveal(vt_model::emitted);
    if let Parser::Csi(params) = s.parser {
        if vt_model::is_param_byte(b) {
            assert(vt_model::all_params(params.push(b)));
        }
    }
}

/// The tracked rows stay on the inner screen over any stretch of output.
pub proof fn law_runs_in_bounds(frame: Frame, s: Filter, input: Seq<u8>)
    requires
        in_bounds(frame, s),
    ensures
        in_bounds(frame, vt_model::run_state(frame, s, input)),
    decreases input.len(),
{
    if input.len() > 0 {
        let front = input.drop_last();
        law_runs_in_bounds(frame, s, front);
        law_stays_in_bounds(frame, vt_model::run_state(frame, s, front), input.last());
    }
}

/// A fresh filter, and one put back after a resize, has its rows on the inner
/// screen.
pub proof fn law_starts_in_bounds(frame: Frame, s: Filter)
    requires
        frame.height >= 3,
        s.parser matches Parser::Csi(params) ==> vt_model::all_params(params),
    ensures
        in_bounds(frame, Filter::initial()),
        in_bounds(frame, s.homed()),
{
}

/// All outer rows from `first` to `last`, where there are any, lie between the
/// top and the bottom border.
pub open spec fn rows_are_inner(frame: Frame, first: int, last: int) -> bool {
    first <= last ==> 2 <= first && last < frame.height
}

/// Repairs and erasures leave the rows of the top and the bottom border alone:
/// those after lines were inserted or deleted, after the region scrolled up or
/// down, after a line feed, and those of the display. So does the repair after
/// a reverse index, where the scroll region starts on the inner screen.
pub proof fn law_border_rows_are_left_alone(frame: Frame, s: Filter, count: u16)
    requires
        in_bounds(frame, s),
    ensures
        ({
            let top = vt_model::below(s.scroll_top, 1) as int;
            let bottom = vt_model::below(s.bottom(frame), 1) as int;
            let up_first = vt_model::scrolled_up_first(s.scroll_top, s.bottom(frame), count);
            let down_last = vt_model::scrolled_down_last(s.scroll_top, s.bottom(frame), count);
            &&& rows_are_inner(frame, top, bottom)
            &&& rows_are_inner(frame, up_first as int, bottom)
            &&& rows_are_inner(frame, top, down_last as int)
            &&& rows_are_inner(frame, bottom, bottom)
            &&& s.scroll_top <= frame.inner_height() ==> rows_are_inner(frame, top, top)
            &&& rows_are_inner(frame, s.cursor_row + 2, frame.inner_height() + 1)
            &&& rows_are_inner(frame, 2, s.cursor_row as int)
            &&& rows_are_inner(frame, 2, frame.inner_height() + 1)
        }),
{
}

pub open spec fn min_of(a: int, b: int) -> int {
    if a <= b {
        a
    } else {
        b
    }
}

/// Scrolling up by `count` rows repairs that many rows at the bottom of the
/// scroll region, and no more than it has.
pub proof fn law_scroll_up_repairs(frame: Frame, s: Filter, count: u16)
    requires
        in_bounds(frame, s),
        count >= 1,
        s.scroll_top <= s.bottom(frame),
    ensures
        vt_model::below(s.bottom(frame), 1) - vt_model::scrolled_up_first(
            s.scroll_top,
            s.bottom(frame),
            count,
        ) + 1 == min_of(count as int, s.bottom(frame) - s.scroll_top + 1),
{
}

/// Scrolling down by `count` rows repairs that many rows at the top of the
/// scroll region, and no more than it has.
pub proof fn law_scroll_down_repairs(frame: Frame, s: Filter, count: u16)
    requires
        in_bounds(frame, s),
        count >= 1,
        s.scroll_top <= s.bottom(frame),
    ensures
        vt_model::scrolled_down_last(s.scroll_top, s.bottom(frame), count) - vt_model::below(
            s.scroll_top,
            1,
        ) + 1 == min_of(count as int, s.bottom(frame) - s.scroll_top + 1),
{
}

/// A scroll region moves by one row. It never takes in the row of the bottom
/// border.
pub proof fn law_scroll_region_moves_by_one(frame: Frame, s: Filter, params: Seq<u8>)
    requires
        s.parser == Parser::Ground,
        vt_model::all_params(params),
        !vt_model::is_mouse_report(params),
        !vt_model::is_private(params),
        frame.height >= 3,
        vt_model::region_top(params) < 0xffff,
    ensures
        ({
            let top = vt_model::region_top(params);
            let bottom = vt_model::region_bottom(frame, params);
            let input = control_sequence(params, codes::DECSTBM);
            &&& vt_model::run_output(frame, s, input) == text::bytes("\x1b[") + text::digits(
                (top + 1) as nat,
            ) + text::bytes(";") + text::digits((bottom + 1) as nat) + text::bytes("r")
            &&& vt_model::run_state(frame, s, input) == (Filter {
                scroll_top: top,
                scroll_bottom: bottom,
                ..s
            })
            &&& 2 <= top + 1
            &&& bottom + 1 < frame.height
        }),
{
    law_control_sequence(frame, s, params, codes::DECSTBM);
}

/// Going to the start of another line moves there in the same column, and
/// then to the first inner column.
pub proof fn law_line_starts_are_inside(frame: Frame, s: Filter, params: Seq<u8>)
    requires
        s.parser == Parser::Ground,
        vt_model::all_params(params),
        !vt_model::is_mouse_report(params),
    ensures
        vt_model::run_output(frame, s, control_sequence(params, codes::CNL)) == control_sequence(
            params,
            codes::CUD,
        ) + vt_model::to_column(2),
        vt_model::run_output(frame, s, control_sequence(params, codes::CPL)) == control_sequence(
            params,
            codes::CUU,
        ) + vt_model::to_column(2),
{
    law_control_sequence(frame, s, params, codes::CNL);
    law_control_sequence(frame, s, params, codes::CPL);
    lemma_sequence(params, codes::CUD);
    lemma_sequence(params, codes::CUU);
    lemma_first_inner_column();
}

/// Erasing from the cursor to the end of the display blanks the rest of its
/// row and the inner rows below it; erasing from the start to the cursor
/// blanks the inner rows above it and its row up to there; erasing everything
/// blanks all inner rows and goes to the first of them. Any other mode passes
/// unchanged.
pub proof fn law_erasures_stay_inside(frame: Frame, s: Filter, params: Seq<u8>)
    requires
        s.parser == Parser::Ground,
        vt_model::all_params(params),
        !vt_model::is_mouse_report(params),
        in_bounds(frame, s),
    ensures
        ({
            let mode = vt_model::argument(params, 0, 0);
            let out = vt_model::run_output(frame, s, control_sequence(params, codes::ED));
            &&& mode == 0 ==> out == text::bytes("\x1b[?2026h") + vt_model::erase_line_end(frame)
                + text::bytes("\x1b7") + vt_model::erase_rows(
                frame,
                s.cursor_row + 2,
                frame.height - 1,
            ) + text::bytes("\x1b8\x1b[?2026l")
            &&& mode == 1 ==> out == text::bytes("\x1b[?2026h\x1b7") + vt_model::erase_rows(
                frame,
                2,
                s.cursor_row as int,
            ) + text::bytes("\x1b8") + vt_model::erase_line_start(frame) + text::bytes(
                "\x1b[?2026l",
            )
            &&& mode == 2 || mode == 3 ==> out == text::bytes("\x1b[?2026h")
                + vt_model::erase_rows(frame, 2, frame.height - 1) + text::bytes(
                "\x1b[2;2H\x1b[?2026l",
            )
            &&& mode > 3 ==> out == control_sequence(params, codes::ED)
            &&& s.cursor_row < frame.height - 1
        }),
{
    lemma_sequence(params, codes::ED);
    law_control_sequence(frame, s, params, codes::ED);
}

/// Erasing in the cursor's row is followed by a repair of the border cells that
/// it blanks: the right one where it reaches the end of the row, the left one
/// where it reaches the start.
pub proof fn law_line_erasures_are_repaired(frame: Frame, s: Filter, params: Seq<u8>)
    requires
        s.parser == Parser::Ground,
        vt_model::all_params(params),
        !vt_model::is_mouse_report(params),
    ensures
        ({
            let mode = vt_model::argument(params, 0, 0);
            let input = control_sequence(params, codes::EL);
            let out = vt_model::run_output(frame, s, input);
            &&& mode == 0 ==> out == text::bytes("\x1b[K") + vt_model::repair_right(frame)
            &&& mode == 1 ==> out == text::bytes("\x1b[1K") + vt_model::repair_left(frame)
            &&& mode == 2 ==> out == text::bytes("\x1b[2K\x1b7\x1b[1G") + frame.cell
                + vt_model::to_column(frame.width) + frame.cell + text::bytes("\x1b8")
            &&& mode > 2 ==> out == input
            &&& vt_model::run_state(frame, s, input) == (if mode > 2 {
                s
            } else {
                s.saving()
            })
        }),
{
    law_control_sequence(frame, s, params, codes::EL);
    lemma_sequence(params, codes::EL);
}

/// A line feed above the bottom of the scroll region passes alone and moves
/// down a row; at the bottom it scrolls, and the side borders of the last row
/// are repaired.
pub proof fn law_line_feed(frame: Frame, s: Filter)
    requires
        s.parser == Parser::Ground,
        in_bounds(frame, s),
    ensures
        s.cursor_row < s.bottom(frame) ==> vt_model::run_output(frame, s, seq![codes::LF])
            == seq![codes::LF] && vt_model::run_state(frame, s, seq![codes::LF]) == s.at_row(
            (s.cursor_row + 1) as u16,
        ),
        s.cursor_row >= s.bottom(frame) ==> vt_model::run_output(frame, s, seq![codes::LF])
            == seq![codes::LF] + vt_model::repair(
            frame,
            (s.bottom(frame) + 1) as u16,
            (s.bottom(frame) + 1) as u16,
        ) && vt_model::run_state(frame, s, seq![codes::LF]) == s.saving(),
{
    reveal(vt_model::next);
    reveal(vt_model::emitted);
    lemma_one_byte(frame, s, codes::LF);
}

/// A reverse index below the top of the scroll region passes alone and moves
/// up a row; at the top it scrolls back, and the side borders of the first row
/// are repaired.
pub proof fn law_reverse_index(frame: Frame, s: Filter)
    requires
        s.parser == Parser::Ground,
    ensures
        ({
            let input = seq![codes::ESC, codes::RI];
            let out = vt_model::run_output(frame, s, input);
            let after = vt_model::run_state(frame, s, input);
            &&& s.cursor_row > s.scroll_top ==> out == input && after == s.at_row(
                (s.cursor_row - 1) as u16,
            )
            &&& s.cursor_row <= s.scroll_top ==> out == input + vt_model::repair(
                frame,
                vt_model::below(s.scroll_top, 1),
                vt_model::below(s.scroll_top, 1),
            ) && after == s.saving()
        }),
{
    reveal(vt_model::next);
    reveal(vt_model::emitted);
    let input = seq![codes::ESC, codes::RI];
    assert(input =~= seq![codes::ESC] + seq![codes::RI]);
    law_split(frame, s, seq![codes::ESC], seq![codes::RI]);
    lemma_one_byte(frame, s, codes::ESC);
    lemma_one_byte(frame, s.in_parser(Parser::Escape), codes::RI);
    assert(Seq::<u8>::empty() + vt_model::emitted(frame, s.in_parser(Parser::Escape), codes::RI)
        =~= vt_model::emitted(frame, s.in_parser(Parser::Escape), codes::RI));
}

/// A report is a control sequence whose parameters open with the mouse mark.
proof fn lemma_report_is_sequence(button: Seq<u8>, column: u16, row: u16, end: u8)
    requires
        vt_model::all_params(button),
    ensures
        ({
            let params = seq![codes::MOUSE] + mouse::report_body(button, column, row);
            &&& mouse::extended_report(button, column, row, end) == control_sequence(params, end)
            &&& vt_model::all_params(params)
        }),
{
    let body = mouse::report_body(button, column, row);
    let params = seq![codes::MOUSE] + body;
    mouse::lemma_report_shape(button, column, row, end);
    assert(mouse::extended_report(button, column, row, end) =~= control_sequence(params, end));
    mouse::lemma_report_bytes(button, column, row);
    assert forall|i: int| 0 <= i < params.len() implies vt_model::is_param_byte(
        #[trigger] params[i],
    ) by {
        if i > 0 {
            let b = body[i - 1];
            assert(params[i] == b);
            if i - 1 < button.len() {
                assert(vt_model::is_param_byte(button[i - 1]));
            }
        }
    }
}

/// A mouse report that the program prints moves by one column and one row.
pub proof fn law_mouse_reports_move(
    frame: Frame,
    s: Filter,
    button: Seq<u8>,
    column: u16,
    row: u16,
    end: u8,
)
    requires
        s.parser == Parser::Ground,
        vt_model::all_params(button),
        text::is_one_field(button, codes::SEPARATOR),
        vt_model::is_final_byte(end),
        column < 0xffff && row < 0xffff,
    ensures
        vt_model::run_output(frame, s, mouse::extended_report(button, column, row, end))
            == mouse::extended_report(button, (column + 1) as u16, (row + 1) as u16, end),
{
    let body = mouse::report_body(button, column, row);
    let params = seq![codes::MOUSE] + body;
    lemma_report_is_sequence(button, column, row, end);
    law_control_sequence(frame, s, params, end);
    assert(params.drop_first() =~= body);
    mouse::lemma_report_fields(button, column, row);
    text::law_numbers_read_back(column);
    text::law_numbers_read_back(row);
}

/// A mouse report of an inner cell that goes out to the terminal and comes back
/// in is the same again.
pub proof fn law_mouse_reports_return(
    frame: Frame,
    s: Filter,
    button: Seq<u8>,
    column: u16,
    row: u16,
    end: u8,
)
    requires
        s.parser == Parser::Ground,
        vt_model::all_params(button),
        mouse::is_button(button),
        mouse::ends_report(end),
        1 <= column <= frame.inner_width(),
        1 <= row <= frame.inner_height(),
    ensures
        mouse::forwarded(
            Paste::outside(),
            vt_model::run_output(frame, s, mouse::extended_report(button, column, row, end)),
            frame.width,
            frame.height,
        ) == Some(mouse::extended_report(button, column, row, end)),
{
    law_mouse_reports_move(frame, s, button, column, row, end);
    assert forall|i: int| 0 <= i < button.len() implies #[trigger] button[i] < 0x80 by {
        assert(vt_model::is_param_byte(button[i]));
    }
    text::lemma_ascii_is_utf8(button);
    let shown = mouse::extended_report(button, (column + 1) as u16, (row + 1) as u16, end);
    mouse::law_extended_events(
        button,
        (column + 1) as u16,
        (row + 1) as u16,
        end,
        frame.width,
        frame.height,
    );
    mouse::law_reports_are_events(button, (column + 1) as u16, (row + 1) as u16, end, 0, 0, 0);
    mouse::law_lone_event(Paste::outside(), shown, frame.width, frame.height);
}

} // verus!
