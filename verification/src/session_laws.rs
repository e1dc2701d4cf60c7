//! What holds of a session as a whole.

use crate::border;
use crate::codes;
use crate::dimming::Dimming;
use crate::mouse;
use crate::session::{ChildStatus, Event, PollOutcome, ReadOutcome, Request, SessionModel};
use crate::session;
use crate::vt_laws;
use crate::vt_model;
use crate::vt_model::Filter;
use vstd::prelude::*;
use vstd::utf8::*;

verus! {

/// The inner terminal is two columns and two rows smaller than the outer one.
pub proof fn law_inner_size(s: SessionModel)
    requires
        s.wf(),
    ensures
        s.inner_size().0 == s.columns - 2,
        s.inner_size().1 == s.rows - 2,
        s.inner_size().0 == s.frame().inner_width(),
        s.inner_size().1 == s.frame().inner_height(),
        s.inner_size().0 >= 3 && s.inner_size().1 >= 3,
{
}

/// The border is the frame of the outer terminal in the colour of the focus.
pub proof fn law_border_text(s: SessionModel)
    ensures
        s.border_text() == border::frame_text(s.columns, s.rows, s.style, s.color()),
        s.active ==> s.color() == s.active_color,
        !s.active ==> s.color() == s.inactive_color,
{
    reveal(session::drawn);
}

/// A resize takes over the new size, resizes the inner terminal, sets up the
/// screen and forgets where the cursor was.
pub proof fn law_resize(s: SessionModel, columns: u16, rows: u16)
    requires
        s.wf(),
        s.expects(Event::Size(Some((columns, rows)))),
        session::fits(columns, rows),
    ensures
        ({
            let event = Event::Size(Some((columns, rows)));
            let after = s.after(event);
            &&& after == (SessionModel {
                columns,
                rows,
                filter: s.filter.homed(),
                shrunk: false,
                request: Request::TakeUsr1Flag,
                ..s
            })
            &&& s.reply(event).resize == Some(((columns - 2) as u16, (rows - 2) as u16))
            &&& s.reply(event).to_terminal == encode_utf8(after.setup_text())
        }),
{
}

/// A size that is too small, or that cannot be had, is ignored.
pub proof fn law_small_sizes_are_ignored(s: SessionModel, size: Option<(u16, u16)>)
    requires
        s.expects(Event::Size(size)),
        size matches Some((columns, rows)) ==> !session::fits(columns, rows),
    ensures
        s.after(Event::Size(size)) == s.awaiting(Request::TakeUsr1Flag),
        s.reply(Event::Size(size)) == session::quiet(Request::TakeUsr1Flag),
{
}

/// Gaining and losing the focus switch the border to its colour at once, and
/// change nothing else but how the content is dimmed.
pub proof fn law_focus(s: SessionModel)
    ensures
        s.request == Request::TakeUsr1Flag ==> {
            let after = s.after(Event::Flag(true));
            &&& after == s.focused(true).awaiting(Request::TakeUsr2Flag)
            &&& after.color() == s.active_color
            &&& s.reply(Event::Flag(true)).to_terminal == encode_utf8(s.focus_text(true))
        },
        s.request == Request::TakeUsr2Flag ==> {
            let after = s.after(Event::Flag(true));
            &&& after == s.focused(false).awaiting(Request::Poll)
            &&& after.color() == s.inactive_color
            &&& s.reply(Event::Flag(true)).to_terminal == encode_utf8(s.focus_text(false))
        },
{
}

/// With the option on, a pane without the focus has its content written faint
/// and its border not: drawing the border lifts the faint rendition before it
/// and sets it again after it, and a border cell drawn amid content lifts it for
/// itself. With the focus the content is undimmed. With the option off nothing
/// is added at all.
pub proof fn law_dimming(s: SessionModel)
    requires
        s.wf(),
    ensures
        s.dim_inactive && !s.active ==> {
            &&& s.filter.dimming == Dimming::Faint
            &&& s.framing_text() == "\x1b[22m"@ + s.border_text() + "\x1b[2m"@
            &&& s.cell_color() == "\x1b[22m"@ + border::color_text(s.inactive_color)
        },
        s.dim_inactive && s.active ==> {
            &&& s.filter.dimming == Dimming::Lifted
            &&& s.framing_text() == s.border_text()
            &&& s.cell_color() == border::color_text(s.active_color)
        },
        !s.dim_inactive ==> {
            &&& s.filter.dimming == Dimming::Off
            &&& s.framing_text() == s.border_text()
            &&& s.cell_color() == border::color_text(s.color())
        },
{
}

/// Losing the focus with the option on makes what is written from there on
/// faint, and gaining it lifts that. Either way the child is made to repaint
/// what is on the screen, by an inner terminal that is one row short until the
/// next poll.
pub proof fn law_focus_dims(s: SessionModel)
    requires
        s.wf(),
        s.dim_inactive,
    ensures
        s.request == Request::TakeUsr2Flag ==> {
            let reply = s.reply(Event::Flag(true));
            let after = s.after(Event::Flag(true));
            &&& after.filter.dimming == Dimming::Faint
            &&& reply.to_terminal == encode_utf8(
                "\x1b[22m"@ + after.border_text() + "\x1b[2m"@,
            )
            &&& s.active ==> after.shrunk && reply.resize == Some(s.short_size())
        },
        s.request == Request::TakeUsr1Flag ==> {
            let reply = s.reply(Event::Flag(true));
            let after = s.after(Event::Flag(true));
            &&& after.filter.dimming == Dimming::Lifted
            &&& !s.active ==> {
                &&& reply.to_terminal == encode_utf8("\x1b[22m"@ + after.border_text())
                &&& after.shrunk
                &&& reply.resize == Some(s.short_size())
            }
        },
        s.short_size().0 == s.inner_size().0,
        s.short_size().1 == s.inner_size().1 - 1,
{
}

/// The poll after a change of the focus gives the inner terminal its row back,
/// however it ends.
pub proof fn law_size_is_restored(s: SessionModel, outcome: PollOutcome)
    ensures
        !s.after(Event::Polled(outcome)).shrunk,
        s.shrunk ==> s.reply(Event::Polled(outcome)).resize == Some(s.inner_size()),
        !s.shrunk ==> s.reply(Event::Polled(outcome)).resize is None,
{
}

/// The inner terminal is short of a row only between a change of the focus and
/// the next poll.
pub open spec fn settled(s: SessionModel) -> bool {
    s.shrunk ==> s.request == Request::TakeUsr2Flag || s.request == Request::Poll
}

/// Whatever happens, the inner terminal is not left short of a row.
pub proof fn law_stays_settled(s: SessionModel, event: Event)
    requires
        settled(s),
        s.expects(event),
    ensures
        settled(s.after(event)),
        !s.dim_inactive && !s.shrunk ==> !s.after(event).shrunk,
{
}

/// Nothing but a change of the focus changes how the content is dimmed.
pub proof fn law_only_focus_dims(s: SessionModel, event: Event)
    requires
        s.expects(event),
        !(event == Event::Flag(true) && (s.request == Request::TakeUsr1Flag || s.request
            == Request::TakeUsr2Flag)),
    ensures
        s.after(event).filter.dimming == s.filter.dimming,
{
    if let Event::Output(ReadOutcome::Data(bytes)) = event {
        vt_laws::law_dimming_is_kept(s.frame(), s.filter, bytes@);
    }
}

/// A flag that is clear is passed over.
pub proof fn law_clear_flags(s: SessionModel)
    ensures
        s.after(Event::Flag(false)) == s.awaiting(s.flag_request()),
        s.reply(Event::Flag(false)) == session::quiet(s.flag_request()),
{
}

/// What is read from the terminal reaches the child with its mouse events in
/// inner coordinates and without those on the border. Input without an escape
/// reaches it as it is.
pub proof fn law_input(s: SessionModel, bytes: Vec<u8>)
    requires
        bytes@.len() > 0,
    ensures
        ({
            let reply = s.reply(Event::Input(ReadOutcome::Data(bytes)));
            match mouse::forwarded(s.paste, bytes@, s.columns, s.rows) {
                Some(forwarded) => reply.next == Request::WriteChild && reply.to_child == forwarded,
                None => reply == session::quiet(Request::TakeChildFlag),
            }
        }),
        (forall|i: int| 0 <= i < bytes@.len() ==> #[trigger] bytes@[i] != codes::ESC) ==> s.reply(
            Event::Input(ReadOutcome::Data(bytes)),
        ).to_child == bytes@,
{
    reveal(SessionModel::sent);
    if forall|i: int| 0 <= i < bytes@.len() ==> #[trigger] bytes@[i] != codes::ESC {
        mouse::law_typed_text_is_forwarded(s.paste, bytes@, Seq::empty(), s.columns, s.rows);
    }
}

/// After output was shown no redraw of the border is due: where one was, the
/// border and the margins came with it.
pub proof fn law_redraws_are_done(s: SessionModel, bytes: Vec<u8>)
    requires
        bytes@.len() > 0,
    ensures
        ({
            let event = Event::Output(ReadOutcome::Data(bytes));
            let filtered = vt_model::run_output(s.frame(), s.filter, bytes@);
            let due = vt_model::run_state(s.frame(), s.filter, bytes@).needs_border_redraw;
            &&& !s.after(event).filter.needs_border_redraw
            &&& s.reply(event).to_terminal == (if due {
                filtered + encode_utf8(s.framing_text()) + encode_utf8(s.margins())
            } else {
                filtered
            })
        }),
{
}

/// Output that comes in two reads is shown as if it had come in one, unless the
/// first of them makes a redraw of the border due.
pub proof fn law_output_may_be_split(s: SessionModel, t: SessionModel, a: Seq<u8>, b: Seq<u8>)
    requires
        !vt_model::run_state(s.frame(), s.filter, a).needs_border_redraw,
        t == (SessionModel { filter: vt_model::run_state(s.frame(), s.filter, a), ..s }),
    ensures
        s.shown(a + b) == s.shown(a) + t.shown(b),
{
    vt_laws::law_split(s.frame(), s.filter, a, b);
    assert(t.frame() == s.frame());
    let x = vt_model::run_output(s.frame(), s.filter, a);
    let y = vt_model::run_output(s.frame(), t.filter, b);
    let border = encode_utf8(s.framing_text());
    let margins = encode_utf8(s.margins());
    assert(t.framing_text() == s.framing_text());
    assert(t.margins() == s.margins());
    assert((x + y) + border + margins =~= x + (y + border + margins));
}

/// The session ends when the child has ended, when polling fails, when a
/// stream has ended and when the child cannot be written to.
pub proof fn law_ends(s: SessionModel, bytes: Vec<u8>)
    requires
        bytes@.len() == 0,
    ensures
        s.reply(Event::Child(ChildStatus::Exited)).next == Request::Quit,
        s.reply(Event::Child(ChildStatus::Signaled)).next == Request::Quit,
        s.reply(Event::Polled(PollOutcome::Failed)).next == Request::Quit,
        s.reply(Event::Input(ReadOutcome::Data(bytes))).next == Request::Quit,
        s.reply(Event::Output(ReadOutcome::Data(bytes))).next == Request::Quit,
        s.reply(Event::Written(false)).next == Request::Quit,
{
}

/// Signals, sizes, a poll that ran out or was interrupted and a read that may
/// be tried again never end it.
pub proof fn law_keeps_running(s: SessionModel, event: Event)
    requires
        s.expects(event),
        match event {
            Event::Flag(_) => true,
            Event::Size(_) => true,
            Event::Child(status) => status == ChildStatus::Other,
            Event::Polled(outcome) => outcome == PollOutcome::TimedOut || outcome
                == PollOutcome::Interrupted,
            Event::Input(ReadOutcome::Error(e)) => e.passes(),
            Event::Output(ReadOutcome::Error(e)) => e.passes(),
            _ => false,
        },
    ensures
        s.reply(event).next != Request::Quit,
{
}

/// The rows that the filter tracks lie on the inner screen.
pub open spec fn in_bounds(s: SessionModel) -> bool {
    s.wf() && vt_laws::in_bounds(s.frame(), s.filter)
}

/// Whatever happens to a session, resizes among it, the tracked rows stay on
/// the inner screen.
#[verifier::rlimit(40)]
pub proof fn law_stays_in_bounds(s: SessionModel, event: Event)
    requires
        in_bounds(s),
    ensures
        in_bounds(s.after(event)),
{
    let after = s.after(event);
    match event {
        Event::Output(ReadOutcome::Data(bytes)) => {
            vt_laws::law_runs_in_bounds(s.frame(), s.filter, bytes@);
            vt_laws::law_dimming_is_kept(s.frame(), s.filter, bytes@);
            assert(after.frame() == s.frame());
        },
        Event::Size(Some((columns, rows))) => {
            if session::fits(columns, rows) {
                vt_laws::law_starts_in_bounds(after.frame(), s.filter);
            }
        },
        _ => {},
    }
}

/// A fresh session has them there.
pub proof fn law_starts_in_bounds(s: SessionModel)
    requires
        s.wf(),
        s.filter == Filter::initial().dimmed(s.dimming()),
    ensures
        in_bounds(s),
{
}

} // verus!
