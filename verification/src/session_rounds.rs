//! The rounds of a session, request by request: what comes next, what is
//! written where, and what each event changes.

use crate::border;
use crate::config::BorderStyle;
use crate::dimming::Dimming;
use crate::mouse;
use crate::session;
use crate::session::{
    ChildStatus, Event, PollOutcome, ReadError, ReadOutcome, Readiness, Request, SessionModel,
};
use crate::text;
use crate::vt_model;
use crate::vt_model::Filter;
use vstd::prelude::*;
use vstd::utf8::*;

verus! {

/// A session needs five columns and five rows.
pub proof fn law_least_size(columns: u16, rows: u16)
    ensures
        session::fits(columns, rows) <==> columns >= 5 && rows >= 5,
{
}

/// Each request has its own kind of result.
pub proof fn law_expected_events(s: SessionModel, event: Event)
    ensures
        s.expects(event) <==> match s.request {
            Request::TakeChildFlag => event is Flag,
            Request::TakeWinchFlag => event is Flag,
            Request::TakeUsr1Flag => event is Flag,
            Request::TakeUsr2Flag => event is Flag,
            Request::ReapChild => event is Child,
            Request::MeasureTerminal => event is Size,
            Request::Poll => event is Polled,
            Request::ReadInput => event is Input,
            Request::WriteChild => event is Written,
            Request::ReadChild => event is Output,
            Request::Quit => false,
        },
{
}

/// With colours that can be read, a session deals with every result that it
/// waits for.
pub proof fn law_readable_colors(s: SessionModel, event: Event)
    requires
        border::has_components(encode_utf8(s.active_color)),
        border::has_components(encode_utf8(s.inactive_color)),
    ensures
        s.accepts(event) == s.expects(event),
{
}

/// A session that waits for a result deals with it, unless that makes it draw
/// in a colour that cannot be read: the one of the focus that is gained or lost,
/// and for a new size or output the one that it has.
pub proof fn law_unreadable_colors(s: SessionModel, event: Event)
    ensures
        ({
            let active = border::has_components(encode_utf8(s.active_color));
            let inactive = border::has_components(encode_utf8(s.inactive_color));
            let own = if s.active {
                active
            } else {
                inactive
            };
            s.accepts(event) <==> s.expects(event) && match event {
                Event::Flag(came) => {
                    &&& came && s.request == Request::TakeUsr1Flag ==> active
                    &&& came && s.request == Request::TakeUsr2Flag ==> inactive
                },
                Event::Size(Some((columns, rows))) => columns >= 5 && rows >= 5 ==> own,
                Event::Output(ReadOutcome::Data(bytes)) => bytes@.len() > 0 ==> own,
                _ => true,
            }
        }),
{
}

/// A round looks at the four flags in turn, and then polls.
pub proof fn law_flags_come_first(s: SessionModel, came: bool)
    ensures
        ({
            let next = s.reply(Event::Flag(came)).next;
            &&& s.request == Request::TakeChildFlag ==> next == (if came {
                Request::ReapChild
            } else {
                Request::TakeWinchFlag
            })
            &&& s.request == Request::TakeWinchFlag ==> next == (if came {
                Request::MeasureTerminal
            } else {
                Request::TakeUsr1Flag
            })
            &&& s.request == Request::TakeUsr1Flag ==> next == Request::TakeUsr2Flag
            &&& s.request == Request::TakeUsr2Flag ==> next == Request::Poll
        }),
{
}

/// A child that ended ends the session; after any other news, and after a
/// resize, the round goes on.
pub proof fn law_news(s: SessionModel, status: ChildStatus, size: Option<(u16, u16)>)
    ensures
        s.request == Request::ReapChild ==> s.reply(Event::Child(status)).next == (match status {
            ChildStatus::Exited => Request::Quit,
            ChildStatus::Signaled => Request::Quit,
            ChildStatus::Other => Request::TakeWinchFlag,
        }),
        s.request == Request::MeasureTerminal ==> s.reply(Event::Size(size)).next
            == Request::TakeUsr1Flag,
{
}

/// What to do about the child, by what polling found of it.
pub open spec fn about_child(child: Option<Readiness>) -> Request {
    match child {
        None => Request::TakeChildFlag,
        Some(ready) => if ready.readable {
            Request::ReadChild
        } else if ready.hung_up || ready.error {
            Request::Quit
        } else {
            Request::TakeChildFlag
        },
    }
}

/// Polling that found nothing starts the next round, and polling that failed
/// ends the session. Input comes before output; a terminal that hung up ends the
/// session once its input is dealt with.
pub proof fn law_polling(s: SessionModel, input: Option<Readiness>, child: Option<Readiness>)
    ensures
        s.reply(Event::Polled(PollOutcome::TimedOut)).next == Request::TakeChildFlag,
        s.reply(Event::Polled(PollOutcome::Interrupted)).next == Request::TakeChildFlag,
        s.reply(Event::Polled(PollOutcome::Failed)).next == Request::Quit,
        ({
            let event = Event::Polled(PollOutcome::Ready { input, child });
            let after = s.after(event);
            &&& s.reply(event).next == (match input {
                None => about_child(child),
                Some(ready) => if ready.readable {
                    Request::ReadInput
                } else if ready.hung_up || ready.error {
                    Request::Quit
                } else {
                    about_child(child)
                },
            })
            &&& after.child == child
            &&& after.input_broken == (match input {
                None => false,
                Some(ready) => ready.hung_up || ready.error,
            })
        }),
{
}

/// Reading nothing ends the session, and so does a read that failed for good.
/// A read that may be tried again starts the next round.
pub proof fn law_reading(s: SessionModel, nothing: Vec<u8>)
    requires
        nothing@.len() == 0,
    ensures
        s.reply(Event::Input(ReadOutcome::Data(nothing))).next == Request::Quit,
        s.reply(Event::Output(ReadOutcome::Data(nothing))).next == Request::Quit,
        s.reply(Event::Input(ReadOutcome::Error(ReadError::WouldBlock))).next
            == Request::TakeChildFlag,
        s.reply(Event::Input(ReadOutcome::Error(ReadError::Interrupted))).next
            == Request::TakeChildFlag,
        s.reply(Event::Input(ReadOutcome::Error(ReadError::Io))).next == Request::Quit,
        s.reply(Event::Input(ReadOutcome::Error(ReadError::Other))).next == Request::Quit,
        s.reply(Event::Output(ReadOutcome::Error(ReadError::WouldBlock))).next
            == Request::TakeChildFlag,
        s.reply(Event::Output(ReadOutcome::Error(ReadError::Interrupted))).next
            == Request::TakeChildFlag,
        s.reply(Event::Output(ReadOutcome::Error(ReadError::Io))).next == Request::Quit,
        s.reply(Event::Output(ReadOutcome::Error(ReadError::Other))).next == Request::Quit,
{
}

/// Input is written to the child, in inner coordinates, where anything is left
/// of it; then comes the child's output, unless the terminal hung up or the
/// write failed.
pub proof fn law_input_goes_to_the_child(s: SessionModel, bytes: Vec<u8>, done: bool)
    requires
        bytes@.len() > 0,
    ensures
        ({
            let event = Event::Input(ReadOutcome::Data(bytes));
            let reply = s.reply(event);
            let moved = mouse::moved(s.paste, bytes@, s.columns, s.rows);
            &&& moved.len() > 0 ==> reply.next == Request::WriteChild && reply.to_child == moved
            &&& moved.len() == 0 ==> reply.next == Request::TakeChildFlag && reply.to_child.len()
                == 0
            &&& reply.to_terminal.len() == 0
            &&& reply.resize is None
            &&& s.after(event) == (SessionModel {
                paste: mouse::paste_after(s.paste, bytes@, s.columns, s.rows),
                request: reply.next,
                ..s
            })
        }),
        s.reply(Event::Written(done)).next == (if !done || s.input_broken {
            Request::Quit
        } else {
            about_child(s.child)
        }),
{
    reveal(SessionModel::sent);
    reveal(SessionModel::pasted);
}

/// The frame of a session has its size, and draws side border cells in the
/// colour of the focus with the same character that the sides of its drawn
/// border have.
pub proof fn law_frame(s: SessionModel)
    ensures
        s.frame().width == s.columns,
        s.frame().height == s.rows,
        ({
            let side = match s.style {
                BorderStyle::Rounded => '│',
                BorderStyle::Heavy => '┃',
                BorderStyle::Double => '║',
                BorderStyle::Single => '│',
                BorderStyle::Ascii => '|',
            };
            let color = border::color_text(
                if s.active {
                    s.active_color
                } else {
                    s.inactive_color
                },
            );
            let lift = if s.dim_inactive && !s.active {
                "\x1b[22m"@
            } else {
                Seq::empty()
            };
            s.frame().cell == encode_utf8(lift + color) + encode_utf8(seq![side]) + text::bytes(
                "\x1b[39m",
            )
        }),
{
    assert(Seq::<char>::empty() + border::color_text(s.color()) =~= border::color_text(s.color()));
}

/// The border that is drawn: the frame of the size and style, in the colour of
/// the focus.
pub open spec fn own_border(s: SessionModel) -> Seq<char> {
    border::frame_text(
        s.columns,
        s.rows,
        s.style,
        if s.active {
            s.active_color
        } else {
            s.inactive_color
        },
    )
}

/// The border, lifted out of the faint content around it.
pub open spec fn own_framing(s: SessionModel) -> Seq<char> {
    if s.dim_inactive && !s.active {
        "\x1b[22m"@ + own_border(s) + "\x1b[2m"@
    } else {
        own_border(s)
    }
}

/// Scrolling confined to the rows from the second to the last but one.
pub open spec fn own_margins(s: SessionModel) -> Seq<char> {
    "\x1b[2;"@ + text::numeral((s.rows - 1) as nat) + "r"@
}

proof fn lemma_own(s: SessionModel)
    ensures
        s.border_text() == own_border(s),
        s.framing_text() == own_framing(s),
        s.margins() == own_margins(s),
{
    reveal(session::drawn);
}

/// The screen is set up with the border around a blank, the margins inside it
/// and the cursor in the first inner cell.
pub proof fn law_screen_is_set_up(s: SessionModel)
    ensures
        s.setup_text() == "\x1b[2J"@ + own_framing(s) + own_margins(s) + "\x1b[2;2H"@,
{
    lemma_own(s);
}

/// What the child writes is filtered for the frame; where that spoiled the
/// border, the border and the margins follow. The session goes on unless the
/// child hung up.
pub proof fn law_output_is_shown(s: SessionModel, bytes: Vec<u8>)
    requires
        bytes@.len() > 0,
    ensures
        ({
            let event = Event::Output(ReadOutcome::Data(bytes));
            let reply = s.reply(event);
            let after = s.after(event);
            let filter = vt_model::run_state(s.frame(), s.filter, bytes@);
            let filtered = vt_model::run_output(s.frame(), s.filter, bytes@);
            &&& reply.to_terminal == (if filter.needs_border_redraw {
                filtered + encode_utf8(own_framing(s)) + encode_utf8(own_margins(s))
            } else {
                filtered
            })
            &&& reply.to_child.len() == 0
            &&& reply.resize is None
            &&& after == (SessionModel {
                filter: Filter { needs_border_redraw: false, ..filter },
                request: reply.next,
                ..s
            })
            &&& reply.next == (match s.child {
                Some(ready) if ready.hung_up || ready.error => Request::Quit,
                _ => Request::TakeChildFlag,
            })
        }),
{
    lemma_own(s);
}

/// A new size that is large enough is taken over: the inner terminal gets two
/// columns and two rows less, the screen is set up anew, and the filter forgets
/// where the cursor was. Any other is ignored.
pub proof fn law_sizes(s: SessionModel, size: Option<(u16, u16)>)
    requires
        s.request == Request::MeasureTerminal,
    ensures
        ({
            let event = Event::Size(size);
            let reply = s.reply(event);
            let after = s.after(event);
            match size {
                Some((columns, rows)) if columns >= 5 && rows >= 5 => {
                    &&& reply.resize == Some(((columns - 2) as u16, (rows - 2) as u16))
                    &&& reply.to_terminal == encode_utf8(
                        "\x1b[2J"@ + own_framing(after) + own_margins(after) + "\x1b[2;2H"@,
                    )
                    &&& reply.to_child.len() == 0
                    &&& after == (SessionModel {
                        columns,
                        rows,
                        filter: Filter {
                            cursor_row: 1,
                            scroll_top: 1,
                            scroll_bottom: 0,
                            ..s.filter
                        },
                        shrunk: false,
                        request: Request::TakeUsr1Flag,
                        ..s
                    })
                },
                _ => {
                    &&& reply.resize is None
                    &&& reply.to_terminal.len() == 0
                    &&& after == (SessionModel { request: Request::TakeUsr1Flag, ..s })
                },
            }
        }),
{
    lemma_own(s.after(Event::Size(size)));
}

/// The focus that comes with a flag, and the border in its colour. A pane whose
/// look changes with it has its inner terminal one row short until it polls.
pub proof fn law_focus_flags(s: SessionModel)
    requires
        s.request == Request::TakeUsr1Flag || s.request == Request::TakeUsr2Flag,
        s.wf(),
    ensures
        ({
            let event = Event::Flag(true);
            let reply = s.reply(event);
            let after = s.after(event);
            let gained = s.request == Request::TakeUsr1Flag;
            let changes = s.dim_inactive && s.active != gained;
            &&& reply.to_child.len() == 0
            &&& reply.to_terminal == encode_utf8(
                if changes && gained {
                    "\x1b[22m"@ + own_border(after)
                } else {
                    own_framing(after)
                },
            )
            &&& reply.resize == (if changes {
                Some(((s.columns - 2) as u16, (s.rows - 3) as u16))
            } else {
                None
            })
            &&& after == (SessionModel {
                active: gained,
                filter: Filter {
                    dimming: if !s.dim_inactive {
                        Dimming::Off
                    } else if gained {
                        Dimming::Lifted
                    } else {
                        Dimming::Faint
                    },
                    ..s.filter
                },
                shrunk: s.shrunk || changes,
                request: reply.next,
                ..s
            })
        }),
{
    lemma_own(s.after(Event::Flag(true)));
}

/// A flag that is clear, news of the child, a poll and a write to the child
/// write nothing, and change nothing but what polling found.
pub proof fn law_quiet_events(
    s: SessionModel,
    status: ChildStatus,
    outcome: PollOutcome,
    done: bool,
)
    ensures
        ({
            let clear = s.reply(Event::Flag(false));
            &&& clear.to_terminal.len() == 0 && clear.to_child.len() == 0 && clear.resize is None
            &&& s.after(Event::Flag(false)) == (SessionModel { request: clear.next, ..s })
        }),
        s.request == Request::TakeChildFlag || s.request == Request::TakeWinchFlag ==> {
            let set = s.reply(Event::Flag(true));
            &&& set.to_terminal.len() == 0 && set.to_child.len() == 0 && set.resize is None
            &&& s.after(Event::Flag(true)) == (SessionModel { request: set.next, ..s })
        },
        ({
            let news = s.reply(Event::Child(status));
            &&& news.to_terminal.len() == 0 && news.to_child.len() == 0 && news.resize is None
            &&& s.after(Event::Child(status)) == (SessionModel { request: news.next, ..s })
        }),
        ({
            let polled = s.reply(Event::Polled(outcome));
            let after = s.after(Event::Polled(outcome));
            &&& polled.to_terminal.len() == 0 && polled.to_child.len() == 0
            &&& polled.resize == (if s.shrunk {
                Some(((s.columns - 2) as u16, (s.rows - 2) as u16))
            } else {
                None
            })
            &&& after == (SessionModel {
                request: polled.next,
                shrunk: false,
                child: after.child,
                input_broken: after.input_broken,
                ..s
            })
        }),
        ({
            let written = s.reply(Event::Written(done));
            &&& written.to_terminal.len() == 0 && written.to_child.len() == 0
                && written.resize is None
            &&& s.after(Event::Written(done)) == (SessionModel { request: written.next, ..s })
        }),
{
}

/// The style, the colours and the option stay what they were.
pub proof fn law_settings_stay(s: SessionModel, event: Event)
    ensures
        s.after(event).style == s.style,
        s.after(event).active_color == s.active_color,
        s.after(event).inactive_color == s.inactive_color,
        s.after(event).dim_inactive == s.dim_inactive,
        s.after(event).request == s.reply(event).next,
{
}

} // verus!
