//! The decisions of the wrapper's main loop.
//!
//! A `Session` asks for one piece of outside work at a time (look at a signal
//! flag, poll, read, write) and is handed the result as an `Event`. Its answer
//! says what to write where, and what to do next.

use crate::border;
use crate::config::{BorderConfig, BorderStyle, Config};
use crate::dimming::Dimming;
use crate::mouse;
use crate::paste::Paste;
use crate::text;
use crate::vt_filter;
use crate::vt_filter::{BorderInfo, FilterState};
use crate::vt_laws;
use crate::vt_model;
use crate::vt_model::{Filter, Frame};
use vstd::prelude::*;
use vstd::utf8::*;

verus! {

/// What polling found out about a file descriptor.
#[derive(Debug, Clone, Copy, PartialEq, Eq, Structural)]
pub struct Readiness {
    pub readable: bool,
    pub hung_up: bool,
    pub error: bool,
}

/// How polling the terminal and the child ended. A descriptor without a
/// report is `None`.
#[derive(Debug, Clone, Copy, PartialEq, Eq, Structural)]
pub enum PollOutcome {
    TimedOut,
    Interrupted,
    Failed,
    Ready { input: Option<Readiness>, child: Option<Readiness> },
}

/// Why a read failed.
#[derive(Debug, Clone, Copy, PartialEq, Eq, Structural)]
pub enum ReadError {
    WouldBlock,
    Interrupted,
    Io,
    Other,
}

/// How a read ended; no bytes mean the end of the stream.
#[derive(Debug)]
pub enum ReadOutcome {
    Data(Vec<u8>),
    Error(ReadError),
}

/// What became of the child.
#[derive(Debug, Clone, Copy, PartialEq, Eq, Structural)]
pub enum ChildStatus {
    Exited,
    Signaled,
    Other,
}

/// The outside work that a session waits for.
#[derive(Debug, Clone, Copy, PartialEq, Eq, Structural)]
pub enum Request {
    /// Take the flag of a changed child.
    TakeChildFlag,
    /// Ask for the child's status without waiting.
    ReapChild,
    /// Take the flag of a resized terminal.
    TakeWinchFlag,
    /// Ask for the size of the terminal.
    MeasureTerminal,
    /// Take the flag of a gained focus.
    TakeUsr1Flag,
    /// Take the flag of a lost focus.
    TakeUsr2Flag,
    /// Poll the terminal and the child.
    Poll,
    /// Read from the terminal.
    ReadInput,
    /// Write to the child.
    WriteChild,
    /// Read from the child.
    ReadChild,
    /// Leave the loop.
    Quit,
}

/// The result of a piece of outside work.
#[derive(Debug)]
pub enum Event {
    /// A flag was taken.
    Flag(bool),
    /// The child's status.
    Child(ChildStatus),
    /// Columns and rows of the terminal, where they could be had.
    Size(Option<(u16, u16)>),
    /// How polling ended.
    Polled(PollOutcome),
    /// What was read from the terminal.
    Input(ReadOutcome),
    /// Writing to the child succeeded.
    Written(bool),
    /// What was read from the child.
    Output(ReadOutcome),
}

/// What to do: resize the inner terminal, then write to the outer one, then
/// see to the request. A write to the child carries its bytes here.
#[derive(Debug)]
pub struct Step {
    pub resize: Option<(u16, u16)>,
    pub to_terminal: Vec<u8>,
    pub to_child: Vec<u8>,
    pub next: Request,
}

/// `Step` with its bytes as sequences.
#[verifier::ext_equal]
pub struct Reply {
    pub resize: Option<(u16, u16)>,
    pub to_terminal: Seq<u8>,
    pub to_child: Seq<u8>,
    pub next: Request,
}

impl View for Step {
    type V = Reply;

    open spec fn view(&self) -> Reply {
        Reply {
            resize: self.resize,
            to_terminal: self.to_terminal@,
            to_child: self.to_child@,
            next: self.next,
        }
    }
}

/// The fewest columns and rows that a session runs in.
pub const MIN_SIZE: u16 = 5;

/// The state of the wrapper between two pieces of outside work.
pub struct Session {
    border: BorderConfig,
    dim_inactive: bool,
    active: bool,
    columns: u16,
    rows: u16,
    filter: FilterState,
    request: Request,
    input_broken: bool,
    child: Option<Readiness>,
    paste: Paste,
    shrunk: bool,
}

/// `Session` as plain values.
#[verifier::ext_equal]
pub struct SessionModel {
    pub style: BorderStyle,
    pub active_color: Seq<char>,
    pub inactive_color: Seq<char>,
    /// The content is dimmed while the pane has not the focus.
    pub dim_inactive: bool,
    /// The pane has the focus.
    pub active: bool,
    pub columns: u16,
    pub rows: u16,
    pub filter: Filter,
    /// The outside work that is waited for.
    pub request: Request,
    /// The last poll found the terminal hung up or in error.
    pub input_broken: bool,
    /// What the last poll found of the child.
    pub child: Option<Readiness>,
    /// Where in a paste the input stands.
    pub paste: Paste,
    /// The inner terminal is one row short, until the next poll, so that the
    /// child repaints.
    pub shrunk: bool,
}

impl View for Session {
    type V = SessionModel;

    closed spec fn view(&self) -> SessionModel {
        SessionModel {
            style: self.border.style,
            active_color: self.border.active_color@,
            inactive_color: self.border.inactive_color@,
            dim_inactive: self.dim_inactive,
            active: self.active,
            columns: self.columns,
            rows: self.rows,
            filter: self.filter@,
            request: self.request,
            input_broken: self.input_broken,
            child: self.child,
            paste: self.paste,
            shrunk: self.shrunk,
        }
    }
}

impl Readiness {
    pub open spec fn broken(self) -> bool {
        self.hung_up || self.error
    }

    fn is_broken(&self) -> (r: bool)
        ensures
            r == self.broken(),
    {
        self.hung_up || self.error
    }
}

impl ReadError {
    /// The read may be tried again later.
    pub open spec fn passes(self) -> bool {
        self == ReadError::WouldBlock || self == ReadError::Interrupted
    }
}

/// The size is enough for a session.
pub open spec fn fits(columns: u16, rows: u16) -> bool {
    columns >= MIN_SIZE && rows >= MIN_SIZE
}

/// An answer that writes nothing.
pub open spec fn quiet(next: Request) -> Reply {
    Reply { resize: None, to_terminal: Seq::empty(), to_child: Seq::empty(), next }
}

/// The text that draws the border.
#[verifier::opaque]
pub open spec fn drawn(columns: u16, rows: u16, style: BorderStyle, color: Seq<char>) -> Seq<char> {
    border::frame_text(columns, rows, style, color)
}

impl SessionModel {
    /// The colour of the border.
    pub open spec fn color(self) -> Seq<char> {
        if self.active {
            self.active_color
        } else {
            self.inactive_color
        }
    }

    /// The text that draws the border.
    pub open spec fn border_text(self) -> Seq<char> {
        drawn(self.columns, self.rows, self.style, self.color())
    }

    /// What the child gets for bytes read from the terminal.
    #[verifier::opaque]
    pub open spec fn sent(self, input: Seq<u8>) -> Option<Seq<u8>> {
        mouse::forwarded(self.paste, input, self.columns, self.rows)
    }

    /// Where in a paste those bytes end.
    #[verifier::opaque]
    pub open spec fn pasted(self, input: Seq<u8>) -> Paste {
        mouse::paste_after(self.paste, input, self.columns, self.rows)
    }

    /// How the content is written.
    pub open spec fn dimming(self) -> Dimming {
        Dimming::of(self.dim_inactive, self.active)
    }

    /// The text that draws the border, never faint, and leaves faint content
    /// to be written faint.
    pub open spec fn framing_text(self) -> Seq<char> {
        if self.dimming() == Dimming::Faint {
            "\x1b[22m"@ + self.border_text() + "\x1b[2m"@
        } else {
            self.border_text()
        }
    }

    /// The text that draws the border of a session that gained or lost the
    /// focus: where the content was faint and no longer is, that is lifted.
    pub open spec fn focus_text(self, active: bool) -> Seq<char> {
        if self.dimming() == Dimming::Faint && active {
            "\x1b[22m"@ + self.focused(active).border_text()
        } else {
            self.focused(active).framing_text()
        }
    }

    /// The focus changes, and the look of the content with it: the child has
    /// to repaint what is on the screen.
    pub open spec fn repaints(self, active: bool) -> bool {
        self.dim_inactive && self.active != active
    }

    /// A size of the inner terminal that is one row short.
    pub open spec fn short_size(self) -> (u16, u16) {
        ((self.columns - 2) as u16, (self.rows - 3) as u16)
    }

    /// The text that sets the colour of a side border cell drawn amid content,
    /// and keeps the cell from being faint.
    pub open spec fn cell_color(self) -> Seq<char> {
        if self.dimming() == Dimming::Faint {
            "\x1b[22m"@ + border::color_text(self.color())
        } else {
            border::color_text(self.color())
        }
    }

    /// The session with the focus gained or lost.
    pub open spec fn focused(self, active: bool) -> SessionModel {
        SessionModel {
            active,
            filter: self.filter.dimmed(Dimming::of(self.dim_inactive, active)),
            shrunk: self.shrunk || self.repaints(active),
            ..self
        }
    }

    /// The sequence that confines scrolling to the inner rows.
    pub open spec fn margins(self) -> Seq<char> {
        "\x1b[2;"@ + text::numeral((self.rows - 1) as nat) + "r"@
    }

    /// The text that clears the screen and sets up the frame on it.
    pub open spec fn setup_text(self) -> Seq<char> {
        "\x1b[2J"@ + self.framing_text() + self.margins() + "\x1b[2;2H"@
    }

    /// The frame that the program's output has to stay in.
    pub open spec fn frame(self) -> Frame {
        Frame {
            width: self.columns,
            height: self.rows,
            cell: vt_filter::cell_bytes(border::glyphs(self.style).5, self.cell_color()),
        }
    }

    /// The size of the inner terminal.
    pub open spec fn inner_size(self) -> (u16, u16) {
        ((self.columns - 2) as u16, (self.rows - 2) as u16)
    }

    /// The size is enough, and the filter dims the content as the focus asks.
    pub open spec fn wf(self) -> bool {
        fits(self.columns, self.rows) && self.filter.dimming == self.dimming()
    }

    pub open spec fn awaiting(self, request: Request) -> SessionModel {
        SessionModel { request, ..self }
    }

    /// The event is the result of the work that the session waits for.
    pub open spec fn expects(self, event: Event) -> bool {
        match event {
            Event::Flag(_) => self.request == Request::TakeChildFlag || self.request
                == Request::TakeWinchFlag || self.request == Request::TakeUsr1Flag || self.request
                == Request::TakeUsr2Flag,
            Event::Child(_) => self.request == Request::ReapChild,
            Event::Size(_) => self.request == Request::MeasureTerminal,
            Event::Polled(_) => self.request == Request::Poll,
            Event::Input(_) => self.request == Request::ReadInput,
            Event::Written(_) => self.request == Request::WriteChild,
            Event::Output(_) => self.request == Request::ReadChild,
        }
    }

    /// The colour that the event makes the session draw with, if it does.
    pub open spec fn painted(self, event: Event) -> Option<Seq<char>> {
        match event {
            Event::Flag(true) => {
                if self.request == Request::TakeUsr1Flag {
                    Some(self.active_color)
                } else if self.request == Request::TakeUsr2Flag {
                    Some(self.inactive_color)
                } else {
                    None
                }
            },
            Event::Size(Some((columns, rows))) => {
                if fits(columns, rows) {
                    Some(self.color())
                } else {
                    None
                }
            },
            Event::Output(ReadOutcome::Data(bytes)) => {
                if bytes@.len() > 0 {
                    Some(self.color())
                } else {
                    None
                }
            },
            _ => None,
        }
    }

    /// The session can deal with the event: it waits for it, and a colour
    /// that it has to draw with can be read.
    pub open spec fn accepts(self, event: Event) -> bool {
        self.expects(event) && match self.painted(event) {
            Some(color) => border::has_components(encode_utf8(color)),
            None => true,
        }
    }

    /// What the terminal gets to see for bytes of the program: what the filter
    /// lets through and, where that spoiled the border, the border and the
    /// scroll margins.
    pub open spec fn shown(self, output: Seq<u8>) -> Seq<u8> {
        let filtered = vt_model::run_output(self.frame(), self.filter, output);
        if vt_model::run_state(self.frame(), self.filter, output).needs_border_redraw {
            filtered + encode_utf8(self.framing_text()) + encode_utf8(self.margins())
        } else {
            filtered
        }
    }

    /// The request that looks after the child, once the terminal is done with.
    pub open spec fn child_request(self) -> Request {
        match self.child {
            Some(ready) => {
                if ready.readable {
                    Request::ReadChild
                } else if ready.broken() {
                    Request::Quit
                } else {
                    Request::TakeChildFlag
                }
            },
            None => Request::TakeChildFlag,
        }
    }

    /// The request after a poll that had something to report.
    pub open spec fn ready_request(self, input: Option<Readiness>) -> Request {
        match input {
            Some(ready) => {
                if ready.readable {
                    Request::ReadInput
                } else if ready.broken() {
                    Request::Quit
                } else {
                    self.child_request()
                }
            },
            None => self.child_request(),
        }
    }

    /// The request after a flag was found clear, or was dealt with.
    pub open spec fn flag_request(self) -> Request {
        if self.request == Request::TakeChildFlag || self.request == Request::ReapChild {
            Request::TakeWinchFlag
        } else if self.request == Request::TakeWinchFlag || self.request
            == Request::MeasureTerminal {
            Request::TakeUsr1Flag
        } else if self.request == Request::TakeUsr1Flag {
            Request::TakeUsr2Flag
        } else {
            Request::Poll
        }
    }

    /// The session with what the event changes of it, but for its request.
    pub open spec fn changed(self, event: Event) -> SessionModel {
        match event {
            Event::Flag(true) => {
                if self.request == Request::TakeUsr1Flag {
                    self.focused(true)
                } else if self.request == Request::TakeUsr2Flag {
                    self.focused(false)
                } else {
                    self
                }
            },
            Event::Size(Some((columns, rows))) => {
                if fits(columns, rows) {
                    SessionModel {
                        columns,
                        rows,
                        filter: self.filter.homed(),
                        shrunk: false,
                        ..self
                    }
                } else {
                    self
                }
            },
            Event::Polled(PollOutcome::Ready { input, child }) => SessionModel {
                input_broken: input matches Some(ready) && ready.broken(),
                child,
                shrunk: false,
                ..self
            },
            Event::Polled(_) => SessionModel { shrunk: false, ..self },
            Event::Input(ReadOutcome::Data(bytes)) if bytes@.len() > 0 => SessionModel {
                paste: self.pasted(bytes@),
                ..self
            },
            Event::Output(ReadOutcome::Data(bytes)) => {
                if bytes@.len() == 0 {
                    self
                } else {
                    SessionModel {
                        filter: Filter {
                            needs_border_redraw: false,
                            ..vt_model::run_state(self.frame(), self.filter, bytes@)
                        },
                        ..self
                    }
                }
            },
            _ => self,
        }
    }

    /// The session's answer to an event.
    pub open spec fn reply(self, event: Event) -> Reply {
        let after = self.changed(event);
        match event {
            Event::Flag(came) => {
                if !came {
                    quiet(self.flag_request())
                } else if self.request == Request::TakeChildFlag {
                    quiet(Request::ReapChild)
                } else if self.request == Request::TakeWinchFlag {
                    quiet(Request::MeasureTerminal)
                } else {
                    Reply {
                        resize: if self.repaints(after.active) {
                            Some(self.short_size())
                        } else {
                            None
                        },
                        to_terminal: encode_utf8(self.focus_text(after.active)),
                        ..quiet(self.flag_request())
                    }
                }
            },
            Event::Child(status) => quiet(
                if status == ChildStatus::Other {
                    self.flag_request()
                } else {
                    Request::Quit
                },
            ),
            Event::Size(size) => match size {
                Some((columns, rows)) if fits(columns, rows) => Reply {
                    resize: Some(after.inner_size()),
                    to_terminal: encode_utf8(after.setup_text()),
                    ..quiet(self.flag_request())
                },
                _ => quiet(self.flag_request()),
            },
            Event::Polled(outcome) => Reply {
                resize: if self.shrunk {
                    Some(self.inner_size())
                } else {
                    None
                },
                ..quiet(
                    match outcome {
                        PollOutcome::TimedOut | PollOutcome::Interrupted => Request::TakeChildFlag,
                        PollOutcome::Failed => Request::Quit,
                        PollOutcome::Ready { input, child } => after.ready_request(input),
                    },
                )
            },
            Event::Input(ReadOutcome::Data(bytes)) => {
                if bytes@.len() == 0 {
                    quiet(Request::Quit)
                } else {
                    match self.sent(bytes@) {
                        Some(forwarded) => Reply {
                            to_child: forwarded,
                            ..quiet(Request::WriteChild)
                        },
                        None => quiet(Request::TakeChildFlag),
                    }
                }
            },
            Event::Written(done) => quiet(
                if !done || self.input_broken {
                    Request::Quit
                } else {
                    self.child_request()
                },
            ),
            Event::Output(ReadOutcome::Data(bytes)) => {
                if bytes@.len() == 0 {
                    quiet(Request::Quit)
                } else {
                    Reply {
                        to_terminal: self.shown(bytes@),
                        ..quiet(
                            if self.child matches Some(ready) && ready.broken() {
                                Request::Quit
                            } else {
                                Request::TakeChildFlag
                            },
                        )
                    }
                }
            },
            Event::Input(ReadOutcome::Error(e)) | Event::Output(ReadOutcome::Error(e)) => quiet(
                if e.passes() {
                    Request::TakeChildFlag
                } else {
                    Request::Quit
                },
            ),
        }
    }

    /// The session after an event.
    pub open spec fn after(self, event: Event) -> SessionModel {
        self.changed(event).awaiting(self.reply(event).next)
    }
}

/// A step that writes nothing.
fn quiet_step(next: Request) -> (step: Step)
    ensures
        step@ == quiet(next),
{
    let step: Step = Step { resize: None, to_terminal: Vec::new(), to_child: Vec::new(), next };
    assert(step@ =~= quiet(next));
    step
}

impl Session {
    /// A session for a terminal of the given size. `None` where the terminal
    /// is too small.
    pub fn start(columns: u16, rows: u16, config: Config, active: bool) -> (r: Option<Session>)
        ensures
            r is Some <==> fits(columns, rows),
            r matches Some(session) ==> session@.wf() && session@ == (SessionModel {
                style: config.border.style,
                active_color: config.border.active_color@,
                inactive_color: config.border.inactive_color@,
                dim_inactive: config.behavior.dim_inactive,
                active,
                columns,
                rows,
                filter: Filter::initial().dimmed(
                    Dimming::of(config.behavior.dim_inactive, active),
                ),
                request: Request::TakeChildFlag,
                input_broken: false,
                child: None,
                paste: Paste::outside(),
                shrunk: false,
            }),
    {
        if columns < MIN_SIZE || rows < MIN_SIZE {
            return None;
        }
        let dim_inactive: bool = config.behavior.dim_inactive;
        let mut filter: FilterState = FilterState::new();
        filter.set_dimming(Dimming::choose_for(dim_inactive, active));
        Some(
            Session {
                border: config.border,
                dim_inactive,
                active,
                columns,
                rows,
                filter,
                request: Request::TakeChildFlag,
                input_broken: false,
                child: None,
                paste: Paste::new(),
                shrunk: false,
            },
        )
    }

    /// Columns and rows of the inner terminal.
    pub fn inner_size(&self) -> (size: (u16, u16))
        requires
            self@.wf(),
        ensures
            size == self@.inner_size(),
    {
        (self.columns - 2, self.rows - 2)
    }

    /// The outside work that the session waits for.
    pub fn request(&self) -> (request: Request)
        ensures
            request == self@.request,
    {
        self.request
    }

    /// The colour of the border.
    fn color(&self) -> (color: &str)
        ensures
            color@ == self@.color(),
    {
        if self.active {
            self.border.active_color.as_str()
        } else {
            self.border.inactive_color.as_str()
        }
    }

    /// Tells whether the colour of the border can be read.
    pub fn can_paint(&self) -> (r: bool)
        ensures
            r == border::has_components(encode_utf8(self@.color())),
    {
        border::can_read_color(self.color())
    }

    /// The text that draws the border.
    fn border_text(&self) -> (r: String)
        requires
            border::has_components(encode_utf8(self@.color())),
        ensures
            r@ == self@.border_text(),
    {
        proof {
            reveal(drawn);
        }
        border::render_border(self.columns, self.rows, self.border.style, self.color())
    }

    /// How the content is written.
    fn dimming(&self) -> (dimming: Dimming)
        ensures
            dimming == self@.dimming(),
    {
        Dimming::choose_for(self.dim_inactive, self.active)
    }

    /// The text that draws the border and keeps the dimming of the content.
    fn framing_text(&self) -> (r: String)
        requires
            border::has_components(encode_utf8(self@.color())),
        ensures
            r@ == self@.framing_text(),
    {
        let border: String = self.border_text();
        if self.dimming() == Dimming::Faint {
            let mut r: String = "\x1b[22m".to_owned();
            r.append(border.as_str());
            r.append("\x1b[2m");
            r
        } else {
            border
        }
    }

    /// The text that sets the colour of a side border cell amid content.
    fn cell_color(&self) -> (r: String)
        requires
            border::has_components(encode_utf8(self@.color())),
        ensures
            r@ == self@.cell_color(),
    {
        let color_seq: String = border::fg_color_seq(self.color());
        if self.dimming() == Dimming::Faint {
            let mut r: String = "\x1b[22m".to_owned();
            r.append(color_seq.as_str());
            r
        } else {
            color_seq
        }
    }

    /// Takes over a change of the focus: draws the border anew, and has the
    /// child repaint where the look of its content changes.
    fn on_focus(&mut self, active: bool) -> (step: Step)
        requires
            old(self)@.wf(),
            border::has_components(encode_utf8(old(self)@.focused(active).color())),
        ensures
            final(self)@ == old(self)@.focused(active),
            step@ == (Reply {
                resize: if old(self)@.repaints(active) {
                    Some(old(self)@.short_size())
                } else {
                    None
                },
                to_terminal: encode_utf8(old(self)@.focus_text(active)),
                ..quiet(old(self)@.flag_request())
            }),
    {
        let next: Request = self.flag_request();
        let lifts: bool = self.dimming() == Dimming::Faint && active;
        let repaints: bool = self.dim_inactive && self.active != active;
        let resize: Option<(u16, u16)> = if repaints {
            Some((self.columns - 2, self.rows - 3))
        } else {
            None
        };
        self.active = active;
        self.filter.set_dimming(Dimming::choose_for(self.dim_inactive, active));
        self.shrunk = self.shrunk || repaints;
        let to_terminal: Vec<u8> = if lifts {
            let mut r: String = "\x1b[22m".to_owned();
            r.append(self.border_text().as_str());
            r.as_str().as_bytes_vec()
        } else {
            self.redraw_border()
        };
        Step { resize, to_terminal, ..quiet_step(next) }
    }

    /// What leaves the terminal undimmed when the session is over.
    pub fn leave_screen(&self) -> (r: Vec<u8>)
        ensures
            r@ == (if self@.dimming() == Dimming::Faint {
                text::bytes("\x1b[22m")
            } else {
                Seq::empty()
            }),
    {
        if self.dimming() == Dimming::Faint {
            text::bytes_of("\x1b[22m")
        } else {
            Vec::new()
        }
    }

    /// The sequence that confines scrolling to the inner rows.
    fn margins(&self) -> (r: String)
        requires
            self@.wf(),
        ensures
            r@ == self@.margins(),
    {
        let mut r: String = "\x1b[2;".to_owned();
        text::push_number(&mut r, self.rows - 1);
        r.append("r");
        r
    }

    /// What clears the screen and sets up the frame on it.
    pub fn setup_screen(&self) -> (r: Vec<u8>)
        requires
            self@.wf(),
            border::has_components(encode_utf8(self@.color())),
        ensures
            r@ == encode_utf8(self@.setup_text()),
    {
        let mut r: String = "\x1b[2J".to_owned();
        r.append(self.framing_text().as_str());
        r.append(self.margins().as_str());
        r.append("\x1b[2;2H");
        r.as_str().as_bytes_vec()
    }

    /// What draws the border and leaves the rest of the screen alone.
    fn redraw_border(&self) -> (r: Vec<u8>)
        requires
            border::has_components(encode_utf8(self@.color())),
        ensures
            r@ == encode_utf8(self@.framing_text()),
    {
        self.framing_text().as_str().as_bytes_vec()
    }

    /// Filters bytes of the program, and draws the border anew where they
    /// spoiled it.
    fn show(&mut self, output: &[u8]) -> (r: Vec<u8>)
        requires
            old(self)@.wf(),
            border::has_components(encode_utf8(old(self)@.color())),
        ensures
            r@ == old(self)@.shown(output@),
            final(self)@ == (SessionModel {
                filter: Filter {
                    needs_border_redraw: false,
                    ..vt_model::run_state(old(self)@.frame(), old(self)@.filter, output@)
                },
                ..old(self)@
            }),
            final(self)@.wf(),
    {
        proof {
            vt_laws::law_dimming_is_kept(self@.frame(), self@.filter, output@);
        }
        let color_seq: String = self.cell_color();
        let chars: (char, char, char, char, char, char) = border::style_chars(self.border.style);
        let border_info: BorderInfo = BorderInfo {
            vertical_char: chars.5,
            color_seq: color_seq.as_str(),
        };
        let mut r: Vec<u8> = vt_filter::filter_child_output(
            output,
            self.columns,
            self.rows,
            &border_info,
            &mut self.filter,
        );
        if self.filter.take_border_redraw() {
            let frame: Vec<u8> = self.redraw_border();
            text::put_slice(&mut r, frame.as_slice());
            let margins: String = self.margins();
            text::put_slice(&mut r, margins.as_str().as_bytes());
        }
        r
    }

    /// The request that looks after the child.
    fn child_request(&self) -> (r: Request)
        ensures
            r == self@.child_request(),
    {
        match self.child {
            Some(ready) => {
                if ready.readable {
                    Request::ReadChild
                } else if ready.is_broken() {
                    Request::Quit
                } else {
                    Request::TakeChildFlag
                }
            },
            None => Request::TakeChildFlag,
        }
    }

    /// The request after a flag was found clear, or was dealt with.
    fn flag_request(&self) -> (r: Request)
        ensures
            r == self@.flag_request(),
    {
        match self.request {
            Request::TakeChildFlag | Request::ReapChild => Request::TakeWinchFlag,
            Request::TakeWinchFlag | Request::MeasureTerminal => Request::TakeUsr1Flag,
            Request::TakeUsr1Flag => Request::TakeUsr2Flag,
            _ => Request::Poll,
        }
    }

    /// Tells whether the session can deal with an event.
    pub fn can_step(&self, event: &Event) -> (r: bool)
        ensures
            r == self@.accepts(*event),
    {
        match event {
            Event::Flag(came) => match self.request {
                Request::TakeChildFlag | Request::TakeWinchFlag => true,
                Request::TakeUsr1Flag => !*came || border::can_read_color(
                    self.border.active_color.as_str(),
                ),
                Request::TakeUsr2Flag => !*came || border::can_read_color(
                    self.border.inactive_color.as_str(),
                ),
                _ => false,
            },
            Event::Child(_) => self.request == Request::ReapChild,
            Event::Size(size) => self.request == Request::MeasureTerminal && match size {
                Some((columns, rows)) => *columns < MIN_SIZE || *rows < MIN_SIZE
                    || self.can_paint(),
                None => true,
            },
            Event::Polled(_) => self.request == Request::Poll,
            Event::Input(_) => self.request == Request::ReadInput,
            Event::Written(_) => self.request == Request::WriteChild,
            Event::Output(outcome) => self.request == Request::ReadChild && match outcome {
                ReadOutcome::Data(bytes) => bytes.len() == 0 || self.can_paint(),
                ReadOutcome::Error(_) => true,
            },
        }
    }

    /// Deals with a taken flag.
    fn on_flag(&mut self, came: bool) -> (step: Step)
        requires
            old(self)@.wf(),
            old(self)@.accepts(Event::Flag(came)),
        ensures
            step@ == old(self)@.reply(Event::Flag(came)),
            final(self)@ == old(self)@.changed(Event::Flag(came)),
            final(self)@.wf(),
    {
        let next: Request = self.flag_request();
        if !came {
            return quiet_step(next);
        }
        match self.request {
            Request::TakeChildFlag => quiet_step(Request::ReapChild),
            Request::TakeWinchFlag => quiet_step(Request::MeasureTerminal),
            Request::TakeUsr1Flag => self.on_focus(true),
            _ => self.on_focus(false),
        }
    }

    /// Deals with the size of the terminal: a size that is too small changes
    /// nothing.
    fn on_size(&mut self, size: Option<(u16, u16)>) -> (step: Step)
        requires
            old(self)@.wf(),
            old(self)@.accepts(Event::Size(size)),
        ensures
            step@ == old(self)@.reply(Event::Size(size)),
            final(self)@ == old(self)@.changed(Event::Size(size)),
            final(self)@.wf(),
    {
        let next: Request = self.flag_request();
        match size {
            Some((columns, rows)) => {
                if columns >= MIN_SIZE && rows >= MIN_SIZE {
                    self.columns = columns;
                    self.rows = rows;
                    self.filter.reset_cursor_row();
                    self.shrunk = false;
                    let to_terminal: Vec<u8> = self.setup_screen();
                    let resize: Option<(u16, u16)> = Some(self.inner_size());
                    Step { to_terminal, resize, ..quiet_step(next) }
                } else {
                    quiet_step(next)
                }
            },
            None => quiet_step(next),
        }
    }

    /// Deals with the outcome of a poll. A shrunk inner terminal gets its row
    /// back.
    fn on_polled(&mut self, outcome: PollOutcome) -> (step: Step)
        requires
            old(self)@.wf(),
        ensures
            step@ == old(self)@.reply(Event::Polled(outcome)),
            final(self)@ == old(self)@.changed(Event::Polled(outcome)),
    {
        let resize: Option<(u16, u16)> = if self.shrunk {
            Some(self.inner_size())
        } else {
            None
        };
        self.shrunk = false;
        let next: Request = match outcome {
            PollOutcome::TimedOut | PollOutcome::Interrupted => Request::TakeChildFlag,
            PollOutcome::Failed => Request::Quit,
            PollOutcome::Ready { input, child } => {
                self.child = child;
                match input {
                    Some(ready) => {
                        self.input_broken = ready.is_broken();
                        if ready.readable {
                            Request::ReadInput
                        } else if self.input_broken {
                            Request::Quit
                        } else {
                            self.child_request()
                        }
                    },
                    None => {
                        self.input_broken = false;
                        self.child_request()
                    },
                }
            },
        };
        Step { resize, ..quiet_step(next) }
    }

    /// Deals with a read from the terminal.
    fn on_input(&mut self, outcome: ReadOutcome) -> (step: Step)
        ensures
            step@ == old(self)@.reply(Event::Input(outcome)),
            final(self)@ == old(self)@.changed(Event::Input(outcome)),
    {
        match outcome {
            ReadOutcome::Data(bytes) => {
                if bytes.len() == 0 {
                    return quiet_step(Request::Quit);
                }
                proof {
                    reveal(SessionModel::sent);
                    reveal(SessionModel::pasted);
                }
                match mouse::forward_input(
                    bytes.as_slice(),
                    self.columns,
                    self.rows,
                    &mut self.paste,
                ) {
                    Some(to_child) => Step { to_child, ..quiet_step(Request::WriteChild) },
                    None => quiet_step(Request::TakeChildFlag),
                }
            },
            ReadOutcome::Error(e) => on_read_error(e),
        }
    }

    /// Deals with a read from the child.
    fn on_output(&mut self, outcome: ReadOutcome) -> (step: Step)
        requires
            old(self)@.wf(),
            old(self)@.accepts(Event::Output(outcome)),
        ensures
            step@ == old(self)@.reply(Event::Output(outcome)),
            final(self)@ == old(self)@.changed(Event::Output(outcome)),
            final(self)@.wf(),
    {
        match outcome {
            ReadOutcome::Data(bytes) => {
                if bytes.len() == 0 {
                    return quiet_step(Request::Quit);
                }
                let to_terminal: Vec<u8> = self.show(bytes.as_slice());
                let next: Request = match self.child {
                    Some(ready) => if ready.is_broken() {
                        Request::Quit
                    } else {
                        Request::TakeChildFlag
                    },
                    None => Request::TakeChildFlag,
                };
                Step { to_terminal, ..quiet_step(next) }
            },
            ReadOutcome::Error(e) => on_read_error(e),
        }
    }

    /// Takes the result of the outside work that the session waited for, and
    /// says what to do next.
    pub fn step(&mut self, event: Event) -> (step: Step)
        requires
            old(self)@.wf(),
            old(self)@.accepts(event),
        ensures
            step@ == old(self)@.reply(event),
            final(self)@ == old(self)@.after(event),
            final(self)@.wf(),
    {
        let step: Step = match event {
            Event::Flag(came) => self.on_flag(came),
            Event::Child(status) => match status {
                ChildStatus::Exited | ChildStatus::Signaled => quiet_step(Request::Quit),
                ChildStatus::Other => quiet_step(self.flag_request()),
            },
            Event::Size(size) => self.on_size(size),
            Event::Polled(outcome) => self.on_polled(outcome),
            Event::Input(outcome) => self.on_input(outcome),
            Event::Written(done) => {
                if !done || self.input_broken {
                    quiet_step(Request::Quit)
                } else {
                    quiet_step(self.child_request())
                }
            },
            Event::Output(outcome) => self.on_output(outcome),
        };
        self.request = step.next;
        step
    }
}

/// Deals with a failed read: those that may be tried again only end this
/// round.
fn on_read_error(e: ReadError) -> (step: Step)
    ensures
        step@ == quiet(
            if e.passes() {
                Request::TakeChildFlag
            } else {
                Request::Quit
            },
        ),
{
    match e {
        ReadError::WouldBlock | ReadError::Interrupted => quiet_step(Request::TakeChildFlag),
        ReadError::Io | ReadError::Other => quiet_step(Request::Quit),
    }
}

} // verus!
