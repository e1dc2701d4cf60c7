use tmux_pane_border::border::render_border;
use tmux_pane_border::config::{BehaviorConfig, BorderConfig, BorderStyle, Config};
use tmux_pane_border::session::{
    ChildStatus, Event, PollOutcome, ReadError, ReadOutcome, Readiness, Request, Session,
};

fn settings() -> Config {
    Config {
        border: BorderConfig {
            style: BorderStyle::Single,
            active_color: "#010203".to_string(),
            inactive_color: "#040506".to_string(),
        },
        behavior: BehaviorConfig {
            dim_inactive: false,
        },
    }
}

fn session() -> Session {
    Session::start(20, 10, settings(), true).unwrap()
}

fn dimming_session(active: bool) -> Session {
    let mut config = settings();
    config.behavior.dim_inactive = true;
    Session::start(20, 10, config, active).unwrap()
}

const IDLE: Readiness = Readiness {
    readable: false,
    hung_up: false,
    error: false,
};

const READABLE: Readiness = Readiness {
    readable: true,
    hung_up: false,
    error: false,
};

const HUNG_UP: Readiness = Readiness {
    readable: false,
    hung_up: true,
    error: false,
};

const LAST_WORDS: Readiness = Readiness {
    readable: true,
    hung_up: true,
    error: false,
};

/// Passes the four clear flags.
fn at_poll(session: &mut Session) {
    for expected in [
        Request::TakeWinchFlag,
        Request::TakeUsr1Flag,
        Request::TakeUsr2Flag,
        Request::Poll,
    ] {
        let step = session.step(Event::Flag(false));
        assert_eq!(step.next, expected);
        assert!(step.to_terminal.is_empty());
        assert_eq!(step.resize, None);
    }
}

fn poll(session: &mut Session, input: Option<Readiness>, child: Option<Readiness>) -> Request {
    at_poll(session);
    session
        .step(Event::Polled(PollOutcome::Ready { input, child }))
        .next
}

fn text(bytes: Vec<u8>) -> String {
    String::from_utf8(bytes).unwrap()
}

#[test]
fn too_small_terminals_are_refused() {
    assert!(Session::start(4, 10, settings(), true).is_none());
    assert!(Session::start(10, 4, settings(), true).is_none());
    let session = Session::start(5, 5, settings(), true).unwrap();
    assert_eq!(session.inner_size(), (3, 3));
}

#[test]
fn screen_is_set_up() {
    let session = session();
    assert_eq!(session.inner_size(), (18, 8));
    assert_eq!(session.request(), Request::TakeChildFlag);
    assert!(session.can_paint());
    assert_eq!(
        text(session.setup_screen()),
        format!(
            "\x1b[2J{}\x1b[2;9r\x1b[2;2H",
            render_border(20, 10, BorderStyle::Single, "#010203")
        )
    );
}

#[test]
fn child_status_is_asked_for() {
    for (status, next) in [
        (ChildStatus::Exited, Request::Quit),
        (ChildStatus::Signaled, Request::Quit),
        (ChildStatus::Other, Request::TakeWinchFlag),
    ] {
        let mut session = session();
        assert_eq!(session.step(Event::Flag(true)).next, Request::ReapChild);
        assert_eq!(session.step(Event::Child(status)).next, next);
    }
}

#[test]
fn resize_is_taken_over() {
    let mut session = session();
    session.step(Event::Flag(false));
    assert_eq!(session.step(Event::Flag(true)).next, Request::MeasureTerminal);
    let step = session.step(Event::Size(Some((40, 12))));
    assert_eq!(step.next, Request::TakeUsr1Flag);
    assert_eq!(step.resize, Some((38, 10)));
    assert_eq!(
        text(step.to_terminal),
        format!(
            "\x1b[2J{}\x1b[2;11r\x1b[2;2H",
            render_border(40, 12, BorderStyle::Single, "#010203")
        )
    );
    assert_eq!(session.inner_size(), (38, 10));
}

#[test]
fn small_or_unknown_sizes_are_ignored() {
    for size in [Some((4, 30)), Some((30, 4)), None] {
        let mut session = session();
        session.step(Event::Flag(false));
        session.step(Event::Flag(true));
        let step = session.step(Event::Size(size));
        assert_eq!(step.next, Request::TakeUsr1Flag);
        assert_eq!(step.resize, None);
        assert!(step.to_terminal.is_empty());
        assert_eq!(session.inner_size(), (18, 8));
    }
}

#[test]
fn focus_switches_the_color() {
    let mut session = session();
    session.step(Event::Flag(false));
    session.step(Event::Flag(false));
    session.step(Event::Flag(false));
    assert_eq!(session.request(), Request::TakeUsr2Flag);
    let step = session.step(Event::Flag(true));
    assert_eq!(step.next, Request::Poll);
    assert_eq!(
        text(step.to_terminal),
        render_border(20, 10, BorderStyle::Single, "#040506")
    );
    session.step(Event::Polled(PollOutcome::TimedOut));
    session.step(Event::Flag(false));
    session.step(Event::Flag(false));
    let step = session.step(Event::Flag(true));
    assert_eq!(step.next, Request::TakeUsr2Flag);
    assert_eq!(
        text(step.to_terminal),
        render_border(20, 10, BorderStyle::Single, "#010203")
    );
}

#[test]
fn polling_may_end_without_a_report() {
    for (outcome, next) in [
        (PollOutcome::TimedOut, Request::TakeChildFlag),
        (PollOutcome::Interrupted, Request::TakeChildFlag),
        (PollOutcome::Failed, Request::Quit),
    ] {
        let mut session = session();
        at_poll(&mut session);
        assert_eq!(session.step(Event::Polled(outcome)).next, next);
    }
}

#[test]
fn reports_of_polling() {
    for (input, child, next) in [
        (None, None, Request::TakeChildFlag),
        (Some(IDLE), Some(IDLE), Request::TakeChildFlag),
        (Some(READABLE), Some(READABLE), Request::ReadInput),
        (Some(HUNG_UP), Some(READABLE), Request::Quit),
        (Some(IDLE), Some(READABLE), Request::ReadChild),
        (None, Some(HUNG_UP), Request::Quit),
        (None, Some(LAST_WORDS), Request::ReadChild),
    ] {
        assert_eq!(poll(&mut session(), input, child), next);
    }
}

#[test]
fn input_reaches_the_child() {
    let mut session = session();
    poll(&mut session, Some(READABLE), Some(READABLE));
    let step = session.step(Event::Input(ReadOutcome::Data(b"ls".to_vec())));
    assert_eq!(step.next, Request::WriteChild);
    assert_eq!(step.to_child, b"ls");
    assert_eq!(session.step(Event::Written(true)).next, Request::ReadChild);
}

#[test]
fn mouse_events_are_moved_or_dropped() {
    let mut session = session();
    poll(&mut session, Some(READABLE), None);
    let step = session.step(Event::Input(ReadOutcome::Data(b"\x1b[<0;5;5M".to_vec())));
    assert_eq!(step.to_child, b"\x1b[<0;4;4M");
    assert_eq!(session.step(Event::Written(true)).next, Request::TakeChildFlag);
    poll(&mut session, Some(LAST_WORDS), Some(READABLE));
    let step = session.step(Event::Input(ReadOutcome::Data(b"\x1b[<0;20;5M".to_vec())));
    assert_eq!(step.next, Request::TakeChildFlag);
    assert!(step.to_child.is_empty());
}

#[test]
fn writing_fails_or_the_terminal_is_gone() {
    let mut session1 = session();
    poll(&mut session1, Some(READABLE), None);
    session1.step(Event::Input(ReadOutcome::Data(vec![b'x'])));
    assert_eq!(session1.step(Event::Written(false)).next, Request::Quit);
    let mut session2 = session();
    poll(&mut session2, Some(LAST_WORDS), Some(READABLE));
    session2.step(Event::Input(ReadOutcome::Data(vec![b'x'])));
    assert_eq!(session2.step(Event::Written(true)).next, Request::Quit);
}

#[test]
fn failed_reads() {
    for (error, next) in [
        (ReadError::WouldBlock, Request::TakeChildFlag),
        (ReadError::Interrupted, Request::TakeChildFlag),
        (ReadError::Io, Request::Quit),
        (ReadError::Other, Request::Quit),
    ] {
        let mut session1 = session();
        poll(&mut session1, Some(READABLE), None);
        assert_eq!(
            session1.step(Event::Input(ReadOutcome::Error(error))).next,
            next
        );
        let mut session2 = session();
        poll(&mut session2, None, Some(READABLE));
        assert_eq!(
            session2.step(Event::Output(ReadOutcome::Error(error))).next,
            next
        );
    }
}

#[test]
fn ended_streams() {
    let mut session1 = session();
    poll(&mut session1, Some(READABLE), None);
    assert_eq!(
        session1.step(Event::Input(ReadOutcome::Data(vec![]))).next,
        Request::Quit
    );
    let mut session2 = session();
    poll(&mut session2, None, Some(READABLE));
    assert_eq!(
        session2.step(Event::Output(ReadOutcome::Data(vec![]))).next,
        Request::Quit
    );
}

#[test]
fn output_is_filtered() {
    let mut session = session();
    poll(&mut session, None, Some(READABLE));
    let step = session.step(Event::Output(ReadOutcome::Data(b"hi\x1b[2;2H\x1b[@".to_vec())));
    assert_eq!(step.next, Request::TakeChildFlag);
    assert_eq!(
        text(step.to_terminal),
        "hi\x1b[3;3H\x1b[@\x1b7\x1b[20G\x1b[38;2;1;2;3m│\x1b[39m\x1b8"
    );
}

#[test]
fn spoiled_border_is_drawn_anew() {
    let mut session = session();
    poll(&mut session, None, Some(LAST_WORDS));
    let step = session.step(Event::Output(ReadOutcome::Data(b"\x1b[?1049h".to_vec())));
    assert_eq!(step.next, Request::Quit);
    assert_eq!(
        text(step.to_terminal),
        format!(
            "\x1b[?1049h{}\x1b[2;9r",
            render_border(20, 10, BorderStyle::Single, "#010203")
        )
    );
}

#[test]
fn redraw_happens_once() {
    let mut session = session();
    poll(&mut session, None, Some(READABLE));
    session.step(Event::Output(ReadOutcome::Data(b"\x1bc".to_vec())));
    poll(&mut session, None, Some(READABLE));
    let step = session.step(Event::Output(ReadOutcome::Data(b"x".to_vec())));
    assert_eq!(step.to_terminal, b"x");
}

#[test]
fn events_out_of_turn_are_refused() {
    let session1 = session();
    assert!(session1.can_step(&Event::Flag(true)));
    assert!(!session1.can_step(&Event::Written(true)));
    assert!(!session1.can_step(&Event::Size(None)));
    let mut session2 = session();
    session2.step(Event::Flag(true));
    session2.step(Event::Child(ChildStatus::Exited));
    assert_eq!(session2.request(), Request::Quit);
    assert!(!session2.can_step(&Event::Flag(false)));
}

#[test]
fn colors_that_cannot_be_read_are_refused() {
    let mut config = settings();
    config.border.inactive_color = "#aéaaa".to_string();
    let mut session = Session::start(20, 10, config, true).unwrap();
    assert!(session.can_paint());
    session.step(Event::Flag(false));
    session.step(Event::Flag(false));
    session.step(Event::Flag(false));
    assert!(session.can_step(&Event::Flag(false)));
    assert!(!session.can_step(&Event::Flag(true)));
}

#[test]
fn output_may_come_in_pieces() {
    let output = b"one\x1b[3;3Htwo\r\n\x1b[K";
    let mut whole = session();
    poll(&mut whole, None, Some(READABLE));
    let expected = whole
        .step(Event::Output(ReadOutcome::Data(output.to_vec())))
        .to_terminal;
    for cut in 1..output.len() {
        let mut pieces = session();
        let mut shown = Vec::new();
        for piece in [&output[..cut], &output[cut..]] {
            poll(&mut pieces, None, Some(READABLE));
            shown.extend(
                pieces
                    .step(Event::Output(ReadOutcome::Data(piece.to_vec())))
                    .to_terminal,
            );
        }
        assert_eq!(shown, expected);
    }
}

fn frame(color: &str) -> String {
    render_border(20, 10, BorderStyle::Single, color)
}

fn show(session: &mut Session, output: &[u8]) -> String {
    poll(session, None, Some(READABLE));
    text(
        session
            .step(Event::Output(ReadOutcome::Data(output.to_vec())))
            .to_terminal,
    )
}

#[test]
fn inactive_start_is_dimmed() {
    let session = dimming_session(false);
    assert_eq!(
        text(session.setup_screen()),
        format!(
            "\x1b[2J\x1b[22m{}\x1b[2m\x1b[2;9r\x1b[2;2H",
            frame("#040506")
        )
    );
    assert_eq!(session.leave_screen(), b"\x1b[22m");
}

#[test]
fn active_start_is_not_dimmed() {
    let mut session = dimming_session(true);
    assert_eq!(
        text(session.setup_screen()),
        format!("\x1b[2J{}\x1b[2;9r\x1b[2;2H", frame("#010203"))
    );
    assert!(session.leave_screen().is_empty());
    assert_eq!(show(&mut session, b"a\x1b[0mb"), "a\x1b[0mb");
    assert_eq!(show(&mut session, b"\x1b7\x1b8"), "\x1b7\x1b8");
}

#[test]
fn focus_dims_and_lifts() {
    let mut session = dimming_session(true);
    session.step(Event::Flag(false));
    session.step(Event::Flag(false));
    session.step(Event::Flag(false));
    let step = session.step(Event::Flag(true));
    assert_eq!(
        text(step.to_terminal),
        format!("\x1b[22m{}\x1b[2m", frame("#040506"))
    );
    // The child has to repaint: the inner terminal changes its size and back.
    assert_eq!(step.resize, Some((18, 7)));
    let step = session.step(Event::Polled(PollOutcome::TimedOut));
    assert_eq!(step.resize, Some((18, 8)));
    assert_eq!(show(&mut session, b"a\x1b[0mb\x1b7"), "a\x1b[0m\x1b[2mb\x1b7");
    assert_eq!(
        show(&mut session, b"\x1b[K"),
        "\x1b[K\x1b7\x1b[20G\x1b[22m\x1b[38;2;4;5;6m│\x1b[39m\x1b8"
    );
    session.step(Event::Flag(false));
    session.step(Event::Flag(false));
    let step = session.step(Event::Flag(true));
    assert_eq!(text(step.to_terminal), format!("\x1b[22m{}", frame("#010203")));
    assert_eq!(step.resize, Some((18, 7)));
    session.step(Event::Flag(false));
    let step = session.step(Event::Polled(PollOutcome::Interrupted));
    assert_eq!(step.resize, Some((18, 8)));
    assert_eq!(show(&mut session, b"a\x1b[0mb"), "a\x1b[0mb");
    assert_eq!(show(&mut session, b"\x1b8"), "\x1b8\x1b[22m");
    assert_eq!(show(&mut session, b"\x1b7\x1b8"), "\x1b7\x1b8");
}

#[test]
fn unchanged_focus_needs_no_repaint() {
    let mut session = dimming_session(false);
    session.step(Event::Flag(false));
    session.step(Event::Flag(false));
    session.step(Event::Flag(false));
    let step = session.step(Event::Flag(true));
    assert_eq!(step.resize, None);
    assert_eq!(
        text(step.to_terminal),
        format!("\x1b[22m{}\x1b[2m", frame("#040506"))
    );
    assert_eq!(
        session.step(Event::Polled(PollOutcome::TimedOut)).resize,
        None
    );
}

#[test]
fn spoiled_border_of_faint_content_is_drawn_anew() {
    let mut session = dimming_session(false);
    assert_eq!(
        show(&mut session, b"\x1bcx"),
        format!(
            "\x1bc\x1b[2mx\x1b[22m{}\x1b[2m\x1b[2;9r",
            frame("#040506")
        )
    );
}

#[test]
fn pastes_may_come_in_pieces() {
    let mut session = session();
    for (piece, forwarded) in [
        (&b"\x1b[20"[..], &b"\x1b[20"[..]),
        (b"0~a", b"0~a"),
        (b"\x1b[<0;5;5M", b"\x1b[<0;5;5M"),
        (b"\x1b[201~\x1b[<0;5;5M", b"\x1b[201~\x1b[<0;4;4M"),
    ] {
        poll(&mut session, Some(READABLE), None);
        let step = session.step(Event::Input(ReadOutcome::Data(piece.to_vec())));
        assert_eq!(step.to_child, forwarded);
        session.step(Event::Written(true));
    }
}

#[test]
fn nothing_is_dimmed_without_the_option() {
    let mut session = Session::start(20, 10, settings(), false).unwrap();
    assert_eq!(show(&mut session, b"a\x1b[0m\x1b8"), "a\x1b[0m\x1b8");
    assert!(session.leave_screen().is_empty());
}
