use tmux_pane_border::signal::{SignalFlags, SignalNumbers};

const NUMBERS: SignalNumbers = SignalNumbers {
    winch: 28,
    usr1: 10,
    usr2: 12,
    child: 17,
};

#[test]
fn no_signal_at_first() {
    let mut flags = SignalFlags::new();
    assert!(!flags.take_winch());
    assert!(!flags.take_usr1());
    assert!(!flags.take_usr2());
    assert!(!flags.take_child());
}

#[test]
fn each_signal_sets_its_flag_once() {
    let mut flags = SignalFlags::new();
    flags.process_signal(28, &NUMBERS);
    flags.process_signal(28, &NUMBERS);
    flags.process_signal(17, &NUMBERS);
    assert!(!flags.take_usr1());
    assert!(flags.take_winch());
    assert!(!flags.take_winch());
    assert!(flags.take_child());
    assert!(!flags.take_child());
    flags.process_signal(10, &NUMBERS);
    assert!(!flags.take_usr2());
    assert!(flags.take_usr1());
    flags.process_signal(12, &NUMBERS);
    assert!(flags.take_usr2());
}

#[test]
fn other_signals_are_ignored() {
    let mut flags = SignalFlags::new();
    flags.process_signal(15, &NUMBERS);
    assert_eq!(flags, SignalFlags::new());
}
