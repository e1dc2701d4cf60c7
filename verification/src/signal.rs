//! Signals that came in and have not been dealt with yet.

use vstd::prelude::*;

verus! {

/// The numbers that the system gives to the signals of interest.
#[derive(Debug, Clone, Copy)]
pub struct SignalNumbers {
    /// The terminal was resized.
    pub winch: i32,
    /// The pane got the focus.
    pub usr1: i32,
    /// The pane lost the focus.
    pub usr2: i32,
    /// A child process changed its state.
    pub child: i32,
}

/// One flag for each signal of interest: it came since the flag was last taken.
#[derive(Debug, Clone, Copy, PartialEq, Eq, Structural)]
pub struct SignalFlags {
    pub winch: bool,
    pub usr1: bool,
    pub usr2: bool,
    pub child: bool,
}

impl SignalFlags {
    /// No signal has come.
    pub fn new() -> (flags: Self)
        ensures
            flags == (SignalFlags { winch: false, usr1: false, usr2: false, child: false }),
    {
        SignalFlags { winch: false, usr1: false, usr2: false, child: false }
    }

    /// The flags after a signal. Signals other than those of interest leave
    /// them as they are.
    pub open spec fn raised(self, sig: i32, numbers: SignalNumbers) -> SignalFlags {
        if sig == numbers.winch {
            SignalFlags { winch: true, ..self }
        } else if sig == numbers.usr1 {
            SignalFlags { usr1: true, ..self }
        } else if sig == numbers.usr2 {
            SignalFlags { usr2: true, ..self }
        } else if sig == numbers.child {
            SignalFlags { child: true, ..self }
        } else {
            self
        }
    }

    /// Sets the flag of a signal that came in.
    pub fn process_signal(&mut self, sig: i32, numbers: &SignalNumbers)
        ensures
            *final(self) == old(self).raised(sig, *numbers),
    {
        if sig == numbers.winch {
            self.winch = true;
        } else if sig == numbers.usr1 {
            self.usr1 = true;
        } else if sig == numbers.usr2 {
            self.usr2 = true;
        } else if sig == numbers.child {
            self.child = true;
        }
    }

    pub fn take_winch(&mut self) -> (came: bool)
        ensures
            came == old(self).winch,
            *final(self) == (SignalFlags { winch: false, ..*old(self) }),
    {
        let came = self.winch;
        self.winch = false;
        came
    }

    pub fn take_usr1(&mut self) -> (came: bool)
        ensures
            came == old(self).usr1,
            *final(self) == (SignalFlags { usr1: false, ..*old(self) }),
    {
        let came = self.usr1;
        self.usr1 = false;
        came
    }

    pub fn take_usr2(&mut self) -> (came: bool)
        ensures
            came == old(self).usr2,
            *final(self) == (SignalFlags { usr2: false, ..*old(self) }),
    {
        let came = self.usr2;
        self.usr2 = false;
        came
    }

    pub fn take_child(&mut self) -> (came: bool)
        ensures
            came == old(self).child,
            *final(self) == (SignalFlags { child: false, ..*old(self) }),
    {
        let came = self.child;
        self.child = false;
        came
    }
}

/// A flag that is set stays set until it is taken, whatever signals come.
pub proof fn law_flags_stay_set(flags: SignalFlags, sig: i32, numbers: SignalNumbers)
    ensures
        flags.winch ==> flags.raised(sig, numbers).winch,
        flags.usr1 ==> flags.raised(sig, numbers).usr1,
        flags.usr2 ==> flags.raised(sig, numbers).usr2,
        flags.child ==> flags.raised(sig, numbers).child,
{
}

/// A signal sets its own flag and no other.
pub proof fn law_signals_set_their_flags(flags: SignalFlags, numbers: SignalNumbers)
    requires
        numbers.winch != numbers.usr1 && numbers.winch != numbers.usr2 && numbers.winch
            != numbers.child,
        numbers.usr1 != numbers.usr2 && numbers.usr1 != numbers.child,
        numbers.usr2 != numbers.child,
    ensures
        flags.raised(numbers.winch, numbers) == (SignalFlags { winch: true, ..flags }),
        flags.raised(numbers.usr1, numbers) == (SignalFlags { usr1: true, ..flags }),
        flags.raised(numbers.usr2, numbers) == (SignalFlags { usr2: true, ..flags }),
        flags.raised(numbers.child, numbers) == (SignalFlags { child: true, ..flags }),
{
}

/// Any other signal leaves the flags as they are.
pub proof fn law_other_signals(flags: SignalFlags, sig: i32, numbers: SignalNumbers)
    requires
        sig != numbers.winch && sig != numbers.usr1 && sig != numbers.usr2 && sig != numbers.child,
    ensures
        flags.raised(sig, numbers) == flags,
{
}

} // verus!
