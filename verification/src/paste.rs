//! Tells pasted text from other terminal input: a terminal puts it between two
//! marks, which may be cut by the end of a read like anything else.

use crate::codes;
use vstd::prelude::*;

verus! {

/// Where in a paste the input stands.
#[derive(Debug, Clone, Copy, PartialEq, Eq, Structural)]
pub struct Paste {
    /// The opening mark has come, and the closing one has not.
    pub inside: bool,
    /// How many bytes of the mark that is waited for have come.
    pub matched: u8,
}

impl Paste {
    /// Outside of any paste.
    pub open spec fn outside() -> Paste {
        Paste { inside: false, matched: 0 }
    }

    /// The next byte of the mark that is waited for: `ESC [ 2 0 0 ~` opens a
    /// paste, `ESC [ 2 0 1 ~` closes it.
    pub open spec fn awaited(self) -> u8 {
        if self.matched == 0 {
            codes::ESC
        } else if self.matched == 1 {
            codes::OPEN_CSI
        } else if self.matched == 2 {
            0x32
        } else if self.matched == 3 {
            0x30
        } else if self.matched == 4 {
            if self.inside {
                0x31
            } else {
                0x30
            }
        } else {
            0x7e
        }
    }

    /// Where the input stands after one more byte.
    pub open spec fn after(self, b: u8) -> Paste {
        if b == self.awaited() {
            if self.matched >= 5 {
                Paste { inside: !self.inside, matched: 0 }
            } else {
                Paste { inside: self.inside, matched: (self.matched + 1) as u8 }
            }
        } else if b == codes::ESC {
            Paste { inside: self.inside, matched: 1 }
        } else {
            Paste { inside: self.inside, matched: 0 }
        }
    }

    /// Where the input stands after some bytes.
    pub open spec fn after_all(self, s: Seq<u8>) -> Paste
        decreases s.len(),
    {
        if s.len() == 0 {
            self
        } else {
            self.after(s[0]).after_all(s.skip(1))
        }
    }

    /// Outside of any paste.
    pub fn new() -> (paste: Paste)
        ensures
            paste == Paste::outside(),
    {
        Paste { inside: false, matched: 0 }
    }

    /// The next byte of the mark that is waited for.
    fn awaited_byte(&self) -> (b: u8)
        ensures
            b == self.awaited(),
    {
        match self.matched {
            0 => codes::ESC,
            1 => codes::OPEN_CSI,
            2 => 0x32,
            3 => 0x30,
            4 => if self.inside {
                0x31
            } else {
                0x30
            },
            _ => 0x7e,
        }
    }

    /// Takes in one more byte.
    pub fn advance(&mut self, b: u8)
        ensures
            *final(self) == old(self).after(b),
    {
        if b == self.awaited_byte() {
            if self.matched >= 5 {
                self.inside = !self.inside;
                self.matched = 0;
            } else {
                self.matched += 1;
            }
        } else if b == codes::ESC {
            self.matched = 1;
        } else {
            self.matched = 0;
        }
    }
}

/// The mark that opens a paste.
pub open spec fn opening_mark() -> Seq<u8> {
    seq![codes::ESC, codes::OPEN_CSI, 0x32, 0x30, 0x30, 0x7e]
}

/// The mark that closes a paste.
pub open spec fn closing_mark() -> Seq<u8> {
    seq![codes::ESC, codes::OPEN_CSI, 0x32, 0x30, 0x31, 0x7e]
}

/// The opening mark starts a paste and the closing mark ends it, wherever they
/// are cut.
pub proof fn law_marks(paste: Paste)
    ensures
        !paste.inside ==> paste.after_all(opening_mark()) == (Paste { inside: true, matched: 0 }),
        paste.inside ==> paste.after_all(closing_mark()) == Paste::outside(),
{
    let open = opening_mark();
    let close = closing_mark();
    reveal_with_fuel(Paste::after_all, 7);
    assert(open.skip(1).skip(1).skip(1).skip(1).skip(1).skip(1) =~= Seq::<u8>::empty());
    assert(close.skip(1).skip(1).skip(1).skip(1).skip(1).skip(1) =~= Seq::<u8>::empty());
    assert(open.skip(1)[0] == open[1]);
    assert(open.skip(1).skip(1)[0] == open[2]);
    assert(open.skip(1).skip(1).skip(1)[0] == open[3]);
    assert(open.skip(1).skip(1).skip(1).skip(1)[0] == open[4]);
    assert(open.skip(1).skip(1).skip(1).skip(1).skip(1)[0] == open[5]);
    assert(close.skip(1)[0] == close[1]);
    assert(close.skip(1).skip(1)[0] == close[2]);
    assert(close.skip(1).skip(1).skip(1)[0] == close[3]);
    assert(close.skip(1).skip(1).skip(1).skip(1)[0] == close[4]);
    assert(close.skip(1).skip(1).skip(1).skip(1).skip(1)[0] == close[5]);
}

/// Text without an escape neither opens nor closes a paste.
pub proof fn law_text_opens_no_paste(paste: Paste, s: Seq<u8>)
    requires
        paste.matched == 0,
        forall|i: int| 0 <= i < s.len() ==> #[trigger] s[i] != codes::ESC,
    ensures
        paste.after_all(s) == paste,
    decreases s.len(),
{
    if s.len() > 0 {
        assert(s[0] != codes::ESC);
        assert forall|i: int| 0 <= i < s.skip(1).len() implies #[trigger] s.skip(1)[i]
            != codes::ESC by {
            assert(s[i + 1] != codes::ESC);
        }
        law_text_opens_no_paste(paste, s.skip(1));
    }
}

} // verus!
