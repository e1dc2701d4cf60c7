//! Faint rendition for the content of a pane without the focus.

use crate::text;
use vstd::prelude::*;

verus! {

/// How the content of a pane is written.
#[derive(Debug, Clone, Copy, PartialEq, Eq, Structural)]
pub enum Dimming {
    /// As the program asks for; the content is never dimmed.
    Off,
    /// Undimmed, while the pane has the focus.
    Lifted,
    /// Faint, while it has not.
    Faint,
}

impl Dimming {
    /// The dimming of a pane with or without the focus.
    pub open spec fn of(dim_inactive: bool, active: bool) -> Dimming {
        if !dim_inactive {
            Dimming::Off
        } else if active {
            Dimming::Lifted
        } else {
            Dimming::Faint
        }
    }

    /// The sequence that brings the terminal to this dimming. The one that lifts
    /// the faint rendition ends a bold one too.
    pub open spec fn renewal(self) -> Seq<u8> {
        match self {
            Dimming::Off => text::bytes(""),
            Dimming::Lifted => text::bytes("\x1b[22m"),
            Dimming::Faint => text::bytes("\x1b[2m"),
        }
    }

    /// Chooses the dimming of a pane.
    pub fn choose_for(dim_inactive: bool, active: bool) -> (dimming: Dimming)
        ensures
            dimming == Dimming::of(dim_inactive, active),
    {
        if !dim_inactive {
            Dimming::Off
        } else if active {
            Dimming::Lifted
        } else {
            Dimming::Faint
        }
    }

    /// The text that brings the terminal to this dimming.
    pub fn rendition_text(&self) -> (r: &'static str)
        ensures
            text::bytes(r) == self.renewal(),
    {
        match self {
            Dimming::Off => "",
            Dimming::Lifted => "\x1b[22m",
            Dimming::Faint => "\x1b[2m",
        }
    }
}

/// Only a pane without the focus is dimmed, and only with the option on; SGR 2
/// makes the content faint and SGR 22 lifts that.
pub proof fn law_dimming(dim_inactive: bool, active: bool)
    ensures
        Dimming::of(dim_inactive, active) == Dimming::Faint <==> dim_inactive && !active,
        Dimming::of(dim_inactive, active) == Dimming::Off <==> !dim_inactive,
        Dimming::Faint.renewal() == text::bytes("\x1b[2m"),
        Dimming::Lifted.renewal() == text::bytes("\x1b[22m"),
{
}

} // verus!
