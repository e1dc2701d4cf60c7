//! The bytes that terminal sequences are built from, by their usual names.

use vstd::prelude::*;

verus! {

/// Ends an operating system command.
pub const BEL: u8 = 0x07;

/// Line feed.
pub const LF: u8 = 0x0a;

/// Carriage return.
pub const CR: u8 = 0x0d;

/// Escape, the start of every 7-bit sequence.
pub const ESC: u8 = 0x1b;

/// The 8-bit control sequence introducer.
pub const CSI: u8 = 0x9b;

// What follows ESC.

/// `[` opens a control sequence.
pub const OPEN_CSI: u8 = 0x5b;

/// `]` opens an operating system command.
pub const OPEN_OSC: u8 = 0x5d;

/// `P` opens a device control string.
pub const OPEN_DCS: u8 = 0x50;

/// `\` closes a string.
pub const ST: u8 = 0x5c;

/// `M`: reverse index, a line feed upwards.
pub const RI: u8 = 0x4d;

/// `c`: reset to the initial state.
pub const RIS: u8 = 0x63;

/// `7`: save the cursor and its rendition.
pub const DECSC: u8 = 0x37;

/// `8`: restore the saved cursor and its rendition.
pub const DECRC: u8 = 0x38;

// Parameters of a control sequence.

/// `;` separates arguments.
pub const SEPARATOR: u8 = 0x3b;

/// `?` marks private modes.
pub const PRIVATE: u8 = 0x3f;

/// `!` marks a soft reset.
pub const SOFT: u8 = 0x21;

/// `<` marks extended mouse reports.
pub const MOUSE: u8 = 0x3c;

// Final bytes of a control sequence.

/// `@`: insert characters.
pub const ICH: u8 = 0x40;

/// `A`: cursor up.
pub const CUU: u8 = 0x41;

/// `B`: cursor down.
pub const CUD: u8 = 0x42;

/// `E`: cursor to the start of a following line.
pub const CNL: u8 = 0x45;

/// `F`: cursor to the start of a preceding line.
pub const CPL: u8 = 0x46;

/// `G`: cursor to a column.
pub const CHA: u8 = 0x47;

/// `H`: cursor to a row and column.
pub const CUP: u8 = 0x48;

/// `J`: erase in display.
pub const ED: u8 = 0x4a;

/// `K`: erase in line.
pub const EL: u8 = 0x4b;

/// `L`: insert lines.
pub const IL: u8 = 0x4c;

/// `M`: delete lines; also ends a mouse report of a pressed button.
pub const DL: u8 = 0x4d;

/// `P`: delete characters.
pub const DCH: u8 = 0x50;

/// `S`: scroll up.
pub const SU: u8 = 0x53;

/// `T`: scroll down.
pub const SD: u8 = 0x54;

/// `X`: erase characters.
pub const ECH: u8 = 0x58;

/// `` ` ``: cursor to a column.
pub const HPA: u8 = 0x60;

/// `d`: cursor to a row.
pub const VPA: u8 = 0x64;

/// `f`: cursor to a row and column.
pub const HVP: u8 = 0x66;

/// `h`: set a mode.
pub const SM: u8 = 0x68;

/// `l`: reset a mode.
pub const RM: u8 = 0x6c;

/// `m`: select graphic rendition; also ends a mouse report of a released
/// button.
pub const SGR: u8 = 0x6d;

/// `p`: reset the terminal softly.
pub const DECSTR: u8 = 0x70;

/// `r`: set the scroll region.
pub const DECSTBM: u8 = 0x72;

/// `s`: save the cursor.
pub const SCOSC: u8 = 0x73;

/// `u`: restore the saved cursor.
pub const SCORC: u8 = 0x75;

} // verus!
