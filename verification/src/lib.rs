//! The core of a wrapper that frames a terminal pane with a coloured border:
//! it keeps the output of the wrapped program inside the frame, moves mouse
//! events into it, and decides what to do about input, output and signals.

pub mod border;
pub mod border_laws;
pub mod border_screen;
pub mod codes;
pub mod config;
pub mod dimming;
pub mod mouse;
pub mod mouse_laws;
pub mod paste;
pub mod session;
pub mod session_laws;
pub mod session_rounds;
pub mod signal;
pub mod text;
pub mod vt_filter;
pub mod vt_laws;
pub mod vt_model;
pub mod vt_passing;
pub mod vt_repairs;
pub mod vt_sequences;
