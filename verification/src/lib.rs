//! A small windowing demo library: a software-rendered RGBA framebuffer,
//! screen-to-window pointer translation, and the state machine that a
//! render/event loop drives (window geometry, pointer position, running flag).
//!
//! The windowing toolkit itself (window creation, event dequeue, image
//! hand-off) is an external collaborator; a host program owns those calls
//! and feeds plain values into this library.

pub mod framebuffer;
pub mod pointer;
pub mod state;
