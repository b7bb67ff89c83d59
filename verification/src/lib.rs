//! Session controller for a multi-window desktop application.
//!
//! The crate tracks which top-level windows exist, which logical screen each
//! window is showing, and how a single centralized message stream drives
//! navigation between screens and windows.  The window registry, the
//! per-window navigation state machine and the message dispatcher live here;
//! the windowing service, the widget rendering and the event loop are I/O
//! that a shell program supplies around this library.

pub mod about;
pub mod chat;
pub mod dispatch;
pub mod laws;
pub mod registry;
pub mod settings;
