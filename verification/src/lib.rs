//! The decision-making core of a Wayland event loop that runs beside a winit application.
//!
//! A thread connects to the compositor, binds what it offers, and then goes round a loop: it
//! announces that it is about to wait, dispatches what has arrived, has the surfaces redrawn that
//! are ready for it, and forwards the collected events. The library holds the state of that thread
//! and decides what happens next; whoever runs the thread performs what it is told and reports
//! back.
//!
//! - [`event_loop`]: the thread from its start to its end.
//! - [`turn`]: what follows each dispatch.
//! - [`action`]: the requests of the application.
//! - [`frame`]: when a surface may be redrawn.
//! - [`laws`]: what all this comes to, in terms of what goes in and what comes out.
//! - [`state`], [`surface`], [`event`], [`globals`], [`error`]: what these work on.

pub mod action;
pub mod error;
pub mod event;
pub mod event_loop;
pub mod frame;
pub mod globals;
pub mod laws;
pub mod state;
pub mod surface;
pub mod turn;
