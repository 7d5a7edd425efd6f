//! Control-event subsystem of a desktop overlay companion: a typed event
//! schema with a verified wire codec, a bounded FIFO bridge for crossing from
//! the socket-serving context into the UI thread, and the window-lifecycle
//! state machine that the UI thread runs.
pub mod bridge;
pub mod chat;
pub mod codec;
pub mod config;
pub mod controller;
pub mod event;
pub mod presentation;
pub mod server;
pub mod state;
