//! A small message-passing microkernel with its desktop services and
//! applications, written as verified state machines.
//!
//! Everything that touches the host (drawing, sound, files, clocks, process
//! launching) is described here as plain values; the host side performs it.

pub mod ipc;
pub mod text;
pub mod paths;
pub mod sys;
pub mod host;
pub mod process;
pub mod api;
pub mod services;
pub mod kernel;
pub mod ui;
pub mod apps;
pub mod wasi;
