//! The window manager: it keeps the stack of windows, routes pointer and
//! key events to them, and paints the desktop.

pub mod arith;
pub mod model;
pub mod events;
pub mod paint;
pub mod tick;
pub mod laws;

pub use model::WindowManager;
