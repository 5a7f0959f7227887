//! The system services that the kernel starts at boot.

pub mod vfs;
pub mod input;
pub mod display;
pub mod wm;
pub mod terminal;
