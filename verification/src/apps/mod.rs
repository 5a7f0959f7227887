//! The applications and programs of the desktop. The windowed ones are
//! state machines: the host feeds them pointer and key events and asks them
//! for frames; they answer with drawing commands and with the requests
//! (sounds, files, programs) they want made. The command-line ones turn
//! their arguments and input into what to print, run or save.

pub mod beep;
pub mod calc;
pub mod coreutils;
pub mod edit;
pub mod fileman;
pub mod imgview;
pub mod midiplayer;
pub mod notepad;
pub mod piano;
pub mod settings;
pub mod sh;
pub mod snake;
pub mod taskman;
