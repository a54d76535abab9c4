//! A terminal process monitor: the sample history of the CPU and memory
//! plots, the process table with its sorting and selection, the keyboard
//! decisions, and the human-readable texts that the screen shows.
//!
//! Reading the operating system and drawing the terminal happen outside
//! this library; it receives plain values and hands plain values back.

pub mod laws;
pub mod layout;
pub mod order;
pub mod process;
pub mod screen;
pub mod state;
pub mod text;
