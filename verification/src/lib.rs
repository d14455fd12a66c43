//! The logic of a small bare-metal x86-64 kernel shell: the VGA text console,
//! the keyboard line discipline and command parsing, and the computations
//! behind the built-in commands.

pub mod command;
pub mod commands;
pub mod format;
pub mod interrupts;
mod keyboard;
pub mod shell;
pub mod vga_buffer;
