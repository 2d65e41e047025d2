//! Terminal core of a small kernel: virtual text screens multiplexed onto one
//! character display, a scancode decoder, and a line editor with a tiny set of
//! builtin commands.

pub mod screen;
pub mod manager;
pub mod keyboard;
pub mod command;
pub mod printk;
pub mod gdt;
