//! Launches a QEMU virtual machine that mimics a bare-metal server described
//! by a metadata document, with its serial consoles wired to a terminal
//! driver.
//!
//! This crate holds the logic of the launcher: it parses the driver name,
//! turns the machine's metadata into QEMU command-line arguments, plans the
//! disk images and firmware copies that QEMU needs, and decides how the
//! character devices that QEMU reports are laid out on the terminal.
//! Everything here is plain data in and plain data out; the program that
//! runs the processes and touches the file system lives beside it.

pub mod cli;
pub mod meta;
pub mod qemu;
pub mod text;
pub mod tty_handler;
