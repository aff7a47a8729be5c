//! Storage stack of a small bare-metal kernel: a sector-level disk driver
//! (ATA PIO read protocol over raw port access) and a read-only FAT32
//! filesystem layered on top of it, together with the small device-side
//! pieces the kernel keeps next to them (keyboard decoding, a TTY ring
//! buffer, a text-mode screen model, interrupt-descriptor entries and
//! page-table entries).
//!
//! Hardware access itself (port reads and writes) sits behind a trait
//! which promises nothing: every contract in this crate holds for every
//! behaviour of the device on the other side.

pub mod ata;
pub mod bpb;
pub mod cluster;
pub mod directory;
pub mod disk;
pub mod dtables;
pub mod fat32;
pub mod file;
pub mod frame;
pub mod fs;
pub mod idt;
pub mod io;
pub mod keyboard;
pub mod paging;
pub mod text;
pub mod tty;
pub mod vga;
