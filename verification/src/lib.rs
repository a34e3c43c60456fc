//! Baseline memory images for emulated binaries, and the decisions that
//! surround an emulator instance: page alignment of segments, placement of
//! section bytes, the guard and stack pages, static lookup, hook spans over
//! permission data, mode and register tables, the instance lifecycle, and
//! the text of configuration files.

pub mod perm;
pub mod elf;
pub mod segment;
pub mod image;
pub mod lookup;
pub mod layout;
pub mod engine;
pub mod arch;
pub mod registers;
pub mod region;
pub mod hooks;
pub mod mapping;
pub mod lifecycle;
pub mod context;
pub mod config;
