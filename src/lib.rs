//! A small block-oriented storage engine for a bare-metal system: the on-disk
//! layout, a block-device capability with an in-memory medium, and the file
//! operations built on them; beside it, the hardware-free logic of the
//! console (keyboard decoding, line editing, command parsing, and a text
//! display with colour tags).
pub mod layout;
pub mod device;
pub mod fs;
pub mod bitmap;
pub mod theorems;
pub mod text;
pub mod console;
pub mod shell;
pub mod display;
pub mod kernel;
