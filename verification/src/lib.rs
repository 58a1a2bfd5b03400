//! High-level emulation of the PC-98 DOS console, path handling and the
//! command helpers of a built-in DOS shell, with contracts proved by Verus.

pub mod text;
pub mod copy_common;
pub mod memory;
pub mod iosys;
pub mod console;
pub mod console_esc;
pub mod console_adapter;
pub mod render;
pub mod jis;
pub mod cdrom;
pub mod text_buffer;
pub mod input;
pub mod dialog;
pub mod dos;
pub mod filesystem;
pub mod file_picker;
pub mod commands;
pub mod editor;
pub mod file_io;
pub mod cds;
pub mod dos_services;
pub mod int21h;
