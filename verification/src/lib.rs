//! Reading binary execution traces and rendering them as disassembly.

pub mod bitness;
pub mod config;
pub mod decode;
pub mod hex;
pub mod modes;
pub mod offset;
pub mod record;
pub mod render;
pub mod trace;
