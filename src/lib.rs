//! Decoder, field projector and renderer for sectioned microcode dump files.
pub mod cursor;
pub mod format;
pub mod decode;
pub mod image;
pub mod project;
pub mod laws;
pub mod render;
pub mod shell;

pub use image::Microcode;
pub use shell::{handle_command, Command, HandlerError, HandlerResult};
