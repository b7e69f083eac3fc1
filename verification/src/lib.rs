//! Editing core of a modal terminal text editor.

pub mod buffer;
pub mod display;
pub mod errors;
pub mod geometry;
pub mod graphics;
pub mod mode;
pub mod position;
pub mod session;
pub mod settings;
pub mod state;
pub mod text;
pub mod window;
