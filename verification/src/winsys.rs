pub mod geometry;
pub mod window;
pub mod screen;
pub mod input;
pub mod event;
pub mod hints;
pub mod keymap;
pub mod message;
