pub mod buffer;
pub mod editor;
pub mod event;
