//! Notes kept as plain values, ordered newest first, searched with a fuzzy
//! matcher and edited through a modal key-driven state machine.

pub mod clock;
pub mod layout;
pub mod note;
pub mod order;
pub mod screen;
pub mod search;
pub mod store;
pub mod text;
pub mod tui;
