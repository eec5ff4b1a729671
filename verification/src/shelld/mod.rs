//! The session's notifications server and StatusNotifier watcher, without the bus.

pub mod icon;
pub mod sender;
pub mod hints;
pub mod image;
pub mod notifications;
pub mod store;
pub mod text;
pub mod watcher;
pub mod wire;
pub mod server;
pub mod dnd;
