//! The tray: the menu behind the tray icon and the ids its rows carry.
pub mod menu;

pub use menu::{ignore_id, key_of, remove_id, source_id, update_id, Action};
