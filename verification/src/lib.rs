//! Menu projection for a clipboard manager's tray icon.
//!
//! Two ordered lists, the bookmarked entries and the recent clipboard history,
//! are turned into the lines of the tray's context menu. Every line gets an
//! identifier made from its position and a label that is cut to a fixed number
//! of characters.

pub mod decimal;
pub mod label;
pub mod layout;
pub mod menu;

pub use decimal::decimal_string;
pub use label::{display_label, LABEL_LIMIT};
pub use layout::{tray_menu_layout, TrayMenuEntry};
pub use menu::{bookmarks_as_menu_items_for_tray, history_as_menu_items_for_tray, Bookmark};
