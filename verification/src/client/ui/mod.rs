//! Screen state and content of the terminal client.

pub mod browser_view;
pub mod editor;
pub mod fuzzy;
pub mod help;
pub mod layout;
pub mod markdown;
pub mod session_browser;
pub mod sidebar;
pub mod state;
pub mod status;
pub mod style;
pub mod transcript;
pub mod view;
pub mod widgets;
