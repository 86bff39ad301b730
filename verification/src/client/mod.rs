//! The terminal client: input, projection, menus and screen content.

pub mod app;
pub mod input;
pub mod session;
pub mod terminal;
pub mod ui;
pub mod workspace;
