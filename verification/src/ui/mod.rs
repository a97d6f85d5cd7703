//! What the panels and overlays of the terminal interface show, and where.
pub mod help;
pub mod layout;
pub mod mcp;
pub mod quota;
pub mod view_menu;
