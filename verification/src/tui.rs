//! The terminal interface: what it shows and where. The host paints it.
pub mod state;
pub mod view;
