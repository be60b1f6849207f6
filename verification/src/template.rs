//! Page layout data.
pub mod menu;
