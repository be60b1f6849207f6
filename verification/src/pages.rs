//! The state of the web pages.
pub mod fileupload;
pub mod root;
