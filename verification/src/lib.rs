//! Editing state, key handling and response formatting of a terminal HTTP
//! client, with their contracts.

pub mod palette;
pub mod method;
pub mod text;
pub mod status;
pub mod editor;
pub mod input;
pub mod render;
pub mod laws;
pub mod body_laws;
pub mod key_laws;
pub mod format_laws;
