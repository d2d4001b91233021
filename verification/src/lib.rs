//! barmarchy: the logic of a native Touch Bar daemon for Omarchy.
//!
//! Every module here is verified with Verus; the daemon binary (I/O,
//! DRM, cairo drawing) lives in `app/` and calls into this library.
pub mod actions;
pub mod clock;
pub mod config;
pub mod control;
pub mod deck;
pub mod drm;
pub mod hypr;
pub mod icons;
pub mod json;
pub mod omarchy_env;
pub mod order;
pub mod probe;
pub mod render;
pub mod saver;
pub mod touch;
pub mod text;
pub mod theme;
pub mod toml;
