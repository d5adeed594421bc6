//! Bounded log record store with per-pane filtered views, filtering, debounce
//! and bookmark navigation.

pub mod config;
pub mod discovery;
pub mod filter;
pub mod pane;
pub mod picker;
pub mod record;
pub mod sources;
pub mod state;
pub mod text;
pub mod themes;
pub mod view;
