//! Verified core of the Aura browser: text shaping for page summaries,
//! cookie-silo naming and sealing, URL resolution and request interception,
//! the tab constellation, the engine's navigation state and the hot-swap
//! handoff.
pub mod crypto;
pub mod engine;
pub mod hot_swap;
pub mod net;
pub mod shell;
pub mod silo;
pub mod summary;
pub mod tabs;
pub mod text;
pub mod weburl;
