//! Aggregation core of a small screen server: a backoff policy, the parsers of
//! the three data sources, the updaters that feed one shared snapshot, and the
//! query side that serves that snapshot and a cheap hash of it.

pub mod config;
pub mod content;
pub mod data_updater;
pub mod dummy_client;
pub mod duration;
pub mod exponential_backoff;
pub mod gcal_updater;
pub mod kitty_updater;
pub mod my_screen_service;
pub mod text;
pub mod timefmt;
pub mod transport_updater;

pub use duration::Duration;
pub use exponential_backoff::ExponentialBackoff;
