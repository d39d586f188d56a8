//! Splits the interleaved output of a long-running command into per-prefix
//! logs, each with a scrollable read window and unread counters, and keeps the
//! navigation state of a dashboard over those logs.

pub mod app;
pub mod bucket;
pub mod config;
pub mod display;
pub mod input;
pub mod keys;
pub mod line;
pub mod pattern;
pub mod shutdown;

pub use app::{App, AppMessage, ERROR_PATTERN, FILE_NAME_UNSAFE};
pub use bucket::{Bucket, BucketView};
pub use config::{Config, DEFAULT_PREFIX};
pub use display::DisplayState;
pub use keys::key_less;
pub use line::Line;
pub use pattern::{classify, trim, Pattern, PatternError};
pub use input::{action_for, Action, Key};
pub use shutdown::{shutdown_step, ShutdownAction, ShutdownEvent, ShutdownPhase};
