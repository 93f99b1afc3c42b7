//! Watches directories for newly written HEIC images, admits each changed
//! file at most once per burst, converts it to a JPEG beside the original,
//! and keeps a bounded log of recent outcomes.
//!
//! Everything that decides — admission, debouncing, path resolution,
//! stabilization verdicts, the worker pipeline's phase transitions, the
//! outcome ring buffer — lives here and is verified. The surrounding
//! process (filesystem watching, channels, the actual conversion tool)
//! feeds plain values in and carries the decided actions out.

pub mod chars;
pub mod config;
pub mod dispatch;
pub mod ledger;
pub mod normalize;
pub mod outcome_log;
pub mod output;
pub mod pathname;
pub mod settings;
pub mod worker;
