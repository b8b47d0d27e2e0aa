//! Sampling of nested metric snapshots into typed time series.
//!
//! A snapshot is a nested JSON object, as a beat serves it at its statistics
//! endpoint. Series are addressed by dot-separated paths into it; every
//! update appends, to each series, the number found at its path.
//!
//! - [`json`] is the boundary to `serde_json`: what a snapshot holds, and the
//!   calls made on it, whose contracts are taken on trust.
//! - [`path`] looks paths up and lists the numbers below an object.
//! - [`groups`] holds groups of series of one numeric type, which find their
//!   series in the first snapshot that has any.
//! - [`stat`] and [`fields`] hold groups of named metric fields, some of them
//!   hidden, some shown in another unit than they arrive in.
//! - [`watchers`] and [`driver`] hold the decisions of the tasks that take
//!   the snapshots in and of the loop that feeds them.
//! - [`replay`] reads snapshots from text, and [`config`] holds the settings
//!   of a run.
//!
//! Numbers are kept as they arrive. Floating-point arithmetic, drawing and
//! all input and output are left to the caller.

pub mod config;
pub mod driver;
pub mod fields;
pub mod groups;
pub mod json;
pub mod path;
pub mod replay;
pub mod stat;
pub mod watchers;
