//! What a run is configured with.

use vstd::prelude::*;

verus! {

/// What a run was asked to do.
pub struct Settings {
    /// The host and port of the endpoint that serves the statistics.
    pub endpoint: String,
    /// How often to fetch statistics, in seconds.
    pub interval: u64,
    /// Custom metrics to watch, each in dot notation.
    pub metrics: Option<Vec<String>>,
    /// Whether to report memory metrics.
    pub memory: bool,
    /// Whether to report CPU metrics.
    pub cpu: bool,
    /// Whether to report the metrics of the process database.
    pub processdb: bool,
    /// Whether to report the metrics of the pipeline.
    pub pipeline: bool,
    /// Whether to report the metrics of kernel tracing.
    pub kernel_tracing: bool,
    /// Whether to report the metrics of output events.
    pub output: bool,
    /// Whether to log in detail.
    pub verbose: bool,
    /// A file to which every fetched snapshot is appended, one per line.
    pub ndjson: Option<String>,
    /// A file of recorded snapshots to read in place of the endpoint.
    pub read: Option<String>,
}

/// The host and port at which a beat serves its statistics unless told
/// otherwise.
pub fn default_endpoint() -> (endpoint: String)
    ensures
        endpoint@ == "localhost:5066"@,
{
    String::from_str("localhost:5066")
}

} // verus!
