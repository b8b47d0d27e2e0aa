use beatperf::config::{default_endpoint, Settings};
use beatperf::driver::{
    generate_readers, on_poll, on_wake, source, stats_url, Relay, Source, Turn, Wake, WatcherKind,
};
use beatperf::groups::memory::{without_total, MEMORY_TOTAL};
use beatperf::groups::pipeline::{contains, is_count, queue_counts};
use beatperf::groups::{get_min_max_uint, RangeError};
use beatperf::replay::{read_record, read_snapshot, Record, ReplayError};
use serde_json::Value;

fn series(values: &[&[u64]]) -> Vec<(String, Vec<u64>)> {
    values.iter().enumerate().map(|(i, v)| (format!("series.{}", i), v.to_vec())).collect()
}

fn settings() -> Settings {
    Settings {
        endpoint: default_endpoint(),
        interval: 5,
        metrics: None,
        memory: false,
        cpu: false,
        processdb: false,
        pipeline: false,
        kernel_tracing: false,
        output: false,
        verbose: false,
        ndjson: None,
        read: None,
    }
}

#[test]
fn range_spans_all_series() {
    assert_eq!(get_min_max_uint(&series(&[&[5, 3, 9], &[], &[4, 12, 7]])), Ok((3, 12)));
    assert_eq!(get_min_max_uint(&series(&[&[], &[8, 2]])), Ok((2, 8)));
    assert_eq!(get_min_max_uint(&series(&[&[0, u64::MAX]])), Ok((0, u64::MAX)));
}

#[test]
fn range_of_one_value_starts_at_zero() {
    assert_eq!(get_min_max_uint(&series(&[&[7]])), Ok((0, 7)));
    assert_eq!(get_min_max_uint(&series(&[&[7, 7], &[7]])), Ok((0, 7)));
    assert_eq!(get_min_max_uint(&series(&[&[0]])), Ok((0, 0)));
}

#[test]
fn no_values_have_no_range() {
    assert_eq!(get_min_max_uint(&series(&[])), Err(RangeError::NoValues));
    assert_eq!(get_min_max_uint(&series(&[&[], &[]])), Err(RangeError::NoValues));
    assert_eq!(RangeError::NoValues.message(), "data does not have any values");
}

#[test]
fn endpoint_defaults_to_the_local_beat() {
    assert_eq!(default_endpoint(), "localhost:5066");
    assert_eq!(stats_url("localhost:5066"), "http://localhost:5066/stats");
    match source(&settings()) {
        Source::Live(url) => assert_eq!(url, "http://localhost:5066/stats"),
        Source::Replay(_) => panic!("no recording was named"),
    }
    let mut replayed = settings();
    replayed.read = Some("stats.ndjson".to_string());
    match source(&replayed) {
        Source::Replay(path) => assert_eq!(path, "stats.ndjson"),
        Source::Live(_) => panic!("a recording was named"),
    }
}

#[test]
fn watchers_start_in_a_fixed_order() {
    assert_eq!(generate_readers(&settings()), vec![]);
    let mut asked = settings();
    asked.metrics = Some(vec![]);
    asked.kernel_tracing = true;
    asked.memory = true;
    assert_eq!(
        generate_readers(&asked),
        vec![WatcherKind::Memory, WatcherKind::KernelTracing, WatcherKind::Custom]
    );
    asked.output = true;
    asked.pipeline = true;
    asked.processdb = true;
    asked.cpu = true;
    assert_eq!(
        generate_readers(&asked),
        vec![
            WatcherKind::Memory,
            WatcherKind::ProcessDb,
            WatcherKind::Pipeline,
            WatcherKind::Output,
            WatcherKind::KernelTracing,
            WatcherKind::Custom
        ]
    );
}

#[test]
fn loop_stops_when_cancelled_and_relays_what_it_fetched() {
    assert_eq!(on_wake(Wake::Cancelled), Turn::Stop);
    assert_eq!(on_wake(Wake::Tick), Turn::Poll);
    assert_eq!(on_poll(0, true), Relay::Drop);
    assert_eq!(on_poll(0, false), Relay::Drop);
    assert_eq!(on_poll(3, true), Relay::Send);
    assert_eq!(on_poll(1, false), Relay::Report);
}

#[test]
fn records_are_objects_one_per_line() {
    assert!(matches!(read_record(""), Record::Blank));
    match read_record(r#"{"a": {"b": 1}}"#) {
        Record::Snapshot(object) => {
            assert_eq!(object["a"]["b"], Value::from(1));
            assert_eq!(object.len(), 1);
        }
        _ => panic!("the line holds a snapshot"),
    }
    assert!(matches!(read_record("[1, 2]"), Record::Broken(ReplayError::Malformed(_))));
    assert!(matches!(read_record(" "), Record::Broken(_)));
    assert!(matches!(read_record(r#"{"a": 1"#), Record::Broken(_)));
    assert!(read_snapshot("").is_err());
    assert!(read_snapshot("17").is_err());
    assert_eq!(read_snapshot("{}").ok().unwrap().len(), 0);
}

#[test]
fn substrings_are_found_wherever_they_stand() {
    assert!(contains("libbeat.pipeline.queue.filled.bytes", "bytes"));
    assert!(contains("bytes.filled", "bytes"));
    assert!(contains("a.bytes.b", "bytes"));
    assert!(contains("abc", ""));
    assert!(contains("", ""));
    assert!(contains("pct", "pct"));
    assert!(!contains("byte", "bytes"));
    assert!(!contains("", "pct"));
    assert!(!contains("b.y.t.e.s", "bytes"));
    assert!(!contains("pc", "pct"));
    assert!(contains("größe.pct", "pct"));
    assert!(contains("aab", "ab"));
}

#[test]
fn queue_chart_leaves_out_bytes_and_percentages() {
    assert!(is_count("libbeat.pipeline.queue.acked"));
    assert!(!is_count("libbeat.pipeline.queue.filled.bytes"));
    assert!(!is_count("libbeat.pipeline.queue.filled.pct"));
    assert!(!is_count("libbeat.pipeline.queue.max_bytes"));
    let queue = vec![
        ("libbeat.pipeline.queue.acked".to_string(), vec![1, 2]),
        ("libbeat.pipeline.queue.filled.bytes".to_string(), vec![100]),
        ("libbeat.pipeline.queue.filled.events".to_string(), vec![]),
        ("libbeat.pipeline.queue.filled.pct".to_string(), vec![0]),
        ("libbeat.pipeline.queue.max_events".to_string(), vec![3200]),
    ];
    assert_eq!(
        queue_counts(queue),
        vec![
            ("libbeat.pipeline.queue.acked".to_string(), vec![1, 2]),
            ("libbeat.pipeline.queue.filled.events".to_string(), vec![]),
            ("libbeat.pipeline.queue.max_events".to_string(), vec![3200]),
        ]
    );
    assert_eq!(queue_counts(vec![]), vec![]);
}

#[test]
fn memory_chart_leaves_out_the_total() {
    assert_eq!(MEMORY_TOTAL, "beat.memstats.memory_total");
    let series = vec![
        ("beat.memstats.gc_next".to_string(), vec![1.5]),
        ("beat.memstats.memory_total".to_string(), vec![9000.0, 9500.0]),
        ("beat.memstats.rss".to_string(), vec![52.0]),
    ];
    assert_eq!(
        without_total(series),
        vec![
            ("beat.memstats.gc_next".to_string(), vec![1.5]),
            ("beat.memstats.rss".to_string(), vec![52.0]),
        ]
    );
    let other = vec![("beat.memstats.memory_total.x".to_string(), vec![1u64])];
    assert_eq!(without_total(other.clone()), other);
}
