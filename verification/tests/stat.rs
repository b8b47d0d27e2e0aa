use beatperf::config::Settings;
use beatperf::fields::{GenericMetricFields, KbMetricFields};
use beatperf::stat::{ConfigError, Field, MetricField, Multistat, StatsGroup};
use serde_json::{Number, Value};
use std::collections::HashMap;

fn create_nested_json(val_l3: u64, val_l2: u64) -> String {
    let json = format!(
        r#"{{
        "root": {{
                "l1" : {{
                    "l2": {{
                        "l3" : {{
                            "metric": {}
                        }},
                        "metric": {}
                    }}
                }}
            }}
        }}"#,
        val_l3, val_l2
    );
    json
}

fn parse(text: &str) -> serde_json::Map<String, Value> {
    serde_json::from_str(text).unwrap()
}

/// The values of a field as they are shown.
fn generate_data(field: &Field) -> Vec<f64> {
    field
        .samples()
        .iter()
        .map(|f| f.as_f64().unwrap_or_default() / field.divisor() as f64)
        .collect()
}

/// The newest value of a field as it is shown, zero where it has none.
fn last(field: &Field) -> f64 {
    match field.last() {
        Some(val) => val.as_f64().unwrap_or_default() / field.divisor() as f64,
        None => 0.0,
    }
}

/// What a group shows: each visible field's name with its values.
fn shown(group: &StatsGroup) -> HashMap<String, Vec<f64>> {
    group.plot().into_iter().map(|field| (field.name(), generate_data(field))).collect()
}

fn settings() -> Settings {
    Settings {
        endpoint: "localhost:5066".to_string(),
        interval: 5,
        metrics: None,
        memory: false,
        cpu: false,
        processdb: false,
        pipeline: false,
        kernel_tracing: false,
        output: false,
        verbose: false,
        ndjson: None,
        read: None,
    }
}

#[test]
fn test_nested_key() {
    let result1: serde_json::Map<String, serde_json::Value> =
        serde_json::from_str(&create_nested_json(42, 0)).unwrap();
    let result2: serde_json::Map<String, serde_json::Value> =
        serde_json::from_str(&create_nested_json(63, 0)).unwrap();

    let field: Vec<GenericMetricFields> = vec![("root.l1.l2.l3.metric", false).into()];
    let mut stats = StatsGroup::from(field);
    stats.update(&result1);
    stats.update(&result2);

    println!("raw: {}", stats.describe());
    let test_ser = shown(&stats);

    assert_eq!(test_ser["root.l1.l2.l3.metric"], vec![42.0, 63.0]);
}

#[test]
fn test_hidden_metrics() {
    let result1: serde_json::Map<String, serde_json::Value> =
        serde_json::from_str(&create_nested_json(42, 21)).unwrap();
    let field: Vec<GenericMetricFields> =
        vec![("root.l1.l2.l3.metric", true).into(), ("root.l1.l2.metric", false).into()];
    let mut stats = StatsGroup::from(field);
    stats.update(&result1);

    println!("raw: {}", stats.describe());
    let test_ser = shown(&stats);

    assert_eq!(test_ser["root.l1.l2.metric"], vec![21.0]);
}

#[test]
fn absent_field_is_skipped() {
    let field: Vec<GenericMetricFields> = vec![("here", false).into(), ("gone", false).into()];
    let mut stats = StatsGroup::from(field);
    assert_eq!(stats.len(), 0);
    stats.update(&parse(r#"{"here": 4}"#));
    assert_eq!(stats.len(), 1);
    assert_eq!(stats.fields()[0].samples().len(), 1);
    assert_eq!(stats.fields()[1].samples().len(), 0);
    assert_eq!(stats.fields()[0].last(), Some(&Number::from(4)));
    assert_eq!(stats.fields()[1].last(), None);
}

#[test]
fn field_that_is_no_number_is_skipped() {
    let field: Vec<GenericMetricFields> =
        vec![("text", false).into(), ("object", false).into(), ("number", false).into()];
    let mut stats = StatsGroup::from(field);
    stats.update(&parse(r#"{"text": "7", "object": {"a": 1}, "number": 2.5}"#));
    assert_eq!(stats.len(), 1);
    assert!(stats.fields()[0].samples().is_empty());
    assert!(stats.fields()[1].samples().is_empty());
    assert_eq!(stats.fields()[2].samples(), &vec![Number::from_f64(2.5).unwrap()]);
}

#[test]
fn hidden_field_is_kept_but_never_shown() {
    let field: Vec<GenericMetricFields> = vec![("big", true).into(), ("small", false).into()];
    let mut stats = StatsGroup::from(field);
    for round in 0..7u64 {
        stats.update(&parse(&format!(r#"{{"big": {}, "small": {}}}"#, 1000 * round, round)));
        let keys: Vec<String> = shown(&stats).into_keys().collect();
        assert_eq!(keys, vec!["small".to_string()]);
    }
    assert_eq!(stats.len(), 7);
    let hidden = &stats.fields()[0];
    assert!(hidden.hidden());
    assert_eq!(hidden.name(), "big");
    assert_eq!(hidden.samples().len(), 7);
    assert_eq!(last(hidden), 6000.0);
    assert_eq!(generate_data(hidden).into_iter().fold(0.0, f64::max), 6000.0);
    assert_eq!(shown(&stats)["small"], vec![0.0, 1.0, 2.0, 3.0, 4.0, 5.0, 6.0]);
}

#[test]
fn kilobyte_field_keeps_bytes_and_shows_kilobytes() {
    let mut field = Field::Kb(KbMetricFields::from(("mem".to_string(), false)));
    assert_eq!(last(&field), 0.0);
    field.push(Number::from(1000));
    assert_eq!(field.divisor(), 1000);
    assert_eq!(field.samples(), &vec![Number::from(1000)]);
    assert_eq!(last(&field), 1.0);
    assert_eq!(generate_data(&field), vec![1.0]);
}

#[test]
fn generic_field_shows_numbers_as_they_are() {
    let mut field = GenericMetricFields::from(("count", false));
    field.push(Number::from(1000));
    field.push(Number::from(3));
    assert_eq!(field.divisor(), 1);
    assert_eq!(field.name(), "count");
    assert!(!field.hidden());
    assert_eq!(field.last(), Some(&Number::from(3)));
    assert_eq!(field.samples(), &vec![Number::from(1000), Number::from(3)]);
    let empty = KbMetricFields::from("mem".to_string());
    assert_eq!(empty.last(), None);
    assert!(!empty.hidden());
    assert_eq!(KbMetricFields::default().name(), "");
    assert_eq!(GenericMetricFields::default().divisor(), 1);
}

#[test]
fn group_keeps_the_order_of_its_fields() {
    let fields = vec![
        Field::Kb(("b".to_string(), false).into()),
        Field::Generic(("a", true).into()),
        Field::Generic(("c", false).into()),
    ];
    let mut stats = StatsGroup::from(fields);
    stats.file_tag = "mixed".to_string();
    stats.update(&parse(r#"{"a": 1, "b": 2000, "c": 3}"#));
    let names: Vec<String> = stats.plot().into_iter().map(|f| f.name()).collect();
    assert_eq!(names, vec!["b".to_string(), "c".to_string()]);
    assert_eq!(shown(&stats)["b"], vec![2.0]);
    assert_eq!(stats.describe(), "mixed:\n\tb\n\ta\n\tc\n");
    let kb: Vec<KbMetricFields> = vec!["x".to_string().into(), ("y".to_string(), true).into()];
    assert_eq!(StatsGroup::from(kb).describe(), ":\n\tx\n\ty\n");
}

#[test]
fn no_group_configured_is_an_error() {
    match Multistat::try_from(settings()) {
        Err(error) => {
            assert_eq!(error, ConfigError::NoMetrics);
            assert_eq!(error.message(), "no metrics configured!");
        }
        Ok(_) => panic!("a set of groups was made of no group"),
    }
    let mut other = settings();
    other.pipeline = true;
    other.output = true;
    other.kernel_tracing = true;
    assert!(Multistat::try_from(other).is_err());
}

#[test]
fn configured_groups_come_in_order() {
    let mut asked = settings();
    asked.memory = true;
    asked.cpu = true;
    asked.processdb = true;
    asked.metrics = Some(vec!["a.b".to_string(), "c".to_string()]);
    let stats = Multistat::try_from(asked).ok().unwrap();
    let tags: Vec<&str> = stats.groups().iter().map(|g| g.file_tag.as_str()).collect();
    assert_eq!(tags, vec!["memstat", "cpu", "processdb", "metrics"]);
    let memory = &stats.groups()[0];
    let names: Vec<String> = memory.fields().iter().map(|f| f.name()).collect();
    assert_eq!(
        names,
        vec![
            "beat.memstats.gc_next",
            "beat.memstats.memory_alloc",
            "beat.memstats.memory_sys",
            "beat.memstats.memory_total",
            "beat.memstats.rss"
        ]
    );
    let hidden: Vec<bool> = memory.fields().iter().map(|f| f.hidden()).collect();
    assert_eq!(hidden, vec![false, false, false, true, false]);
    assert!(memory.fields().iter().all(|f| f.divisor() == 1000));
    assert_eq!(
        stats.groups()[1].describe(),
        "cpu:\n\tbeat.cpu.system.time.ms\n\tbeat.cpu.user.time.ms\n\tbeat.cpu.total.time.ms\n"
    );
    let procdb = &stats.groups()[2];
    assert_eq!(procdb.fields().len(), 12);
    assert_eq!(
        procdb.fields()[0].name(),
        "processor.add_session_metadata.processdb.entry_leader_lookup_fail"
    );
    assert_eq!(procdb.plot().len(), 9);
    assert!(procdb.fields().iter().all(|f| f.divisor() == 1));
    assert_eq!(stats.groups()[3].describe(), "metrics:\n\ta.b\n\tc\n");
    assert_eq!(stats.groups()[3].plot().len(), 2);
}

#[test]
fn every_group_takes_the_snapshot_in() {
    let mut asked = settings();
    asked.memory = true;
    asked.metrics = Some(vec!["beat.memstats.rss".to_string()]);
    let mut stats = Multistat::try_from(asked).ok().unwrap();
    stats.update(parse(r#"{"beat": {"memstats": {"rss": 52000, "memory_total": 9000000}}}"#));
    assert_eq!(stats.groups()[0].len(), 1);
    assert_eq!(stats.groups()[1].len(), 1);
    assert_eq!(shown(&stats.groups()[0])["beat.memstats.rss"], vec![52.0]);
    assert!(shown(&stats.groups()[0])["beat.memstats.gc_next"].is_empty());
    assert!(!shown(&stats.groups()[0]).contains_key("beat.memstats.memory_total"));
    assert_eq!(shown(&stats.groups()[1])["beat.memstats.rss"], vec![52000.0]);
    let described = [
        "memstat:",
        "\tbeat.memstats.gc_next",
        "\tbeat.memstats.memory_alloc",
        "\tbeat.memstats.memory_sys",
        "\tbeat.memstats.memory_total",
        "\tbeat.memstats.rss",
        "metrics:",
        "\tbeat.memstats.rss",
        "",
    ];
    assert_eq!(stats.describe(), described.join("\n"));
}
