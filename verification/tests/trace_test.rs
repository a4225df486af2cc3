use std::collections::HashMap;

use serde_json::Value;
use sk_trace::config::TracerConfig;
use sk_trace::event::TraceEvent;
use sk_trace::index::TraceIndex;
use sk_trace::k8s::{DynamicObject, ObjectMeta, PodLifecycleData, GVK};
use sk_trace::owner_map::OwnerMap;
use sk_trace::trace::{
    ExportedTrace, ImportError, PodLifecyclesMap, TraceError, TraceFile, CURRENT_TRACE_FORMAT_VERSION,
    MIN_SUPPORTED_TRACE_FORMAT_VERSION,
};

const TEST_NAMESPACE: &str = "test-namespace";
const TEST_DEPLOYMENT: &str = "the-deployment";
const EMPTY_POD_SPEC_HASH: u64 = 17506812802394981455;

fn depl_gvk() -> GVK {
    GVK { group: "apps".into(), version: "v1".into(), kind: "Deployment".into() }
}

fn event_at(ts: i64) -> TraceEvent {
    TraceEvent { ts, ..Default::default() }
}

fn times(events: &[TraceEvent]) -> Vec<i64> {
    events.iter().map(|event| event.ts).collect()
}

fn trace_at(times: &[i64]) -> ExportedTrace {
    let mut trace = ExportedTrace::default();
    for ts in times {
        trace.append_event(event_at(*ts));
    }
    trace
}

fn pod(name: &str) -> DynamicObject {
    DynamicObject {
        types: None,
        metadata: ObjectMeta {
            name: Some(name.into()),
            generate_name: None,
            namespace: Some(TEST_NAMESPACE.into()),
            rest: "{}".into(),
        },
        data: "{}".into(),
    }
}

// The named fields of a trace file, with the events by their times and the objects by their names.
fn file_bytes(version: u16, config: &str, times: &[i64], initial_state: Option<&[String]>) -> Vec<u8> {
    let mut fields = serde_json::Map::new();
    fields.insert("version".into(), Value::from(version));
    fields.insert("config".into(), Value::from(config));
    fields.insert("events".into(), Value::from(times.to_vec()));
    if let Some(names) = initial_state {
        fields.insert("initial_state".into(), Value::from(names.to_vec()));
    }
    rmp_serde::to_vec_named(&Value::Object(fields)).unwrap()
}

fn encode(file: &TraceFile) -> Result<Vec<u8>, rmp_serde::encode::Error> {
    let names: Option<Vec<String>> = file
        .initial_state
        .as_ref()
        .map(|objects| objects.iter().map(|object| object.metadata.name_any()).collect());
    Ok(file_bytes(file.version, &file.config.document, &times(&file.events), names.as_deref()))
}

fn decode(data: &Vec<u8>) -> Result<TraceFile, rmp_serde::decode::Error> {
    let value: Value = rmp_serde::from_slice(data)?;
    Ok(TraceFile {
        version: value["version"].as_u64().unwrap() as u16,
        config: TracerConfig { document: value["config"].as_str().unwrap().into() },
        events: value["events"].as_array().unwrap().iter().map(|ts| event_at(ts.as_i64().unwrap())).collect(),
        index: TraceIndex::default(),
        pod_lifecycles: OwnerMap::default(),
        initial_state: value
            .get("initial_state")
            .map(|names| names.as_array().unwrap().iter().map(|name| pod(name.as_str().unwrap())).collect()),
    })
}

// Durations are whole seconds.
fn seconds_after(ts: i64, duration: &String) -> Result<i64, String> {
    match duration.parse::<i64>() {
        Ok(seconds) => Ok(ts + seconds),
        Err(_) => Err(format!("no duration: {duration}")),
    }
}

fn import(data: Vec<u8>, maybe_duration: Option<&String>) -> Result<ExportedTrace, ImportError<String>> {
    ExportedTrace::import(data, maybe_duration, decode, seconds_after)
}

#[test]
fn test_lookup_pod_lifecycle_no_owner() {
    let trace = ExportedTrace::default();
    let res = trace.lookup_pod_lifecycle(&depl_gvk(), TEST_DEPLOYMENT, EMPTY_POD_SPEC_HASH, 0);
    assert_eq!(res, PodLifecycleData::Empty);
}

#[test]
fn test_lookup_pod_lifecycle_no_hash() {
    let mut trace = ExportedTrace::default();
    trace.index.insert(depl_gvk(), TEST_DEPLOYMENT.into(), 1234);
    let res = trace.lookup_pod_lifecycle(&depl_gvk(), TEST_DEPLOYMENT, EMPTY_POD_SPEC_HASH, 0);
    assert_eq!(res, PodLifecycleData::Empty);
}

#[test]
fn test_lookup_pod_lifecycle() {
    let mut trace = ExportedTrace::default();
    let owner_ns_name = format!("{TEST_NAMESPACE}/{TEST_DEPLOYMENT}");
    let pod_lifecycle = PodLifecycleData::Finished(1, 2);

    trace.index.insert(depl_gvk(), owner_ns_name.clone(), 1234);
    trace.pod_lifecycles.insert(
        depl_gvk(),
        owner_ns_name.clone(),
        HashMap::from([(EMPTY_POD_SPEC_HASH, vec![pod_lifecycle.clone()])]),
    );

    let res = trace.lookup_pod_lifecycle(&depl_gvk(), &owner_ns_name, EMPTY_POD_SPEC_HASH, 0);
    assert_eq!(res, pod_lifecycle);
}

#[test]
fn test_trace_start_end_ts() {
    let mut trace = ExportedTrace::default();
    trace.append_event(TraceEvent { ts: 0, ..Default::default() });
    trace.append_event(TraceEvent { ts: 1, ..Default::default() });

    assert_eq!(trace.start_ts(), Some(0));
    assert_eq!(trace.end_ts(), Some(1));
}

#[test]
fn test_v2_trace_imports_with_empty_initial_state() {
    let bytes = file_bytes(2, "{}", &[100], None);

    let trace = import(bytes, None).unwrap();
    assert_eq!(trace.version, 2);
    assert!(trace.initial_state.is_empty());
    assert_eq!(trace.events.len(), 1);
}

#[test]
fn test_unsupported_old_trace_version_rejected() {
    let bytes = file_bytes(1, "{}", &[], None);
    assert!(import(bytes, None).is_err());
}

#[test]
fn too_old_a_version_is_named() {
    match import(file_bytes(1, "{}", &[5], None), None) {
        Err(ImportError::Trace(err)) => {
            assert!(matches!(err, TraceError::VersionTooOld(1, 2)));
            assert_eq!(
                err.message(),
                "trace file version 1 is older than the minimum supported version 2; \
                 please re-record with a newer SimKube release"
            );
        },
        other => panic!("{other:?}"),
    }
}

#[test]
fn too_new_a_version_is_named() {
    match import(file_bytes(65535, "{}", &[5], None), None) {
        Err(ImportError::Trace(err)) => {
            assert!(matches!(err, TraceError::VersionTooNew(65535, 3)));
            assert_eq!(
                err.message(),
                "trace file version 65535 is newer than this binary supports (max 3); \
                 please upgrade SimKube"
            );
        },
        other => panic!("{other:?}"),
    }
}

#[test]
fn version_is_checked_before_the_duration() {
    let res = import(file_bytes(4, "{}", &[5], None), Some(&"soon".to_string()));
    assert!(matches!(res, Err(ImportError::Trace(TraceError::VersionTooNew(4, 3)))));
}

#[test]
fn bytes_that_are_no_trace_are_rejected() {
    match import(vec![0xc1], None) {
        Err(ImportError::Trace(err)) => {
            assert!(matches!(err, TraceError::ParseFailed(_)));
            assert_eq!(
                err.message(),
                "could not parse trace file\n\nIf this trace file is older than version 2, \
                 it is only parseable by SimKube <= 1.1.1.  Please see the release notes for details."
            );
        },
        other => panic!("{other:?}"),
    }
}

#[test]
fn duration_caps_events_strictly() {
    let bytes = file_bytes(3, "{}", &[10, 15, 19, 20, 21], Some(&[]));
    let trace = import(bytes, Some(&"10".to_string())).unwrap();
    assert_eq!(times(&trace.events), vec![10, 15, 19]);
    assert_eq!(trace.start_ts(), Some(10));
}

#[test]
fn duration_is_counted_from_the_first_event() {
    let bytes = file_bytes(3, "{}", &[10, 3, 25, 12], None);
    let trace = import(bytes, Some(&"5".to_string())).unwrap();
    assert_eq!(times(&trace.events), vec![10, 3, 12]);
}

#[test]
fn zero_duration_leaves_no_event() {
    let trace = import(file_bytes(3, "{}", &[10, 11], None), Some(&"0".to_string())).unwrap();
    assert_eq!(trace.len(), 0);
}

#[test]
fn bad_duration_is_reported() {
    let res = import(file_bytes(3, "{}", &[10], None), Some(&"soon".to_string()));
    match res {
        Err(ImportError::Duration(err)) => assert_eq!(err, "no duration: soon"),
        other => panic!("{other:?}"),
    }
}

#[test]
fn duration_is_not_read_without_events() {
    let trace = import(file_bytes(3, "{}", &[], Some(&["a".into()])), Some(&"soon".to_string())).unwrap();
    assert_eq!(trace.len(), 0);
    assert_eq!(trace.initial_state.len(), 1);
}

#[test]
fn decoded_file_is_imported_alike() {
    let file = decode(&file_bytes(2, "{}", &[1, 2, 3], None));
    let trace = ExportedTrace::import_decoded(file, Some(&"2".to_string()), seconds_after).unwrap();
    assert_eq!(times(&trace.events), vec![1, 2]);
    assert_eq!(trace.version, 2);
}

#[test]
fn written_trace_reads_back() {
    let mut trace = trace_at(&[7, 9]);
    trace.config = TracerConfig { document: "{\"trackedObjects\":{}}".into() };
    trace.initial_state.push(pod("first"));
    trace.initial_state.push(pod("second"));

    let read = import(trace.to_bytes(encode).unwrap(), None).unwrap();
    assert_eq!(read.version, trace.version);
    assert_eq!(read.config.document, "{\"trackedObjects\":{}}");
    assert_eq!(times(&read.events), vec![7, 9]);
    assert_eq!(read.initial_state.len(), 2);
    assert_eq!(read.initial_state[1].namespaced_name(), "test-namespace/second");
}

#[test]
fn failure_to_encode_is_handed_on() {
    let fail = |_: &TraceFile| -> Result<Vec<u8>, String> { Err("disk full".into()) };
    assert_eq!(trace_at(&[1]).to_bytes(fail), Err("disk full".to_string()));
}

#[test]
fn blank_trace_is_of_the_current_format() {
    let trace = ExportedTrace::default();
    assert_eq!(trace.version, CURRENT_TRACE_FORMAT_VERSION);
    assert_eq!((MIN_SUPPORTED_TRACE_FORMAT_VERSION, CURRENT_TRACE_FORMAT_VERSION), (2, 3));
    assert_eq!(trace.config.document, "{}");
    assert_eq!(trace.len(), 0);
    assert_eq!(trace.start_ts(), None);
    assert_eq!(trace.end_ts(), None);
    assert!(trace.initial_state.is_empty());
    assert!(trace.iter().next().is_none());
}

#[test]
fn earlier_of_two_caps_decides() {
    let mut once = trace_at(&[1, 2, 3, 4]);
    once.cap_events(3);
    let mut twice = trace_at(&[1, 2, 3, 4]);
    twice.cap_events(4);
    twice.cap_events(3);
    twice.cap_events(9);
    assert_eq!(times(&once.events), vec![1, 2]);
    assert_eq!(times(&twice.events), vec![1, 2]);
}

#[test]
fn events_are_added_at_either_end() {
    let mut trace = trace_at(&[5, 6]);
    trace.prepend_event(event_at(4));
    trace.append_event(event_at(7));
    assert_eq!(times(&trace.events()), vec![4, 5, 6, 7]);
    assert_eq!(trace.len(), 4);
    assert_eq!((trace.start_ts(), trace.end_ts()), (Some(4), Some(7)));
}

#[test]
fn clone_with_events_keeps_the_rest() {
    let mut trace = trace_at(&[1, 2, 3]);
    trace.version = 2;
    trace.index.insert(depl_gvk(), "default/a".into(), 7);
    trace.initial_state.push(pod("seed"));
    let other = trace.clone_with_events(vec![event_at(9)]);
    assert_eq!(other.version, 2);
    assert_eq!(times(&other.events), vec![9]);
    assert_eq!(other.index.get(&depl_gvk(), "default/a"), Some(7));
    assert_eq!(other.initial_state.len(), 1);
    assert_eq!(times(&trace.events), vec![1, 2, 3]);
}

#[test]
fn walk_gives_each_event_with_the_time_of_the_next() {
    let trace = trace_at(&[1, 4, 9]);
    let mut iter = trace.iter();
    let mut seen = vec![];
    while let Some((event, next)) = iter.next() {
        seen.push((event.ts, next));
    }
    assert_eq!(seen, vec![(1, Some(4)), (4, Some(9)), (9, None)]);
    assert!(iter.next().is_none());
    assert!(iter.next().is_none());
}

#[test]
fn objects_are_known_by_type_and_name() {
    let mut trace = ExportedTrace::default();
    trace.index.insert(depl_gvk(), "default/a".into(), 7);
    let other = GVK { group: "batch".into(), version: "v1".into(), kind: "Job".into() };
    assert!(trace.has_obj(&depl_gvk(), "default/a"));
    assert!(!trace.has_obj(&depl_gvk(), "default/b"));
    assert!(!trace.has_obj(&other, "default/a"));
}

#[test]
fn observed_lifecycles_come_in_turn() {
    let mut trace = ExportedTrace::default();
    let observed = vec![PodLifecycleData::Finished(1, 2), PodLifecycleData::Running(3), PodLifecycleData::Empty];
    let pods: PodLifecyclesMap = HashMap::from([(11, observed.clone())]);
    trace.pod_lifecycles.insert(depl_gvk(), "default/a".into(), pods);
    for seq in 0..7 {
        let data = trace.lookup_pod_lifecycle(&depl_gvk(), "default/a", 11, seq);
        assert_eq!(data, observed[seq % 3]);
    }
    assert_eq!(trace.lookup_pod_lifecycle(&depl_gvk(), "default/a", 12, 0), PodLifecycleData::Empty);
}

#[test]
fn import_leaves_everything_but_the_events() {
    let bytes = file_bytes(3, "{\"trackedObjects\":{}}", &[1, 2, 8], Some(&["a".into(), "b".into()]));
    let trace = import(bytes, Some(&"2".to_string())).unwrap();
    assert_eq!(times(&trace.events), vec![1, 2]);
    assert_eq!(trace.version, 3);
    assert_eq!(trace.config.document, "{\"trackedObjects\":{}}");
    assert_eq!(trace.initial_state.len(), 2);
}
