use std::cell::RefCell;
use std::collections::BTreeMap;

use json_patch_ext::{add_operation, PointerBuf};
use serde_json::Value;
use sk_trace::annotated_trace::{
    find_or_create_event_at_ts, AnnotatedTrace, AnnotatedTraceEvent, AnnotatedTracePatch, ObjectLocation,
    PatchLocations,
};
use sk_trace::config::TracerConfig;
use sk_trace::event::{TraceAction, TraceEvent};
use sk_trace::k8s::{DynamicObject, ObjectMeta, TypeMeta};
use sk_trace::trace::ExportedTrace;
use sk_trace::validator::{EventPatches, Validator, ValidatorCode};

fn deployment_type() -> TypeMeta {
    TypeMeta { api_version: "apps/v1".into(), kind: "Deployment".into() }
}

fn meta(name: &str) -> ObjectMeta {
    ObjectMeta {
        name: Some(name.into()),
        generate_name: None,
        namespace: Some("ns".into()),
        rest: "{}".into(),
    }
}

fn deployment(name: &str) -> DynamicObject {
    DynamicObject { types: Some(deployment_type()), metadata: meta(name), data: "{\"spec\":{}}".into() }
}

fn untyped(name: &str) -> DynamicObject {
    DynamicObject { types: None, metadata: meta(name), data: "{}".into() }
}

fn event(ts: i64, applied: &[&str], deleted: &[&str]) -> TraceEvent {
    TraceEvent {
        ts,
        applied_objs: applied.iter().map(|name| deployment(name)).collect(),
        deleted_objs: deleted.iter().map(|name| deployment(name)).collect(),
    }
}

fn annotated(events: Vec<TraceEvent>) -> AnnotatedTrace {
    AnnotatedTrace::new_with_events(events.into_iter().map(AnnotatedTraceEvent::new).collect())
}

fn exported(events: Vec<TraceEvent>) -> ExportedTrace {
    ExportedTrace::default().clone_with_events(events)
}

fn list_at(times: &[i64]) -> Vec<AnnotatedTraceEvent> {
    times.iter().map(|ts| AnnotatedTraceEvent::new(event(*ts, &[], &[]))).collect()
}

fn times(events: &[AnnotatedTraceEvent]) -> Vec<i64> {
    events.iter().map(|event| event.data.ts).collect()
}

fn names(trace: &AnnotatedTrace, places: &[ObjectLocation]) -> Vec<String> {
    places.iter().map(|place| trace.object_at(*place).metadata.name_any()).collect()
}

fn at(event: usize, action: TraceAction, index: usize) -> ObjectLocation {
    ObjectLocation { event, action, index }
}

#[test]
fn event_is_created_in_an_empty_list() {
    let mut events = vec![];
    assert_eq!(find_or_create_event_at_ts(&mut events, 5), 0);
    assert_eq!(times(&events), vec![5]);
    assert!(events[0].annotations.is_empty());
}

#[test]
fn event_at_the_time_is_found() {
    let mut events = list_at(&[1, 5, 5, 9]);
    assert_eq!(find_or_create_event_at_ts(&mut events, 5), 2);
    assert_eq!(times(&events), vec![1, 5, 5, 9]);
}

#[test]
fn event_is_created_between_others() {
    let mut events = list_at(&[1, 5, 9]);
    assert_eq!(find_or_create_event_at_ts(&mut events, 7), 2);
    assert_eq!(times(&events), vec![1, 5, 7, 9]);
    assert_eq!(find_or_create_event_at_ts(&mut events, 7), 2);
    assert_eq!(times(&events), vec![1, 5, 7, 9]);
}

#[test]
fn event_is_created_behind_all_others() {
    let mut events = list_at(&[1, 5]);
    assert_eq!(find_or_create_event_at_ts(&mut events, 6), 2);
    assert_eq!(times(&events), vec![1, 5, 6]);
}

#[test]
fn event_is_created_before_all_others() {
    let mut events = list_at(&[10]);
    assert_eq!(find_or_create_event_at_ts(&mut events, 5), 0);
    assert_eq!(times(&events), vec![5, 10]);
    assert_eq!(find_or_create_event_at_ts(&mut events, 5), 0);
    assert_eq!(times(&events), vec![5, 10]);
}

#[test]
fn everywhere_is_every_object_in_order() {
    let mut trace = annotated(vec![event(1, &["a", "b"], &["c"]), event(2, &[], &[]), event(3, &["d"], &["e"])]);
    let places = trace.matched_objects(&PatchLocations::Everywhere);
    assert_eq!(names(&trace, &places), vec!["a", "b", "c", "d", "e"]);
    assert_eq!(
        places,
        vec![
            at(0, TraceAction::ObjectApplied, 0),
            at(0, TraceAction::ObjectApplied, 1),
            at(0, TraceAction::ObjectDeleted, 0),
            at(2, TraceAction::ObjectApplied, 0),
            at(2, TraceAction::ObjectDeleted, 0),
        ]
    );
    assert_eq!(trace.len(), 3);
}

#[test]
fn reference_is_by_type_and_namespaced_name() {
    let mut first = event(1, &["a", "b"], &["a"]);
    first.applied_objs.push(untyped("a"));
    let mut other_type = deployment("a");
    other_type.types = Some(TypeMeta { api_version: "apps/v1".into(), kind: "StatefulSet".into() });
    first.applied_objs.push(other_type);
    let mut other_ns = deployment("a");
    other_ns.metadata.namespace = None;
    first.applied_objs.push(other_ns);
    let mut trace = annotated(vec![first, event(2, &["a"], &[])]);

    let places = trace.matched_objects(&PatchLocations::ObjectReference(deployment_type(), "ns/a".into()));
    assert_eq!(
        places,
        vec![
            at(0, TraceAction::ObjectApplied, 0),
            at(0, TraceAction::ObjectDeleted, 0),
            at(1, TraceAction::ObjectApplied, 0),
        ]
    );
    let none = trace.matched_objects(&PatchLocations::ObjectReference(deployment_type(), "ns/z".into()));
    assert!(none.is_empty());
}

#[test]
fn object_is_inserted_into_an_event_of_its_own() {
    let mut trace = annotated(vec![event(10, &["a"], &[]), event(20, &["b"], &[])]);
    let places = trace.matched_objects(&PatchLocations::InsertAt(
        5,
        TraceAction::ObjectApplied,
        deployment_type(),
        Box::new(meta("new")),
    ));
    assert_eq!(places, vec![at(1, TraceAction::ObjectApplied, 0)]);
    assert_eq!(trace.len(), 3);
    let object = trace.object_at(places[0]);
    assert_eq!(object.namespaced_name(), "ns/new");
    assert_eq!(object.data, "{}");
    assert!(object.types == Some(deployment_type()));
    assert_eq!(names(&trace, &trace.object_locations()), vec!["a", "new", "b"]);
}

#[test]
fn object_is_inserted_into_the_event_at_its_time() {
    let mut trace = annotated(vec![event(10, &["a"], &["x"]), event(20, &["b"], &["y"])]);
    let places = trace.matched_objects(&PatchLocations::InsertAt(
        10,
        TraceAction::ObjectDeleted,
        deployment_type(),
        Box::new(meta("new")),
    ));
    assert_eq!(places, vec![at(1, TraceAction::ObjectDeleted, 1)]);
    assert_eq!(trace.len(), 2);
    assert_eq!(names(&trace, &trace.object_locations()), vec!["a", "x", "b", "y", "new"]);
}

#[test]
fn object_is_inserted_before_the_start() {
    let mut trace = annotated(vec![event(10, &["a"], &[])]);
    let places = trace.matched_objects(&PatchLocations::InsertAt(
        -5,
        TraceAction::ObjectApplied,
        deployment_type(),
        Box::new(meta("new")),
    ));
    assert_eq!(places, vec![at(0, TraceAction::ObjectApplied, 0)]);
    assert_eq!(trace.len(), 2);
    assert_eq!(trace.start_ts(), Some(5));
    assert_eq!(names(&trace, &trace.object_locations()), vec!["new", "a"]);
}

#[test]
fn object_is_inserted_into_an_empty_trace() {
    let mut trace = AnnotatedTrace::default();
    let places = trace.matched_objects(&PatchLocations::InsertAt(
        7,
        TraceAction::ObjectApplied,
        deployment_type(),
        Box::new(meta("new")),
    ));
    assert_eq!(places, vec![at(0, TraceAction::ObjectApplied, 0)]);
    assert_eq!(trace.start_ts(), Some(7));
}

#[test]
fn matched_object_can_be_changed() {
    let mut trace = annotated(vec![event(1, &["a", "b"], &["c"])]);
    for place in trace.matched_objects(&PatchLocations::ObjectReference(deployment_type(), "ns/c".into())) {
        trace.object_at_mut(place).data = "{\"x\":1}".into();
    }
    let data: Vec<&str> = trace.object_locations().iter().map(|place| trace.object_at(*place).data.as_str()).collect();
    assert_eq!(data, vec!["{\"spec\":{}}", "{\"spec\":{}}", "{\"x\":1}"]);
}

#[test]
fn trace_is_read_by_place() {
    let trace = AnnotatedTrace::new("file:///trace", exported(vec![event(4, &["a", "b"], &["c"]), event(8, &[], &[])]));
    assert_eq!(trace.path(), "file:///trace");
    assert_eq!(trace.len(), 2);
    assert_eq!(trace.start_ts(), Some(4));
    assert_eq!(trace.get_event(1).unwrap().ts, 8);
    assert!(trace.get_event(2).is_none());
    assert_eq!(trace.get_object(0, 0).unwrap().metadata.name_any(), "a");
    assert_eq!(trace.get_object(0, 1).unwrap().metadata.name_any(), "b");
    assert_eq!(trace.get_object(0, 2).unwrap().metadata.name_any(), "c");
    assert!(trace.get_object(0, 3).is_none());
    assert!(trace.get_object(1, 0).is_none());
    assert!(trace.get_object(2, 0).is_none());
    assert!(!trace.is_empty_at(0));
    assert!(trace.is_empty_at(1));
    assert!(trace.is_empty_at(2));
    let mut iter = trace.iter();
    let (first, next) = iter.next().unwrap();
    assert_eq!((first.ts, next), (4, Some(8)));
}

#[test]
fn deleted_objects_alone_are_objects() {
    let trace = AnnotatedTrace::new_from_test_json(exported(vec![event(4, &[], &["c"])]));
    assert_eq!(trace.path(), "");
    assert_eq!(trace.len(), 1);
    assert!(!trace.is_empty_at(0));
    assert_eq!(trace.get_object(0, 0).unwrap().metadata.name_any(), "c");
}

#[test]
fn insertion_leaves_the_trace_that_was_read() {
    let mut trace = AnnotatedTrace::new("t", exported(vec![event(4, &["a"], &[])]));
    trace.matched_objects(&PatchLocations::InsertAt(
        1,
        TraceAction::ObjectApplied,
        deployment_type(),
        Box::new(meta("new")),
    ));
    assert_eq!(trace.len(), 2);
    assert!(trace.get_event(1).is_none());
}

// Finds fault with the objects of a name, fails at a time, and remembers what it was shown.
struct NameCheck {
    name: &'static str,
    fails_at: Option<i64>,
    shown: RefCell<Vec<(i64, Option<i64>, String)>>,
}

impl NameCheck {
    fn new(name: &'static str, fails_at: Option<i64>) -> NameCheck {
        NameCheck { name, fails_at, shown: RefCell::new(vec![]) }
    }
}

fn patch() -> AnnotatedTracePatch {
    AnnotatedTracePatch {
        locations: PatchLocations::Everywhere,
        ops: vec![add_operation(PointerBuf::parse("/foo").unwrap(), Value::from(1))],
    }
}

impl Validator for NameCheck {
    type Error = String;

    fn check_next_event(
        &self,
        event: (&TraceEvent, Option<i64>),
        config: &TracerConfig,
    ) -> Result<EventPatches, String> {
        let (event, next) = event;
        self.shown.borrow_mut().push((event.ts, next, config.document.clone()));
        if self.fails_at == Some(event.ts) {
            return Err(format!("{} failed at {}", self.name, event.ts));
        }
        let mut patches = BTreeMap::new();
        for (i, object) in event.applied_objs.iter().chain(event.deleted_objs.iter()).enumerate() {
            if object.metadata.name_any() == self.name {
                patches.insert(i, vec![patch()]);
            }
        }
        Ok(patches)
    }
}

fn checks(list: Vec<(ValidatorCode, NameCheck)>) -> BTreeMap<ValidatorCode, NameCheck> {
    list.into_iter().collect()
}

#[test]
fn checks_see_every_event_in_order() {
    let mut base = exported(vec![event(1, &["a"], &[]), event(2, &[], &["b", "a"]), event(5, &[], &[])]);
    base.config = TracerConfig { document: "{\"x\":1}".into() };
    let mut trace = AnnotatedTrace::new("t", base);
    let validators = checks(vec![(7, NameCheck::new("a", None)), (3, NameCheck::new("b", None))]);

    let summary = trace.run_validators(&validators).unwrap();
    assert_eq!(summary, BTreeMap::from([(3, 1), (7, 2)]));
    for check in validators.values() {
        assert_eq!(
            *check.shown.borrow(),
            vec![
                (1, Some(2), "{\"x\":1}".to_string()),
                (2, Some(5), "{\"x\":1}".to_string()),
                (5, None, "{\"x\":1}".to_string()),
            ]
        );
    }
}

#[test]
fn validation_succeeds_whatever_is_found() {
    let mut trace = AnnotatedTrace::new("t", exported(vec![event(1, &["a"], &[])]));
    assert_eq!(trace.validate(&checks(vec![(1, NameCheck::new("a", None))])), Ok(()));
    assert_eq!(trace.validate(&checks(vec![])), Ok(()));
    assert_eq!(AnnotatedTrace::default().validate(&checks(vec![(1, NameCheck::new("a", None))])), Ok(()));
}

#[test]
fn first_failure_ends_the_validation() {
    let mut trace = AnnotatedTrace::new("t", exported(vec![event(1, &["a"], &[]), event(2, &["a"], &[]), event(3, &["a"], &[])]));
    let validators = checks(vec![
        (1, NameCheck::new("a", None)),
        (2, NameCheck::new("b", Some(2))),
        (3, NameCheck::new("c", Some(2))),
    ]);
    assert_eq!(trace.validate(&validators), Err("b failed at 2".to_string()));
    let seen: Vec<usize> = validators.values().map(|check| check.shown.borrow().len()).collect();
    assert_eq!(seen, vec![2, 2, 1]);
}

#[test]
fn checks_that_saw_no_event_are_not_counted() {
    let mut trace = AnnotatedTrace::default();
    let summary = trace.run_validators(&checks(vec![(1, NameCheck::new("a", None))])).unwrap();
    assert!(summary.is_empty());
}

fn codes_at(trace: &AnnotatedTrace, idx: usize) -> Vec<(usize, Vec<ValidatorCode>)> {
    let event = trace.get_annotated_event(idx).unwrap();
    event
        .annotations
        .iter()
        .map(|(object, list)| (*object, list.iter().map(|annotation| annotation.code).collect()))
        .collect()
}

#[test]
fn findings_stand_on_the_objects() {
    let mut trace = AnnotatedTrace::new("t", exported(vec![event(1, &["a", "b"], &["a"]), event(2, &["c"], &[])]));
    let validators = checks(vec![
        (9, NameCheck::new("a", None)),
        (4, NameCheck::new("b", None)),
        (5, NameCheck::new("a", None)),
    ]);
    trace.validate(&validators).unwrap();
    assert_eq!(codes_at(&trace, 0), vec![(0, vec![5, 9]), (1, vec![4]), (2, vec![5, 9])]);
    assert!(codes_at(&trace, 1).is_empty());
    assert!(trace.get_annotated_event(2).is_none());
    let first = &trace.get_annotated_event(0).unwrap().annotations[&0][0];
    assert_eq!(first.patches.len(), 1);
    assert_eq!(first.patches[0].ops, patch().ops);
}

#[test]
fn findings_of_an_earlier_validation_are_replaced() {
    let mut trace = AnnotatedTrace::new("t", exported(vec![event(1, &["a", "b"], &[]), event(2, &["a"], &[])]));
    trace.validate(&checks(vec![(1, NameCheck::new("a", None))])).unwrap();
    assert_eq!(codes_at(&trace, 0), vec![(0, vec![1])]);
    assert_eq!(codes_at(&trace, 1), vec![(0, vec![1])]);

    let failing = checks(vec![(2, NameCheck::new("b", None)), (3, NameCheck::new("c", Some(1)))]);
    assert!(trace.validate(&failing).is_err());
    assert_eq!(codes_at(&trace, 0), vec![(1, vec![2])]);
    assert_eq!(codes_at(&trace, 1), vec![(0, vec![1])]);
}

#[test]
fn inserted_objects_are_checked() {
    let mut trace = AnnotatedTrace::new("t", exported(vec![event(4, &["a"], &[])]));
    trace.matched_objects(&PatchLocations::InsertAt(
        1,
        TraceAction::ObjectApplied,
        deployment_type(),
        Box::new(meta("new")),
    ));
    trace.validate(&checks(vec![(1, NameCheck::new("new", None))])).unwrap();
    assert!(codes_at(&trace, 0).is_empty());
    assert_eq!(codes_at(&trace, 1), vec![(0, vec![1])]);
}
