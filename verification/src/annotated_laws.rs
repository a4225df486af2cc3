//! What holds of annotated traces across the operations on them.

use vstd::prelude::*;

use crate::annotated_trace::{
    all_locations, bare_object, counted, event_checked, failure_of, findings, found_or_created,
    is_referred, last_at_or_before, lemma_last_at_or_before, locations_of, next_event_ts, total,
    validation_ran, AnnotatedTrace, AnnotatedTraceEvent, AnnotatedTraceEventView, AnnotatedTraceView,
    Annotation, ObjectLocation,
};
use crate::config::TracerConfig;
use crate::event::{TraceAction, TraceEvent, TraceEventView};
use crate::k8s::{law_namespaces_are_told_apart, DynamicObjectView, ObjectMetaView, TypeMetaView};
use crate::trace::walk;
use crate::validator::{responds, EventPatches, Validator, ValidatorCode};

verus! {

/// The events are in the order of their times.
pub open spec fn in_order(events: Seq<AnnotatedTraceEventView>) -> bool {
    forall|i: int, j: int| 0 <= i <= j < events.len() ==> events[i].data.ts <= events[j].data.ts
}

/// The event that is found or created at a time is at that time, and events in order stay in order.
/// No event is lost or moved past another: what was created is the only difference.
pub proof fn law_event_is_found_or_created_in_order(
    events: Seq<AnnotatedTraceEventView>,
    ts: i64,
)
    requires
        in_order(events),
    ensures
        ({
            let (after, i) = found_or_created(events, ts);
            &&& 0 <= i < after.len()
            &&& after[i].data.ts == ts
            &&& in_order(after)
            &&& after == events || (after.remove(i) == events && after[i]
                == AnnotatedTraceEventView::unannotated(TraceEventView::empty_at(ts)))
        }),
{
    lemma_last_at_or_before(events, ts);
    let (after, i) = found_or_created(events, ts);
    if last_at_or_before(events, ts) is None {
        assert(after.remove(i) =~= events);
        assert forall|j: int, k: int| 0 <= j <= k < after.len() implies after[j].data.ts
            <= after[k].data.ts by {
            if j > 0 {
                assert(events[j - 1].data.ts <= events[k - 1].data.ts);
            }
        }
    } else {
        let at = last_at_or_before(events, ts)->0;
        if events[at].data.ts < ts {
            assert(after.remove(i) =~= events);
            assert forall|j: int, k: int| 0 <= j <= k < after.len() implies after[j].data.ts
                <= after[k].data.ts by {
                let j0 = if j <= at {
                    j
                } else {
                    j - 1
                };
                let k0 = if k <= at {
                    k
                } else {
                    k - 1
                };
                if j != i {
                    assert(after[j] == events[j0]);
                    if j <= at {
                        assert(events[j].data.ts <= events[at].data.ts);
                    }
                }
                if k != i {
                    assert(after[k] == events[k0]);
                }
                if j != i && k != i {
                    assert(events[j0].data.ts <= events[k0].data.ts);
                }
            }
        }
    }
}

/// An event that was found or created at a time is found there again, and nothing is created.
pub proof fn law_created_event_is_found_again(events: Seq<AnnotatedTraceEventView>, ts: i64)
    ensures
        found_or_created(found_or_created(events, ts).0, ts) == found_or_created(events, ts),
{
    lemma_last_at_or_before(events, ts);
    let (after, i) = found_or_created(events, ts);
    lemma_last_at_or_before(after, ts);
    if after.len() == events.len() + 1 {
        assert(after[i].data.ts == ts);
        assert forall|k: int| i < k < after.len() implies ts < (#[trigger] after[k]).data.ts by {
            assert(after[k] == events[k - 1]);
        }
    }
    assert(last_at_or_before(after, ts) == Some(i));
}

/// An object that is inserted so many seconds after the start, or before it, is in an event at that
/// time, and stands where it is said to.
pub proof fn law_inserted_object_is_at_its_time(
    trace: AnnotatedTraceView,
    relative_ts: i64,
    action: TraceAction,
    object: DynamicObjectView,
)
    requires
        i64::MIN <= trace.ts_after_start(relative_ts) <= i64::MAX,
        trace.events.len() < usize::MAX,
        forall|k: int| 0 <= k < trace.events.len() ==> (#[trigger] trace.events[k]).count(action)
            < usize::MAX,
    ensures
        ({
            let ts = trace.ts_after_start(relative_ts) as i64;
            let after = trace.with_object_at(ts, action, object);
            let place = trace.place_of_object_at(ts, action);
            &&& place.within(after.events)
            &&& place.object(after.events) == object
            &&& after.events[place.event as int].data.ts == ts
            &&& place.action == action
        }),
{
    let ts = trace.ts_after_start(relative_ts) as i64;
    lemma_last_at_or_before(trace.events, ts);
    let (events, i) = found_or_created(trace.events, ts);
    assert(events[i].count(action) < usize::MAX) by {
        match last_at_or_before(trace.events, ts) {
            Some(at) => {
                if trace.events[at].data.ts >= ts {
                    assert(events[i] == trace.events[i]);
                }
            },
            None => {},
        }
    }
}

/// Every object of every event is listed, once.
pub proof fn law_every_object_is_listed_once(events: Seq<AnnotatedTraceEventView>)
    requires
        events.len() <= usize::MAX,
        forall|k: int|
            0 <= k < events.len() ==> (#[trigger] events[k]).data.applied_objs.len() <= usize::MAX
                && events[k].data.deleted_objs.len() <= usize::MAX,
    ensures
        all_locations(events).no_duplicates(),
        forall|location: ObjectLocation| #[trigger]
            all_locations(events).contains(location) <==> location.within(events),
    decreases events.len(),
{
    let all = all_locations(events);
    if events.len() > 0 {
        let rest = events.drop_last();
        let last = events.last();
        let n = events.len() - 1;
        let head = all_locations(rest);
        let applied = locations_of(last, n, TraceAction::ObjectApplied);
        let deleted = locations_of(last, n, TraceAction::ObjectDeleted);
        assert(last == events[n]);
        assert forall|k: int| 0 <= k < rest.len() implies (
        #[trigger] rest[k]).data.applied_objs.len() <= usize::MAX && rest[k].data.deleted_objs.len()
            <= usize::MAX by {
            assert(rest[k] == events[k]);
        }
        law_every_object_is_listed_once(rest);
        assert(all == head + applied + deleted);
        assert forall|i: int| 0 <= i < head.len() implies (#[trigger] head[i]).event < n by {
            assert(head.contains(head[i]));
        }
        assert forall|i: int, j: int| 0 <= i < all.len() && 0 <= j < all.len() && i != j implies all[i]
            != all[j] by {
            lemma_listed(head, applied, deleted, i);
            lemma_listed(head, applied, deleted, j);
        }
        assert forall|location: ObjectLocation| #[trigger]
            all.contains(location) <==> location.within(events) by {
            assert(head.contains(location) <==> location.within(rest));
            if location.event < n {
                assert(rest[location.event as int] == events[location.event as int]);
            }
            if all.contains(location) {
                let i = choose|i: int| 0 <= i < all.len() && all[i] == location;
                lemma_listed(head, applied, deleted, i);
                if i < head.len() {
                    assert(head.contains(location));
                }
            }
            if location.within(events) {
                let i = if location.event < n {
                    assert(head.contains(location));
                    choose|i: int| 0 <= i < head.len() && head[i] == location
                } else {
                    match location.action {
                        TraceAction::ObjectApplied => head.len() + location.index,
                        TraceAction::ObjectDeleted => head.len() + applied.len() + location.index,
                    }
                };
                lemma_listed(head, applied, deleted, i);
                assert(all[i] == location);
            }
        }
    } else {
        assert(all =~= Seq::empty());
    }
}

proof fn lemma_listed(
    head: Seq<ObjectLocation>,
    applied: Seq<ObjectLocation>,
    deleted: Seq<ObjectLocation>,
    i: int,
)
    requires
        0 <= i < head.len() + applied.len() + deleted.len(),
    ensures
        (head + applied + deleted)[i] == if i < head.len() {
            head[i]
        } else if i < head.len() + applied.len() {
            applied[i - head.len()]
        } else {
            deleted[i - head.len() - applied.len()]
        },
{
}

/// The objects of all events: event by event, as they are counted there.
pub open spec fn all_objects(events: Seq<AnnotatedTraceEventView>) -> Seq<DynamicObjectView>
    decreases events.len(),
{
    if events.len() == 0 {
        Seq::empty()
    } else {
        all_objects(events.drop_last()) + events.last().data.objects()
    }
}

/// The places of the objects are listed in the order in which the objects are counted.
pub proof fn law_objects_are_listed_as_counted(events: Seq<AnnotatedTraceEventView>)
    requires
        events.len() <= usize::MAX,
        forall|k: int|
            0 <= k < events.len() ==> (#[trigger] events[k]).data.applied_objs.len() <= usize::MAX
                && events[k].data.deleted_objs.len() <= usize::MAX,
    ensures
        all_locations(events).map_values(|location: ObjectLocation| location.object(events))
            == all_objects(events),
    decreases events.len(),
{
    let all = all_locations(events);
    let objects = all.map_values(|location: ObjectLocation| location.object(events));
    if events.len() > 0 {
        let rest = events.drop_last();
        let last = events.last();
        let n = events.len() - 1;
        let head = all_locations(rest);
        let applied = locations_of(last, n, TraceAction::ObjectApplied);
        let deleted = locations_of(last, n, TraceAction::ObjectDeleted);
        assert(last == events[n]);
        assert forall|k: int| 0 <= k < rest.len() implies (
        #[trigger] rest[k]).data.applied_objs.len() <= usize::MAX && rest[k].data.deleted_objs.len()
            <= usize::MAX by {
            assert(rest[k] == events[k]);
        }
        law_objects_are_listed_as_counted(rest);
        law_every_object_is_listed_once(rest);
        assert(all == head + applied + deleted);
        assert(head.map_values(|location: ObjectLocation| location.object(rest)).len() == head.len());
        assert forall|i: int| 0 <= i < objects.len() implies objects[i] == all_objects(events)[i] by {
            lemma_listed(head, applied, deleted, i);
            if i < head.len() {
                assert(head.contains(head[i]));
                assert(head.map_values(|location: ObjectLocation| location.object(rest))[i]
                    == head[i].object(rest));
                assert(rest[head[i].event as int] == events[head[i].event as int]);
            }
        }
        assert(objects =~= all_objects(events));
    } else {
        assert(objects =~= all_objects(events));
    }
}

/// After checks with the given answers, there are findings on exactly the objects that some check
/// found fault with; on each, exactly those checks' findings, in the order of the codes.
pub proof fn law_findings_are_what_was_answered(
    codes: Seq<ValidatorCode>,
    answers: Seq<EventPatches>,
)
    requires
        answers.len() <= codes.len(),
        forall|i: int, j: int| 0 <= i < j < codes.len() ==> codes[i] < codes[j],
    ensures
        forall|i: usize| #[trigger]
            findings(codes, answers).contains_key(i) <==> exists|j: int|
                0 <= j < answers.len() && (#[trigger] answers[j])@.contains_key(i),
        forall|i: usize, annotation: Annotation|
            findings(codes, answers).contains_key(i) ==> (#[trigger] findings(
                codes,
                answers,
            )[i].contains(annotation) <==> exists|j: int|
                0 <= j < answers.len() && (#[trigger] answers[j])@.contains_key(i) && annotation
                    == (Annotation { code: codes[j], patches: answers[j]@[i] })),
        forall|i: usize, a: int, b: int|
            findings(codes, answers).contains_key(i) && 0 <= a < b < findings(codes, answers)[i].len()
                ==> #[trigger] findings(codes, answers)[i][a].code < #[trigger] findings(
                codes,
                answers,
            )[i][b].code,
{
    let found = findings(codes, answers);
    assert forall|i: usize| #[trigger]
        found.contains_key(i) <==> exists|j: int|
            0 <= j < answers.len() && (#[trigger] answers[j])@.contains_key(i) by {
        lemma_findings_on_object(codes, answers, i);
    }
    assert forall|i: usize, annotation: Annotation| found.contains_key(i) implies (
    #[trigger] found[i].contains(annotation) <==> exists|j: int|
        0 <= j < answers.len() && (#[trigger] answers[j])@.contains_key(i) && annotation == (
        Annotation { code: codes[j], patches: answers[j]@[i] })) by {
        lemma_findings_on_object(codes, answers, i);
    }
    assert forall|i: usize, a: int, b: int|
        found.contains_key(i) && 0 <= a < b < found[i].len() implies #[trigger] found[i][a].code
        < #[trigger] found[i][b].code by {
        lemma_findings_on_object(codes, answers, i);
    }
}

/// The check found fault with the object, and this is its finding.
spec fn is_finding(
    codes: Seq<ValidatorCode>,
    answers: Seq<EventPatches>,
    i: usize,
    annotation: Annotation,
    j: int,
) -> bool {
    &&& 0 <= j < answers.len()
    &&& answers[j]@.contains_key(i)
    &&& annotation == Annotation { code: codes[j], patches: answers[j]@[i] }
}

proof fn lemma_findings_on_object(
    codes: Seq<ValidatorCode>,
    answers: Seq<EventPatches>,
    i: usize,
)
    requires
        answers.len() <= codes.len(),
        forall|i: int, j: int| 0 <= i < j < codes.len() ==> codes[i] < codes[j],
    ensures
        findings(codes, answers).contains_key(i) <==> exists|j: int|
            0 <= j < answers.len() && (#[trigger] answers[j])@.contains_key(i),
        findings(codes, answers).contains_key(i) ==> {
            let list = findings(codes, answers)[i];
            &&& forall|annotation: Annotation|
                list.contains(annotation) ==> exists|j: int|
                    is_finding(codes, answers, i, annotation, j)
            &&& forall|j: int|
                0 <= j < answers.len() && (#[trigger] answers[j])@.contains_key(i) ==> list.contains(
                    Annotation { code: codes[j], patches: answers[j]@[i] },
                )
            &&& forall|a: int, b: int| 0 <= a < b < list.len() ==> list[a].code < list[b].code
        },
    decreases answers.len(),
{
    if answers.len() > 0 {
        let n = answers.len() - 1;
        let rest = answers.drop_last();
        let before = findings(codes, rest);
        let after = findings(codes, answers);
        lemma_findings_on_object(codes, rest, i);
        assert forall|j: int| 0 <= j < n implies rest[j] == #[trigger] answers[j] by {}
        if before.contains_key(i) {
            let j = choose|j: int| 0 <= j < rest.len() && (#[trigger] rest[j])@.contains_key(i);
            assert(answers[j]@.contains_key(i));
        }
        if after.contains_key(i) {
            let list = after[i];
            let earlier = if before.contains_key(i) {
                before[i]
            } else {
                Seq::empty()
            };
            let last = answers[n]@;
            let newest = Annotation { code: codes[n], patches: last[i] };
            if last.contains_key(i) {
                assert(list == earlier.push(newest));
                assert(list[earlier.len() as int] == newest);
            } else {
                assert(list == earlier);
            }
            assert forall|annotation: Annotation| list.contains(annotation) implies exists|j: int|
                is_finding(codes, answers, i, annotation, j) by {
                let a = choose|a: int| 0 <= a < list.len() && list[a] == annotation;
                if a < earlier.len() {
                    assert(earlier.contains(earlier[a]));
                    let j = choose|j: int| is_finding(codes, rest, i, annotation, j);
                    assert(is_finding(codes, answers, i, annotation, j));
                } else {
                    assert(is_finding(codes, answers, i, annotation, n));
                }
            }
            assert forall|j: int|
                0 <= j < answers.len() && (#[trigger] answers[j])@.contains_key(i) implies list.contains(
                Annotation { code: codes[j], patches: answers[j]@[i] },
            ) by {
                if j < n {
                    let annotation = Annotation { code: codes[j], patches: rest[j]@[i] };
                    assert(rest[j]@.contains_key(i));
                    assert(earlier.contains(annotation));
                    let a = choose|a: int| 0 <= a < earlier.len() && earlier[a] == annotation;
                    assert(list[a] == annotation);
                }
            }
            assert forall|a: int, b: int| 0 <= a < b < list.len() implies list[a].code
                < list[b].code by {
                if b == earlier.len() {
                    assert(earlier.contains(earlier[a]));
                    let j = choose|j: int| is_finding(codes, rest, i, earlier[a], j);
                    assert(codes[j] < codes[n]);
                }
            }
        } else {
            assert forall|j: int| 0 <= j < answers.len() implies !(
            #[trigger] answers[j])@.contains_key(i) by {
                if j < n {
                    assert(!rest[j]@.contains_key(i));
                }
            }
        }
        if answers[n]@.contains_key(i) {
            assert(after.contains_key(i));
        }
    }
}

/// Where there is no event, or no check, validation does not fail.
pub proof fn law_nothing_to_check_does_not_fail<V: Validator>(
    validators: Map<ValidatorCode, V>,
    codes: Seq<ValidatorCode>,
    config: TracerConfig,
    before: Seq<AnnotatedTraceEvent>,
    after: Seq<AnnotatedTraceEvent>,
    log: Seq<Seq<EventPatches>>,
    failure: Option<V::Error>,
)
    requires
        validation_ran(validators, codes, config, before, after, log, failure),
        before.len() == 0 || validators.dom() == Set::<ValidatorCode>::empty(),
    ensures
        failure is None,
{
    if before.len() > 0 {
        if codes.len() > 0 {
            assert(codes.contains(codes[0]));
            assert(validators.contains_key(codes[0]));
            assert(!Set::<ValidatorCode>::empty().contains(codes[0]));
        }
        assert(codes.len() == 0);
    }
}

/// The contents of an annotated event are its event and its findings, object by object.
pub proof fn law_annotated_event_is_its_fields(event: AnnotatedTraceEvent, object: usize)
    ensures
        event@.data == event.data@,
        event@.annotations.contains_key(object) <==> event.annotations@.contains_key(object),
        event.annotations@.contains_key(object) ==> event@.annotations[object]
            == event.annotations@[object]@,
        event.deep_view() == event@,
{
}

/// The contents of an annotated trace are those of its parts, each event where it stands.
pub proof fn law_annotated_trace_is_its_parts(trace: AnnotatedTrace)
    ensures
        trace@.path == trace.source(),
        trace@.base == trace.read()@,
        trace@.patches == trace.changes(),
        trace@.events.len() == trace.annotated().len(),
        forall|i: int|
            0 <= i < trace.annotated().len() ==> #[trigger] trace@.events[i] == trace.annotated()[i]@,
{
}

/// An event without a finding is the event, and has no finding on any object.
pub proof fn law_unannotated_event_has_no_finding(data: TraceEventView, object: usize)
    ensures
        AnnotatedTraceEventView::unannotated(data).data == data,
        !AnnotatedTraceEventView::unannotated(data).annotations.contains_key(object),
{
}

/// The event at a time is the last one that is not after the time, if that one is at the time, and then
/// nothing changes. Otherwise an event without objects is created between that one and the later ones,
/// or before all events if all are later.
pub proof fn law_event_is_created_only_where_none_is(events: Seq<AnnotatedTraceEventView>, ts: i64)
    ensures
        ({
            let (after, i) = found_or_created(events, ts);
            ||| {
                &&& after == events
                &&& 0 <= i < events.len()
                &&& events[i].data.ts == ts
                &&& forall|k: int| i < k < events.len() ==> ts < (#[trigger] events[k]).data.ts
            }
            ||| {
                &&& 0 <= i <= events.len()
                &&& i > 0 ==> events[i - 1].data.ts < ts
                &&& forall|k: int| i <= k < events.len() ==> ts < (#[trigger] events[k]).data.ts
                &&& after.len() == events.len() + 1
                &&& forall|k: int| 0 <= k < i ==> #[trigger] after[k] == events[k]
                &&& forall|k: int| i < k < after.len() ==> #[trigger] after[k] == events[k - 1]
                &&& after[i].data.ts == ts
                &&& after[i].data.applied_objs.len() == 0
                &&& after[i].data.deleted_objs.len() == 0
                &&& forall|object: usize| !#[trigger] after[i].annotations.contains_key(object)
            }
        }),
{
    lemma_last_at_or_before(events, ts);
}

/// The time of an insertion is counted from the first event, with all changes; from zero, if there is no
/// event. What the trace held when it was read has no say in it.
pub proof fn law_insertion_is_counted_from_the_first_event(
    trace: AnnotatedTraceView,
    relative_ts: i64,
)
    ensures
        trace.events.len() > 0 ==> trace.start_ts() == Some(trace.events[0].data.ts),
        trace.events.len() == 0 ==> trace.start_ts() is None,
        trace.events.len() > 0 ==> trace.ts_after_start(relative_ts) == trace.events[0].data.ts
            + relative_ts,
        trace.events.len() == 0 ==> trace.ts_after_start(relative_ts) == relative_ts,
{
}

/// What [`AnnotatedTrace::matched_objects`] states of an insertion puts the bare object into an event
/// that lies `relative_ts` after the first event, or at `relative_ts` in a trace without events, behind
/// the objects of its kind there, and gives its place. That event was the last one not after the time,
/// or is new.
pub proof fn law_insertion_puts_the_object_at_its_time(
    trace: AnnotatedTraceView,
    relative_ts: i64,
    action: TraceAction,
    types: TypeMetaView,
    metadata: ObjectMetaView,
)
    requires
        i64::MIN <= trace.ts_after_start(relative_ts) <= i64::MAX,
        trace.events.len() < usize::MAX,
        forall|k: int| 0 <= k < trace.events.len() ==> (#[trigger] trace.events[k]).count(action)
            < usize::MAX,
    ensures
        ({
            let ts = trace.ts_after_start(relative_ts) as i64;
            let after = trace.with_object_at(ts, action, bare_object(types, metadata));
            let place = trace.place_of_object_at(ts, action);
            let event = after.events[place.event as int].data;
            let list = match action {
                TraceAction::ObjectApplied => event.applied_objs,
                TraceAction::ObjectDeleted => event.deleted_objs,
            };
            &&& place.event < after.events.len()
            &&& place.action == action
            &&& place.index == list.len() - 1
            &&& list.last().types == Some(types)
            &&& list.last().metadata == metadata
            &&& list.last().data == "{}"@
            &&& event.ts == relative_ts + (if trace.events.len() > 0 {
                trace.events[0].data.ts as int
            } else {
                0
            })
        }),
{
    reveal_strlit("{}");
    assert(bare_object(types, metadata).data =~= "{}"@);
    law_inserted_object_is_at_its_time(trace, relative_ts, action, bare_object(types, metadata));
    let ts = trace.ts_after_start(relative_ts) as i64;
    lemma_last_at_or_before(trace.events, ts);
    let (events, i) = found_or_created(trace.events, ts);
    assert(events[i].count(action) < usize::MAX) by {
        match last_at_or_before(trace.events, ts) {
            Some(at) => {
                if trace.events[at].data.ts >= ts {
                    assert(events[i] == trace.events[i]);
                }
            },
            None => {},
        }
    }
}

/// An insertion adds one object to one event, that at its time, and leaves all else alone.
pub proof fn law_insertion_leaves_the_rest_alone(
    trace: AnnotatedTraceView,
    ts: i64,
    action: TraceAction,
    object: DynamicObjectView,
)
    ensures
        ({
            let (found, i) = found_or_created(trace.events, ts);
            let after = trace.with_object_at(ts, action, object);
            &&& after.path == trace.path
            &&& after.base == trace.base
            &&& after.patches == trace.patches
            &&& after.events.len() == found.len()
            &&& forall|k: int| 0 <= k < found.len() && k != i ==> #[trigger] after.events[k] == found[k]
            &&& after.events[i].annotations == found[i].annotations
            &&& after.events[i].data.ts == found[i].data.ts
            &&& after.events[i].data.applied_objs == match action {
                TraceAction::ObjectApplied => found[i].data.applied_objs.push(object),
                TraceAction::ObjectDeleted => found[i].data.applied_objs,
            }
            &&& after.events[i].data.deleted_objs == match action {
                TraceAction::ObjectApplied => found[i].data.deleted_objs,
                TraceAction::ObjectDeleted => found[i].data.deleted_objs.push(object),
            }
        }),
{
    lemma_last_at_or_before(trace.events, ts);
}

/// A place in a list of events is that of an applied or of a deleted object of an event, and holds it.
pub proof fn law_place_is_by_event_kind_and_index(
    events: Seq<AnnotatedTraceEventView>,
    place: ObjectLocation,
)
    ensures
        place.action is ObjectApplied ==> {
            &&& place.within(events) <==> place.event < events.len() && place.index
                < events[place.event as int].data.applied_objs.len()
            &&& place.object(events)
                == events[place.event as int].data.applied_objs[place.index as int]
        },
        place.action is ObjectDeleted ==> {
            &&& place.within(events) <==> place.event < events.len() && place.index
                < events[place.event as int].data.deleted_objs.len()
            &&& place.object(events)
                == events[place.event as int].data.deleted_objs[place.index as int]
        },
{
}

/// Changing the object at a place changes that object, and leaves all else alone.
pub proof fn law_change_leaves_the_rest_alone(
    trace: AnnotatedTraceView,
    place: ObjectLocation,
    object: DynamicObjectView,
)
    requires
        place.within(trace.events),
    ensures
        ({
            let after = trace.with_object_replaced(place, object);
            let i = place.event as int;
            let k = place.index as int;
            &&& after.path == trace.path
            &&& after.base == trace.base
            &&& after.patches == trace.patches
            &&& after.events.len() == trace.events.len()
            &&& forall|j: int|
                0 <= j < trace.events.len() && j != i ==> #[trigger] after.events[j]
                    == trace.events[j]
            &&& after.events[i].annotations == trace.events[i].annotations
            &&& after.events[i].data.ts == trace.events[i].data.ts
            &&& after.events[i].data.applied_objs == match place.action {
                TraceAction::ObjectApplied => trace.events[i].data.applied_objs.update(k, object),
                TraceAction::ObjectDeleted => trace.events[i].data.applied_objs,
            }
            &&& after.events[i].data.deleted_objs == match place.action {
                TraceAction::ObjectApplied => trace.events[i].data.deleted_objs,
                TraceAction::ObjectDeleted => trace.events[i].data.deleted_objs.update(k, object),
            }
        }),
{
}

/// The place `a` comes before the place `b`: in an earlier event; in the same event as an applied before
/// a deleted object; or as an object of the same kind with a lower index.
pub open spec fn comes_before(a: ObjectLocation, b: ObjectLocation) -> bool {
    ||| a.event < b.event
    ||| a.event == b.event && a.action is ObjectApplied && b.action is ObjectDeleted
    ||| a.event == b.event && a.action == b.action && a.index < b.index
}

/// The places of all objects are listed in their order: event by event, the applied ones before the
/// deleted ones.
pub proof fn law_places_are_listed_in_order(events: Seq<AnnotatedTraceEventView>)
    requires
        events.len() <= usize::MAX,
        forall|k: int|
            0 <= k < events.len() ==> (#[trigger] events[k]).data.applied_objs.len() <= usize::MAX
                && events[k].data.deleted_objs.len() <= usize::MAX,
    ensures
        forall|a: int, b: int|
            0 <= a < b < all_locations(events).len() ==> comes_before(
                #[trigger] all_locations(events)[a],
                #[trigger] all_locations(events)[b],
            ),
    decreases events.len(),
{
    let all = all_locations(events);
    if events.len() > 0 {
        let rest = events.drop_last();
        let last = events.last();
        let n = events.len() - 1;
        let head = all_locations(rest);
        let applied = locations_of(last, n, TraceAction::ObjectApplied);
        let deleted = locations_of(last, n, TraceAction::ObjectDeleted);
        assert(last == events[n]);
        assert forall|k: int| 0 <= k < rest.len() implies (
        #[trigger] rest[k]).data.applied_objs.len() <= usize::MAX && rest[k].data.deleted_objs.len()
            <= usize::MAX by {
            assert(rest[k] == events[k]);
        }
        law_places_are_listed_in_order(rest);
        law_every_object_is_listed_once(rest);
        assert(all == head + applied + deleted);
        assert forall|i: int| 0 <= i < head.len() implies (#[trigger] head[i]).event < n by {
            assert(head.contains(head[i]));
        }
        assert forall|a: int, b: int| 0 <= a < b < all.len() implies comes_before(
            #[trigger] all[a],
            #[trigger] all[b],
        ) by {
            lemma_listed(head, applied, deleted, a);
            lemma_listed(head, applied, deleted, b);
            if b < head.len() {
                assert(comes_before(head[a], head[b]));
            }
        }
    }
}

/// A reference matches an object if and only if the object declares that type and the reference is its
/// namespace, a slash and its name; or its name alone, if it has no namespace.
pub proof fn law_reference_names_type_namespace_and_name(
    object: DynamicObjectView,
    type_: TypeMetaView,
    ns_name: Seq<char>,
)
    ensures
        is_referred(object, type_, ns_name) <==> {
            let name = match object.metadata.name {
                Some(name) => name,
                None => match object.metadata.generate_name {
                    Some(prefix) => prefix,
                    None => Seq::empty(),
                },
            };
            &&& object.types == Some(type_)
            &&& match object.metadata.namespace {
                Some(namespace) => ns_name == namespace + seq!['/'] + name,
                None => ns_name == name,
            }
        },
{
}

/// Two objects in namespaces that go by the same name and are matched by the same reference are in the
/// same namespace, and of the same type.
pub proof fn law_reference_tells_namespaces_apart(
    a: DynamicObjectView,
    b: DynamicObjectView,
    type_: TypeMetaView,
    ns_name: Seq<char>,
)
    requires
        is_referred(a, type_, ns_name),
        is_referred(b, type_, ns_name),
        a.metadata.namespace is Some,
        b.metadata.namespace is Some,
        a.metadata.name_any() == b.metadata.name_any(),
    ensures
        a.metadata.namespace == b.metadata.namespace,
        a.types == b.types,
{
    law_namespaces_are_told_apart(a.metadata, b.metadata);
}

/// The places that [`AnnotatedTrace::matched_objects`] states for a reference are exactly those of the
/// objects that declare the type and have the namespaced name, each once and in the order of all places.
pub proof fn law_reference_matches_every_such_object(
    events: Seq<AnnotatedTraceEventView>,
    type_: TypeMetaView,
    ns_name: Seq<char>,
)
    requires
        events.len() <= usize::MAX,
        forall|k: int|
            0 <= k < events.len() ==> (#[trigger] events[k]).data.applied_objs.len() <= usize::MAX
                && events[k].data.deleted_objs.len() <= usize::MAX,
    ensures
        ({
            let matched = all_locations(events).filter(
                |location: ObjectLocation| is_referred(location.object(events), type_, ns_name),
            );
            &&& forall|place: ObjectLocation| #[trigger]
                matched.contains(place) <==> {
                    &&& place.within(events)
                    &&& place.object(events).types == Some(type_)
                    &&& place.object(events).metadata.namespaced_name() == ns_name
                }
            &&& forall|a: int, b: int|
                0 <= a < b < matched.len() ==> comes_before(
                    #[trigger] matched[a],
                    #[trigger] matched[b],
                )
        }),
{
    let all = all_locations(events);
    let pred = |location: ObjectLocation| is_referred(location.object(events), type_, ns_name);
    law_every_object_is_listed_once(events);
    law_places_are_listed_in_order(events);
    lemma_filter_in_order(all, pred);
    assert forall|place: ObjectLocation| #[trigger] all.filter(pred).contains(place) <==> all.contains(
        place,
    ) && pred(place) by {}
}

/// What is filtered out of places in order is in order, and is what is to be filtered out.
proof fn lemma_filter_in_order(all: Seq<ObjectLocation>, pred: spec_fn(ObjectLocation) -> bool)
    requires
        forall|a: int, b: int|
            0 <= a < b < all.len() ==> comes_before(#[trigger] all[a], #[trigger] all[b]),
    ensures
        forall|place: ObjectLocation| #[trigger]
            all.filter(pred).contains(place) <==> all.contains(place) && pred(place),
        forall|a: int, b: int|
            0 <= a < b < all.filter(pred).len() ==> comes_before(
                #[trigger] all.filter(pred)[a],
                #[trigger] all.filter(pred)[b],
            ),
    decreases all.len(),
{
    reveal(Seq::filter);
    let out = all.filter(pred);
    if all.len() > 0 {
        let rest = all.drop_last();
        let last = all.last();
        assert forall|a: int, b: int| 0 <= a < b < rest.len() implies comes_before(
            #[trigger] rest[a],
            #[trigger] rest[b],
        ) by {
            assert(comes_before(all[a], all[b]));
        }
        lemma_filter_in_order(rest, pred);
        let kept = rest.filter(pred);
        assert(out == if pred(last) {
            kept.push(last)
        } else {
            kept
        });
        assert forall|place: ObjectLocation| #[trigger] out.contains(place) <==> all.contains(place)
            && pred(place) by {
            assert(kept.contains(place) <==> rest.contains(place) && pred(place));
            if out.contains(place) {
                let a = choose|a: int| 0 <= a < out.len() && out[a] == place;
                if a < kept.len() {
                    assert(kept[a] == place);
                    let b = choose|b: int| 0 <= b < rest.len() && rest[b] == place;
                    assert(all[b] == place);
                } else {
                    assert(all[all.len() - 1] == place);
                }
            }
            if all.contains(place) && pred(place) {
                let b = choose|b: int| 0 <= b < all.len() && all[b] == place;
                if b < rest.len() {
                    assert(rest[b] == place);
                    let a = choose|a: int| 0 <= a < kept.len() && kept[a] == place;
                    assert(out[a] == place);
                } else {
                    assert(out[kept.len() as int] == place);
                }
            }
        }
        assert forall|a: int, b: int| 0 <= a < b < out.len() implies comes_before(
            #[trigger] out[a],
            #[trigger] out[b],
        ) by {
            if b < kept.len() {
                assert(comes_before(kept[a], kept[b]));
            } else {
                assert(kept.contains(kept[a]));
                let k = choose|k: int| 0 <= k < rest.len() && rest[k] == kept[a];
                assert(comes_before(all[k], all[all.len() - 1]));
            }
        }
    }
}

/// A validation shows each event to the checks with the time of the event behind it, whatever objects
/// the events hold, and only the last event without a time: the pairs are those that a walk over the
/// same events gives. Each check gets its own answer noted, and is shown the configuration.
pub proof fn law_validation_shows_what_a_walk_gives<V: Validator>(
    validators: Map<ValidatorCode, V>,
    codes: Seq<ValidatorCode>,
    config: TracerConfig,
    before: Seq<AnnotatedTraceEvent>,
    after: Seq<AnnotatedTraceEvent>,
    log: Seq<Seq<EventPatches>>,
    failure: Option<V::Error>,
)
    requires
        validation_ran(validators, codes, config, before, after, log, failure),
    ensures
        forall|i: int, j: int|
            #![trigger log[i][j]]
            0 <= i < log.len() && 0 <= j < log[i].len() ==> {
                &&& i < before.len()
                &&& j < codes.len()
                &&& call_ensures(
                    V::check_next_event,
                    (
                        &validators[codes[j]],
                        (
                            &before[i].data,
                            if i < before.len() - 1 {
                                Some(before[i + 1].data.ts)
                            } else {
                                None
                            },
                        ),
                        &config,
                    ),
                    Ok::<EventPatches, V::Error>(log[i][j]),
                )
                &&& call_ensures(
                    V::check_next_event,
                    (
                        &validators[codes[j]],
                        (
                            &walk(events_of(before))[i].0,
                            walk(events_of(before))[i].1,
                        ),
                        &config,
                    ),
                    Ok::<EventPatches, V::Error>(log[i][j]),
                )
            },
{
    assert forall|i: int, j: int|
        #![trigger log[i][j]]
        0 <= i < log.len() && 0 <= j < log[i].len() implies responds(
        validators[codes[j]],
        before[i].data,
        if i < before.len() - 1 {
            Some(before[i + 1].data.ts)
        } else {
            None
        },
        config,
        Ok(log[i][j]),
    ) && responds(
        validators[codes[j]],
        walk(events_of(before))[i].0,
        walk(events_of(before))[i].1,
        config,
        Ok(log[i][j]),
    ) by {
        assert(event_checked(
            validators,
            codes,
            config,
            before[i].data,
            next_event_ts(before, i),
            log[i],
        ));
        assert(events_of(before)[i] == before[i].data);
    }
}

/// The events without the findings on them.
pub open spec fn events_of(events: Seq<AnnotatedTraceEvent>) -> Seq<TraceEvent> {
    Seq::new(events.len(), |i: int| events[i].data)
}

/// A validation that does not fail shows every event to every check. One that fails got as far as the
/// event that the failing check was shown, with the time of the event behind it, and every check before
/// it had answered on every event so far.
pub proof fn law_validation_ends_at_the_first_failure<V: Validator>(
    validators: Map<ValidatorCode, V>,
    codes: Seq<ValidatorCode>,
    config: TracerConfig,
    before: Seq<AnnotatedTraceEvent>,
    after: Seq<AnnotatedTraceEvent>,
    log: Seq<Seq<EventPatches>>,
    failure: Option<V::Error>,
)
    requires
        validation_ran(validators, codes, config, before, after, log, failure),
    ensures
        forall|a: int, b: int| 0 <= a < b < codes.len() ==> codes[a] < codes[b],
        forall|code: ValidatorCode| #[trigger]
            validators.contains_key(code) <==> codes.contains(code),
        failure is None ==> {
            &&& log.len() == before.len()
            &&& forall|i: int| 0 <= i < before.len() ==> (#[trigger] log[i]).len() == codes.len()
        },
        failure matches Some(err) ==> {
            let i = log.len() - 1;
            let j = log.last().len() as int;
            &&& 0 <= i < before.len()
            &&& 0 <= j < codes.len()
            &&& forall|k: int| 0 <= k < i ==> (#[trigger] log[k]).len() == codes.len()
            &&& call_ensures(
                V::check_next_event,
                (
                    &validators[codes[j]],
                    (
                        &before[i].data,
                        if i < before.len() - 1 {
                            Some(before[i + 1].data.ts)
                        } else {
                            None
                        },
                    ),
                    &config,
                ),
                Err::<EventPatches, V::Error>(err),
            )
        },
{
}

/// A validation changes no event but for the findings on it. On each event that was shown there are
/// exactly the findings of the checks that answered, and nothing that stood there before; the others are
/// as they were.
pub proof fn law_validation_notes_what_was_answered<V: Validator>(
    validators: Map<ValidatorCode, V>,
    codes: Seq<ValidatorCode>,
    config: TracerConfig,
    before: Seq<AnnotatedTraceEvent>,
    after: Seq<AnnotatedTraceEvent>,
    log: Seq<Seq<EventPatches>>,
    failure: Option<V::Error>,
)
    requires
        validation_ran(validators, codes, config, before, after, log, failure),
    ensures
        after.len() == before.len(),
        forall|i: int| 0 <= i < before.len() ==> (#[trigger] after[i]).data == before[i].data,
        forall|i: int|
            log.len() <= i < before.len() ==> (#[trigger] after[i])@.annotations
                == before[i]@.annotations,
        forall|i: int, object: usize|
            0 <= i < log.len() ==> (#[trigger] after[i]@.annotations.contains_key(object)
                <==> exists|j: int|
                0 <= j < log[i].len() && (#[trigger] log[i][j])@.contains_key(object)),
        forall|i: int, object: usize, annotation: Annotation|
            0 <= i < log.len() && after[i]@.annotations.contains_key(object) ==> (
            #[trigger] after[i]@.annotations[object].contains(annotation) <==> exists|j: int|
                {
                    &&& 0 <= j < log[i].len()
                    &&& (#[trigger] log[i][j])@.contains_key(object)
                    &&& annotation.code == codes[j]
                    &&& annotation.patches == log[i][j]@[object]
                }),
        forall|i: int, object: usize, a: int, b: int|
            #![trigger after[i]@.annotations[object][a], after[i]@.annotations[object][b]]
            0 <= i < log.len() && after[i]@.annotations.contains_key(object) && 0 <= a < b
                < after[i]@.annotations[object].len() ==> after[i]@.annotations[object][a].code
                < after[i]@.annotations[object][b].code,
{
    assert forall|i: int| 0 <= i < log.len() implies (#[trigger] log[i]).len() <= codes.len() by {
        assert(event_checked(
            validators,
            codes,
            config,
            before[i].data,
            next_event_ts(before, i),
            log[i],
        ));
    }
    assert forall|i: int, object: usize| 0 <= i < log.len() implies (
    #[trigger] after[i]@.annotations.contains_key(object) <==> exists|j: int|
        0 <= j < log[i].len() && (#[trigger] log[i][j])@.contains_key(object)) by {
        law_findings_are_what_was_answered(codes, log[i]);
        assert(after[i]@.annotations == findings(codes, log[i]));
    }
    assert forall|i: int, object: usize, annotation: Annotation|
        0 <= i < log.len() && after[i]@.annotations.contains_key(object) implies (
    #[trigger] after[i]@.annotations[object].contains(annotation) <==> exists|j: int|
        {
            &&& 0 <= j < log[i].len()
            &&& (#[trigger] log[i][j])@.contains_key(object)
            &&& annotation.code == codes[j]
            &&& annotation.patches == log[i][j]@[object]
        }) by {
        law_findings_are_what_was_answered(codes, log[i]);
        assert(after[i]@.annotations == findings(codes, log[i]));
    }
    assert forall|i: int, object: usize, a: int, b: int|
        #![trigger after[i]@.annotations[object][a], after[i]@.annotations[object][b]]
        0 <= i < log.len() && after[i]@.annotations.contains_key(object) && 0 <= a < b
            < after[i]@.annotations[object].len() implies after[i]@.annotations[object][a].code
        < after[i]@.annotations[object][b].code by {
        law_findings_are_what_was_answered(codes, log[i]);
        assert(after[i]@.annotations == findings(codes, log[i]));
    }
}

/// A check is counted with the objects that it found fault with: with none before the first event, and
/// with those of an event more after it. There is a count for each check that was shown an event, and
/// for no other.
pub proof fn law_summary_counts_every_fault(
    summary: Map<ValidatorCode, u128>,
    codes: Seq<ValidatorCode>,
    log: Seq<Seq<EventPatches>>,
    answers: Seq<EventPatches>,
    j: int,
)
    requires
        counted(summary, codes, log.push(answers)),
        0 <= j < codes.len(),
    ensures
        forall|code: ValidatorCode| #[trigger] summary.contains_key(code) <==> codes.contains(code),
        summary[codes[j]] == total(log, j) + answers[j]@.len(),
        total(Seq::empty(), j) == 0,
{
    assert(log.push(answers).drop_last() =~= log);
}

/// Where no event was shown, no check is counted.
pub proof fn law_summary_of_nothing_is_empty(
    summary: Map<ValidatorCode, u128>,
    codes: Seq<ValidatorCode>,
    code: ValidatorCode,
)
    requires
        counted(summary, codes, Seq::empty()),
    ensures
        !summary.contains_key(code),
{
}

/// A result is a failure if and only if it is an error, and then with that error.
pub proof fn law_failure_is_the_error<T, E>(res: Result<T, E>)
    ensures
        res is Ok <==> failure_of(res) is None,
        res matches Err(err) ==> failure_of(res) == Some(err),
{
}

} // verus!
