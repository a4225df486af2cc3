//! Traces with the findings of the checks on them.

use vstd::prelude::*;

use crate::event::{TraceAction, TraceEvent, TraceEventView};
use crate::k8s::{
    DynamicObject, DynamicObjectView, ObjectMeta, ObjectMetaView, TypeMeta, TypeMetaView,
};
use crate::trace::{ExportedTrace, ExportedTraceView, TraceIterator};
use crate::validator::ValidatorCode;
use std::collections::BTreeMap;

mod validation;

pub use validation::{
    check_failed, counted, event_checked, failure_of, findings, next_event_ts, total, validation_ran,
    with_answer,
};

verus! {

/// `json_patch_ext::PatchOperation`, one operation of a JSON patch. It is carried along and never
/// looked into.
#[verifier::external_type_specification]
#[verifier::external_body]
pub struct ExPatchOperation(json_patch_ext::PatchOperation);

/// Where in a trace a patch applies.
#[derive(Debug)]
pub enum PatchLocations {
    /// At every object.
    Everywhere,
    /// At every object of the type with the namespaced name.
    ObjectReference(TypeMeta, String),
    /// At a new object with this type and metadata, so many seconds after the start of the trace.
    InsertAt(i64, TraceAction, TypeMeta, Box<ObjectMeta>),
}

/// A change to the objects of a trace.
#[derive(Debug)]
pub struct AnnotatedTracePatch {
    pub locations: PatchLocations,
    pub ops: Vec<json_patch_ext::PatchOperation>,
}

/// One finding on an object: the check that failed, and the patches that would mend it, the
/// recommended one first.
#[derive(Debug)]
pub struct Annotation {
    pub code: ValidatorCode,
    pub patches: Vec<AnnotatedTracePatch>,
}

/// An event with the findings on its objects. The objects are counted from the applied ones through
/// the deleted ones.
#[derive(Debug)]
pub struct AnnotatedTraceEvent {
    pub data: TraceEvent,
    pub annotations: BTreeMap<usize, Vec<Annotation>>,
}

/// The contents of an [`AnnotatedTraceEvent`].
pub ghost struct AnnotatedTraceEventView {
    pub data: TraceEventView,
    pub annotations: Map<usize, Seq<Annotation>>,
}

/// The findings as a mathematical map.
pub open spec fn annotations_view(annotations: BTreeMap<usize, Vec<Annotation>>) -> Map<
    usize,
    Seq<Annotation>,
> {
    annotations@.map_values(|list: Vec<Annotation>| list@)
}

impl View for AnnotatedTraceEvent {
    type V = AnnotatedTraceEventView;

    open spec fn view(&self) -> AnnotatedTraceEventView {
        AnnotatedTraceEventView {
            data: self.data@,
            annotations: annotations_view(self.annotations),
        }
    }
}

impl DeepView for AnnotatedTraceEvent {
    type V = AnnotatedTraceEventView;

    open spec fn deep_view(&self) -> AnnotatedTraceEventView {
        self@
    }
}

impl AnnotatedTraceEventView {
    /// The event without a finding.
    pub open spec fn unannotated(data: TraceEventView) -> AnnotatedTraceEventView {
        AnnotatedTraceEventView { data, annotations: Map::empty() }
    }

    /// The event with one more object.
    pub open spec fn with_object(
        self,
        action: TraceAction,
        object: DynamicObjectView,
    ) -> AnnotatedTraceEventView {
        AnnotatedTraceEventView {
            data: match action {
                TraceAction::ObjectApplied => TraceEventView {
                    applied_objs: self.data.applied_objs.push(object),
                    ..self.data
                },
                TraceAction::ObjectDeleted => TraceEventView {
                    deleted_objs: self.data.deleted_objs.push(object),
                    ..self.data
                },
            },
            ..self
        }
    }

    /// How many objects the event has that were applied, or deleted.
    pub open spec fn count(self, action: TraceAction) -> nat {
        match action {
            TraceAction::ObjectApplied => self.data.applied_objs.len(),
            TraceAction::ObjectDeleted => self.data.deleted_objs.len(),
        }
    }
}

impl AnnotatedTraceEvent {
    /// The event without a finding.
    pub fn new(data: TraceEvent) -> (res: AnnotatedTraceEvent)
        ensures
            res.data == data,
            res@ == AnnotatedTraceEventView::unannotated(data@),
    {
        let res = AnnotatedTraceEvent { data, annotations: BTreeMap::new() };
        assert(res@.annotations =~= Map::empty());
        res
    }
}

impl Default for AnnotatedTraceEvent {
    fn default() -> (res: AnnotatedTraceEvent)
        ensures
            res@ == AnnotatedTraceEventView::unannotated(TraceEventView::empty_at(0)),
    {
        AnnotatedTraceEvent::new(TraceEvent::default())
    }
}

/// The place of the last event that is not after a time.
pub open spec fn last_at_or_before(events: Seq<AnnotatedTraceEventView>, ts: i64) -> Option<int>
    decreases events.len(),
{
    if events.len() == 0 {
        None
    } else if events.last().data.ts <= ts {
        Some(events.len() - 1)
    } else {
        last_at_or_before(events.drop_last(), ts)
    }
}

/// The events with one at a time among them, and its place: the last event at or before the time if
/// it is at that time, else an event of its own behind that one. Where all events are later, or there is
/// none, the event of its own goes to the beginning.
pub open spec fn found_or_created(events: Seq<AnnotatedTraceEventView>, ts: i64) -> (
    Seq<AnnotatedTraceEventView>,
    int,
) {
    let created = AnnotatedTraceEventView::unannotated(TraceEventView::empty_at(ts));
    match last_at_or_before(events, ts) {
        Some(i) => if events[i].data.ts < ts {
            (events.insert(i + 1, created), i + 1)
        } else {
            (events, i)
        },
        None => (events.insert(0, created), 0),
    }
}

/// What [`last_at_or_before`] finds: an event that is not after the time, with only later ones
/// behind it; or none, when all are later.
pub proof fn lemma_last_at_or_before(events: Seq<AnnotatedTraceEventView>, ts: i64)
    ensures
        match last_at_or_before(events, ts) {
            Some(i) => {
                &&& 0 <= i < events.len()
                &&& events[i].data.ts <= ts
                &&& forall|k: int| i < k < events.len() ==> ts < (#[trigger] events[k]).data.ts
            },
            None => forall|k: int|
                0 <= k < events.len() ==> ts < (#[trigger] events[k]).data.ts,
        },
    decreases events.len(),
{
    if events.len() > 0 && ts < events.last().data.ts {
        let rest = events.drop_last();
        lemma_last_at_or_before(rest, ts);
        assert forall|k: int|
            0 <= k < events.len() && (last_at_or_before(events, ts) matches Some(i) ==> i < k) implies ts
            < (#[trigger] events[k]).data.ts by {
            if k < rest.len() {
                assert(rest[k] == events[k]);
            }
        }
    }
}

/// The place of the event at a time, which is created where there is none.
pub fn find_or_create_event_at_ts(events: &mut Vec<AnnotatedTraceEvent>, ts: i64) -> (res: usize)
    ensures
        (final(events).deep_view(), res as int) == found_or_created(old(events).deep_view(), ts),
        res < final(events).len(),
{
    let ghost before = events.deep_view();
    let new_event = AnnotatedTraceEvent::new(TraceEvent::empty_at(ts));
    proof {
        lemma_last_at_or_before(before, ts);
    }
    // Walk backwards to the last event that is not after the time.
    let mut i: usize = events.len();
    while i > 0 && events[i - 1].data.ts > ts
        invariant
            i <= events.len(),
            events.deep_view() == before,
            forall|k: int| i <= k < events.len() ==> ts < (#[trigger] before[k]).data.ts,
        decreases i,
    {
        assert(before[i - 1] == events[i - 1]@);
        i = i - 1;
    }
    if i > 0 {
        let found: usize = i - 1;
        assert(before[found as int] == events[found as int]@);
        assert(last_at_or_before(before, ts) == Some(found as int));
        if events[found].data.ts < ts {
            events.insert(i, new_event);
            assert(events.deep_view() =~= before.insert(i as int, new_event@));
            i
        } else {
            found
        }
    } else {
        assert(last_at_or_before(before, ts) is None);
        events.insert(0, new_event);
        assert(events.deep_view() =~= before.insert(0, new_event@));
        0
    }
}

/// A place of an object in a list of events.
#[derive(Clone, Copy, Debug, PartialEq, Eq, Structural)]
pub struct ObjectLocation {
    pub event: usize,
    /// Whether it is an applied or a deleted object.
    pub action: TraceAction,
    /// Its place among the objects of that kind.
    pub index: usize,
}

impl ObjectLocation {
    /// There is an object at the place.
    pub open spec fn within(self, events: Seq<AnnotatedTraceEventView>) -> bool {
        self.event < events.len() && self.index < events[self.event as int].count(self.action)
    }

    /// The object at the place.
    pub open spec fn object(self, events: Seq<AnnotatedTraceEventView>) -> DynamicObjectView {
        let data = events[self.event as int].data;
        match self.action {
            TraceAction::ObjectApplied => data.applied_objs[self.index as int],
            TraceAction::ObjectDeleted => data.deleted_objs[self.index as int],
        }
    }
}

/// The places of the objects of one kind in an event.
pub open spec fn locations_of(event: AnnotatedTraceEventView, i: int, action: TraceAction) -> Seq<
    ObjectLocation,
> {
    Seq::new(
        event.count(action),
        |k: int| ObjectLocation { event: i as usize, action, index: k as usize },
    )
}

/// The places of all objects: event by event, the applied ones and then the deleted ones.
pub open spec fn all_locations(events: Seq<AnnotatedTraceEventView>) -> Seq<ObjectLocation>
    decreases events.len(),
{
    if events.len() == 0 {
        Seq::empty()
    } else {
        all_locations(events.drop_last()) + locations_of(
            events.last(),
            events.len() - 1,
            TraceAction::ObjectApplied,
        ) + locations_of(events.last(), events.len() - 1, TraceAction::ObjectDeleted)
    }
}

/// The object has the type and the namespaced name.
pub open spec fn is_referred(
    object: DynamicObjectView,
    type_: TypeMetaView,
    ns_name: Seq<char>,
) -> bool {
    object.types == Some(type_) && object.metadata.namespaced_name() == ns_name
}

/// The object that a patch inserts, before its operations are applied.
pub open spec fn bare_object(types: TypeMetaView, metadata: ObjectMetaView) -> DynamicObjectView {
    DynamicObjectView { types: Some(types), metadata, data: seq!['{', '}'] }
}

/// A trace with the findings of the checks on it.
#[derive(Debug)]
pub struct AnnotatedTrace {
    /// Where the trace came from.
    path: String,
    /// The trace as it was read.
    base: ExportedTrace,
    /// What was changed since.
    #[allow(dead_code)]
    patches: Vec<AnnotatedTracePatch>,
    /// The events with all changes, and with the findings on them.
    events: Vec<AnnotatedTraceEvent>,
}

/// The contents of an [`AnnotatedTrace`].
pub ghost struct AnnotatedTraceView {
    pub path: Seq<char>,
    pub base: ExportedTraceView,
    pub patches: Seq<AnnotatedTracePatch>,
    pub events: Seq<AnnotatedTraceEventView>,
}

impl View for AnnotatedTrace {
    type V = AnnotatedTraceView;

    open spec fn view(&self) -> AnnotatedTraceView {
        AnnotatedTraceView {
            path: self.source(),
            base: self.read()@,
            patches: self.changes(),
            events: self.annotated().map_values(|event: AnnotatedTraceEvent| event@),
        }
    }
}

impl Default for AnnotatedTrace {
    fn default() -> (res: AnnotatedTrace)
        ensures
            res@.path.len() == 0,
            res@.base == ExportedTraceView::blank(),
            res@.patches.len() == 0,
            res@.events.len() == 0,
    {
        AnnotatedTrace::new_with_events(Vec::new())
    }
}

impl AnnotatedTraceView {
    /// The time of the first event.
    pub open spec fn start_ts(self) -> Option<i64> {
        if self.events.len() > 0 {
            Some(self.events.first().data.ts)
        } else {
            None
        }
    }

    /// The time that lies so long after the start; after zero, where there is no event.
    pub open spec fn ts_after_start(self, relative_ts: i64) -> int {
        match self.start_ts() {
            Some(start_ts) => start_ts + relative_ts,
            None => relative_ts as int,
        }
    }

    /// The trace with one more object, in the event at a time.
    pub open spec fn with_object_at(
        self,
        ts: i64,
        action: TraceAction,
        object: DynamicObjectView,
    ) -> AnnotatedTraceView {
        let (events, i) = found_or_created(self.events, ts);
        AnnotatedTraceView { events: events.update(i, events[i].with_object(action, object)), ..self }
    }

    /// The place of the object that is added so.
    pub open spec fn place_of_object_at(self, ts: i64, action: TraceAction) -> ObjectLocation {
        let (events, i) = found_or_created(self.events, ts);
        ObjectLocation { event: i as usize, action, index: events[i].count(action) as usize }
    }

    /// The trace with another object at a place.
    pub open spec fn with_object_replaced(
        self,
        location: ObjectLocation,
        object: DynamicObjectView,
    ) -> AnnotatedTraceView {
        let event = self.events[location.event as int];
        let data = match location.action {
            TraceAction::ObjectApplied => TraceEventView {
                applied_objs: event.data.applied_objs.update(location.index as int, object),
                ..event.data
            },
            TraceAction::ObjectDeleted => TraceEventView {
                deleted_objs: event.data.deleted_objs.update(location.index as int, object),
                ..event.data
            },
        };
        AnnotatedTraceView {
            events: self.events.update(
                location.event as int,
                AnnotatedTraceEventView { data, ..event },
            ),
            ..self
        }
    }
}

impl AnnotatedTrace {
    /// Where the trace came from.
    pub closed spec fn source(self) -> Seq<char> {
        self.path@
    }

    /// The trace as it was read.
    pub closed spec fn read(self) -> ExportedTrace {
        self.base
    }

    /// What was changed since.
    pub closed spec fn changes(self) -> Seq<AnnotatedTracePatch> {
        self.patches@
    }

    /// The events with all changes, and with the findings on them.
    pub closed spec fn annotated(self) -> Seq<AnnotatedTraceEvent> {
        self.events@
    }

    /// The trace that was read from a place, unchanged and without findings.
    pub fn new(trace_path: &str, base: ExportedTrace) -> (res: AnnotatedTrace)
        ensures
            res@.path == trace_path@,
            res@.base == base@,
            res@.patches.len() == 0,
            res@.events == base@.events.map_values(
                |event: TraceEventView| AnnotatedTraceEventView::unannotated(event),
            ),
    {
        let mut events: Vec<AnnotatedTraceEvent> = Vec::new();
        let mut i: usize = 0;
        while i < base.events.len()
            invariant
                i <= base.events.len(),
                events.len() == i,
                forall|k: int|
                    0 <= k < i ==> (#[trigger] events[k])@ == AnnotatedTraceEventView::unannotated(
                        base@.events[k],
                    ),
            decreases base.events.len() - i,
        {
            events.push(AnnotatedTraceEvent::new(base.events[i].clone()));
            i = i + 1;
        }
        let res = AnnotatedTrace { path: trace_path.to_string(), base, patches: Vec::new(), events };
        assert(res@.events =~= base@.events.map_values(
            |event: TraceEventView| AnnotatedTraceEventView::unannotated(event),
        ));
        res
    }

    /// A trace of annotated events that was read from nowhere.
    pub fn new_with_events(events: Vec<AnnotatedTraceEvent>) -> (res: AnnotatedTrace)
        ensures
            res@.path.len() == 0,
            res@.base == ExportedTraceView::blank(),
            res@.patches.len() == 0,
            res.annotated() == events@,
    {
        AnnotatedTrace {
            path: String::new(),
            base: ExportedTrace::default(),
            patches: Vec::new(),
            events,
        }
    }

    /// The trace that was parsed from a JSON fixture, unchanged and without findings. It has no path.
    pub fn new_from_test_json(exported_trace: ExportedTrace) -> (res: AnnotatedTrace)
        ensures
            res@.path.len() == 0,
            res@.base == exported_trace@,
            res@.patches.len() == 0,
            res@.events == exported_trace@.events.map_values(
                |event: TraceEventView| AnnotatedTraceEventView::unannotated(event),
            ),
    {
        proof {
            reveal_strlit("");
        }
        AnnotatedTrace::new("", exported_trace)
    }

    /// The event at a place of the trace as it was read.
    pub fn get_event(&self, idx: usize) -> (res: Option<&TraceEvent>)
        ensures
            match res {
                Some(event) => idx < self@.base.events.len() && event@ == self@.base.events[idx as int],
                None => idx >= self@.base.events.len(),
            },
    {
        if idx < self.base.events.len() {
            Some(&self.base.events[idx])
        } else {
            None
        }
    }

    /// The event at a place, with all changes and with the findings on it.
    pub fn get_annotated_event(&self, idx: usize) -> (res: Option<&AnnotatedTraceEvent>)
        ensures
            res == (if idx < self.annotated().len() {
                Some(&self.annotated()[idx as int])
            } else {
                None
            }),
    {
        if idx < self.events.len() {
            Some(&self.events[idx])
        } else {
            None
        }
    }

    /// The object at a place of an event of the trace as it was read, counted from the applied
    /// objects through the deleted ones.
    pub fn get_object(&self, event_idx: usize, obj_idx: usize) -> (res: Option<&DynamicObject>)
        ensures
            match res {
                Some(object) => {
                    &&& event_idx < self@.base.events.len()
                    &&& obj_idx < self@.base.events[event_idx as int].objects().len()
                    &&& object@ == self@.base.events[event_idx as int].objects()[obj_idx as int]
                },
                None => {
                    ||| event_idx >= self@.base.events.len()
                    ||| obj_idx >= self@.base.events[event_idx as int].objects().len()
                },
            },
    {
        match self.get_event(event_idx) {
            Some(event) => {
                let applied_len: usize = event.applied_objs.len();
                if obj_idx >= applied_len {
                    let idx: usize = obj_idx - applied_len;
                    if idx < event.deleted_objs.len() {
                        Some(&event.deleted_objs[idx])
                    } else {
                        None
                    }
                } else {
                    Some(&event.applied_objs[obj_idx])
                }
            },
            None => None,
        }
    }

    /// Whether no object is at a place of the trace as it was read, be it that no event is there.
    pub fn is_empty_at(&self, idx: usize) -> (res: bool)
        ensures
            res == (idx < self@.base.events.len() ==> self@.base.events[idx as int].objects().len()
                == 0),
    {
        match self.get_event(idx) {
            Some(event) => event.applied_objs.is_empty() && event.deleted_objs.is_empty(),
            None => true,
        }
    }

    /// The events of the trace as it was read, each with the time of the next.
    pub fn iter(&self) -> (res: TraceIterator<'_>)
        ensures
            res.events() == self.read().events@,
            res.position() == 0,
    {
        self.base.iter()
    }

    /// How many events there are, with all changes.
    pub fn len(&self) -> (res: usize)
        ensures
            res == self@.events.len(),
    {
        self.events.len()
    }

    /// Where the trace came from.
    pub fn path(&self) -> (res: String)
        ensures
            res@ == self@.path,
    {
        self.path.clone()
    }

    /// The time of the first event, with all changes.
    pub fn start_ts(&self) -> (res: Option<i64>)
        ensures
            res == self@.start_ts(),
    {
        if self.events.len() > 0 {
            Some(self.events[0].data.ts)
        } else {
            None
        }
    }

    /// The places of all objects, with all changes.
    pub fn object_locations(&self) -> (res: Vec<ObjectLocation>)
        ensures
            res@ == all_locations(self@.events),
    {
        let mut res: Vec<ObjectLocation> = Vec::new();
        let mut i: usize = 0;
        assert(self@.events.take(0) =~= Seq::empty());
        while i < self.events.len()
            invariant
                i <= self.events.len(),
                res@ == all_locations(self@.events.take(i as int)),
            decreases self.events.len() - i,
        {
            let ghost event = self@.events[i as int];
            let applied: usize = self.events[i].data.applied_objs.len();
            let deleted: usize = self.events[i].data.deleted_objs.len();
            push_locations(&mut res, i, TraceAction::ObjectApplied, applied, Ghost(event));
            push_locations(&mut res, i, TraceAction::ObjectDeleted, deleted, Ghost(event));
            proof {
                let next = self@.events.take(i + 1);
                assert(next.drop_last() =~= self@.events.take(i as int));
                assert(next.last() == event);
                assert(res@ =~= all_locations(next));
            }
            i = i + 1;
        }
        assert(self@.events.take(i as int) =~= self@.events);
        res
    }

    /// The object at a place.
    pub fn object_at(&self, location: ObjectLocation) -> (res: &DynamicObject)
        requires
            location.within(self@.events),
        ensures
            res@ == location.object(self@.events),
    {
        let data = &self.events[location.event].data;
        match location.action {
            TraceAction::ObjectApplied => &data.applied_objs[location.index],
            TraceAction::ObjectDeleted => &data.deleted_objs[location.index],
        }
    }

    /// The object at a place, to be changed.
    pub fn object_at_mut(&mut self, location: ObjectLocation) -> (res: &mut DynamicObject)
        requires
            location.within(old(self)@.events),
        ensures
            res@ == location.object(old(self)@.events),
            final(self).source() == old(self).source(),
            final(self).read() == old(self).read(),
            final(self).changes() == old(self).changes(),
            final(self)@ == old(self)@.with_object_replaced(location, final(res)@),
    {
        let ghost before = self@;
        let ghost after = final(self)@;
        let data = &mut self.events[location.event].data;
        match location.action {
            TraceAction::ObjectApplied => {
                let res = &mut data.applied_objs[location.index];
                proof {
                    let goal = before.with_object_replaced(location, final(res)@);
                    let i = location.event as int;
                    assert(after.events[i].data.applied_objs =~= goal.events[i].data.applied_objs);
                    assert(after.events =~= goal.events);
                }
                res
            },
            TraceAction::ObjectDeleted => {
                let res = &mut data.deleted_objs[location.index];
                proof {
                    let goal = before.with_object_replaced(location, final(res)@);
                    let i = location.event as int;
                    assert(after.events[i].data.deleted_objs =~= goal.events[i].data.deleted_objs);
                    assert(after.events =~= goal.events);
                }
                res
            },
        }
    }

    /// The places of the objects that a patch applies to. Where the patch inserts an object, it is
    /// inserted.
    pub fn matched_objects(&mut self, locations: &PatchLocations) -> (res: Vec<ObjectLocation>)
        requires
            locations matches PatchLocations::InsertAt(relative_ts, ..) ==> i64::MIN <= old(
                self,
            )@.ts_after_start(*relative_ts) <= i64::MAX,
        ensures
            final(self).source() == old(self).source(),
            final(self).read() == old(self).read(),
            final(self).changes() == old(self).changes(),
            match *locations {
                PatchLocations::Everywhere => {
                    &&& final(self)@ == old(self)@
                    &&& res@ == all_locations(old(self)@.events)
                },
                PatchLocations::ObjectReference(type_, ns_name) => {
                    &&& final(self)@ == old(self)@
                    &&& res@ == all_locations(old(self)@.events).filter(
                        |location: ObjectLocation|
                            is_referred(location.object(old(self)@.events), type_@, ns_name@),
                    )
                },
                PatchLocations::InsertAt(relative_ts, action, types, metadata) => {
                    let ts = old(self)@.ts_after_start(relative_ts) as i64;
                    &&& final(self)@ == old(self)@.with_object_at(
                        ts,
                        action,
                        bare_object(types@, metadata@),
                    )
                    &&& res@ == seq![old(self)@.place_of_object_at(ts, action)]
                },
            },
    {
        match locations {
            PatchLocations::Everywhere => self.object_locations(),
            PatchLocations::ObjectReference(type_, ns_name) => self.referred_objects(type_, ns_name),
            PatchLocations::InsertAt(relative_ts, action, types, metadata) => {
                let start_ts: i64 = match self.start_ts() {
                    Some(ts) => ts,
                    None => 0,
                };
                let location = self.insert_object(start_ts + *relative_ts, *action, types, metadata);
                let mut res: Vec<ObjectLocation> = Vec::new();
                res.push(location);
                assert(res@ =~= seq![location]);
                res
            },
        }
    }

    /// The places of the objects of a type with a namespaced name.
    fn referred_objects(&self, type_: &TypeMeta, ns_name: &String) -> (res: Vec<ObjectLocation>)
        ensures
            res@ == all_locations(self@.events).filter(
                |location: ObjectLocation|
                    is_referred(location.object(self@.events), type_@, ns_name@),
            ),
    {
        let all = self.object_locations();
        let ghost pred = |location: ObjectLocation|
            is_referred(location.object(self@.events), type_@, ns_name@);
        let mut res: Vec<ObjectLocation> = Vec::new();
        let mut i: usize = 0;
        proof {
            reveal(Seq::filter);
            assert(all@.take(0).filter(pred) =~= Seq::empty());
        }
        while i < all.len()
            invariant
                i <= all.len(),
                all@ == all_locations(self@.events),
                pred == (|location: ObjectLocation|
                    is_referred(location.object(self@.events), type_@, ns_name@)),
                res@ == all@.take(i as int).filter(pred),
            decreases all.len() - i,
        {
            let location = all[i];
            proof {
                assert(self@.events.len() == self.events.len());
                assert forall|k: int| 0 <= k < self@.events.len() implies (
                #[trigger] self@.events[k]).data.applied_objs.len() <= usize::MAX
                    && self@.events[k].data.deleted_objs.len() <= usize::MAX by {
                    assert(self@.events[k] == self.events[k]@);
                    assert(self.events[k].data.applied_objs.len() <= usize::MAX);
                    assert(self.events[k].data.deleted_objs.len() <= usize::MAX);
                }
                lemma_all_locations_within(self@.events, i as int);
                reveal(Seq::filter);
                assert(all@.take(i + 1).drop_last() =~= all@.take(i as int));
            }
            let object = self.object_at(location);
            let same_type = match &object.types {
                Some(types) => *types == *type_,
                None => false,
            };
            if same_type && object.namespaced_name() == *ns_name {
                res.push(location);
            }
            i = i + 1;
        }
        assert(all@.take(i as int) =~= all@);
        res
    }

    /// Inserts a bare object into the event at a time, and gives its place.
    fn insert_object(
        &mut self,
        ts: i64,
        action: TraceAction,
        types: &TypeMeta,
        metadata: &ObjectMeta,
    ) -> (res: ObjectLocation)
        ensures
            final(self).source() == old(self).source(),
            final(self).read() == old(self).read(),
            final(self).changes() == old(self).changes(),
            final(self)@ == old(self)@.with_object_at(ts, action, bare_object(types@, metadata@)),
            res == old(self)@.place_of_object_at(ts, action),
    {
        let event: usize = find_or_create_event_at_ts(&mut self.events, ts);
        proof {
            reveal_strlit("{}");
        }
        let new_obj = DynamicObject {
            types: Some(types.clone()),
            metadata: metadata.clone(),
            data: "{}".to_string(),
        };
        assert(new_obj@.data =~= seq!['{', '}']);
        let ghost found = found_or_created(old(self)@.events, ts).0;
        assert(self.events.deep_view() =~= self@.events);
        assert(old(self).events.deep_view() =~= old(self)@.events);
        let index: usize = match action {
            TraceAction::ObjectApplied => {
                let index: usize = self.events[event].data.applied_objs.len();
                self.events[event].data.applied_objs.push(new_obj);
                index
            },
            TraceAction::ObjectDeleted => {
                let index: usize = self.events[event].data.deleted_objs.len();
                self.events[event].data.deleted_objs.push(new_obj);
                index
            },
        };
        proof {
            let grown = found[event as int].with_object(action, new_obj@);
            let after = self@.events[event as int];
            assert(after.data.applied_objs =~= grown.data.applied_objs);
            assert(after.data.deleted_objs =~= grown.data.deleted_objs);
            assert(self@.events =~= found.update(event as int, grown));
        }
        ObjectLocation { event, action, index }
    }
}

/// Every place that is listed holds an object.
proof fn lemma_all_locations_within(events: Seq<AnnotatedTraceEventView>, i: int)
    requires
        0 <= i < all_locations(events).len(),
        events.len() <= usize::MAX,
        forall|k: int|
            0 <= k < events.len() ==> (#[trigger] events[k]).data.applied_objs.len() <= usize::MAX
                && events[k].data.deleted_objs.len() <= usize::MAX,
    ensures
        all_locations(events)[i].within(events),
    decreases events.len(),
{
    let rest = events.drop_last();
    let head = all_locations(rest);
    if i < head.len() {
        assert forall|k: int| 0 <= k < rest.len() implies (
        #[trigger] rest[k]).data.applied_objs.len() <= usize::MAX && rest[k].data.deleted_objs.len()
            <= usize::MAX by {
            assert(rest[k] == events[k]);
        }
        lemma_all_locations_within(rest, i);
        assert(all_locations(events)[i] == head[i]);
        assert(rest[head[i].event as int] == events[head[i].event as int]);
    } else {
        assert(events.last() == events[events.len() - 1]);
    }
}

/// Adds the places of the first `count` objects of one kind in an event.
fn push_locations(
    res: &mut Vec<ObjectLocation>,
    i: usize,
    action: TraceAction,
    count: usize,
    Ghost(event): Ghost<AnnotatedTraceEventView>,
)
    requires
        count == event.count(action),
    ensures
        final(res)@ == old(res)@ + locations_of(event, i as int, action),
{
    let ghost before = res@;
    let mut k: usize = 0;
    while k < count
        invariant
            k <= count,
            count == event.count(action),
            res@ =~= before + locations_of(event, i as int, action).take(k as int),
        decreases count - k,
    {
        res.push(ObjectLocation { event: i, action, index: k });
        k = k + 1;
    }
}

} // verus!
