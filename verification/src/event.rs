//! One moment of a trace.

use vstd::prelude::*;

use crate::k8s::{DynamicObject, DynamicObjectView};

verus! {

/// What happened to an object.
#[derive(Clone, Copy, Debug, PartialEq, Eq, Structural)]
pub enum TraceAction {
    ObjectApplied,
    ObjectDeleted,
}

/// The objects that were applied and deleted at one time, in seconds since the epoch.
#[derive(Debug)]
pub struct TraceEvent {
    pub ts: i64,
    pub applied_objs: Vec<DynamicObject>,
    pub deleted_objs: Vec<DynamicObject>,
}

/// The contents of a [`TraceEvent`].
pub ghost struct TraceEventView {
    pub ts: i64,
    pub applied_objs: Seq<DynamicObjectView>,
    pub deleted_objs: Seq<DynamicObjectView>,
}

impl TraceEventView {
    /// An event at `ts` at which nothing happened.
    pub open spec fn empty_at(ts: i64) -> TraceEventView {
        TraceEventView { ts, applied_objs: Seq::empty(), deleted_objs: Seq::empty() }
    }

    /// The objects of the event as they are counted: the applied ones, then the deleted ones.
    pub open spec fn objects(self) -> Seq<DynamicObjectView> {
        self.applied_objs + self.deleted_objs
    }
}

impl View for TraceEvent {
    type V = TraceEventView;

    open spec fn view(&self) -> TraceEventView {
        TraceEventView {
            ts: self.ts,
            applied_objs: self.applied_objs.deep_view(),
            deleted_objs: self.deleted_objs.deep_view(),
        }
    }
}

impl DeepView for TraceEvent {
    type V = TraceEventView;

    open spec fn deep_view(&self) -> TraceEventView {
        self@
    }
}

impl Default for TraceEvent {
    fn default() -> (res: TraceEvent)
        ensures
            res@ == TraceEventView::empty_at(0),
    {
        TraceEvent::empty_at(0)
    }
}

impl Clone for TraceEvent {
    fn clone(&self) -> (res: TraceEvent)
        ensures
            res@ == self@,
    {
        let res = TraceEvent {
            ts: self.ts,
            applied_objs: self.applied_objs.clone(),
            deleted_objs: self.deleted_objs.clone(),
        };
        assert(res.applied_objs.deep_view() =~= self.applied_objs.deep_view());
        assert(res.deleted_objs.deep_view() =~= self.deleted_objs.deep_view());
        res
    }
}

impl TraceEvent {
    /// An event at `ts` at which nothing happened.
    pub fn empty_at(ts: i64) -> (res: TraceEvent)
        ensures
            res@ == TraceEventView::empty_at(ts),
    {
        let res = TraceEvent { ts, applied_objs: Vec::new(), deleted_objs: Vec::new() };
        assert(res.applied_objs.deep_view() =~= Seq::empty());
        assert(res.deleted_objs.deep_view() =~= Seq::empty());
        res
    }
}

/// A list of the same events.
pub(crate) fn clone_events(events: &Vec<TraceEvent>) -> (res: Vec<TraceEvent>)
    ensures
        res.deep_view() == events.deep_view(),
{
    let res = events.clone();
    assert(res.deep_view() =~= events.deep_view());
    res
}

/// A list of the same objects.
pub(crate) fn clone_objects(objects: &Vec<DynamicObject>) -> (res: Vec<DynamicObject>)
    ensures
        res.deep_view() == objects.deep_view(),
{
    let res = objects.clone();
    assert(res.deep_view() =~= objects.deep_view());
    res
}

/// The contents of an event are its time and its objects, each where it stands.
pub proof fn law_event_is_its_fields(event: TraceEvent)
    ensures
        event@.ts == event.ts,
        event@.applied_objs.len() == event.applied_objs@.len(),
        forall|k: int|
            0 <= k < event.applied_objs@.len() ==> #[trigger] event@.applied_objs[k]
                == event.applied_objs@[k]@,
        event@.deleted_objs.len() == event.deleted_objs@.len(),
        forall|k: int|
            0 <= k < event.deleted_objs@.len() ==> #[trigger] event@.deleted_objs[k]
                == event.deleted_objs@[k]@,
        event.deep_view() == event@,
{
}

/// An event at which nothing happened is at its time and has no object.
pub proof fn law_empty_event_has_its_time(ts: i64)
    ensures
        TraceEventView::empty_at(ts).ts == ts,
        TraceEventView::empty_at(ts).applied_objs.len() == 0,
        TraceEventView::empty_at(ts).deleted_objs.len() == 0,
{
}

/// Every object of an event has a number: the applied ones have the first numbers, in their order, and
/// the deleted ones follow, in theirs.
pub proof fn law_applied_objects_are_counted_first(event: TraceEventView, k: int)
    ensures
        event.objects().len() == event.applied_objs.len() + event.deleted_objs.len(),
        0 <= k < event.applied_objs.len() ==> event.objects()[k] == event.applied_objs[k],
        0 <= k < event.deleted_objs.len() ==> event.objects()[event.applied_objs.len() + k]
            == event.deleted_objs[k],
{
}

} // verus!
