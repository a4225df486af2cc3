//! Recorded traces.

use vstd::prelude::*;

use crate::config::TracerConfig;
use crate::decimal::{decimal, decimal_text};
use crate::event::{clone_events, clone_objects, TraceEvent, TraceEventView};
use crate::index::TraceIndex;
use crate::k8s::{DynamicObject, DynamicObjectView, OwnerKey, PodLifecycleData, GVK};
use crate::owner_map::OwnerMap;
use std::collections::HashMap;

verus! {

broadcast use vstd::std_specs::hash::group_hash_axioms;

/// The trace format that is written.
pub const CURRENT_TRACE_FORMAT_VERSION: u16 = 3;

/// The oldest trace format that can be read.
pub const MIN_SUPPORTED_TRACE_FORMAT_VERSION: u16 = 2;

/// `rmp_serde::decode::Error`, the reason why a trace file could not be decoded. It is carried to the
/// caller and never looked into.
#[verifier::external_type_specification]
#[verifier::external_body]
pub struct ExDecodeError(rmp_serde::decode::Error);

/// Why a trace file cannot be used.
#[derive(Debug)]
pub enum TraceError {
    /// The file is not a trace.
    ParseFailed(rmp_serde::decode::Error),
    /// The version of the file, and the oldest version that can be read.
    VersionTooOld(u16, u16),
    /// The version of the file, and the newest version that can be read.
    VersionTooNew(u16, u16),
}

/// What a user is told of a file that is not a trace.
pub const PARSE_FAILED_TEXT: &'static str =
    "could not parse trace file\n\nIf this trace file is older than version 2, it is only parseable by SimKube <= 1.1.1.  Please see the release notes for details.";

impl TraceError {
    /// What a user is told.
    pub open spec fn text(self) -> Seq<char> {
        match self {
            TraceError::ParseFailed(_) => PARSE_FAILED_TEXT@,
            TraceError::VersionTooOld(version, min) => "trace file version "@ + decimal(
                version as nat,
            ) + " is older than the minimum supported version "@ + decimal(min as nat)
                + "; please re-record with a newer SimKube release"@,
            TraceError::VersionTooNew(version, max) => "trace file version "@ + decimal(
                version as nat,
            ) + " is newer than this binary supports (max "@ + decimal(max as nat)
                + "); please upgrade SimKube"@,
        }
    }

    /// What a user is told.
    pub fn message(&self) -> (res: String)
        ensures
            res@ == self.text(),
    {
        match self {
            TraceError::ParseFailed(_) => PARSE_FAILED_TEXT.to_string(),
            TraceError::VersionTooOld(version, min) => "trace file version ".to_string().concat(
                decimal_text(*version).as_str(),
            ).concat(" is older than the minimum supported version ").concat(
                decimal_text(*min).as_str(),
            ).concat("; please re-record with a newer SimKube release"),
            TraceError::VersionTooNew(version, max) => "trace file version ".to_string().concat(
                decimal_text(*version).as_str(),
            ).concat(" is newer than this binary supports (max ").concat(
                decimal_text(*max).as_str(),
            ).concat("); please upgrade SimKube"),
        }
    }
}

/// Why a trace could not be imported: the file, or the duration to cap it at.
#[derive(Debug)]
pub enum ImportError<E> {
    Trace(TraceError),
    Duration(E),
}

/// The observed lifecycles of an owner's pods, by the hash of the pod's specification.
pub type PodLifecyclesMap = HashMap<u64, Vec<PodLifecycleData>>;

/// The lifecycles that a trace knows, by owner and by the hash of the pod's specification.
pub type LifecyclesView = Map<OwnerKey, Map<u64, Seq<PodLifecycleData>>>;

/// The lifecycles as mathematical maps.
pub open spec fn lifecycles_view(lifecycles: OwnerMap<PodLifecyclesMap>) -> LifecyclesView {
    lifecycles@.map_values(
        |pods: PodLifecyclesMap| pods@.map_values(|data: Vec<PodLifecycleData>| data@),
    )
}

/// A trace file as it was decoded.
#[derive(Debug)]
pub struct TraceFile {
    pub version: u16,
    pub config: TracerConfig,
    pub events: Vec<TraceEvent>,
    pub index: TraceIndex,
    pub pod_lifecycles: OwnerMap<PodLifecyclesMap>,
    /// Absent from files that are older than the field.
    pub initial_state: Option<Vec<DynamicObject>>,
}

/// A recorded trace.
#[derive(Debug)]
pub struct ExportedTrace {
    pub version: u16,
    pub config: TracerConfig,
    pub events: Vec<TraceEvent>,
    pub index: TraceIndex,
    pub pod_lifecycles: OwnerMap<PodLifecyclesMap>,
    /// The cluster state to set up before the first event. Empty unless the trace is a seed.
    pub initial_state: Vec<DynamicObject>,
}

/// The contents of an [`ExportedTrace`].
pub ghost struct ExportedTraceView {
    pub version: u16,
    pub config: Seq<char>,
    pub events: Seq<TraceEventView>,
    pub index: Map<OwnerKey, u64>,
    pub pod_lifecycles: LifecyclesView,
    pub initial_state: Seq<DynamicObjectView>,
}

impl View for ExportedTrace {
    type V = ExportedTraceView;

    open spec fn view(&self) -> ExportedTraceView {
        ExportedTraceView {
            version: self.version,
            config: self.config@,
            events: self.events.deep_view(),
            index: self.index@,
            pod_lifecycles: lifecycles_view(self.pod_lifecycles),
            initial_state: self.initial_state.deep_view(),
        }
    }
}

impl TraceFile {
    /// The trace that the file holds. A file without an initial state seeds nothing.
    pub open spec fn trace(self) -> ExportedTraceView {
        ExportedTraceView {
            version: self.version,
            config: self.config@,
            events: self.events.deep_view(),
            index: self.index@,
            pod_lifecycles: lifecycles_view(self.pod_lifecycles),
            initial_state: match self.initial_state {
                Some(objects) => objects.deep_view(),
                None => Seq::empty(),
            },
        }
    }
}

/// The formats that can be read.
pub open spec fn supported(version: u16) -> bool {
    MIN_SUPPORTED_TRACE_FORMAT_VERSION <= version <= CURRENT_TRACE_FORMAT_VERSION
}

/// The events strictly before a time, in their order.
pub open spec fn events_before(events: Seq<TraceEventView>, cap_ts: i64) -> Seq<TraceEventView> {
    events.filter(|event: TraceEventView| event.ts < cap_ts)
}

impl ExportedTraceView {
    /// The trace with other events.
    pub open spec fn with_events(self, events: Seq<TraceEventView>) -> ExportedTraceView {
        ExportedTraceView { events, ..self }
    }

    /// The trace without the events at or after a time.
    pub open spec fn capped(self, cap_ts: i64) -> ExportedTraceView {
        self.with_events(events_before(self.events, cap_ts))
    }

    /// The time of the first event.
    pub open spec fn start_ts(self) -> Option<i64> {
        if self.events.len() > 0 {
            Some(self.events.first().ts)
        } else {
            None
        }
    }

    /// The time of the last event.
    pub open spec fn end_ts(self) -> Option<i64> {
        if self.events.len() > 0 {
            Some(self.events.last().ts)
        } else {
            None
        }
    }

    /// The trace that is recorded of nothing.
    pub open spec fn blank() -> ExportedTraceView {
        ExportedTraceView {
            version: CURRENT_TRACE_FORMAT_VERSION,
            config: TracerConfig::unset(),
            events: Seq::empty(),
            index: Map::empty(),
            pod_lifecycles: Map::empty(),
            initial_state: Seq::empty(),
        }
    }
}

/// Whether the pods of an owner with this specification were observed.
pub open spec fn observed(lifecycles: LifecyclesView, owner: OwnerKey, pod_hash: u64) -> bool {
    lifecycles.contains_key(owner) && lifecycles[owner].contains_key(pod_hash)
}

/// The lifecycle of the pod that is the `seq`th of its owner with this specification: the observed
/// ones, over and over.
pub open spec fn lifecycle(
    lifecycles: LifecyclesView,
    owner: OwnerKey,
    pod_hash: u64,
    seq: int,
) -> PodLifecycleData {
    if observed(lifecycles, owner, pod_hash) {
        let data = lifecycles[owner][pod_hash];
        data[seq % data.len() as int]
    } else {
        PodLifecycleData::Empty
    }
}

/// The contract of [`ExportedTrace::import_decoded`]: what an import ends in, given what the file
/// was decoded to. `duration_to_ts_from` is asked for the end only when there is a first event and
/// a duration.
pub open spec fn import_ends<E, F: FnOnce(i64, &String) -> Result<i64, E>>(
    decoded: Result<TraceFile, rmp_serde::decode::Error>,
    maybe_duration: Option<&String>,
    duration_to_ts_from: F,
    res: Result<ExportedTrace, ImportError<E>>,
) -> bool {
    match decoded {
        Err(err) => res == Err::<ExportedTrace, ImportError<E>>(
            ImportError::Trace(TraceError::ParseFailed(err)),
        ),
        Ok(file) => if file.version < MIN_SUPPORTED_TRACE_FORMAT_VERSION {
            res == Err::<ExportedTrace, ImportError<E>>(
                ImportError::Trace(
                    TraceError::VersionTooOld(file.version, MIN_SUPPORTED_TRACE_FORMAT_VERSION),
                ),
            )
        } else if file.version > CURRENT_TRACE_FORMAT_VERSION {
            res == Err::<ExportedTrace, ImportError<E>>(
                ImportError::Trace(
                    TraceError::VersionTooNew(file.version, CURRENT_TRACE_FORMAT_VERSION),
                ),
            )
        } else {
            match maybe_duration {
                Some(duration) if file.events.len() > 0 => exists|end: Result<i64, E>|
                    {
                        &&& #[trigger] call_ensures(
                            duration_to_ts_from,
                            (file.events[0].ts, duration),
                            end,
                        )
                        &&& match end {
                            Ok(cap_ts) => res is Ok && res->Ok_0@ == file.trace().capped(cap_ts),
                            Err(err) => res == Err::<ExportedTrace, ImportError<E>>(
                                ImportError::Duration(err),
                            ),
                        }
                    },
                _ => res is Ok && res->Ok_0@ == file.trace(),
            }
        },
    }
}

impl ExportedTrace {
    /// Reads a trace. `decode` turns the bytes of the file into its parts; `duration_to_ts_from`
    /// gives the time that lies a duration, given as text, after another. With a duration, only the
    /// events strictly before the time that lies so long after the first event are kept.
    pub fn import<E, D, F>(
        data: Vec<u8>,
        maybe_duration: Option<&String>,
        decode: D,
        duration_to_ts_from: F,
    ) -> (res: Result<ExportedTrace, ImportError<E>>) where
        D: FnOnce(&Vec<u8>) -> Result<TraceFile, rmp_serde::decode::Error>,
        F: FnOnce(i64, &String) -> Result<i64, E>,

        requires
            call_requires(decode, (&data,)),
            forall|ts: i64, duration: &String| call_requires(duration_to_ts_from, (ts, duration)),
        ensures
            exists|decoded: Result<TraceFile, rmp_serde::decode::Error>|
                {
                    &&& #[trigger] call_ensures(decode, (&data,), decoded)
                    &&& import_ends(decoded, maybe_duration, duration_to_ts_from, res)
                },
    {
        let decoded = decode(&data);
        ExportedTrace::import_decoded(decoded, maybe_duration, duration_to_ts_from)
    }

    /// Reads a trace whose file was decoded already.
    pub fn import_decoded<E, F>(
        decoded: Result<TraceFile, rmp_serde::decode::Error>,
        maybe_duration: Option<&String>,
        duration_to_ts_from: F,
    ) -> (res: Result<ExportedTrace, ImportError<E>>) where
        F: FnOnce(i64, &String) -> Result<i64, E>,

        requires
            forall|ts: i64, duration: &String| call_requires(duration_to_ts_from, (ts, duration)),
        ensures
            import_ends(decoded, maybe_duration, duration_to_ts_from, res),
    {
        let file = match decoded {
            Ok(file) => file,
            Err(err) => {
                return Err(ImportError::Trace(TraceError::ParseFailed(err)));
            },
        };
        if file.version < MIN_SUPPORTED_TRACE_FORMAT_VERSION {
            return Err(
                ImportError::Trace(
                    TraceError::VersionTooOld(file.version, MIN_SUPPORTED_TRACE_FORMAT_VERSION),
                ),
            );
        }
        if file.version > CURRENT_TRACE_FORMAT_VERSION {
            return Err(
                ImportError::Trace(
                    TraceError::VersionTooNew(file.version, CURRENT_TRACE_FORMAT_VERSION),
                ),
            );
        }
        let ghost trace = file.trace();
        let mut exported_trace = ExportedTrace::from_file(file);
        match maybe_duration {
            Some(duration) => {
                if exported_trace.events.len() > 0 {
                    let first_ts: i64 = exported_trace.events[0].ts;
                    assert(trace.events[0].ts == first_ts);
                    match duration_to_ts_from(first_ts, duration) {
                        Ok(cap_ts) => {
                            exported_trace.cap_events(cap_ts);
                        },
                        Err(err) => {
                            return Err(ImportError::Duration(err));
                        },
                    }
                }
            },
            None => {},
        }
        Ok(exported_trace)
    }

    fn from_file(file: TraceFile) -> (res: ExportedTrace)
        ensures
            res@ == file.trace(),
            res.events == file.events,
    {
        let initial_state = match file.initial_state {
            Some(objects) => objects,
            None => Vec::new(),
        };
        let res = ExportedTrace {
            version: file.version,
            config: file.config,
            events: file.events,
            index: file.index,
            pod_lifecycles: file.pod_lifecycles,
            initial_state,
        };
        assert(res@.initial_state =~= file.trace().initial_state);
        res
    }

    /// Drops the events at or after a time.
    pub fn cap_events(&mut self, cap_ts: i64)
        ensures
            final(self)@ == old(self)@.capped(cap_ts),
            final(self).version == old(self).version,
            final(self).config == old(self).config,
            final(self).index == old(self).index,
            final(self).pod_lifecycles == old(self).pod_lifecycles,
            final(self).initial_state == old(self).initial_state,
    {
        let ghost pred = |event: TraceEventView| event.ts < cap_ts;
        let ghost all = self.events.deep_view();
        let mut kept: Vec<TraceEvent> = Vec::new();
        let mut events: Vec<TraceEvent> = Vec::new();
        std::mem::swap(&mut events, &mut self.events);
        assert(all.take(0).filter(pred) =~= Seq::empty()) by {
            reveal(Seq::filter);
        }
        assert(kept.deep_view() =~= Seq::empty());
        for event in iter: events.into_iter()
            invariant
                iter.seq().len() == all.len(),
                forall|k: int| 0 <= k < all.len() ==> #[trigger] iter.seq()[k]@ == all[k],
                pred == (|event: TraceEventView| event.ts < cap_ts),
                kept.deep_view() == all.take(iter.index() as int).filter(pred),
        {
            let ghost i = iter.index() as int;
            let ghost view = event@;
            let ghost before = kept.deep_view();
            assert(all.take(i + 1) =~= all.take(i).push(view));
            assert(all.take(i).push(view).drop_last() =~= all.take(i));
            assert(all.take(i + 1).filter(pred) == if pred(view) {
                all.take(i).filter(pred).push(view)
            } else {
                all.take(i).filter(pred)
            }) by {
                reveal(Seq::filter);
            }
            if event.ts < cap_ts {
                kept.push(event);
                assert(kept.deep_view() =~= before.push(view));
            }
        }
        assert(all.take(all.len() as int) =~= all);
        self.events = kept;
    }

    /// The same trace with other events.
    pub fn clone_with_events(&self, events: Vec<TraceEvent>) -> (res: ExportedTrace)
        ensures
            res@ == self@.with_events(events.deep_view()),
            res.events == events,
            res.version == self.version,
            res.config@ == self.config@,
            res.index@ == self.index@,
            res@.pod_lifecycles == self@.pod_lifecycles,
            res.initial_state.deep_view() == self.initial_state.deep_view(),
    {
        let mut trace = self.clone();
        trace.events = events;
        trace
    }

    /// The lifecycle that the `seq`th pod of an owner with this specification shall have: one of
    /// those observed, in turn, or none.
    pub fn lookup_pod_lifecycle(
        &self,
        owner_gvk: &GVK,
        owner_ns_name: &str,
        pod_hash: u64,
        seq: usize,
    ) -> (res: PodLifecycleData)
        requires
            observed(self@.pod_lifecycles, (owner_gvk@, owner_ns_name@), pod_hash)
                ==> self@.pod_lifecycles[(owner_gvk@, owner_ns_name@)][pod_hash].len() > 0,
        ensures
            res == lifecycle(
                self@.pod_lifecycles,
                (owner_gvk@, owner_ns_name@),
                pod_hash,
                seq as int,
            ),
    {
        match self.pod_lifecycles.get(owner_gvk, owner_ns_name) {
            Some(pods) => match pods.get(&pod_hash) {
                Some(data) => data[seq % data.len()],
                None => PodLifecycleData::Empty,
            },
            None => PodLifecycleData::Empty,
        }
    }

    /// Adds an event at the end.
    pub fn append_event(&mut self, event: TraceEvent)
        ensures
            final(self)@ == old(self)@.with_events(old(self)@.events.push(event@)),
            final(self).version == old(self).version,
            final(self).config == old(self).config,
            final(self).index == old(self).index,
            final(self).pod_lifecycles == old(self).pod_lifecycles,
            final(self).initial_state == old(self).initial_state,
    {
        self.events.push(event);
        assert(self@.events =~= old(self)@.events.push(event@));
    }

    /// The time of the last event.
    pub fn end_ts(&self) -> (res: Option<i64>)
        ensures
            res == self@.end_ts(),
    {
        if self.events.len() > 0 {
            let last: usize = self.events.len() - 1;
            assert(self@.events.last() == self.events[last as int]@);
            Some(self.events[last].ts)
        } else {
            None
        }
    }

    /// A list of the events.
    pub fn events(&self) -> (res: Vec<TraceEvent>)
        ensures
            res.deep_view() == self@.events,
    {
        clone_events(&self.events)
    }

    /// Whether the object occurs in the trace.
    pub fn has_obj(&self, gvk: &GVK, ns_name: &str) -> (res: bool)
        ensures
            res == self@.index.contains_key((gvk@, ns_name@)),
    {
        self.index.contains(gvk, ns_name)
    }

    /// The events from the first on, each with the time of the next.
    pub fn iter(&self) -> (res: TraceIterator<'_>)
        ensures
            res.events() == self.events@,
            res.position() == 0,
    {
        TraceIterator::new(&self.events)
    }

    /// How many events there are.
    pub fn len(&self) -> (res: usize)
        ensures
            res == self@.events.len(),
    {
        self.events.len()
    }

    /// Adds an event at the front.
    pub fn prepend_event(&mut self, event: TraceEvent)
        ensures
            final(self)@ == old(self)@.with_events(seq![event@] + old(self)@.events),
            final(self).version == old(self).version,
            final(self).config == old(self).config,
            final(self).index == old(self).index,
            final(self).pod_lifecycles == old(self).pod_lifecycles,
            final(self).initial_state == old(self).initial_state,
    {
        let mut tmp: Vec<TraceEvent> = Vec::new();
        tmp.push(event);
        tmp.append(&mut self.events);
        self.events = tmp;
        assert(self@.events =~= seq![event@] + old(self)@.events);
    }

    /// The time of the first event.
    pub fn start_ts(&self) -> (res: Option<i64>)
        ensures
            res == self@.start_ts(),
    {
        if self.events.len() > 0 {
            assert(self@.events.first() == self.events[0]@);
            Some(self.events[0].ts)
        } else {
            None
        }
    }

    /// The parts of the file that the trace is written to.
    pub fn to_file(&self) -> (res: TraceFile)
        ensures
            res.trace() == self@,
            res.initial_state is Some,
    {
        let copy = self.clone();
        TraceFile {
            version: copy.version,
            config: copy.config,
            events: copy.events,
            index: copy.index,
            pod_lifecycles: copy.pod_lifecycles,
            initial_state: Some(copy.initial_state),
        }
    }

    /// The bytes of the file that the trace is written to. `encode` turns the parts of the file into
    /// its bytes.
    pub fn to_bytes<E, F>(&self, encode: F) -> (res: Result<Vec<u8>, E>) where
        F: FnOnce(&TraceFile) -> Result<Vec<u8>, E>,

        requires
            forall|file: &TraceFile| call_requires(encode, (file,)),
        ensures
            exists|file: &TraceFile|
                {
                    &&& #[trigger] call_ensures(encode, (file,), res)
                    &&& file.trace() == self@
                    &&& file.initial_state is Some
                },
    {
        let file = self.to_file();
        encode(&file)
    }
}

impl Default for ExportedTrace {
    fn default() -> (res: ExportedTrace)
        ensures
            res@ == ExportedTraceView::blank(),
    {
        let res = ExportedTrace {
            version: CURRENT_TRACE_FORMAT_VERSION,
            config: TracerConfig::default(),
            events: Vec::new(),
            index: TraceIndex::default(),
            pod_lifecycles: OwnerMap::new(),
            initial_state: Vec::new(),
        };
        assert(res@.events =~= Seq::empty());
        assert(res@.initial_state =~= Seq::empty());
        assert(res@.pod_lifecycles =~= Map::empty());
        res
    }
}

impl Clone for ExportedTrace {
    fn clone(&self) -> (res: ExportedTrace)
        ensures
            res@ == self@,
    {
        let res = ExportedTrace {
            version: self.version,
            config: self.config.clone(),
            events: clone_events(&self.events),
            index: self.index.clone(),
            pod_lifecycles: self.pod_lifecycles.clone(),
            initial_state: clone_objects(&self.initial_state),
        };
        assert(res@.pod_lifecycles =~= self@.pod_lifecycles);
        res
    }
}

/// A walk over the events of a trace.
pub struct TraceIterator<'a> {
    events: &'a Vec<TraceEvent>,
    idx: usize,
}

/// The time of the event after a place.
pub open spec fn next_ts(events: Seq<TraceEvent>, i: int) -> Option<i64> {
    if i + 1 < events.len() {
        Some(events[i + 1].ts)
    } else {
        None
    }
}

/// What a walk over the events gives: each event, with the time of the one after it.
pub open spec fn walk(events: Seq<TraceEvent>) -> Seq<(TraceEvent, Option<i64>)> {
    Seq::new(events.len(), |i: int| (events[i], next_ts(events, i)))
}

impl<'a> TraceIterator<'a> {
    /// The events that are walked over.
    pub closed spec fn events(self) -> Seq<TraceEvent> {
        self.events@
    }

    /// How many of them were given.
    pub closed spec fn position(self) -> int {
        self.idx as int
    }

    #[verifier::type_invariant]
    spec fn wf(self) -> bool {
        self.idx <= self.events.len()
    }

    pub(crate) fn new(events: &'a Vec<TraceEvent>) -> (res: TraceIterator<'a>)
        ensures
            res.events() == events@,
            res.position() == 0,
    {
        TraceIterator { events, idx: 0 }
    }

    /// The next event, and the time of the event after it.
    pub fn next(&mut self) -> (res: Option<(&'a TraceEvent, Option<i64>)>)
        ensures
            final(self).events() == old(self).events(),
            old(self).position() < old(self).events().len() ==> {
                &&& res matches Some((event, next))
                &&& (*event, next) == walk(old(self).events())[old(self).position()]
                &&& final(self).position() == old(self).position() + 1
            },
            old(self).position() >= old(self).events().len() ==> {
                &&& res is None
                &&& final(self).position() == old(self).position()
            },
    {
        proof {
            use_type_invariant(&*self);
        }
        let events = self.events;
        let i: usize = self.idx;
        if i >= events.len() {
            return None;
        }
        self.idx = i + 1;
        if i < events.len() - 1 {
            Some((&events[i], Some(events[i + 1].ts)))
        } else {
            Some((&events[i], None))
        }
    }
}

} // verus!
