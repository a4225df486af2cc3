//! What holds of traces across the operations on them.

use vstd::prelude::*;

use crate::decimal::decimal;
use crate::event::{TraceEvent, TraceEventView};
use crate::k8s::{OwnerKey, PodLifecycleData};
use crate::owner_map::OwnerMap;
use crate::trace::{
    events_before, import_ends, lifecycle, lifecycles_view, observed, supported, walk, ExportedTrace,
    ExportedTraceView, ImportError, LifecyclesView, PodLifecyclesMap, TraceError, TraceFile,
};

verus! {

/// The events are in the order of their times.
pub open spec fn in_order(events: Seq<TraceEventView>) -> bool {
    forall|i: int, j: int| 0 <= i <= j < events.len() ==> events[i].ts <= events[j].ts
}

proof fn lemma_cap_push(events: Seq<TraceEventView>, event: TraceEventView, cap_ts: i64)
    ensures
        events_before(events.push(event), cap_ts) == if event.ts < cap_ts {
            events_before(events, cap_ts).push(event)
        } else {
            events_before(events, cap_ts)
        },
{
    reveal(Seq::filter);
    assert(events.push(event).drop_last() =~= events);
}

/// A capped trace holds the events before the cap and no others.
pub proof fn law_cap_keeps_earlier_events(events: Seq<TraceEventView>, cap_ts: i64)
    ensures
        forall|event: TraceEventView| #[trigger]
            events_before(events, cap_ts).contains(event) <==> events.contains(event) && event.ts
                < cap_ts,
    decreases events.len(),
{
    let kept = events_before(events, cap_ts);
    if events.len() == 0 {
        reveal(Seq::filter);
        assert(kept =~= events);
    } else {
        let rest = events.drop_last();
        let last = events.last();
        law_cap_keeps_earlier_events(rest, cap_ts);
        assert(rest.push(last) =~= events);
        lemma_cap_push(rest, last, cap_ts);
        let kept_rest = events_before(rest, cap_ts);
        assert forall|event: TraceEventView| #[trigger]
            kept.contains(event) <==> events.contains(event) && event.ts < cap_ts by {
            assert(kept_rest.contains(event) <==> rest.contains(event) && event.ts < cap_ts);
            if kept.contains(event) {
                let i = choose|i: int| 0 <= i < kept.len() && kept[i] == event;
                if i < kept_rest.len() {
                    assert(kept_rest[i] == event);
                    let j = choose|j: int| 0 <= j < rest.len() && rest[j] == event;
                    assert(events[j] == event);
                } else {
                    assert(events[rest.len() as int] == event);
                }
            }
            if events.contains(event) && event.ts < cap_ts {
                let j = choose|j: int| 0 <= j < events.len() && events[j] == event;
                if j < rest.len() {
                    assert(rest[j] == event);
                    let i = choose|i: int| 0 <= i < kept_rest.len() && kept_rest[i] == event;
                    assert(kept[i] == event);
                } else {
                    assert(kept[kept_rest.len() as int] == event);
                }
            }
        }
    }
}

/// Capping a trace whose events are in order cuts off its tail, and nothing else.
pub proof fn law_cap_cuts_tail(events: Seq<TraceEventView>, cap_ts: i64)
    requires
        in_order(events),
    ensures
        events_before(events, cap_ts).len() <= events.len(),
        events_before(events, cap_ts) == events.take(events_before(events, cap_ts).len() as int),
        forall|i: int|
            events_before(events, cap_ts).len() <= i < events.len() ==> cap_ts <= (
            #[trigger] events[i]).ts,
    decreases events.len(),
{
    let kept = events_before(events, cap_ts);
    if events.len() == 0 {
        reveal(Seq::filter);
        assert(kept =~= events);
    } else {
        let rest = events.drop_last();
        let last = events.last();
        let kept_rest = events_before(rest, cap_ts);
        assert(in_order(rest));
        law_cap_cuts_tail(rest, cap_ts);
        assert(rest.push(last) =~= events);
        lemma_cap_push(rest, last, cap_ts);
        if last.ts < cap_ts {
            if kept_rest.len() < rest.len() {
                let i = kept_rest.len() as int;
                assert(cap_ts <= rest[i].ts);
                assert(events[i].ts <= events[rest.len() as int].ts);
            }
            assert(kept =~= events);
        }
        assert(kept =~= events.take(kept.len() as int));
        assert forall|i: int| kept.len() <= i < events.len() implies cap_ts <= (
        #[trigger] events[i]).ts by {
            if i < rest.len() {
                assert(rest[i] == events[i]);
            }
        }
    }
}

/// A cap after the first event leaves the start of the trace where it was.
pub proof fn law_cap_keeps_start(trace: ExportedTraceView, cap_ts: i64)
    requires
        trace.events.len() > 0,
        trace.events.first().ts < cap_ts,
    ensures
        trace.capped(cap_ts).start_ts() == trace.start_ts(),
    decreases trace.events.len(),
{
    let rest = trace.events.drop_last();
    let last = trace.events.last();
    assert(rest.push(last) =~= trace.events);
    lemma_cap_push(rest, last, cap_ts);
    if rest.len() == 0 {
        assert(events_before(rest, cap_ts) =~= Seq::empty()) by {
            reveal(Seq::filter);
        }
    } else {
        assert(rest.first() == trace.events.first());
        law_cap_keeps_start(trace.with_events(rest), cap_ts);
    }
}

/// Of two caps, in whichever order, the earlier one decides.
pub proof fn law_earlier_cap_decides(events: Seq<TraceEventView>, a: i64, b: i64)
    ensures
        events_before(events_before(events, a), b) == events_before(
            events,
            if a <= b {
                a
            } else {
                b
            },
        ),
    decreases events.len(),
{
    if events.len() == 0 {
        reveal(Seq::filter);
    } else {
        let rest = events.drop_last();
        let last = events.last();
        assert(rest.push(last) =~= events);
        law_earlier_cap_decides(rest, a, b);
        lemma_cap_push(rest, last, a);
        lemma_cap_push(rest, last, b);
        lemma_cap_push(events_before(rest, a), last, b);
    }
}

/// A trace of a supported format that was written and is read back without a duration is the trace
/// that was written, whatever the encoding, so long as decoding undoes it.
pub proof fn law_written_trace_reads_back<E, W, D, X, F>(
    trace: ExportedTrace,
    encode: W,
    bytes: Vec<u8>,
    decode: D,
    duration_to_ts_from: F,
    res: Result<ExportedTrace, ImportError<X>>,
) where
    W: FnOnce(&TraceFile) -> Result<Vec<u8>, E>,
    D: FnOnce(&Vec<u8>) -> Result<TraceFile, rmp_serde::decode::Error>,
    F: FnOnce(i64, &String) -> Result<i64, X>,

    requires
        supported(trace.version),
        // what `to_bytes` states of the bytes that it returned
        exists|file: &TraceFile|
            {
                &&& #[trigger] call_ensures(encode, (file,), Ok::<Vec<u8>, E>(bytes))
                &&& file.trace() == trace@
                &&& file.initial_state is Some
            },
        // decoding undoes encoding
        forall|file: &TraceFile, decoded: Result<TraceFile, rmp_serde::decode::Error>|
            call_ensures(encode, (file,), Ok::<Vec<u8>, E>(bytes)) && #[trigger] call_ensures(
                decode,
                (&bytes,),
                decoded,
            ) ==> decoded is Ok && #[trigger] file.trace() == decoded->Ok_0.trace(),
        // what `import` states of its result
        exists|decoded: Result<TraceFile, rmp_serde::decode::Error>|
            {
                &&& #[trigger] call_ensures(decode, (&bytes,), decoded)
                &&& import_ends(decoded, None, duration_to_ts_from, res)
            },
    ensures
        res is Ok,
        res->Ok_0@ == trace@,
{
    let file = choose|file: &TraceFile|
        {
            &&& #[trigger] call_ensures(encode, (file,), Ok::<Vec<u8>, E>(bytes))
            &&& file.trace() == trace@
            &&& file.initial_state is Some
        };
    let decoded = choose|decoded: Result<TraceFile, rmp_serde::decode::Error>|
        {
            &&& #[trigger] call_ensures(decode, (&bytes,), decoded)
            &&& import_ends(decoded, None, duration_to_ts_from, res)
        };
    assert(file.trace() == decoded->Ok_0.trace());
    assert(decoded->Ok_0.trace().version == decoded->Ok_0.version);
}

/// A file of a supported format that is older than the initial state is read as a trace that seeds
/// nothing, with all of its events.
pub proof fn law_old_file_seeds_nothing<E, F>(
    file: TraceFile,
    duration_to_ts_from: F,
    res: Result<ExportedTrace, ImportError<E>>,
) where F: FnOnce(i64, &String) -> Result<i64, E>
    requires
        supported(file.version),
        file.initial_state is None,
        import_ends(Ok(file), None, duration_to_ts_from, res),
    ensures
        res is Ok,
        res->Ok_0@.initial_state.len() == 0,
        res->Ok_0@.version == file.version,
        res->Ok_0@.events == file.events.deep_view(),
{
}

/// A file is read only if its format is supported.
pub proof fn law_only_supported_files_are_read<E, F>(
    file: TraceFile,
    maybe_duration: Option<&String>,
    duration_to_ts_from: F,
    res: Result<ExportedTrace, ImportError<E>>,
) where F: FnOnce(i64, &String) -> Result<i64, E>
    requires
        import_ends(Ok(file), maybe_duration, duration_to_ts_from, res),
    ensures
        res is Ok ==> supported(file.version) && res->Ok_0@.version == file.version,
{
}

/// An import leaves everything but the events as it is in the file. It adds no event, and without a
/// duration it drops none.
pub proof fn law_import_only_drops_events<E, F>(
    file: TraceFile,
    maybe_duration: Option<&String>,
    duration_to_ts_from: F,
    res: Result<ExportedTrace, ImportError<E>>,
) where F: FnOnce(i64, &String) -> Result<i64, E>
    requires
        import_ends(Ok(file), maybe_duration, duration_to_ts_from, res),
        res is Ok,
    ensures
        res->Ok_0@ == file.trace().with_events(res->Ok_0@.events),
        forall|event: TraceEventView| #[trigger]
            res->Ok_0@.events.contains(event) ==> file.trace().events.contains(event),
        maybe_duration is None ==> res->Ok_0@.events == file.trace().events,
{
    let trace = file.trace();
    match maybe_duration {
        Some(duration) if file.events.len() > 0 => {
            let end = choose|end: Result<i64, E>|
                {
                    &&& #[trigger] call_ensures(
                        duration_to_ts_from,
                        (file.events[0].ts, duration),
                        end,
                    )
                    &&& match end {
                        Ok(cap_ts) => res is Ok && res->Ok_0@ == file.trace().capped(cap_ts),
                        Err(err) => res == Err::<ExportedTrace, ImportError<E>>(
                            ImportError::Duration(err),
                        ),
                    }
                };
            law_cap_keeps_earlier_events(trace.events, end->Ok_0);
        },
        _ => {},
    }
}

/// A new trace is of a format that can be read.
pub proof fn law_blank_trace_is_supported()
    ensures
        supported(ExportedTraceView::blank().version),
{
}

/// The observed lifecycles come in turn, and start over after the last.
pub proof fn law_lifecycles_repeat(
    lifecycles: LifecyclesView,
    owner: OwnerKey,
    pod_hash: u64,
    seq: nat,
)
    requires
        observed(lifecycles, owner, pod_hash),
        lifecycles[owner][pod_hash].len() > 0,
    ensures
        seq < lifecycles[owner][pod_hash].len() ==> lifecycle(
            lifecycles,
            owner,
            pod_hash,
            seq as int,
        ) == lifecycles[owner][pod_hash][seq as int],
        lifecycle(
            lifecycles,
            owner,
            pod_hash,
            seq as int + lifecycles[owner][pod_hash].len(),
        ) == lifecycle(lifecycles, owner, pod_hash, seq as int),
        lifecycles[owner][pod_hash].contains(lifecycle(lifecycles, owner, pod_hash, seq as int)),
{
    let len = lifecycles[owner][pod_hash].len() as int;
    vstd::arithmetic::div_mod::lemma_mod_add_multiples_vanish(seq as int, len);
    vstd::arithmetic::div_mod::lemma_mod_bound(seq as int, len);
    if seq < len {
        vstd::arithmetic::div_mod::lemma_small_mod(seq, len as nat);
    }
    assert((seq + len) % len == seq as int % len);
}

/// An event added at the end of a trace is its end, one added at the front its start; neither moves
/// the other end of a trace that has events.
pub proof fn law_added_event_is_the_end(trace: ExportedTraceView, event: TraceEventView)
    ensures
        trace.with_events(trace.events.push(event)).end_ts() == Some(event.ts),
        trace.with_events(seq![event] + trace.events).start_ts() == Some(event.ts),
        trace.events.len() > 0 ==> {
            &&& trace.with_events(trace.events.push(event)).start_ts() == trace.start_ts()
            &&& trace.with_events(seq![event] + trace.events).end_ts() == trace.end_ts()
        },
{
}

/// A walk gives every event once, in order, each with the time of the event that it gives next; the
/// last has none.
pub proof fn law_walk_gives_every_event(events: Seq<TraceEvent>)
    ensures
        walk(events).map_values(|step: (TraceEvent, Option<i64>)| step.0) == events,
        forall|i: int|
            0 <= i < events.len() - 1 ==> (#[trigger] walk(events)[i]).1 == Some(
                walk(events)[i + 1].0.ts,
            ),
        events.len() > 0 ==> walk(events).last().1 is None,
{
    assert(walk(events).map_values(|step: (TraceEvent, Option<i64>)| step.0) =~= events);
}

/// The contents of a trace are those of its fields, each event and each object where it stands.
pub proof fn law_trace_is_its_fields(trace: ExportedTrace)
    ensures
        trace@.version == trace.version,
        trace@.config == trace.config@,
        trace@.events.len() == trace.events@.len(),
        forall|i: int|
            0 <= i < trace.events@.len() ==> #[trigger] trace@.events[i] == trace.events@[i]@,
        trace@.index == trace.index@,
        trace@.pod_lifecycles == lifecycles_view(trace.pod_lifecycles),
        trace@.initial_state.len() == trace.initial_state@.len(),
        forall|i: int|
            0 <= i < trace.initial_state@.len() ==> #[trigger] trace@.initial_state[i]
                == trace.initial_state@[i]@,
{
}

/// The trace that a file holds has the fields of the file, each event and each object where it stands.
/// It seeds the objects of the file's initial state, or nothing if the file has none.
pub proof fn law_file_holds_its_fields(file: TraceFile)
    ensures
        file.trace().version == file.version,
        file.trace().config == file.config@,
        file.trace().events.len() == file.events@.len(),
        forall|i: int|
            0 <= i < file.events@.len() ==> #[trigger] file.trace().events[i] == file.events@[i]@,
        file.trace().index == file.index@,
        file.trace().pod_lifecycles == lifecycles_view(file.pod_lifecycles),
        file.initial_state is None ==> file.trace().initial_state.len() == 0,
        file.initial_state matches Some(objects) ==> {
            &&& file.trace().initial_state.len() == objects@.len()
            &&& forall|i: int|
                0 <= i < objects@.len() ==> #[trigger] file.trace().initial_state[i] == objects@[i]@
        },
{
}

/// The lifecycles of a trace are those that were recorded, for the owners and the specifications that
/// they were recorded for.
pub proof fn law_lifecycles_are_as_recorded(
    lifecycles: OwnerMap<PodLifecyclesMap>,
    owner: OwnerKey,
    pod_hash: u64,
)
    ensures
        lifecycles_view(lifecycles).contains_key(owner) <==> lifecycles@.contains_key(owner),
        lifecycles@.contains_key(owner) ==> {
            &&& lifecycles_view(lifecycles)[owner].contains_key(pod_hash)
                <==> lifecycles@[owner]@.contains_key(pod_hash)
            &&& lifecycles@[owner]@.contains_key(pod_hash) ==> lifecycles_view(
                lifecycles,
            )[owner][pod_hash] == lifecycles@[owner]@[pod_hash]@
        },
{
}

/// Where no pod of an owner with a specification was recorded, there is no lifecycle, whichever pod is
/// asked for.
pub proof fn law_unrecorded_pods_have_no_lifecycle(
    lifecycles: LifecyclesView,
    owner: OwnerKey,
    pod_hash: u64,
    seq: int,
)
    requires
        !lifecycles.contains_key(owner) || !lifecycles[owner].contains_key(pod_hash),
    ensures
        lifecycle(lifecycles, owner, pod_hash, seq) == PodLifecycleData::Empty,
{
}

/// The `seq`th pod of an owner with a specification has the lifecycle that was recorded at `seq`, less
/// as many times the number of recorded ones as it takes to be among them.
pub proof fn law_recorded_lifecycles_come_in_turn(
    lifecycles: LifecyclesView,
    owner: OwnerKey,
    pod_hash: u64,
    rounds: nat,
    k: nat,
)
    requires
        lifecycles.contains_key(owner),
        lifecycles[owner].contains_key(pod_hash),
        k < lifecycles[owner][pod_hash].len(),
    ensures
        lifecycle(
            lifecycles,
            owner,
            pod_hash,
            rounds * lifecycles[owner][pod_hash].len() + k as int,
        ) == lifecycles[owner][pod_hash][k as int],
{
    let len = lifecycles[owner][pod_hash].len() as int;
    vstd::arithmetic::div_mod::lemma_fundamental_div_mod_converse(
        rounds * len + k as int,
        len,
        rounds as int,
        k as int,
    );
}

/// `kept` are the events of `all` that are strictly before a time, each as often as it is there, and in
/// the order in which they are there.
pub open spec fn keeps_earlier(
    all: Seq<TraceEventView>,
    kept: Seq<TraceEventView>,
    end_ts: i64,
) -> bool {
    exists|places: Seq<int>| #[trigger] are_earlier(all, kept, end_ts, places)
}

/// The events at the places, in order, are all those of `all` that are strictly before a time.
pub open spec fn are_earlier(
    all: Seq<TraceEventView>,
    kept: Seq<TraceEventView>,
    end_ts: i64,
    places: Seq<int>,
) -> bool {
    &&& places.len() == kept.len()
    &&& forall|a: int, b: int| 0 <= a < b < places.len() ==> places[a] < places[b]
    &&& forall|a: int|
        0 <= a < places.len() ==> 0 <= #[trigger] places[a] < all.len() && kept[a] == all[places[a]]
    &&& forall|i: int|
        0 <= i < all.len() ==> ((#[trigger] all[i]).ts < end_ts <==> places.contains(i))
}

/// A cap keeps the events strictly before it, each as often as it was there and in the order in which
/// they were there, and drops all others.
pub proof fn law_cap_keeps_every_earlier_event_in_order(events: Seq<TraceEventView>, cap_ts: i64)
    ensures
        keeps_earlier(events, events_before(events, cap_ts), cap_ts),
    decreases events.len(),
{
    let kept = events_before(events, cap_ts);
    if events.len() == 0 {
        reveal(Seq::filter);
        assert(are_earlier(events, kept, cap_ts, Seq::empty()));
    } else {
        let rest = events.drop_last();
        let last = events.last();
        let n = rest.len() as int;
        law_cap_keeps_every_earlier_event_in_order(rest, cap_ts);
        assert(rest.push(last) =~= events);
        lemma_cap_push(rest, last, cap_ts);
        let kept_rest = events_before(rest, cap_ts);
        let earlier = choose|places: Seq<int>| #[trigger]
            are_earlier(rest, kept_rest, cap_ts, places);
        let places = if last.ts < cap_ts {
            earlier.push(n)
        } else {
            earlier
        };
        assert forall|i: int| 0 <= i < events.len() implies ((#[trigger] events[i]).ts < cap_ts
            <==> places.contains(i)) by {
            if i < n {
                assert(rest[i] == events[i]);
                if earlier.contains(i) {
                    let a = choose|a: int| 0 <= a < earlier.len() && earlier[a] == i;
                    assert(places[a] == i);
                }
                if places.contains(i) {
                    let a = choose|a: int| 0 <= a < places.len() && places[a] == i;
                    assert(earlier[a] == i);
                }
            } else if last.ts < cap_ts {
                assert(places[earlier.len() as int] == i);
            } else if places.contains(i) {
                let a = choose|a: int| 0 <= a < places.len() && places[a] == i;
                assert(0 <= earlier[a] < rest.len());
            }
        }
        assert forall|a: int| 0 <= a < places.len() implies 0 <= #[trigger] places[a] < events.len()
            && kept[a] == events[places[a]] by {
            if a < earlier.len() {
                assert(places[a] == earlier[a]);
                assert(rest[earlier[a]] == events[earlier[a]]);
            }
        }
        assert(are_earlier(events, kept, cap_ts, places));
    }
}

/// Other events, and a cap, leave everything else of a trace alone, whatever the events are.
pub proof fn law_other_events_leave_the_rest_alone(
    trace: ExportedTraceView,
    events: Seq<TraceEventView>,
    cap_ts: i64,
)
    ensures
        trace.with_events(events).events == events,
        trace.with_events(events).version == trace.version,
        trace.with_events(events).config == trace.config,
        trace.with_events(events).index == trace.index,
        trace.with_events(events).pod_lifecycles == trace.pod_lifecycles,
        trace.with_events(events).initial_state == trace.initial_state,
        keeps_earlier(trace.events, trace.capped(cap_ts).events, cap_ts),
        trace.capped(cap_ts).version == trace.version,
        trace.capped(cap_ts).config == trace.config,
        trace.capped(cap_ts).index == trace.index,
        trace.capped(cap_ts).pod_lifecycles == trace.pod_lifecycles,
        trace.capped(cap_ts).initial_state == trace.initial_state,
{
    law_cap_keeps_every_earlier_event_in_order(trace.events, cap_ts);
}

/// An import that succeeds, with a duration or without, leaves every field but the events as it is in
/// the file.
pub proof fn law_import_leaves_the_rest_alone<E, F>(
    file: TraceFile,
    maybe_duration: Option<&String>,
    duration_to_ts_from: F,
    res: Result<ExportedTrace, ImportError<E>>,
) where F: FnOnce(i64, &String) -> Result<i64, E>
    requires
        import_ends(Ok(file), maybe_duration, duration_to_ts_from, res),
        res is Ok,
    ensures
        res->Ok_0@.version == file.version,
        res->Ok_0@.config == file.config@,
        res->Ok_0@.index == file.index@,
        res->Ok_0@.pod_lifecycles == lifecycles_view(file.pod_lifecycles),
        file.initial_state is None ==> res->Ok_0@.initial_state.len() == 0,
        file.initial_state matches Some(objects) ==> {
            &&& res->Ok_0@.initial_state.len() == objects@.len()
            &&& forall|i: int|
                0 <= i < objects@.len() ==> #[trigger] res->Ok_0@.initial_state[i] == objects@[i]@
        },
{
    law_file_holds_its_fields(file);
}

/// Without a duration, an import that succeeds keeps every event of the file. With one, it asks for the
/// time that lies so long after the first event, and keeps the events strictly before that time.
pub proof fn law_import_keeps_events_before_the_end<E, F>(
    file: TraceFile,
    maybe_duration: Option<&String>,
    duration_to_ts_from: F,
    res: Result<ExportedTrace, ImportError<E>>,
) where F: FnOnce(i64, &String) -> Result<i64, E>
    requires
        import_ends(Ok(file), maybe_duration, duration_to_ts_from, res),
        res is Ok,
    ensures
        maybe_duration is None || file.events@.len() == 0 ==> {
            &&& res->Ok_0@.events.len() == file.events@.len()
            &&& forall|i: int|
                0 <= i < file.events@.len() ==> #[trigger] res->Ok_0@.events[i] == file.events@[i]@
        },
        maybe_duration matches Some(duration) ==> (file.events@.len() > 0 ==> exists|end_ts: i64|
            {
                &&& #[trigger] call_ensures(
                    duration_to_ts_from,
                    (file.events@[0].ts, duration),
                    Ok::<i64, E>(end_ts),
                )
                &&& keeps_earlier(
                    file.events@.map_values(|event: TraceEvent| event@),
                    res->Ok_0@.events,
                    end_ts,
                )
            }),
{
    match maybe_duration {
        Some(duration) if file.events.len() > 0 => {
            let end = choose|end: Result<i64, E>|
                {
                    &&& #[trigger] call_ensures(
                        duration_to_ts_from,
                        (file.events[0].ts, duration),
                        end,
                    )
                    &&& match end {
                        Ok(cap_ts) => res is Ok && res->Ok_0@ == file.trace().capped(cap_ts),
                        Err(err) => res == Err::<ExportedTrace, ImportError<E>>(
                            ImportError::Duration(err),
                        ),
                    }
                };
            let end_ts = end->Ok_0;
            assert(call_ensures(
                duration_to_ts_from,
                (file.events@[0].ts, duration),
                Ok::<i64, E>(end_ts),
            ));
            assert(file.trace().events =~= file.events@.map_values(|event: TraceEvent| event@));
            law_cap_keeps_every_earlier_event_in_order(file.trace().events, end_ts);
        },
        _ => {},
    }
}

/// An import fails for one of four causes, and says which: the file could not be decoded, its version is
/// less than two or greater than three, or there is no time that lies so long after the first event.
/// Otherwise it succeeds.
pub proof fn law_import_fails_only_for_cause<E, F>(
    decoded: Result<TraceFile, rmp_serde::decode::Error>,
    maybe_duration: Option<&String>,
    duration_to_ts_from: F,
    res: Result<ExportedTrace, ImportError<E>>,
) where F: FnOnce(i64, &String) -> Result<i64, E>
    requires
        import_ends(decoded, maybe_duration, duration_to_ts_from, res),
    ensures
        decoded matches Err(err) ==> res == Err::<ExportedTrace, ImportError<E>>(
            ImportError::Trace(TraceError::ParseFailed(err)),
        ),
        decoded matches Ok(file) ==> {
            &&& file.version < 2 ==> res == Err::<ExportedTrace, ImportError<E>>(
                ImportError::Trace(TraceError::VersionTooOld(file.version, 2)),
            )
            &&& file.version > 3 ==> res == Err::<ExportedTrace, ImportError<E>>(
                ImportError::Trace(TraceError::VersionTooNew(file.version, 3)),
            )
            &&& 2 <= file.version <= 3 && (maybe_duration is None || file.events@.len() == 0)
                ==> res is Ok
            &&& 2 <= file.version <= 3 && res is Err ==> {
                &&& file.events@.len() > 0
                &&& maybe_duration matches Some(duration)
                &&& res->Err_0 matches ImportError::Duration(err)
                &&& call_ensures(
                    duration_to_ts_from,
                    (file.events@[0].ts, duration),
                    Err::<i64, E>(err),
                )
            }
        },
{
}

/// The formats that can be read are the second and the third.
pub proof fn law_second_and_third_format_are_supported(version: u16)
    ensures
        supported(version) <==> version == 2 || version == 3,
{
}

/// A trace starts with its first event and ends with its last; without events it does neither.
pub proof fn law_ends_of_a_trace_are_its_first_and_last_event(trace: ExportedTraceView)
    ensures
        trace.start_ts() is Some <==> trace.events.len() > 0,
        trace.end_ts() is Some <==> trace.events.len() > 0,
        trace.events.len() > 0 ==> trace.start_ts() == Some(trace.events[0].ts),
        trace.events.len() > 0 ==> trace.end_ts() == Some(trace.events[trace.events.len() - 1].ts),
{
}

/// The trace that is recorded of nothing is of the third format, and empty in every field.
pub proof fn law_blank_trace_is_empty(owner: OwnerKey)
    ensures
        ExportedTraceView::blank().version == 3,
        ExportedTraceView::blank().config == "{}"@,
        ExportedTraceView::blank().events.len() == 0,
        !ExportedTraceView::blank().index.contains_key(owner),
        !ExportedTraceView::blank().pod_lifecycles.contains_key(owner),
        ExportedTraceView::blank().initial_state.len() == 0,
{
    reveal_strlit("{}");
    assert(ExportedTraceView::blank().config =~= "{}"@);
}

/// What a user is told of a version names the version of the file and the limit, in decimal, between
/// words that depend on neither.
pub proof fn law_version_errors_name_both_versions(version: u16, limit: u16)
    ensures
        TraceError::VersionTooOld(version, limit).text() == "trace file version "@ + decimal(
            version as nat,
        ) + " is older than the minimum supported version "@ + decimal(limit as nat)
            + "; please re-record with a newer SimKube release"@,
        TraceError::VersionTooNew(version, limit).text() == "trace file version "@ + decimal(
            version as nat,
        ) + " is newer than this binary supports (max "@ + decimal(limit as nat)
            + "); please upgrade SimKube"@,
{
}

/// The step of a walk at a place is the event there and the time of the event after it; only the last
/// has no time.
pub proof fn law_walk_is_by_place(events: Seq<TraceEvent>, i: int)
    requires
        0 <= i < events.len(),
    ensures
        walk(events).len() == events.len(),
        walk(events)[i].0 == events[i],
        i < events.len() - 1 ==> walk(events)[i].1 == Some(events[i + 1].ts),
        i == events.len() - 1 ==> walk(events)[i].1 is None,
{
}

} // verus!
