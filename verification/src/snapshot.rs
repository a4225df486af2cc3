//! Snapshots of a running cluster.

use vstd::prelude::*;

verus! {

/// What a snapshot is taken of, and where it goes.
#[derive(Debug)]
pub struct Args {
    /// The file that says which resources to snapshot.
    pub config_file: String,
    /// The namespaces to leave out.
    pub excluded_namespaces: Vec<String>,
    /// The file to save the trace to.
    pub output: String,
    /// Whether to capture the state of the cluster verbatim, instead of a stream of events.
    pub seed: bool,
    /// The label keys of which a cluster-scoped object must carry one to be captured in a seed.
    pub cluster_required_labels: Vec<String>,
}

/// The contents of [`Args`].
pub ghost struct ArgsView {
    pub config_file: Seq<char>,
    pub excluded_namespaces: Seq<Seq<char>>,
    pub output: Seq<char>,
    pub seed: bool,
    pub cluster_required_labels: Seq<Seq<char>>,
}

impl View for Args {
    type V = ArgsView;

    open spec fn view(&self) -> ArgsView {
        ArgsView {
            config_file: self.config_file@,
            excluded_namespaces: self.excluded_namespaces.deep_view(),
            output: self.output@,
            seed: self.seed,
            cluster_required_labels: self.cluster_required_labels.deep_view(),
        }
    }
}

/// What is left out of an export.
#[derive(Debug)]
pub struct ExportFilters {
    pub excluded_namespaces: Vec<String>,
    pub excluded_labels: Vec<String>,
}

/// The contents of [`ExportFilters`].
pub ghost struct ExportFiltersView {
    pub excluded_namespaces: Seq<Seq<char>>,
    pub excluded_labels: Seq<Seq<char>>,
}

impl View for ExportFilters {
    type V = ExportFiltersView;

    open spec fn view(&self) -> ExportFiltersView {
        ExportFiltersView {
            excluded_namespaces: self.excluded_namespaces.deep_view(),
            excluded_labels: self.excluded_labels.deep_view(),
        }
    }
}

impl ExportFilters {
    pub fn new(excluded_namespaces: Vec<String>, excluded_labels: Vec<String>) -> (res:
        ExportFilters)
        ensures
            res@.excluded_namespaces == excluded_namespaces.deep_view(),
            res@.excluded_labels == excluded_labels.deep_view(),
    {
        ExportFilters { excluded_namespaces, excluded_labels }
    }
}

/// What a snapshot waits for.
#[derive(Clone, Copy, Debug, PartialEq, Eq, Structural)]
pub enum SnapshotState {
    Idle,
    LoadingConfig,
    StartingTracer,
    WaitingReady,
    ShuttingDown,
    Exporting,
    Writing,
    Finished,
}

/// What happened.
#[derive(Debug)]
pub enum SnapshotEvent<E> {
    Begin,
    ConfigLoaded,
    TracerStarted,
    TracerReady,
    TracerStopped,
    /// The bytes of the trace.
    Exported(Vec<u8>),
    Written,
    /// What was to be done failed.
    Failed(E),
}

/// The contents of a [`SnapshotEvent`].
pub ghost enum SnapshotEventView<E> {
    Begin,
    ConfigLoaded,
    TracerStarted,
    TracerReady,
    TracerStopped,
    Exported(Seq<u8>),
    Written,
    Failed(E),
}

impl<E> View for SnapshotEvent<E> {
    type V = SnapshotEventView<E>;

    open spec fn view(&self) -> SnapshotEventView<E> {
        match *self {
            SnapshotEvent::Begin => SnapshotEventView::Begin,
            SnapshotEvent::ConfigLoaded => SnapshotEventView::ConfigLoaded,
            SnapshotEvent::TracerStarted => SnapshotEventView::TracerStarted,
            SnapshotEvent::TracerReady => SnapshotEventView::TracerReady,
            SnapshotEvent::TracerStopped => SnapshotEventView::TracerStopped,
            SnapshotEvent::Exported(data) => SnapshotEventView::Exported(data@),
            SnapshotEvent::Written => SnapshotEventView::Written,
            SnapshotEvent::Failed(err) => SnapshotEventView::Failed(err),
        }
    }
}

/// What to do next.
#[derive(Debug)]
pub enum SnapshotAction<E> {
    /// Read the configuration from a file.
    LoadConfig(String),
    /// Connect to the cluster and start to trace it.
    StartTracer,
    /// Wait until the tracer has seen the cluster.
    WaitReady,
    /// Stop the tracer.
    StopTracer,
    /// Export the state of the cluster, with the label keys that cluster-scoped objects need.
    ExportSeed(ExportFilters, Vec<String>),
    /// Export the events from the first time up to the second.
    Export(i64, i64, ExportFilters),
    /// Write the bytes of the trace to a file.
    WriteTrace(String, Vec<u8>),
    /// The snapshot is taken.
    Finish,
    /// The snapshot failed.
    Abort(E),
}

/// The contents of a [`SnapshotAction`].
pub ghost enum SnapshotActionView<E> {
    LoadConfig(Seq<char>),
    StartTracer,
    WaitReady,
    StopTracer,
    ExportSeed(ExportFiltersView, Seq<Seq<char>>),
    Export(i64, i64, ExportFiltersView),
    WriteTrace(Seq<char>, Seq<u8>),
    Finish,
    Abort(E),
}

impl<E> View for SnapshotAction<E> {
    type V = SnapshotActionView<E>;

    open spec fn view(&self) -> SnapshotActionView<E> {
        match *self {
            SnapshotAction::LoadConfig(path) => SnapshotActionView::LoadConfig(path@),
            SnapshotAction::StartTracer => SnapshotActionView::StartTracer,
            SnapshotAction::WaitReady => SnapshotActionView::WaitReady,
            SnapshotAction::StopTracer => SnapshotActionView::StopTracer,
            SnapshotAction::ExportSeed(filters, labels) => SnapshotActionView::ExportSeed(
                filters@,
                labels.deep_view(),
            ),
            SnapshotAction::Export(start_ts, end_ts, filters) => SnapshotActionView::Export(
                start_ts,
                end_ts,
                filters@,
            ),
            SnapshotAction::WriteTrace(path, data) => SnapshotActionView::WriteTrace(path@, data@),
            SnapshotAction::Finish => SnapshotActionView::Finish,
            SnapshotAction::Abort(err) => SnapshotActionView::Abort(err),
        }
    }
}

/// One step of a snapshot: what it waits for next, what the user is told, and what to do.
#[derive(Debug)]
pub struct SnapshotStep<E> {
    pub state: SnapshotState,
    pub messages: Vec<String>,
    pub action: SnapshotAction<E>,
}

/// The contents of a [`SnapshotStep`].
pub ghost struct SnapshotStepView<E> {
    pub state: SnapshotState,
    pub messages: Seq<Seq<char>>,
    pub action: SnapshotActionView<E>,
}

impl<E> View for SnapshotStep<E> {
    type V = SnapshotStepView<E>;

    open spec fn view(&self) -> SnapshotStepView<E> {
        SnapshotStepView {
            state: self.state,
            messages: self.messages.deep_view(),
            action: self.action@,
        }
    }
}

/// What can happen in a state. Only the steps that go through files or the cluster can fail.
pub open spec fn expected<E>(state: SnapshotState, event: SnapshotEventView<E>) -> bool {
    match state {
        SnapshotState::Idle => event is Begin,
        SnapshotState::LoadingConfig => event is ConfigLoaded || event is Failed,
        SnapshotState::StartingTracer => event is TracerStarted || event is Failed,
        SnapshotState::WaitingReady => event is TracerReady,
        SnapshotState::ShuttingDown => event is TracerStopped,
        SnapshotState::Exporting => event is Exported || event is Failed,
        SnapshotState::Writing => event is Written || event is Failed,
        SnapshotState::Finished => false,
    }
}

impl ArgsView {
    /// What is left out of the export: the namespaces that were named, and no labels.
    pub open spec fn filters(self) -> ExportFiltersView {
        ExportFiltersView {
            excluded_namespaces: self.excluded_namespaces,
            excluded_labels: Seq::empty(),
        }
    }

    /// What the user is told before the export. Label keys that have no effect are pointed out.
    pub open spec fn export_messages(self) -> Seq<Seq<char>> {
        let exporting = "Exporting snapshot data from store..."@;
        if !self.seed && self.cluster_required_labels.len() > 0 {
            seq![exporting, "warning: --cluster-required-label is ignored without --seed"@]
        } else {
            seq![exporting]
        }
    }

    /// The step that follows on an event at a time.
    pub open spec fn step<E>(self, event: SnapshotEventView<E>, now: i64) -> SnapshotStepView<E> {
        match event {
            SnapshotEventView::Begin => SnapshotStepView {
                state: SnapshotState::LoadingConfig,
                messages: seq!["Reading config from "@ + self.config_file + "..."@],
                action: SnapshotActionView::LoadConfig(self.config_file),
            },
            SnapshotEventView::ConfigLoaded => SnapshotStepView {
                state: SnapshotState::StartingTracer,
                messages: seq!["Taking snapshot from Kubernetes cluster..."@],
                action: SnapshotActionView::StartTracer,
            },
            SnapshotEventView::TracerStarted => SnapshotStepView {
                state: SnapshotState::WaitingReady,
                messages: Seq::empty(),
                action: SnapshotActionView::WaitReady,
            },
            SnapshotEventView::TracerReady => SnapshotStepView {
                state: SnapshotState::ShuttingDown,
                messages: Seq::empty(),
                action: SnapshotActionView::StopTracer,
            },
            SnapshotEventView::TracerStopped => SnapshotStepView {
                state: SnapshotState::Exporting,
                messages: self.export_messages(),
                action: if self.seed {
                    SnapshotActionView::ExportSeed(self.filters(), self.cluster_required_labels)
                } else {
                    SnapshotActionView::Export(now, (now + 1) as i64, self.filters())
                },
            },
            SnapshotEventView::Exported(data) => SnapshotStepView {
                state: SnapshotState::Writing,
                messages: seq!["Writing trace file: "@ + self.output],
                action: SnapshotActionView::WriteTrace(self.output, data),
            },
            SnapshotEventView::Written => SnapshotStepView {
                state: SnapshotState::Finished,
                messages: seq!["Done!"@],
                action: SnapshotActionView::Finish,
            },
            SnapshotEventView::Failed(err) => SnapshotStepView {
                state: SnapshotState::Finished,
                messages: Seq::empty(),
                action: SnapshotActionView::Abort(err),
            },
        }
    }
}

fn clone_strings(strings: &Vec<String>) -> (res: Vec<String>)
    ensures
        res.deep_view() == strings.deep_view(),
{
    let res = strings.clone();
    assert(res.deep_view() =~= strings.deep_view());
    res
}

fn no_strings() -> (res: Vec<String>)
    ensures
        res.deep_view() == Seq::<Seq<char>>::empty(),
{
    let res: Vec<String> = Vec::new();
    assert(res.deep_view() =~= Seq::<Seq<char>>::empty());
    res
}

fn message(text: String) -> (res: Vec<String>)
    ensures
        res.deep_view() == seq![text@],
{
    let mut res: Vec<String> = Vec::new();
    res.push(text);
    assert(res.deep_view() =~= seq![text@]);
    res
}

impl Args {
    fn filters(&self) -> (res: ExportFilters)
        ensures
            res@ == self@.filters(),
    {
        ExportFilters::new(clone_strings(&self.excluded_namespaces), no_strings())
    }

    fn export_messages(&self) -> (res: Vec<String>)
        ensures
            res.deep_view() == self@.export_messages(),
    {
        let mut res = message("Exporting snapshot data from store...".to_string());
        if !self.seed && !self.cluster_required_labels.is_empty() {
            let ghost first = res.deep_view();
            res.push("warning: --cluster-required-label is ignored without --seed".to_string());
            assert(res.deep_view() =~= first.push(
                "warning: --cluster-required-label is ignored without --seed"@,
            ));
            assert(res.deep_view() =~= self@.export_messages());
        }
        res
    }
}

/// `clockabilly::UtcClock`'s `now_ts`: the time, in whole seconds since the epoch. That it is less than
/// the greatest number is all that is claimed of it: it is made of a day, which is an `i32`, and of the
/// seconds of that day. On a machine whose clock stands before the epoch, the call panics.
#[verifier::external_body]
fn now_ts() -> (res: i64)
    ensures
        res < i64::MAX,
{
    clockabilly::Clockable::now_ts(&clockabilly::UtcClock)
}

/// The clock may give this time.
pub closed spec fn is_clock_reading(now: i64) -> bool {
    call_ensures(now_ts, (), now)
}

/// Takes a snapshot, one step at a time: what to do next, given what happened. Start with
/// [`SnapshotEvent::Begin`]. The time is read from the clock.
pub fn cmd<E>(args: &Args, state: SnapshotState, event: SnapshotEvent<E>) -> (res: SnapshotStep<E>)
    requires
        expected(state, event@),
    ensures
        exists|now: i64|
            {
                &&& now < i64::MAX
                &&& event is TracerStopped && !args.seed ==> is_clock_reading(now)
                &&& res@ == #[trigger] args@.step(event@, now)
            },
{
    let now: i64 = match event {
        SnapshotEvent::TracerStopped => if args.seed {
            0
        } else {
            now_ts()
        },
        _ => 0,
    };
    step_at(args, state, event, now)
}

/// What [`cmd`] does next at a time.
pub fn step_at<E>(
    args: &Args,
    state: SnapshotState,
    event: SnapshotEvent<E>,
    now: i64,
) -> (res: SnapshotStep<E>)
    requires
        expected(state, event@),
        now < i64::MAX,
    ensures
        res@ == args@.step(event@, now),
{
    match event {
        SnapshotEvent::Begin => SnapshotStep {
            state: SnapshotState::LoadingConfig,
            messages: message(
                "Reading config from ".to_string().concat(args.config_file.as_str()).concat("..."),
            ),
            action: SnapshotAction::LoadConfig(args.config_file.clone()),
        },
        SnapshotEvent::ConfigLoaded => SnapshotStep {
            state: SnapshotState::StartingTracer,
            messages: message("Taking snapshot from Kubernetes cluster...".to_string()),
            action: SnapshotAction::StartTracer,
        },
        SnapshotEvent::TracerStarted => SnapshotStep {
            state: SnapshotState::WaitingReady,
            messages: no_strings(),
            action: SnapshotAction::WaitReady,
        },
        SnapshotEvent::TracerReady => SnapshotStep {
            state: SnapshotState::ShuttingDown,
            messages: no_strings(),
            action: SnapshotAction::StopTracer,
        },
        SnapshotEvent::TracerStopped => SnapshotStep {
            state: SnapshotState::Exporting,
            messages: args.export_messages(),
            action: if args.seed {
                SnapshotAction::ExportSeed(
                    args.filters(),
                    clone_strings(&args.cluster_required_labels),
                )
            } else {
                let start_ts: i64 = now;
                let end_ts: i64 = start_ts + 1;
                SnapshotAction::Export(start_ts, end_ts, args.filters())
            },
        },
        SnapshotEvent::Exported(data) => SnapshotStep {
            state: SnapshotState::Writing,
            messages: message("Writing trace file: ".to_string().concat(args.output.as_str())),
            action: SnapshotAction::WriteTrace(args.output.clone(), data),
        },
        SnapshotEvent::Written => SnapshotStep {
            state: SnapshotState::Finished,
            messages: message("Done!".to_string()),
            action: SnapshotAction::Finish,
        },
        SnapshotEvent::Failed(err) => SnapshotStep {
            state: SnapshotState::Finished,
            messages: no_strings(),
            action: SnapshotAction::Abort(err),
        },
    }
}

/// What is done on the events that happen one after the other, each at its time.
pub open spec fn actions<E>(
    args: ArgsView,
    events: Seq<SnapshotEventView<E>>,
    times: Seq<i64>,
) -> Seq<SnapshotActionView<E>> {
    Seq::new(events.len(), |i: int| args.step(events[i], times[i]).action)
}

/// The state after the events that happened before a place.
pub open spec fn state_at<E>(
    args: ArgsView,
    events: Seq<SnapshotEventView<E>>,
    times: Seq<i64>,
    i: int,
) -> SnapshotState {
    if i == 0 {
        SnapshotState::Idle
    } else {
        args.step(events[i - 1], times[i - 1]).state
    }
}

/// Each event is one that can happen after those before it; the first begins the snapshot.
pub open spec fn is_run<E>(
    args: ArgsView,
    events: Seq<SnapshotEventView<E>>,
    times: Seq<i64>,
) -> bool {
    &&& times.len() == events.len()
    &&& forall|i: int| #![trigger events[i]]
        0 <= i < events.len() ==> times[i] < i64::MAX && expected(
            state_at(args, events, times, i),
            events[i],
        )
}

/// The events of a snapshot that succeeds.
pub open spec fn successful_events<E>(data: Seq<u8>) -> Seq<SnapshotEventView<E>> {
    seq![
        SnapshotEventView::Begin,
        SnapshotEventView::ConfigLoaded,
        SnapshotEventView::TracerStarted,
        SnapshotEventView::TracerReady,
        SnapshotEventView::TracerStopped,
        SnapshotEventView::Exported(data),
        SnapshotEventView::Written,
    ]
}

/// What a snapshot that succeeds does: it loads the configuration, traces the cluster until the tracer
/// has seen it, stops the tracer, exports once, writes what was exported to the output file, and
/// finishes. Events are exported from the second in which the tracer stopped.
pub open spec fn successful_actions<E>(args: ArgsView, stopped: i64, data: Seq<u8>) -> Seq<
    SnapshotActionView<E>,
> {
    seq![
        SnapshotActionView::LoadConfig(args.config_file),
        SnapshotActionView::StartTracer,
        SnapshotActionView::WaitReady,
        SnapshotActionView::StopTracer,
        if args.seed {
            SnapshotActionView::ExportSeed(args.filters(), args.cluster_required_labels)
        } else {
            SnapshotActionView::Export(stopped, (stopped + 1) as i64, args.filters())
        },
        SnapshotActionView::WriteTrace(args.output, data),
        SnapshotActionView::Finish,
    ]
}

/// A snapshot in which nothing fails is a run, and does what a successful snapshot does.
pub proof fn law_successful_snapshot<E>(args: ArgsView, times: Seq<i64>, data: Seq<u8>)
    requires
        times.len() == successful_events::<E>(data).len(),
        forall|i: int| 0 <= i < times.len() ==> times[i] < i64::MAX,
    ensures
        is_run(args, successful_events::<E>(data), times),
        actions(args, successful_events::<E>(data), times) == successful_actions::<E>(
            args,
            times[4],
            data,
        ),
{
    assert(actions(args, successful_events::<E>(data), times) =~= successful_actions::<E>(
        args,
        times[4],
        data,
    ));
}

/// A snapshot finishes only after everything that a successful one does, in that order: a run that
/// ends in success is the run of a successful snapshot.
pub proof fn law_only_success_finishes<E>(
    args: ArgsView,
    events: Seq<SnapshotEventView<E>>,
    times: Seq<i64>,
)
    requires
        is_run(args, events, times),
        events.len() > 0,
        args.step(events.last(), times.last()).action is Finish,
    ensures
        exists|data: Seq<u8>| events == #[trigger] successful_events::<E>(data),
{
    let n = events.len() - 1;
    assert(events[n] is Written);
    lemma_only_predecessor(args, events, times, n);
    assert(events[n - 1] is Exported);
    lemma_only_predecessor(args, events, times, n - 1);
    assert(events[n - 2] is TracerStopped);
    lemma_only_predecessor(args, events, times, n - 2);
    assert(events[n - 3] is TracerReady);
    lemma_only_predecessor(args, events, times, n - 3);
    assert(events[n - 4] is TracerStarted);
    lemma_only_predecessor(args, events, times, n - 4);
    assert(events[n - 5] is ConfigLoaded);
    lemma_only_predecessor(args, events, times, n - 5);
    assert(events[n - 6] is Begin);
    lemma_only_predecessor(args, events, times, n - 6);
    assert(n == 6);
    let data = events[5]->Exported_0;
    assert(events =~= successful_events::<E>(data));
}

/// What can have happened before an event of a run.
proof fn lemma_only_predecessor<E>(
    args: ArgsView,
    events: Seq<SnapshotEventView<E>>,
    times: Seq<i64>,
    i: int,
)
    requires
        is_run(args, events, times),
        i < events.len(),
    ensures
        0 <= i ==> match events[i] {
            SnapshotEventView::Begin => i == 0,
            SnapshotEventView::ConfigLoaded => i > 0 && events[i - 1] is Begin,
            SnapshotEventView::TracerStarted => i > 0 && events[i - 1] is ConfigLoaded,
            SnapshotEventView::TracerReady => i > 0 && events[i - 1] is TracerStarted,
            SnapshotEventView::TracerStopped => i > 0 && events[i - 1] is TracerReady,
            SnapshotEventView::Exported(_) => i > 0 && events[i - 1] is TracerStopped,
            SnapshotEventView::Written => i > 0 && events[i - 1] is Exported,
            SnapshotEventView::Failed(_) => i > 0,
        },
{
    if 0 <= i {
        assert(expected(state_at(args, events, times, i), events[i]));
    }
}

/// The first failure ends a snapshot, with that failure and without a word; nothing follows.
pub proof fn law_failure_ends_snapshot<E>(
    args: ArgsView,
    events: Seq<SnapshotEventView<E>>,
    times: Seq<i64>,
    i: int,
    err: E,
)
    requires
        is_run(args, events, times),
        0 <= i < events.len(),
        events[i] == SnapshotEventView::Failed(err),
    ensures
        i == events.len() - 1,
        args.step(events[i], times[i]).action == SnapshotActionView::Abort(err),
        args.step(events[i], times[i]).messages.len() == 0,
{
    if i + 1 < events.len() {
        assert(expected(state_at(args, events, times, i + 1), events[i + 1]));
    }
}

/// Only what was exported is written, and only to the output file.
pub proof fn law_only_exported_bytes_are_written<E>(
    args: ArgsView,
    event: SnapshotEventView<E>,
    now: i64,
    path: Seq<char>,
    data: Seq<u8>,
)
    requires
        args.step(event, now).action == SnapshotActionView::<E>::WriteTrace(path, data),
    ensures
        event == SnapshotEventView::<E>::Exported(data),
        path == args.output,
{
}

/// The required labels go into the export of a seed. Without a seed they go nowhere, and the user is
/// warned if there are any.
pub proof fn law_required_labels_need_seed<E>(
    args: ArgsView,
    event: SnapshotEventView<E>,
    now: i64,
)
    ensures
        args.step(event, now).action matches SnapshotActionView::ExportSeed(_, labels) ==> args.seed
            && labels == args.cluster_required_labels,
        event is TracerStopped ==> (args.step(event, now).messages.len() == 2 <==> !args.seed
            && args.cluster_required_labels.len() > 0),
{
}

/// Arguments and filters are what their fields hold, each entry of a list where it stands.
pub proof fn law_arguments_are_their_fields(args: Args, filters: ExportFilters)
    ensures
        args@.config_file == args.config_file@,
        args@.excluded_namespaces.len() == args.excluded_namespaces@.len(),
        forall|i: int|
            0 <= i < args.excluded_namespaces@.len() ==> #[trigger] args@.excluded_namespaces[i]
                == args.excluded_namespaces@[i]@,
        args@.output == args.output@,
        args@.seed == args.seed,
        args@.cluster_required_labels.len() == args.cluster_required_labels@.len(),
        forall|i: int|
            0 <= i < args.cluster_required_labels@.len() ==> #[trigger] args@.cluster_required_labels[i]
                == args.cluster_required_labels@[i]@,
        filters@.excluded_namespaces.len() == filters.excluded_namespaces@.len(),
        forall|i: int|
            0 <= i < filters.excluded_namespaces@.len() ==> #[trigger] filters@.excluded_namespaces[i]
                == filters.excluded_namespaces@[i]@,
        filters@.excluded_labels.len() == filters.excluded_labels@.len(),
        forall|i: int|
            0 <= i < filters.excluded_labels@.len() ==> #[trigger] filters@.excluded_labels[i]
                == filters.excluded_labels@[i]@,
{
}

/// The contents of an event are the event and what came with it.
pub proof fn law_event_is_what_happened<E>(event: SnapshotEvent<E>)
    ensures
        event is Begin <==> event@ is Begin,
        event is ConfigLoaded <==> event@ is ConfigLoaded,
        event is TracerStarted <==> event@ is TracerStarted,
        event is TracerReady <==> event@ is TracerReady,
        event is TracerStopped <==> event@ is TracerStopped,
        event is Written <==> event@ is Written,
        event matches SnapshotEvent::Exported(data) ==> event@ == SnapshotEventView::<E>::Exported(
            data@,
        ),
        event matches SnapshotEvent::Failed(err) ==> event@ == SnapshotEventView::<E>::Failed(err),
{
}

/// The contents of a step are its state, its messages, each where it stands, and its action with all
/// that comes with it.
pub proof fn law_step_is_its_fields<E>(step: SnapshotStep<E>)
    ensures
        step@.state == step.state,
        step@.messages.len() == step.messages@.len(),
        forall|i: int|
            0 <= i < step.messages@.len() ==> #[trigger] step@.messages[i] == step.messages@[i]@,
        step@.action == match step.action {
            SnapshotAction::LoadConfig(path) => SnapshotActionView::<E>::LoadConfig(path@),
            SnapshotAction::StartTracer => SnapshotActionView::<E>::StartTracer,
            SnapshotAction::WaitReady => SnapshotActionView::<E>::WaitReady,
            SnapshotAction::StopTracer => SnapshotActionView::<E>::StopTracer,
            SnapshotAction::ExportSeed(filters, labels) => SnapshotActionView::<E>::ExportSeed(
                filters@,
                labels@.map_values(|label: String| label@),
            ),
            SnapshotAction::Export(start_ts, end_ts, filters) => SnapshotActionView::<E>::Export(
                start_ts,
                end_ts,
                filters@,
            ),
            SnapshotAction::WriteTrace(path, data) => SnapshotActionView::<E>::WriteTrace(
                path@,
                data@,
            ),
            SnapshotAction::Finish => SnapshotActionView::<E>::Finish,
            SnapshotAction::Abort(err) => SnapshotActionView::<E>::Abort(err),
        },
{
    match step.action {
        SnapshotAction::ExportSeed(filters, labels) => {
            assert(labels.deep_view() =~= labels@.map_values(|label: String| label@));
        },
        _ => {},
    }
}

/// Every export leaves out exactly the namespaces that were named, and no labels. A seed is exported if
/// it was asked for, with the labels that are required; else the events of the present second.
pub proof fn law_every_export_leaves_out_the_named_namespaces<E>(
    args: ArgsView,
    event: SnapshotEventView<E>,
    now: i64,
)
    requires
        now < i64::MAX,
    ensures
        args.step(event, now).action matches SnapshotActionView::ExportSeed(filters, labels) ==> {
            &&& args.seed
            &&& filters.excluded_namespaces == args.excluded_namespaces
            &&& filters.excluded_labels.len() == 0
            &&& labels == args.cluster_required_labels
        },
        args.step(event, now).action matches SnapshotActionView::Export(start_ts, end_ts, filters)
            ==> {
            &&& !args.seed
            &&& filters.excluded_namespaces == args.excluded_namespaces
            &&& filters.excluded_labels.len() == 0
            &&& start_ts == now
            &&& end_ts == now + 1
        },
        event is TracerStopped ==> (args.step(event, now).action is ExportSeed <==> args.seed),
        event is TracerStopped ==> (args.step(event, now).action is Export <==> !args.seed),
{
}

/// What is done next follows from what happened: the configuration is loaded from the file that was
/// named, the tracer is started, awaited and stopped, the store is exported, the exported bytes are
/// written to the output file, and then the snapshot is done. A failure is handed on.
pub proof fn law_action_follows_from_event<E>(
    args: ArgsView,
    event: SnapshotEventView<E>,
    now: i64,
)
    ensures
        event is Begin <==> args.step(event, now).action
            == SnapshotActionView::<E>::LoadConfig(args.config_file),
        event is ConfigLoaded <==> args.step(event, now).action is StartTracer,
        event is TracerStarted <==> args.step(event, now).action is WaitReady,
        event is TracerReady <==> args.step(event, now).action is StopTracer,
        event is TracerStopped <==> args.step(event, now).action is ExportSeed || args.step(
            event,
            now,
        ).action is Export,
        event matches SnapshotEventView::Exported(data) ==> args.step(event, now).action
            == SnapshotActionView::<E>::WriteTrace(args.output, data),
        event is Written <==> args.step(event, now).action is Finish,
        event matches SnapshotEventView::Failed(err) ==> args.step(event, now).action
            == SnapshotActionView::<E>::Abort(err),
{
}

/// After a step, what can happen is what its action can lead to: its success, or a failure where it goes
/// through a file or the cluster. After the end nothing can, and at first only the beginning.
pub proof fn law_only_what_was_asked_for_can_happen<E>(
    args: ArgsView,
    event: SnapshotEventView<E>,
    now: i64,
    next: SnapshotEventView<E>,
)
    ensures
        expected(SnapshotState::Idle, next) <==> next is Begin,
        expected(args.step(event, now).state, next) <==> match args.step(event, now).action {
            SnapshotActionView::LoadConfig(_) => next is ConfigLoaded || next is Failed,
            SnapshotActionView::StartTracer => next is TracerStarted || next is Failed,
            SnapshotActionView::WaitReady => next is TracerReady,
            SnapshotActionView::StopTracer => next is TracerStopped,
            SnapshotActionView::ExportSeed(_, _) => next is Exported || next is Failed,
            SnapshotActionView::Export(_, _, _) => next is Exported || next is Failed,
            SnapshotActionView::WriteTrace(_, _) => next is Written || next is Failed,
            SnapshotActionView::Finish => false,
            SnapshotActionView::Abort(_) => false,
        },
{
}

/// The user is told which file is read and which is written, when the cluster is traced and exported,
/// and when the snapshot is done; in between nothing. Required labels without a seed earn a warning.
pub proof fn law_user_is_told_of_each_stage<E>(
    args: ArgsView,
    event: SnapshotEventView<E>,
    now: i64,
)
    ensures
        args.step(event, now).messages == match event {
            SnapshotEventView::Begin => seq!["Reading config from "@ + args.config_file + "..."@],
            SnapshotEventView::ConfigLoaded => seq!["Taking snapshot from Kubernetes cluster..."@],
            SnapshotEventView::TracerStopped => if args.seed || args.cluster_required_labels.len()
                == 0 {
                seq!["Exporting snapshot data from store..."@]
            } else {
                seq![
                    "Exporting snapshot data from store..."@,
                    "warning: --cluster-required-label is ignored without --seed"@,
                ]
            },
            SnapshotEventView::Exported(_) => seq!["Writing trace file: "@ + args.output],
            SnapshotEventView::Written => seq!["Done!"@],
            _ => Seq::empty(),
        },
{
}

} // verus!
