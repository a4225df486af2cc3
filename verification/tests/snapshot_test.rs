use std::time::{SystemTime, UNIX_EPOCH};

use sk_trace::snapshot::{
    cmd, step_at, Args, ExportFilters, SnapshotAction, SnapshotEvent, SnapshotState, SnapshotStep,
};

fn args(seed: bool, labels: &[&str]) -> Args {
    Args {
        config_file: "config.yml".into(),
        excluded_namespaces: vec!["kube-system".into(), "monitoring".into()],
        output: "trace.out".into(),
        seed,
        cluster_required_labels: labels.iter().map(|label| label.to_string()).collect(),
    }
}

fn step(args: &Args, state: SnapshotState, event: SnapshotEvent<String>) -> SnapshotStep<String> {
    step_at(args, state, event, 1000)
}

fn seconds_since_epoch() -> i64 {
    SystemTime::now().duration_since(UNIX_EPOCH).unwrap().as_secs() as i64
}

#[test]
fn snapshot_of_events() {
    let args = args(false, &[]);
    let s = step(&args, SnapshotState::Idle, SnapshotEvent::Begin);
    assert_eq!(s.messages, vec!["Reading config from config.yml..."]);
    assert!(matches!(&s.action, SnapshotAction::LoadConfig(path) if path == "config.yml"));

    let s = step(&args, s.state, SnapshotEvent::ConfigLoaded);
    assert_eq!(s.messages, vec!["Taking snapshot from Kubernetes cluster..."]);
    assert!(matches!(s.action, SnapshotAction::StartTracer));

    let s = step(&args, s.state, SnapshotEvent::TracerStarted);
    assert!(s.messages.is_empty());
    assert!(matches!(s.action, SnapshotAction::WaitReady));

    let s = step(&args, s.state, SnapshotEvent::TracerReady);
    assert!(s.messages.is_empty());
    assert!(matches!(s.action, SnapshotAction::StopTracer));

    let s = step(&args, s.state, SnapshotEvent::TracerStopped);
    assert_eq!(s.messages, vec!["Exporting snapshot data from store..."]);
    match s.action {
        SnapshotAction::Export(start_ts, end_ts, filters) => {
            assert_eq!((start_ts, end_ts), (1000, 1001));
            assert_eq!(filters.excluded_namespaces, vec!["kube-system", "monitoring"]);
            assert!(filters.excluded_labels.is_empty());
        },
        other => panic!("{other:?}"),
    }

    let s = step(&args, s.state, SnapshotEvent::Exported(vec![1, 2, 3]));
    assert_eq!(s.messages, vec!["Writing trace file: trace.out"]);
    match s.action {
        SnapshotAction::WriteTrace(path, data) => {
            assert_eq!(path, "trace.out");
            assert_eq!(data, vec![1, 2, 3]);
        },
        other => panic!("{other:?}"),
    }

    let s = step(&args, s.state, SnapshotEvent::Written);
    assert_eq!(s.messages, vec!["Done!"]);
    assert!(matches!(s.action, SnapshotAction::Finish));
    assert_eq!(s.state, SnapshotState::Finished);
}

#[test]
fn snapshot_of_a_seed() {
    let args = args(true, &["karpenter.sh/nodepool"]);
    let s = step(&args, SnapshotState::ShuttingDown, SnapshotEvent::TracerStopped);
    assert_eq!(s.messages, vec!["Exporting snapshot data from store..."]);
    assert_eq!(s.state, SnapshotState::Exporting);
    match s.action {
        SnapshotAction::ExportSeed(filters, labels) => {
            assert_eq!(filters.excluded_namespaces, vec!["kube-system", "monitoring"]);
            assert_eq!(labels, vec!["karpenter.sh/nodepool"]);
        },
        other => panic!("{other:?}"),
    }
}

#[test]
fn labels_without_a_seed_are_pointed_out() {
    let args = args(false, &["karpenter.sh/nodepool"]);
    let s = step(&args, SnapshotState::ShuttingDown, SnapshotEvent::TracerStopped);
    assert_eq!(
        s.messages,
        vec![
            "Exporting snapshot data from store...",
            "warning: --cluster-required-label is ignored without --seed"
        ]
    );
    assert!(matches!(s.action, SnapshotAction::Export(1000, 1001, _)));
}

#[test]
fn events_are_exported_from_the_present_second() {
    let before = seconds_since_epoch();
    let s: SnapshotStep<String> =
        cmd(&args(false, &[]), SnapshotState::ShuttingDown, SnapshotEvent::TracerStopped);
    let after = seconds_since_epoch();
    match s.action {
        SnapshotAction::Export(start_ts, end_ts, _) => {
            assert!(before <= start_ts && start_ts <= after);
            assert_eq!(end_ts, start_ts + 1);
        },
        other => panic!("{other:?}"),
    }
}

#[test]
fn other_steps_do_not_depend_on_the_time() {
    let args = args(true, &[]);
    let s: SnapshotStep<String> = cmd(&args, SnapshotState::Idle, SnapshotEvent::Begin);
    assert_eq!(s.messages, vec!["Reading config from config.yml..."]);
    let s: SnapshotStep<String> = cmd(&args, SnapshotState::Exporting, SnapshotEvent::Exported(vec![9]));
    assert!(matches!(s.action, SnapshotAction::WriteTrace(_, data) if data == vec![9]));
    let s: SnapshotStep<String> = cmd(&args, SnapshotState::ShuttingDown, SnapshotEvent::TracerStopped);
    assert!(matches!(s.action, SnapshotAction::ExportSeed(_, _)));
}

#[test]
fn filters_hold_what_they_are_given() {
    let filters = ExportFilters::new(vec!["ns".into()], vec!["label".into()]);
    assert_eq!(filters.excluded_namespaces, vec!["ns"]);
    assert_eq!(filters.excluded_labels, vec!["label"]);
}

#[test]
fn failure_ends_the_snapshot() {
    let args = args(false, &[]);
    for state in [
        SnapshotState::LoadingConfig,
        SnapshotState::StartingTracer,
        SnapshotState::Exporting,
        SnapshotState::Writing,
    ] {
        let s = step(&args, state, SnapshotEvent::Failed("no".into()));
        assert_eq!(s.state, SnapshotState::Finished);
        assert!(s.messages.is_empty());
        assert!(matches!(s.action, SnapshotAction::Abort(err) if err == "no"));
    }
}
