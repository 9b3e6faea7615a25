use backend_supervisor::{
    escalation_steps, BackendManager, DrainAction, InstallOutcome, LogDrain, OutputEvent,
    SetupError, SignalKind, SpawnError, Spawned, StartError, StopAction, Teardown,
    GRACE_PERIOD_SECS,
};
use std::collections::HashMap;
use std::sync::Mutex;

/// A kill capability that counts how often each handle was used.
#[derive(Debug, PartialEq)]
struct MockChild {
    id: u32,
}

/// Performs teardowns the way a host does, recording every step, and
/// counting kills per handle. Every signal "fails" and is ignored.
fn run_teardowns(
    teardowns: Vec<Teardown<MockChild>>,
    trace: &mut Vec<StopAction>,
    kills: &mut HashMap<u32, u32>,
) {
    for t in teardowns {
        for step in t.steps.iter() {
            trace.push(*step);
            if let StopAction::KillProcess { .. } = step {
                *kills.entry(t.handle.id).or_insert(0) += 1;
            }
        }
    }
}

fn manager() -> BackendManager<MockChild> {
    BackendManager::new("/res/backend".to_string(), true, Ok("/logs/backend".to_string())).unwrap()
}

fn spawned(pid: u32) -> Result<Spawned<MockChild, &'static str>, SpawnError> {
    Ok(Spawned { pid, handle: MockChild { id: pid }, stream: "stream" })
}

#[test]
fn stop_without_start_is_a_no_op() {
    let mut m = manager();
    let teardowns = m.stop_all();
    assert!(teardowns.is_empty());
    assert_eq!(m.process_count(), 0);
}

#[test]
fn stop_twice_after_start_releases_the_worker_once() {
    let mut m = manager();
    let r = m.start_all(InstallOutcome::Completed, || spawned(4242));
    assert_eq!(r, Ok(Some("stream")));
    assert_eq!(m.process_count(), 1);

    let mut trace = Vec::new();
    let mut kills = HashMap::new();
    let first = m.stop_all();
    assert_eq!(first.len(), 1);
    assert_eq!(first[0].pid, 4242);
    run_teardowns(first, &mut trace, &mut kills);
    let second = m.stop_all();
    assert!(second.is_empty());
    let before = trace.len();
    run_teardowns(second, &mut trace, &mut kills);
    assert_eq!(trace.len(), before);
    assert_eq!(kills.get(&4242), Some(&1));
}

#[test]
fn write_error_leaves_the_worker_reachable_by_stop() {
    let mut m = manager();
    m.start_all(InstallOutcome::Completed, || spawned(77)).unwrap();
    let mut drain = LogDrain::new();
    assert!(matches!(drain.on_event(OutputEvent::Output(b"x".to_vec())), DrainAction::Append(_)));
    drain.on_write_error();
    assert_eq!(drain.on_event(OutputEvent::Output(b"y".to_vec())), DrainAction::Stop);
    assert_eq!(m.process_count(), 1);
    let teardowns = m.stop_all();
    assert_eq!(teardowns.len(), 1);
    assert_eq!(teardowns[0].handle, MockChild { id: 77 });
    assert_eq!(teardowns[0].steps.last(), Some(&StopAction::KillProcess { pid: 77 }));
}

#[test]
fn escalation_interrupts_then_kills_descendants_then_kills_the_worker() {
    let steps = escalation_steps(99, GRACE_PERIOD_SECS);
    assert_eq!(
        steps,
        vec![
            StopAction::SignalDescendants { signal: SignalKind::Interrupt, pid: 99 },
            StopAction::Wait { secs: 3 },
            StopAction::SignalDescendants { signal: SignalKind::Kill, pid: 99 },
            StopAction::KillProcess { pid: 99 },
        ]
    );
}

#[test]
fn stop_plans_the_kill_even_when_every_signal_fails() {
    let mut m = manager();
    m.start_all(InstallOutcome::Completed, || spawned(5)).unwrap();
    let mut trace = Vec::new();
    let mut kills = HashMap::new();
    run_teardowns(m.stop_all(), &mut trace, &mut kills);
    assert_eq!(trace, escalation_steps(5, 3));
    assert_eq!(kills.get(&5), Some(&1));
}

#[test]
fn construction_fails_when_backend_directory_is_missing() {
    let r = BackendManager::<MockChild>::new("/res/backend".to_string(), false, Ok("/logs".to_string()));
    assert!(matches!(r, Err(SetupError::BackendNotFound(ref p)) if p == "/res/backend"));
}

#[test]
fn construction_fails_when_log_directory_is_unavailable() {
    let err = SetupError::LogDirUnavailable("permission denied".to_string());
    let r = BackendManager::<MockChild>::new("/res/backend".to_string(), true, Err(err.clone()));
    assert!(matches!(r, Err(e) if e == err));
}

#[test]
fn construction_records_paths_and_grace_window() {
    let m = manager();
    assert_eq!(m.backend_path(), "/res/backend");
    assert_eq!(m.log_dir(), "/logs/backend");
    assert_eq!(m.grace_secs(), 3);
    assert_eq!(m.process_count(), 0);
}

#[test]
fn concurrent_stops_never_kill_a_handle_twice() {
    let shared = Mutex::new(manager());
    {
        let mut m = shared.lock().unwrap();
        m.start_all(InstallOutcome::Completed, || spawned(10)).unwrap();
        m.start_all(InstallOutcome::Completed, || spawned(11)).unwrap();
    }
    let mut trace = Vec::new();
    let mut kills = HashMap::new();
    // Two triggers (window destroyed, application exit) each stop once.
    for _trigger in 0..2 {
        let teardowns = shared.lock().unwrap().stop_all();
        run_teardowns(teardowns, &mut trace, &mut kills);
    }
    assert_eq!(kills.len(), 2);
    assert!(kills.values().all(|&n| n == 1));
}

#[test]
fn stop_hands_out_workers_in_registration_order() {
    let mut m = manager();
    m.start_all(InstallOutcome::Completed, || spawned(3)).unwrap();
    m.start_all(InstallOutcome::Completed, || spawned(1)).unwrap();
    let pids: Vec<u32> = m.stop_all().iter().map(|t| t.pid).collect();
    assert_eq!(pids, vec![3, 1]);
}

#[test]
fn unavailable_installer_aborts_start_without_spawning() {
    let mut m = manager();
    let r = m.start_all(InstallOutcome::Unavailable("no uv".to_string()), || -> Result<Spawned<MockChild, &'static str>, SpawnError> {
        panic!("spawn must not be attempted")
    });
    assert_eq!(r, Err(StartError::InstallerUnavailable("no uv".to_string())));
    assert_eq!(m.process_count(), 0);
}

#[test]
fn failed_spawn_is_swallowed() {
    let mut m = manager();
    let r = m.start_all(InstallOutcome::Completed, || -> Result<Spawned<MockChild, &'static str>, SpawnError> {
        Err(SpawnError::LaunchFailed("missing".to_string()))
    });
    assert_eq!(r, Ok(None));
    assert_eq!(m.process_count(), 0);
    assert!(m.stop_all().is_empty());
}

#[test]
fn pkill_flags_name_the_signals() {
    assert_eq!(SignalKind::Interrupt.pkill_flag(), "-INT");
    assert_eq!(SignalKind::Kill.pkill_flag(), "-KILL");
}

#[test]
fn grace_window_is_tunable() {
    let mut m = manager().with_grace_secs(1);
    assert_eq!(m.grace_secs(), 1);
    m.start_all(InstallOutcome::Completed, || spawned(8)).unwrap();
    let teardowns = m.stop_all();
    assert_eq!(teardowns[0].steps[1], StopAction::Wait { secs: 1 });
}
