use codex_plus_core::contents::{contents_equal, hashes, wire_hashes, Contents};
use codex_plus_core::engine::{LocalState, Operation};
use codex_plus_core::error::SyncError;
use codex_plus_core::files::FileSlot;
use codex_plus_core::protocol::SyncSnapshot;
use codex_plus_core::run::{run_start, run_step, RunAction, RunEvent, RunPhase};
use codex_plus_core::snapshot::encrypt_files;

fn local_files() -> Contents {
    let mut c = Contents::empty();
    c.set(FileSlot::Settings, Some(br#"{"theme":"dark"}"#.to_vec()));
    c.set(FileSlot::Config, Some(b"model = 'gpt'\n".to_vec()));
    c
}

fn device(secret: &str) -> LocalState {
    LocalState { secret: secret.into(), device: "dev".into(), ..Default::default() }
}

fn step(phase: RunPhase, mode: Operation, state: &mut LocalState, event: RunEvent) -> (RunPhase, RunAction) {
    assert!(phase.awaits_event(&event));
    run_step(phase, mode, state, event)
}

#[test]
fn phases_wait_for_one_kind_of_event() {
    assert!(RunPhase::Start.awaits_event(&RunEvent::Files(Contents::empty())));
    assert!(!RunPhase::Start.awaits_event(&RunEvent::Saved));
    assert!(RunPhase::Saving.awaits_event(&RunEvent::Saved));
    assert!(!RunPhase::Finished.awaits_event(&RunEvent::Written));
}

fn finished(action: &RunAction) -> Option<Result<(), SyncError>> {
    match action {
        RunAction::Finish(outcome) => Some(*outcome),
        _ => None,
    }
}

#[test]
fn a_push_run_sends_checks_acknowledges_and_records() {
    let local = local_files();
    let mut state = device("k");
    state.enabled = true;
    let (phase, action) = run_start();
    assert!(matches!(action, RunAction::Collect));
    let (phase, action) = step(phase, Operation::Push, &mut state, RunEvent::Files(local.clone()));
    assert!(matches!(action, RunAction::FetchSnapshot));
    let empty = SyncSnapshot { version: 0, files: Vec::new() };
    let (phase, action) = step(phase, Operation::Push, &mut state, RunEvent::Snapshot(empty));
    assert!(!state.enabled);
    let change = match action {
        RunAction::Push { change, force } => {
            assert!(force);
            change
        },
        _ => panic!("a push run sends the local files"),
    };
    assert_eq!(change.device_id, "dev");
    assert_eq!(change.files.len(), 4);
    let (phase, action) = step(phase, Operation::Push, &mut state, RunEvent::Reply(Some(1)));
    assert!(matches!(action, RunAction::Collect));
    let (phase, action) = step(phase, Operation::Push, &mut state, RunEvent::Files(local.clone()));
    assert!(matches!(action, RunAction::FetchSnapshot));
    let committed = SyncSnapshot { version: 1, files: change.files.clone() };
    let (phase, action) = step(phase, Operation::Push, &mut state, RunEvent::Snapshot(committed));
    match &action {
        RunAction::Acknowledge { version, digests } => {
            assert_eq!(*version, 1);
            assert_eq!(*digests, wire_hashes(&local));
        },
        _ => panic!("the commit is acknowledged"),
    }
    assert_eq!(state.version, 0);
    let (phase, action) = step(phase, Operation::Push, &mut state, RunEvent::Acknowledged(42));
    assert!(matches!(action, RunAction::Save));
    assert_eq!((state.version, state.last_sync), (1, Some(42)));
    assert_eq!(state.hashes, hashes(&local));
    let (phase, action) = step(phase, Operation::Push, &mut state, RunEvent::Saved);
    assert!(matches!(phase, RunPhase::Finished));
    assert_eq!(finished(&action), Some(Ok(())));
}

#[test]
fn a_pull_run_writes_verifies_acknowledges_and_records() {
    let remote_files = local_files();
    let local = Contents::empty();
    let mut state = device("k");
    let snapshot = SyncSnapshot { version: 5, files: encrypt_files(&remote_files, 4, "k").unwrap() };
    let (phase, _) = run_start();
    let (phase, _) = step(phase, Operation::Pull, &mut state, RunEvent::Files(local.clone()));
    let (phase, action) = step(phase, Operation::Pull, &mut state, RunEvent::Snapshot(snapshot));
    match &action {
        RunAction::Apply { files, expected } => {
            assert!(contents_equal(files, &remote_files));
            assert!(contents_equal(expected, &local));
        },
        _ => panic!("a pull writes the received files"),
    }
    let (phase, action) = step(phase, Operation::Pull, &mut state, RunEvent::Written);
    assert!(matches!(action, RunAction::Collect));
    let (phase, action) = step(phase, Operation::Pull, &mut state, RunEvent::Files(remote_files.clone()));
    assert!(matches!(&action, RunAction::Acknowledge { version: 5, .. }));
    let (phase, _) = step(phase, Operation::Pull, &mut state, RunEvent::Acknowledged(7));
    assert_eq!(state.version, 5);
    assert_eq!(state.hashes, hashes(&remote_files));
    let (_, action) = step(phase, Operation::Pull, &mut state, RunEvent::Saved);
    assert_eq!(finished(&action), Some(Ok(())));
}

#[test]
fn a_run_stops_where_a_check_fails() {
    let local = local_files();
    let mut state = device("k");
    let phase = RunPhase::Pushed { local: local.clone() };
    let (_, action) = step(phase, Operation::Push, &mut state, RunEvent::Reply(None));
    assert_eq!(finished(&action), Some(Err(SyncError::MissingCommitVersion)));

    let phase = RunPhase::Committed { local: local.clone(), version: 3 };
    let (_, action) = step(phase, Operation::Push, &mut state, RunEvent::Files(Contents::empty()));
    assert_eq!(finished(&action), Some(Err(SyncError::LocalChangedDuringUpload)));

    let phase = RunPhase::Recollected { local: local.clone(), version: 3 };
    let newer = SyncSnapshot { version: 4, files: encrypt_files(&local, 3, "k").unwrap() };
    let (_, action) = step(phase, Operation::Push, &mut state, RunEvent::Snapshot(newer));
    assert_eq!(finished(&action), Some(Err(SyncError::ServerMovedOn)));

    let phase = RunPhase::Verifying { decoded: local.clone(), version: 3 };
    let (_, action) = step(phase, Operation::Pull, &mut state, RunEvent::Files(Contents::empty()));
    assert_eq!(finished(&action), Some(Err(SyncError::WriteBackMismatch)));
    assert_eq!(state.version, 0);
}

#[test]
fn an_automatic_run_while_off_does_nothing() {
    let mut state = device("k");
    let (phase, _) = run_start();
    let (phase, _) = step(phase, Operation::Auto, &mut state, RunEvent::Files(local_files()));
    let snapshot = SyncSnapshot { version: 9, files: Vec::new() };
    let (phase, action) = step(phase, Operation::Auto, &mut state, RunEvent::Snapshot(snapshot));
    assert!(matches!(phase, RunPhase::Finished));
    assert_eq!(finished(&action), Some(Ok(())));
    assert_eq!(state.version, 0);
}

#[test]
fn a_pull_of_a_broken_snapshot_is_refused() {
    let mut state = device("k");
    let (phase, _) = run_start();
    let (phase, _) = step(phase, Operation::Pull, &mut state, RunEvent::Files(local_files()));
    let empty = SyncSnapshot { version: 0, files: Vec::new() };
    let (_, action) = step(phase, Operation::Pull, &mut state, RunEvent::Snapshot(empty));
    assert_eq!(finished(&action), Some(Err(SyncError::ServerEmpty)));
}
