//! A sync run as a sequence of steps: the run asks for outside work (read
//! the local files, fetch the server's snapshot, send a change, write
//! received files, acknowledge, save the state), is told what came of it,
//! and decides the next step.

use vstd::prelude::*;
use crate::contents::{Contents, Hashes, contents_equal, hashes, hashes_spec, hashes_view, wire_hashes, wire_hashes_spec};
use crate::engine::{
    LocalState, LocalStateView, Operation, PlanView, SyncPlan, aligned_spec, build_change, change_built,
    confirm_download, confirm_upload, confirm_upload_spec, download_spec, law_runs_never_enable_auto, plan_spec, plan_sync,
    validate_all_spec,
};
use crate::error::SyncError;
use crate::protocol::{SyncChange, SyncSnapshot};
use crate::snapshot::{SyncFileView, decrypt_snapshot_spec, files_view, sealable};

verus! {

/// Where a run stands, and what it keeps for the steps ahead.
pub enum RunPhase {
    /// The local files are to be read.
    Start,
    /// The server's snapshot is awaited; the local files are known.
    HaveLocal { local: Contents },
    /// The change is on its way; the server's reply is awaited.
    Pushed { local: Contents },
    /// The server committed `version`; the local files are read again.
    Committed { local: Contents, version: u64 },
    /// The local files did not change; the server's snapshot is read again.
    Recollected { local: Contents, version: u64 },
    /// The received files of `version` are being written.
    Applying { decoded: Contents, version: u64 },
    /// The written files are read back.
    Verifying { decoded: Contents, version: u64 },
    /// The server is told that the device holds `version`.
    Acking { digests: Hashes, version: u64 },
    /// The state is being saved.
    Saving,
    /// The run is over.
    Finished,
}

/// What came of the outside work a run asked for.
pub enum RunEvent {
    /// The local files, after [`RunAction::Collect`].
    Files(Contents),
    /// The server's snapshot, after [`RunAction::FetchSnapshot`].
    Snapshot(SyncSnapshot),
    /// The version the server committed, if its reply names one, after
    /// [`RunAction::Push`].
    Reply(Option<u64>),
    /// The files are written, after [`RunAction::Apply`].
    Written,
    /// The server took the acknowledgement, at this time (seconds since the
    /// Unix epoch), after [`RunAction::Acknowledge`].
    Acknowledged(u64),
    /// The state is saved, after [`RunAction::Save`].
    Saved,
}

/// The outside work a run asks for next.
pub enum RunAction {
    /// Read the local files.
    Collect,
    /// Fetch the server's snapshot.
    FetchSnapshot,
    /// Send the change; `force` replaces whatever the server holds.
    Push { change: SyncChange, force: bool },
    /// Write `files` locally, provided the local files are still `expected`.
    Apply { files: Contents, expected: Contents },
    /// Tell the server that this device holds `version` with `digests`.
    Acknowledge { version: u64, digests: Hashes },
    /// Save the state.
    Save,
    /// The run is over, with this outcome.
    Finish(Result<(), SyncError>),
}

/// The mathematical value of a [`RunPhase`].
pub enum PhaseView {
    Start,
    HaveLocal(Seq<Option<Seq<u8>>>),
    Pushed(Seq<Option<Seq<u8>>>),
    Committed(Seq<Option<Seq<u8>>>, u64),
    Recollected(Seq<Option<Seq<u8>>>, u64),
    Applying(Seq<Option<Seq<u8>>>, u64),
    Verifying(Seq<Option<Seq<u8>>>, u64),
    Acking(Seq<(Seq<char>, Option<Seq<char>>)>, u64),
    Saving,
    Finished,
}

/// The mathematical value of a [`RunEvent`].
pub enum EventView {
    Files(Seq<Option<Seq<u8>>>),
    Snapshot(u64, Seq<SyncFileView>),
    Reply(Option<u64>),
    Written,
    Acknowledged(u64),
    Saved,
}

/// The mathematical value of a [`RunAction`].
pub enum ActionView {
    Collect,
    FetchSnapshot,
    Push(SyncChange, bool),
    Apply(Seq<Option<Seq<u8>>>, Seq<Option<Seq<u8>>>),
    Acknowledge(u64, Seq<(Seq<char>, Option<Seq<char>>)>),
    Save,
    Finish(Result<(), SyncError>),
}

impl RunPhase {
    pub open spec fn view(&self) -> PhaseView {
        match self {
            RunPhase::Start => PhaseView::Start,
            RunPhase::HaveLocal { local } => PhaseView::HaveLocal(local@),
            RunPhase::Pushed { local } => PhaseView::Pushed(local@),
            RunPhase::Committed { local, version } => PhaseView::Committed(local@, *version),
            RunPhase::Recollected { local, version } => PhaseView::Recollected(local@, *version),
            RunPhase::Applying { decoded, version } => PhaseView::Applying(decoded@, *version),
            RunPhase::Verifying { decoded, version } => PhaseView::Verifying(decoded@, *version),
            RunPhase::Acking { digests, version } => PhaseView::Acking(hashes_view(digests@), *version),
            RunPhase::Saving => PhaseView::Saving,
            RunPhase::Finished => PhaseView::Finished,
        }
    }
}

impl RunEvent {
    pub open spec fn view(&self) -> EventView {
        match self {
            RunEvent::Files(c) => EventView::Files(c@),
            RunEvent::Snapshot(s) => EventView::Snapshot(s.version, files_view(s.files@)),
            RunEvent::Reply(v) => EventView::Reply(*v),
            RunEvent::Written => EventView::Written,
            RunEvent::Acknowledged(now) => EventView::Acknowledged(*now),
            RunEvent::Saved => EventView::Saved,
        }
    }
}

impl RunAction {
    pub open spec fn view(&self) -> ActionView {
        match self {
            RunAction::Collect => ActionView::Collect,
            RunAction::FetchSnapshot => ActionView::FetchSnapshot,
            RunAction::Push { change, force } => ActionView::Push(*change, *force),
            RunAction::Apply { files, expected } => ActionView::Apply(files@, expected@),
            RunAction::Acknowledge { version, digests } => ActionView::Acknowledge(*version, hashes_view(digests@)),
            RunAction::Save => ActionView::Save,
            RunAction::Finish(r) => ActionView::Finish(*r),
        }
    }
}

/// The kinds of events, to pair what a phase waits for with what an action
/// yields.
pub enum EventKind {
    Files,
    Snapshot,
    Reply,
    Written,
    Acknowledged,
    Saved,
    Nothing,
}

/// What a phase waits for.
pub open spec fn awaits(p: PhaseView) -> EventKind {
    match p {
        PhaseView::Start => EventKind::Files,
        PhaseView::HaveLocal(_) => EventKind::Snapshot,
        PhaseView::Pushed(_) => EventKind::Reply,
        PhaseView::Committed(_, _) => EventKind::Files,
        PhaseView::Recollected(_, _) => EventKind::Snapshot,
        PhaseView::Applying(_, _) => EventKind::Written,
        PhaseView::Verifying(_, _) => EventKind::Files,
        PhaseView::Acking(_, _) => EventKind::Acknowledged,
        PhaseView::Saving => EventKind::Saved,
        PhaseView::Finished => EventKind::Nothing,
    }
}

/// What the work an action asks for yields.
pub open spec fn yields(a: ActionView) -> EventKind {
    match a {
        ActionView::Collect => EventKind::Files,
        ActionView::FetchSnapshot => EventKind::Snapshot,
        ActionView::Push(_, _) => EventKind::Reply,
        ActionView::Apply(_, _) => EventKind::Written,
        ActionView::Acknowledge(_, _) => EventKind::Acknowledged,
        ActionView::Save => EventKind::Saved,
        ActionView::Finish(_) => EventKind::Nothing,
    }
}

/// The kind of an event.
pub open spec fn kind(e: EventView) -> EventKind {
    match e {
        EventView::Files(_) => EventKind::Files,
        EventView::Snapshot(_, _) => EventKind::Snapshot,
        EventView::Reply(_) => EventKind::Reply,
        EventView::Written => EventKind::Written,
        EventView::Acknowledged(_) => EventKind::Acknowledged,
        EventView::Saved => EventKind::Saved,
    }
}

/// The run is over.
pub open spec fn finishing(next: PhaseView, action: ActionView, outcome: Result<(), SyncError>) -> bool {
    next == PhaseView::Finished && action == ActionView::Finish(outcome)
}

/// One step of a run in `mode`: from `phase`, with the device state `state`
/// and the outcome `event` of the work asked for, to the phase `next`, the
/// work `action` asked for next and the state `after`.
///
/// A run reads the local files and the server's snapshot and plans as
/// [`plan_spec`] says. An upload sends the checked and sealed change, reads
/// the local files again (they must not have changed), reads the snapshot
/// again (it must be the committed version and open to the local files),
/// then acknowledges. A download writes the received files, reads them back
/// (they must be what was received), then acknowledges. Only after the
/// acknowledgement is the new version recorded, with the digests of the
/// files both sides now hold, and the state saved.
pub open spec fn step_spec(
    mode: Operation,
    phase: PhaseView,
    state: LocalStateView,
    event: EventView,
    next: PhaseView,
    action: ActionView,
    after: LocalStateView,
) -> bool {
    match (phase, event) {
        (PhaseView::Start, EventView::Files(local)) => {
            &&& after == state
            &&& next == PhaseView::HaveLocal(local)
            &&& action == ActionView::FetchSnapshot
        },
        (PhaseView::HaveLocal(local), EventView::Snapshot(rv, rf)) => {
            let plan = plan_spec(mode, state, local, rv, rf);
            &&& after == (LocalStateView { enabled: plan.1, ..state })
            &&& match plan.0 {
                Err(e) => finishing(next, action, Err(e)),
                Ok(PlanView::Idle) => finishing(next, action, Ok(())),
                Ok(PlanView::Upload(force)) => match validate_all_spec(local) {
                    Err(e) => finishing(next, action, Err(e)),
                    Ok(_) => if !sealable(local) {
                        finishing(next, action, Err(SyncError::EncryptionFailed))
                    } else {
                        &&& next == PhaseView::Pushed(local)
                        &&& action matches ActionView::Push(change, f)
                        &&& f == force
                        &&& change_built(change, local, after)
                    },
                },
                Ok(PlanView::Download(decoded)) => {
                    &&& next == PhaseView::Applying(decoded, rv)
                    &&& action == ActionView::Apply(decoded, local)
                },
            }
        },
        (PhaseView::Pushed(local), EventView::Reply(v)) => {
            &&& after == state
            &&& match v {
                None => finishing(next, action, Err(SyncError::MissingCommitVersion)),
                Some(version) => next == PhaseView::Committed(local, version) && action == ActionView::Collect,
            }
        },
        (PhaseView::Committed(local, version), EventView::Files(again)) => {
            &&& after == state
            &&& if again == local {
                next == PhaseView::Recollected(local, version) && action == ActionView::FetchSnapshot
            } else {
                finishing(next, action, Err(SyncError::LocalChangedDuringUpload))
            }
        },
        (PhaseView::Recollected(local, version), EventView::Snapshot(cv, cf)) => {
            &&& after == state
            &&& match confirm_upload_spec(local, local, version, cv, cf, state.secret) {
                Err(e) => finishing(next, action, Err(e)),
                Ok(_) => {
                    &&& next == PhaseView::Acking(hashes_spec(local), version)
                    &&& action == ActionView::Acknowledge(version, wire_hashes_spec(local))
                },
            }
        },
        (PhaseView::Applying(decoded, version), EventView::Written) => {
            &&& after == state
            &&& next == PhaseView::Verifying(decoded, version)
            &&& action == ActionView::Collect
        },
        (PhaseView::Verifying(decoded, version), EventView::Files(again)) => {
            &&& after == state
            &&& if again == decoded {
                &&& next == PhaseView::Acking(hashes_spec(decoded), version)
                &&& action == ActionView::Acknowledge(version, wire_hashes_spec(decoded))
            } else {
                finishing(next, action, Err(SyncError::WriteBackMismatch))
            }
        },
        (PhaseView::Acking(digests, version), EventView::Acknowledged(now)) => {
            &&& after == (LocalStateView {
                version: version,
                hashes: digests,
                error: Seq::empty(),
                last_sync: Some(now),
                ..state
            })
            &&& next == PhaseView::Saving
            &&& action == ActionView::Save
        },
        (PhaseView::Saving, EventView::Saved) => {
            &&& after == state
            &&& finishing(next, action, Ok(()))
        },
        _ => false,
    }
}

impl RunPhase {
    /// Whether the phase waits for this kind of event, as [`run_step`]
    /// requires.
    pub fn awaits_event(&self, event: &RunEvent) -> (r: bool)
        ensures
            r == (kind(event@) == awaits(self@)),
    {
        match (self, event) {
            (RunPhase::Start, RunEvent::Files(_)) => true,
            (RunPhase::HaveLocal { .. }, RunEvent::Snapshot(_)) => true,
            (RunPhase::Pushed { .. }, RunEvent::Reply(_)) => true,
            (RunPhase::Committed { .. }, RunEvent::Files(_)) => true,
            (RunPhase::Recollected { .. }, RunEvent::Snapshot(_)) => true,
            (RunPhase::Applying { .. }, RunEvent::Written) => true,
            (RunPhase::Verifying { .. }, RunEvent::Files(_)) => true,
            (RunPhase::Acking { .. }, RunEvent::Acknowledged(_)) => true,
            (RunPhase::Saving, RunEvent::Saved) => true,
            _ => false,
        }
    }
}

/// The first step of a run: read the local files.
pub fn run_start() -> (r: (RunPhase, RunAction))
    ensures
        r.0@ == PhaseView::Start,
        r.1@ == ActionView::Collect,
{
    (RunPhase::Start, RunAction::Collect)
}

fn finish(outcome: Result<(), SyncError>) -> (r: (RunPhase, RunAction))
    ensures
        finishing(r.0@, r.1@, outcome),
{
    (RunPhase::Finished, RunAction::Finish(outcome))
}

/// Takes one step of a run; see [`step_spec`]. The work asked for next
/// yields what the next phase waits for, until the run is over.
pub fn run_step(phase: RunPhase, mode: Operation, state: &mut LocalState, event: RunEvent) -> (r: (RunPhase, RunAction))
    requires
        kind(event@) == awaits(phase@),
    ensures
        step_spec(mode, phase@, old(state)@, event@, r.0@, r.1@, final(state)@),
        yields(r.1@) == awaits(r.0@),
{
    match phase {
        RunPhase::Start => match event {
            RunEvent::Files(local) => (RunPhase::HaveLocal { local }, RunAction::FetchSnapshot),
            _ => finish(Err(SyncError::StepOutOfOrder)),
        },
        RunPhase::HaveLocal { local } => match event {
            RunEvent::Snapshot(remote) => match plan_sync(mode, state, &local, &remote) {
                Err(e) => finish(Err(e)),
                Ok(SyncPlan::Idle) => finish(Ok(())),
                Ok(SyncPlan::Upload { force }) => match build_change(&local, state) {
                    Err(e) => finish(Err(e)),
                    Ok(change) => (RunPhase::Pushed { local }, RunAction::Push { change, force }),
                },
                Ok(SyncPlan::Download(decoded)) => {
                    let files = decoded.copy();
                    (RunPhase::Applying { decoded, version: remote.version }, RunAction::Apply { files, expected: local })
                },
            },
            _ => finish(Err(SyncError::StepOutOfOrder)),
        },
        RunPhase::Pushed { local } => match event {
            RunEvent::Reply(None) => finish(Err(SyncError::MissingCommitVersion)),
            RunEvent::Reply(Some(version)) => (RunPhase::Committed { local, version }, RunAction::Collect),
            _ => finish(Err(SyncError::StepOutOfOrder)),
        },
        RunPhase::Committed { local, version } => match event {
            RunEvent::Files(again) => if contents_equal(&again, &local) {
                (RunPhase::Recollected { local, version }, RunAction::FetchSnapshot)
            } else {
                finish(Err(SyncError::LocalChangedDuringUpload))
            },
            _ => finish(Err(SyncError::StepOutOfOrder)),
        },
        RunPhase::Recollected { local, version } => match event {
            RunEvent::Snapshot(check) => match confirm_upload(&local, &local, version, &check, state.secret.as_str()) {
                Err(e) => finish(Err(e)),
                Ok(()) => {
                    let digests = wire_hashes(&local);
                    (RunPhase::Acking { digests: hashes(&local), version }, RunAction::Acknowledge { version, digests })
                },
            },
            _ => finish(Err(SyncError::StepOutOfOrder)),
        },
        RunPhase::Applying { decoded, version } => match event {
            RunEvent::Written => (RunPhase::Verifying { decoded, version }, RunAction::Collect),
            _ => finish(Err(SyncError::StepOutOfOrder)),
        },
        RunPhase::Verifying { decoded, version } => match event {
            RunEvent::Files(again) => match confirm_download(&decoded, &again) {
                Ok(()) => {
                    let digests = wire_hashes(&decoded);
                    (RunPhase::Acking { digests: hashes(&decoded), version }, RunAction::Acknowledge { version, digests })
                },
                Err(e) => finish(Err(e)),
            },
            _ => finish(Err(SyncError::StepOutOfOrder)),
        },
        RunPhase::Acking { digests, version } => match event {
            RunEvent::Acknowledged(now) => {
                state.record_sync(version, digests, now);
                (RunPhase::Saving, RunAction::Save)
            },
            _ => finish(Err(SyncError::StepOutOfOrder)),
        },
        RunPhase::Saving => finish(Ok(())),
        RunPhase::Finished => finish(Err(SyncError::StepOutOfOrder)),
    }
}

// ---------------------------------------------------------------- laws of a run

/// How far a phase is from the end of a run.
pub open spec fn remaining(p: PhaseView) -> nat {
    match p {
        PhaseView::Start => 7,
        PhaseView::HaveLocal(_) => 6,
        PhaseView::Pushed(_) => 5,
        PhaseView::Committed(_, _) => 4,
        PhaseView::Recollected(_, _) => 3,
        PhaseView::Applying(_, _) => 5,
        PhaseView::Verifying(_, _) => 4,
        PhaseView::Acking(_, _) => 2,
        PhaseView::Saving => 1,
        PhaseView::Finished => 0,
    }
}

/// Law: every step brings a run closer to its end, so a run ends after at
/// most seven steps.
pub proof fn law_runs_end(
    mode: Operation,
    phase: PhaseView,
    state: LocalStateView,
    event: EventView,
    next: PhaseView,
    action: ActionView,
    after: LocalStateView,
)
    requires
        step_spec(mode, phase, state, event, next, action, after),
    ensures
        remaining(next) < remaining(phase),
{
}

/// Law: no step of a run switches automatic sync on.
pub proof fn law_run_never_enables_auto(
    mode: Operation,
    phase: PhaseView,
    state: LocalStateView,
    event: EventView,
    next: PhaseView,
    action: ActionView,
    after: LocalStateView,
)
    requires
        step_spec(mode, phase, state, event, next, action, after),
    ensures
        after.enabled ==> state.enabled,
        mode != Operation::Auto && phase is HaveLocal ==> !after.enabled,
{
    if let (PhaseView::HaveLocal(local), EventView::Snapshot(rv, rf)) = (phase, event) {
        law_runs_never_enable_auto(mode, state, local, rv, rf);
    }
}

/// Law: an upload that reaches the saving step leaves the device aligned
/// with the snapshot it checked its commit against, holding the files it
/// uploaded.
pub proof fn law_upload_run_aligns(
    mode: Operation,
    local: Seq<Option<Seq<u8>>>,
    version: u64,
    check_version: u64,
    check_files: Seq<SyncFileView>,
    now: u64,
    s0: LocalStateView,
    digests: Seq<(Seq<char>, Option<Seq<char>>)>,
    a0: ActionView,
    s1: LocalStateView,
    a1: ActionView,
    s2: LocalStateView,
)
    requires
        step_spec(mode, PhaseView::Recollected(local, version), s0, EventView::Snapshot(check_version, check_files),
            PhaseView::Acking(digests, version), a0, s1),
        step_spec(mode, PhaseView::Acking(digests, version), s1, EventView::Acknowledged(now), PhaseView::Saving, a1, s2),
    ensures
        aligned_spec(check_version, check_files, s2, local),
        s2.version == version,
        s2.last_sync == Some(now),
{
}

/// Law: a download that reaches the saving step leaves the device aligned
/// with the snapshot it downloaded, holding exactly the received files.
pub proof fn law_download_run_aligns(
    mode: Operation,
    local: Seq<Option<Seq<u8>>>,
    remote_version: u64,
    remote_files: Seq<SyncFileView>,
    decoded: Seq<Option<Seq<u8>>>,
    again: Seq<Option<Seq<u8>>>,
    now: u64,
    digests: Seq<(Seq<char>, Option<Seq<char>>)>,
    s0: LocalStateView,
    a0: ActionView,
    s1: LocalStateView,
    a1: ActionView,
    s2: LocalStateView,
    a2: ActionView,
    s3: LocalStateView,
    a3: ActionView,
    s4: LocalStateView,
)
    requires
        step_spec(mode, PhaseView::HaveLocal(local), s0, EventView::Snapshot(remote_version, remote_files),
            PhaseView::Applying(decoded, remote_version), a0, s1),
        step_spec(mode, PhaseView::Applying(decoded, remote_version), s1, EventView::Written,
            PhaseView::Verifying(decoded, remote_version), a1, s2),
        step_spec(mode, PhaseView::Verifying(decoded, remote_version), s2, EventView::Files(again),
            PhaseView::Acking(digests, remote_version), a2, s3),
        step_spec(mode, PhaseView::Acking(digests, remote_version), s3, EventView::Acknowledged(now), PhaseView::Saving, a3, s4),
    ensures
        again == decoded,
        aligned_spec(remote_version, remote_files, s4, again),
        s4.version == remote_version,
{
    let plan = plan_spec(mode, s0, local, remote_version, remote_files);
    assert(plan.0 == Ok::<PlanView, SyncError>(PlanView::Download(decoded)));
    assert(download_spec(remote_version, remote_files, s0.secret) == Ok::<PlanView, SyncError>(PlanView::Download(decoded)));
}

/// Law: received files are only ever written once the whole snapshot they
/// come from is decrypted and checked, and only over the local files the run
/// started from.
pub proof fn law_writes_only_checked_snapshots(
    mode: Operation,
    phase: PhaseView,
    state: LocalStateView,
    event: EventView,
    next: PhaseView,
    action: ActionView,
    after: LocalStateView,
)
    requires
        step_spec(mode, phase, state, event, next, action, after),
        action is Apply,
    ensures
        phase matches PhaseView::HaveLocal(local) && action->Apply_1 == local,
        event matches EventView::Snapshot(rv, rf)
            && decrypt_snapshot_spec(rv, rf, state.secret) == Ok::<Seq<Option<Seq<u8>>>, SyncError>(action->Apply_0),
{
}

/// Law: the recorded version and digests change only when the server has
/// taken the device's acknowledgement; a run that stops earlier (a failed
/// write among them) leaves them as they were.
pub proof fn law_record_only_after_acknowledgement(
    mode: Operation,
    phase: PhaseView,
    state: LocalStateView,
    event: EventView,
    next: PhaseView,
    action: ActionView,
    after: LocalStateView,
)
    requires
        step_spec(mode, phase, state, event, next, action, after),
        after.version != state.version || after.hashes != state.hashes,
    ensures
        phase is Acking,
        event is Acknowledged,
{
}

} // verus!
