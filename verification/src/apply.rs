//! Writing received files in place as a sequence of steps: the local files
//! must still be the expected ones; each current file is backed up and each
//! received file checked before anything is written; each file is read once
//! more right before it is replaced; and where a write fails, the files
//! already written are put back, latest first.

use vstd::prelude::*;
use crate::contents::{Contents, Hashes, hashes, hashes_spec, hashes_view, opt_bytes_view};
use crate::engine::{
    WriteAction, WriteActionView, check_unchanged, restore_action, rollback_plan, write_plan, write_plan_spec,
};
use crate::error::SyncError;
use crate::files::{FileSlot, slot_at, slot_index};
use crate::projection::{validate_content, validate_content_spec};

verus! {

/// Where writing stands. Files go in slot order; `i` is a position in it.
#[derive(Debug, Clone, Copy, PartialEq, Eq, Structural)]
pub enum ApplyStage {
    /// The local files are read to compare them with the expected ones.
    Checking,
    /// The backup folder is being made.
    Opening,
    /// The current file at `i` is read.
    Reading(usize),
    /// The current file at `i` is copied into the backup.
    BackingUp(usize),
    /// The list of the current files' digests is written into the backup.
    Indexing,
    /// The file at `i` is read once more before it is replaced.
    Rechecking(usize),
    /// The file at `i` is being replaced.
    Writing(usize),
    /// A write failed; the `k`-th file to put back is being put back.
    RollingBack(usize),
    /// Writing is over.
    Finished,
}

/// How writing ended.
pub enum ApplyOutcome {
    /// Every received file is in place.
    Applied,
    /// Nothing was written: the local files changed, a received file
    /// failed its format check, or an event came that the step did not
    /// wait for.
    Refused(SyncError),
    /// A write failed, for `cause` where the files themselves were the
    /// reason (`None` for a failure of the file system), and the files
    /// written before were put back, except those in `failed`.
    RolledBack { cause: Option<SyncError>, failed: Vec<FileSlot> },
}

/// The mathematical value of an [`ApplyOutcome`].
pub enum ApplyOutcomeView {
    Applied,
    Refused(SyncError),
    RolledBack(Option<SyncError>, Seq<FileSlot>),
}

impl ApplyOutcome {
    pub open spec fn view(&self) -> ApplyOutcomeView {
        match self {
            ApplyOutcome::Applied => ApplyOutcomeView::Applied,
            ApplyOutcome::Refused(e) => ApplyOutcomeView::Refused(*e),
            ApplyOutcome::RolledBack { cause, failed } => ApplyOutcomeView::RolledBack(*cause, failed@),
        }
    }
}

/// What came of the file work asked for.
pub enum ApplyEvent {
    /// The local files, after [`ApplyAction::Collect`].
    Files(Contents),
    /// The bytes of a file (`None` where it does not exist), after a read.
    Read(Option<Vec<u8>>),
    /// The work succeeded.
    Done,
    /// A read before a write, a write, a move or a restore failed.
    Failed,
}

/// The file work asked for next.
pub enum ApplyAction {
    /// Read the local files.
    Collect,
    /// Make the backup folder.
    OpenBackup,
    /// Read the current file of a slot, to back it up.
    ReadOriginal(FileSlot),
    /// Copy these bytes, the current file of the slot, into the backup.
    Backup(FileSlot, Vec<u8>),
    /// Write the digests of the current files into the backup.
    WriteIndex(Hashes),
    /// Read the file of a slot once more, right before replacing it.
    ReadCurrent(FileSlot),
    /// Replace the file of a slot with these bytes.
    Write(FileSlot, Vec<u8>),
    /// Move the file of a slot into the backup folder, if it exists.
    MoveAside(FileSlot),
    /// Put a written file back: write its original bytes again, or move the
    /// new file aside where there was none.
    Restore(FileSlot, WriteAction),
    /// Writing is over.
    Finish(ApplyOutcome),
}

/// The mathematical value of an [`ApplyEvent`].
pub enum ApplyEventView {
    Files(Seq<Option<Seq<u8>>>),
    Read(Option<Seq<u8>>),
    Done,
    Failed,
}

/// The mathematical value of an [`ApplyAction`].
pub enum ApplyActionView {
    Collect,
    OpenBackup,
    ReadOriginal(FileSlot),
    Backup(FileSlot, Seq<u8>),
    WriteIndex(Seq<(Seq<char>, Option<Seq<char>>)>),
    ReadCurrent(FileSlot),
    Write(FileSlot, Seq<u8>),
    MoveAside(FileSlot),
    Restore(FileSlot, WriteActionView),
    Finish(ApplyOutcomeView),
}

impl ApplyEvent {
    pub open spec fn view(&self) -> ApplyEventView {
        match self {
            ApplyEvent::Files(c) => ApplyEventView::Files(c@),
            ApplyEvent::Read(b) => ApplyEventView::Read(opt_bytes_view(*b)),
            ApplyEvent::Done => ApplyEventView::Done,
            ApplyEvent::Failed => ApplyEventView::Failed,
        }
    }
}

impl ApplyAction {
    pub open spec fn view(&self) -> ApplyActionView {
        match self {
            ApplyAction::Collect => ApplyActionView::Collect,
            ApplyAction::OpenBackup => ApplyActionView::OpenBackup,
            ApplyAction::ReadOriginal(s) => ApplyActionView::ReadOriginal(*s),
            ApplyAction::Backup(s, b) => ApplyActionView::Backup(*s, b@),
            ApplyAction::WriteIndex(h) => ApplyActionView::WriteIndex(hashes_view(h@)),
            ApplyAction::ReadCurrent(s) => ApplyActionView::ReadCurrent(*s),
            ApplyAction::Write(s, b) => ApplyActionView::Write(*s, b@),
            ApplyAction::MoveAside(s) => ApplyActionView::MoveAside(*s),
            ApplyAction::Restore(s, a) => ApplyActionView::Restore(*s, a@),
            ApplyAction::Finish(o) => ApplyActionView::Finish(o@),
        }
    }
}

/// Writing received files, as it stands.
pub struct ApplyRun {
    pub stage: ApplyStage,
    /// The received files.
    pub files: Contents,
    /// The local files the run started from.
    pub expected: Contents,
    /// The current files, as read for the backup.
    pub originals: Contents,
    /// The slots written so far, in order.
    pub written: Vec<FileSlot>,
    /// The files to put back, once a write failed.
    pub restores: Vec<(FileSlot, WriteAction)>,
    /// The slots that could not be put back.
    pub failed: Vec<FileSlot>,
    /// Why a write failed, where the files were the reason.
    pub cause: Option<SyncError>,
}

/// The mathematical value of an [`ApplyRun`].
pub struct ApplyView {
    pub stage: ApplyStage,
    pub files: Seq<Option<Seq<u8>>>,
    pub expected: Seq<Option<Seq<u8>>>,
    pub originals: Seq<Option<Seq<u8>>>,
    pub written: Seq<FileSlot>,
    pub restores: Seq<(FileSlot, WriteActionView)>,
    pub failed: Seq<FileSlot>,
    pub cause: Option<SyncError>,
}

pub open spec fn restores_view(r: Seq<(FileSlot, WriteAction)>) -> Seq<(FileSlot, WriteActionView)> {
    r.map_values(|p: (FileSlot, WriteAction)| (p.0, p.1@))
}

/// The files to put back after the slots `written` were written over
/// `originals`: latest first, each as it was.
pub open spec fn restore_plan_spec(written: Seq<FileSlot>, originals: Seq<Option<Seq<u8>>>) -> Seq<(FileSlot, WriteActionView)> {
    Seq::new(written.len(), |j: int| (
        written[written.len() - 1 - j],
        restore_action(originals[slot_index(written[written.len() - 1 - j])]),
    ))
}

/// Every received file passes its format check.
pub open spec fn all_valid(files: Seq<Option<Seq<u8>>>, upto: int) -> bool {
    forall|j: int| 0 <= j < upto ==> (#[trigger] files[j] matches Some(raw) ==> validate_content_spec(slot_at(j), raw) is Ok)
}

/// The slots in slot order, up to `i`.
pub open spec fn slots_upto(written: Seq<FileSlot>, i: int) -> bool {
    written.len() == i && forall|j: int| 0 <= j < i ==> #[trigger] written[j] == slot_at(j)
}

impl ApplyRun {
    pub open spec fn view(&self) -> ApplyView {
        ApplyView {
            stage: self.stage,
            files: self.files@,
            expected: self.expected@,
            originals: self.originals@,
            written: self.written@,
            restores: restores_view(self.restores@),
            failed: self.failed@,
            cause: self.cause,
        }
    }

    /// What holds at every stage; see [`view_wf`].
    pub open spec fn wf(&self) -> bool {
        view_wf(self@)
    }
}

/// What holds at every stage: positions are in range, the received files
/// checked so far passed their format check, the slots written so far are
/// those before the current one, and a roll-back puts back exactly what was
/// written.
pub open spec fn view_wf(v: ApplyView) -> bool {
    &&& v.files.len() == 4
    &&& v.originals.len() == 4
    &&& match v.stage {
        ApplyStage::Reading(i) => i < 4 && all_valid(v.files, i as int) && v.written.len() == 0,
        ApplyStage::BackingUp(i) => i < 4 && all_valid(v.files, i as int) && v.written.len() == 0,
        ApplyStage::Indexing => all_valid(v.files, 4) && v.written.len() == 0,
        ApplyStage::Rechecking(i) => i < 4 && all_valid(v.files, 4) && slots_upto(v.written, i as int),
        ApplyStage::Writing(i) => i < 4 && all_valid(v.files, 4) && slots_upto(v.written, i as int),
        ApplyStage::RollingBack(k) => {
            &&& k < v.restores.len()
            &&& v.written.len() < 4
            &&& v.restores == restore_plan_spec(v.written, v.originals)
        },
        ApplyStage::Finished => true,
        _ => v.written.len() == 0,
    }
}

/// The kinds of events.
pub enum ApplyEventKind {
    Files,
    Read,
    Done,
    Failed,
}

pub open spec fn event_kind(e: ApplyEventView) -> ApplyEventKind {
    match e {
        ApplyEventView::Files(_) => ApplyEventKind::Files,
        ApplyEventView::Read(_) => ApplyEventKind::Read,
        ApplyEventView::Done => ApplyEventKind::Done,
        ApplyEventView::Failed => ApplyEventKind::Failed,
    }
}

/// The events a stage can be told.
pub open spec fn accepts(stage: ApplyStage, k: ApplyEventKind) -> bool {
    match stage {
        ApplyStage::Checking => k == ApplyEventKind::Files,
        ApplyStage::Opening => k == ApplyEventKind::Done,
        ApplyStage::Reading(_) => k == ApplyEventKind::Read,
        ApplyStage::BackingUp(_) => k == ApplyEventKind::Done,
        ApplyStage::Indexing => k == ApplyEventKind::Done,
        ApplyStage::Rechecking(_) => k == ApplyEventKind::Read || k == ApplyEventKind::Failed,
        ApplyStage::Writing(_) => k == ApplyEventKind::Done || k == ApplyEventKind::Failed,
        ApplyStage::RollingBack(_) => k == ApplyEventKind::Done || k == ApplyEventKind::Failed,
        ApplyStage::Finished => false,
    }
}

/// The events the work of an action can yield: the reads and writes that a
/// failure rolls back may fail; the others stop the run where they fail.
pub open spec fn may_yield(a: ApplyActionView, k: ApplyEventKind) -> bool {
    match a {
        ApplyActionView::Collect => k == ApplyEventKind::Files,
        ApplyActionView::OpenBackup => k == ApplyEventKind::Done,
        ApplyActionView::ReadOriginal(_) => k == ApplyEventKind::Read,
        ApplyActionView::Backup(_, _) => k == ApplyEventKind::Done,
        ApplyActionView::WriteIndex(_) => k == ApplyEventKind::Done,
        ApplyActionView::ReadCurrent(_) => k == ApplyEventKind::Read || k == ApplyEventKind::Failed,
        ApplyActionView::Write(_, _) => k == ApplyEventKind::Done || k == ApplyEventKind::Failed,
        ApplyActionView::MoveAside(_) => k == ApplyEventKind::Done || k == ApplyEventKind::Failed,
        ApplyActionView::Restore(_, _) => k == ApplyEventKind::Done || k == ApplyEventKind::Failed,
        ApplyActionView::Finish(_) => false,
    }
}

/// Ends the run.
pub open spec fn finish_spec(s: ApplyView, outcome: ApplyOutcomeView) -> (ApplyView, ApplyActionView) {
    (ApplyView { stage: ApplyStage::Finished, ..s }, ApplyActionView::Finish(outcome))
}

/// The next current file to read, or the backup's digest list.
pub open spec fn next_original_spec(s: ApplyView, i: int) -> (ApplyView, ApplyActionView) {
    if i + 1 < 4 {
        (ApplyView { stage: ApplyStage::Reading((i + 1) as usize), ..s }, ApplyActionView::ReadOriginal(slot_at(i + 1)))
    } else {
        (ApplyView { stage: ApplyStage::Indexing, ..s }, ApplyActionView::WriteIndex(hashes_spec(s.originals)))
    }
}

/// Once the current file at `i` is safe in the backup: the received file
/// there must pass its format check.
pub open spec fn secured_spec(s: ApplyView, i: int) -> (ApplyView, ApplyActionView) {
    match s.files[i] {
        Some(raw) => match validate_content_spec(slot_at(i), raw) {
            Err(e) => finish_spec(s, ApplyOutcomeView::Refused(e)),
            Ok(_) => next_original_spec(s, i),
        },
        None => next_original_spec(s, i),
    }
}

/// Puts back the `k`-th file of the roll-back, or ends it.
pub open spec fn restore_next_spec(s: ApplyView, k: int) -> (ApplyView, ApplyActionView) {
    if k < s.restores.len() {
        (ApplyView { stage: ApplyStage::RollingBack(k as usize), ..s }, ApplyActionView::Restore(s.restores[k].0, s.restores[k].1))
    } else {
        finish_spec(s, ApplyOutcomeView::RolledBack(s.cause, s.failed))
    }
}

/// Starts putting back what was written.
pub open spec fn roll_back_spec(s: ApplyView, cause: Option<SyncError>) -> (ApplyView, ApplyActionView) {
    restore_next_spec(ApplyView { restores: restore_plan_spec(s.written, s.originals), cause: cause, ..s }, 0)
}

/// One step of writing: from the run `s` told `e`, the next run and the work
/// it asks for.
pub open spec fn apply_next(s: ApplyView, e: ApplyEventView) -> (ApplyView, ApplyActionView) {
    match (s.stage, e) {
        (ApplyStage::Checking, ApplyEventView::Files(current)) => if current == s.expected {
            (ApplyView { stage: ApplyStage::Opening, ..s }, ApplyActionView::OpenBackup)
        } else {
            finish_spec(s, ApplyOutcomeView::Refused(SyncError::ConcurrentLocalEdit))
        },
        (ApplyStage::Opening, ApplyEventView::Done) =>
            (ApplyView { stage: ApplyStage::Reading(0), ..s }, ApplyActionView::ReadOriginal(slot_at(0))),
        (ApplyStage::Reading(i), ApplyEventView::Read(o)) => {
            let t = ApplyView { originals: s.originals.update(i as int, o), ..s };
            match o {
                Some(raw) => (ApplyView { stage: ApplyStage::BackingUp(i), ..t }, ApplyActionView::Backup(slot_at(i as int), raw)),
                None => secured_spec(t, i as int),
            }
        },
        (ApplyStage::BackingUp(i), ApplyEventView::Done) => secured_spec(s, i as int),
        (ApplyStage::Indexing, ApplyEventView::Done) =>
            (ApplyView { stage: ApplyStage::Rechecking(0), ..s }, ApplyActionView::ReadCurrent(slot_at(0))),
        (ApplyStage::Rechecking(i), ApplyEventView::Read(now)) =>
            match write_plan_spec(slot_at(i as int), s.files[i as int], s.originals[i as int], now) {
                Ok(WriteActionView::Write(b)) =>
                    (ApplyView { stage: ApplyStage::Writing(i), ..s }, ApplyActionView::Write(slot_at(i as int), b)),
                Ok(WriteActionView::MoveAside) =>
                    (ApplyView { stage: ApplyStage::Writing(i), ..s }, ApplyActionView::MoveAside(slot_at(i as int))),
                Err(e) => roll_back_spec(s, Some(e)),
            },
        (ApplyStage::Rechecking(_), ApplyEventView::Failed) => roll_back_spec(s, None),
        (ApplyStage::Writing(i), ApplyEventView::Done) => {
            let t = ApplyView { written: s.written.push(slot_at(i as int)), ..s };
            if i + 1 < 4 {
                (ApplyView { stage: ApplyStage::Rechecking((i + 1) as usize), ..t }, ApplyActionView::ReadCurrent(slot_at(i + 1)))
            } else {
                finish_spec(t, ApplyOutcomeView::Applied)
            }
        },
        (ApplyStage::Writing(_), ApplyEventView::Failed) => roll_back_spec(s, None),
        (ApplyStage::RollingBack(k), ApplyEventView::Done) => restore_next_spec(s, k + 1),
        (ApplyStage::RollingBack(k), ApplyEventView::Failed) =>
            restore_next_spec(ApplyView { failed: s.failed.push(s.restores[k as int].0), ..s }, k + 1),
        _ => finish_spec(s, ApplyOutcomeView::Refused(SyncError::StepOutOfOrder)),
    }
}

/// Starts writing `files` over local files that must still be `expected`.
pub fn apply_start(files: Contents, expected: Contents) -> (r: (ApplyRun, ApplyAction))
    ensures
        r.0.wf(),
        r.0@ == (ApplyView {
            stage: ApplyStage::Checking,
            files: files@,
            expected: expected@,
            originals: seq![None::<Seq<u8>>, None, None, None],
            written: Seq::empty(),
            restores: Seq::empty(),
            failed: Seq::empty(),
            cause: None,
        }),
        r.1@ == ApplyActionView::Collect,
{
    let run = ApplyRun {
        stage: ApplyStage::Checking,
        files,
        expected,
        originals: Contents::empty(),
        written: Vec::new(),
        restores: Vec::new(),
        failed: Vec::new(),
        cause: None,
    };
    assert(restores_view(run.restores@) =~= Seq::<(FileSlot, WriteActionView)>::empty());
    (run, ApplyAction::Collect)
}

impl ApplyRun {
    fn finish(&mut self, outcome: ApplyOutcome) -> (a: ApplyAction)
        ensures
            (final(self)@, a@) == finish_spec(old(self)@, outcome@),
    {
        self.stage = ApplyStage::Finished;
        ApplyAction::Finish(outcome)
    }

    fn next_original(&mut self, i: usize) -> (a: ApplyAction)
        requires
            i < 4,
        ensures
            (final(self)@, a@) == next_original_spec(old(self)@, i as int),
    {
        if i + 1 < 4 {
            self.stage = ApplyStage::Reading(i + 1);
            ApplyAction::ReadOriginal(FileSlot::at(i + 1))
        } else {
            self.stage = ApplyStage::Indexing;
            ApplyAction::WriteIndex(hashes(&self.originals))
        }
    }

    fn secured(&mut self, i: usize) -> (a: ApplyAction)
        requires
            i < 4,
        ensures
            (final(self)@, a@) == secured_spec(old(self)@, i as int),
    {
        let slot = FileSlot::at(i);
        let checked = match self.files.get(slot) {
            Some(raw) => validate_content(slot, raw.as_slice()),
            None => Ok(()),
        };
        match checked {
            Err(e) => self.finish(ApplyOutcome::Refused(e)),
            Ok(()) => self.next_original(i),
        }
    }

    fn restore_next(&mut self, k: usize) -> (a: ApplyAction)
        ensures
            (final(self)@, a@) == restore_next_spec(old(self)@, k as int),
    {
        if k < self.restores.len() {
            self.stage = ApplyStage::RollingBack(k);
            let slot = self.restores[k].0;
            let action = match &self.restores[k].1 {
                WriteAction::Write(b) => WriteAction::Write(b.clone()),
                WriteAction::MoveAside => WriteAction::MoveAside,
            };
            ApplyAction::Restore(slot, action)
        } else {
            let failed = self.failed.clone();
            assert(failed@ == self.failed@);
            self.finish(ApplyOutcome::RolledBack { cause: self.cause, failed })
        }
    }

    fn roll_back(&mut self, cause: Option<SyncError>) -> (a: ApplyAction)
        ensures
            (final(self)@, a@) == roll_back_spec(old(self)@, cause),
            final(self)@.restores == restore_plan_spec(old(self)@.written, old(self)@.originals),
    {
        self.restores = rollback_plan(&self.written, &self.originals);
        self.cause = cause;
        assert(restores_view(self.restores@) =~= restore_plan_spec(self.written@, self.originals@));
        self.restore_next(0)
    }

    /// Whether the run can be told this event now, as [`ApplyRun::apply_step`]
    /// requires.
    pub fn accepts_event(&self, event: &ApplyEvent) -> (r: bool)
        ensures
            r == accepts(self@.stage, event_kind(event@)),
    {
        match (self.stage, event) {
            (ApplyStage::Checking, ApplyEvent::Files(_)) => true,
            (ApplyStage::Opening, ApplyEvent::Done) => true,
            (ApplyStage::Reading(_), ApplyEvent::Read(_)) => true,
            (ApplyStage::BackingUp(_), ApplyEvent::Done) => true,
            (ApplyStage::Indexing, ApplyEvent::Done) => true,
            (ApplyStage::Rechecking(_), ApplyEvent::Read(_)) => true,
            (ApplyStage::Rechecking(_), ApplyEvent::Failed) => true,
            (ApplyStage::Writing(_), ApplyEvent::Done) => true,
            (ApplyStage::Writing(_), ApplyEvent::Failed) => true,
            (ApplyStage::RollingBack(_), ApplyEvent::Done) => true,
            (ApplyStage::RollingBack(_), ApplyEvent::Failed) => true,
            _ => false,
        }
    }

    /// Takes one step; see [`apply_next`]. The work asked for next yields
    /// only what the next stage can be told, until writing is over.
    #[verifier::spinoff_prover]
    #[verifier::rlimit(40)]
    pub fn apply_step(&mut self, event: ApplyEvent) -> (a: ApplyAction)
        requires
            old(self).wf(),
            accepts(old(self)@.stage, event_kind(event@)),
        ensures
            final(self).wf(),
            (final(self)@, a@) == apply_next(old(self)@, event@),
            forall|k: ApplyEventKind| may_yield(a@, k) ==> accepts(final(self)@.stage, k),
            (a@ is Finish) <==> final(self)@.stage == ApplyStage::Finished,
    {
        match (self.stage, event) {
            (ApplyStage::Checking, ApplyEvent::Files(current)) => match check_unchanged(&current, &self.expected) {
                Ok(()) => {
                    self.stage = ApplyStage::Opening;
                    ApplyAction::OpenBackup
                },
                Err(e) => self.finish(ApplyOutcome::Refused(e)),
            },
            (ApplyStage::Opening, ApplyEvent::Done) => {
                self.stage = ApplyStage::Reading(0);
                ApplyAction::ReadOriginal(FileSlot::at(0))
            },
            (ApplyStage::Reading(i), ApplyEvent::Read(o)) => {
                let slot = FileSlot::at(i);
                match o {
                    Some(raw) => {
                        let copy = raw.clone();
                        self.originals.set(slot, Some(raw));
                        self.stage = ApplyStage::BackingUp(i);
                        ApplyAction::Backup(slot, copy)
                    },
                    None => {
                        self.originals.set(slot, None);
                        self.secured(i)
                    },
                }
            },
            (ApplyStage::BackingUp(i), ApplyEvent::Done) => self.secured(i),
            (ApplyStage::Indexing, ApplyEvent::Done) => {
                self.stage = ApplyStage::Rechecking(0);
                ApplyAction::ReadCurrent(FileSlot::at(0))
            },
            (ApplyStage::Rechecking(i), ApplyEvent::Read(now)) => {
                let slot = FileSlot::at(i);
                match write_plan(slot, self.files.get(slot), self.originals.get(slot), &now) {
                    Ok(WriteAction::Write(b)) => {
                        self.stage = ApplyStage::Writing(i);
                        ApplyAction::Write(slot, b)
                    },
                    Ok(WriteAction::MoveAside) => {
                        self.stage = ApplyStage::Writing(i);
                        ApplyAction::MoveAside(slot)
                    },
                    Err(e) => self.roll_back(Some(e)),
                }
            },
            (ApplyStage::Rechecking(_), ApplyEvent::Failed) => self.roll_back(None),
            (ApplyStage::Writing(i), ApplyEvent::Done) => {
                let slot = FileSlot::at(i);
                self.written.push(slot);
                if i + 1 < 4 {
                    self.stage = ApplyStage::Rechecking(i + 1);
                    ApplyAction::ReadCurrent(FileSlot::at(i + 1))
                } else {
                    self.finish(ApplyOutcome::Applied)
                }
            },
            (ApplyStage::Writing(_), ApplyEvent::Failed) => self.roll_back(None),
            (ApplyStage::RollingBack(k), ApplyEvent::Done) => {
                let n = self.restores.len();
                assert(k < n);
                self.restore_next(k + 1)
            },
            (ApplyStage::RollingBack(k), ApplyEvent::Failed) => {
                let n = self.restores.len();
                assert(k < n);
                let slot = self.restores[k].0;
                self.failed.push(slot);
                self.restore_next(k + 1)
            },
            _ => self.finish(ApplyOutcome::Refused(SyncError::StepOutOfOrder)),
        }
    }
}

// ---------------------------------------------------------------- laws of writing

/// How far a run is from its end.
pub open spec fn apply_remaining(s: ApplyView) -> int {
    match s.stage {
        ApplyStage::Checking => 30,
        ApplyStage::Opening => 29,
        ApplyStage::Reading(i) => 28 - 2 * i,
        ApplyStage::BackingUp(i) => 27 - 2 * i,
        ApplyStage::Indexing => 20,
        ApplyStage::Rechecking(i) => 19 - 2 * i,
        ApplyStage::Writing(i) => 18 - 2 * i,
        ApplyStage::RollingBack(k) => s.restores.len() - k,
        ApplyStage::Finished => 0,
    }
}

/// Law: every step brings writing closer to its end, so it ends after at
/// most thirty steps.
pub proof fn law_apply_ends(s: ApplyView, e: ApplyEventView)
    requires
        view_wf(s),
        accepts(s.stage, event_kind(e)),
    ensures
        0 <= apply_remaining(apply_next(s, e).0) < apply_remaining(s),
{
    match s.stage {
        ApplyStage::Rechecking(i) => {
            assert(restore_plan_spec(s.written, s.originals).len() == i);
        },
        ApplyStage::Writing(i) => {
            assert(restore_plan_spec(s.written, s.originals).len() == i);
        },
        _ => {},
    }
}

/// Law: a file is replaced or moved aside only once every received file
/// passed its format check, and only where the file, read right before, is
/// still what was read for the backup.
pub proof fn law_writes_follow_checks(s: ApplyView, e: ApplyEventView)
    requires
        view_wf(s),
        accepts(s.stage, event_kind(e)),
        apply_next(s, e).1 is Write || apply_next(s, e).1 is MoveAside,
    ensures
        all_valid(s.files, 4),
        s.stage is Rechecking,
        e matches ApplyEventView::Read(now) && now == s.originals[s.stage->Rechecking_0 as int],
{
}

/// Law: a roll-back puts back exactly the files written so far, latest
/// first, each as it was before writing began.
pub proof fn law_rollback_restores_originals(s: ApplyView, e: ApplyEventView)
    requires
        view_wf(s),
        accepts(s.stage, event_kind(e)),
        !(s.stage is RollingBack),
        apply_next(s, e).0.stage is RollingBack || apply_next(s, e).1 matches ApplyActionView::Finish(ApplyOutcomeView::RolledBack(_, _)),
    ensures
        apply_next(s, e).0.restores.len() == s.written.len(),
        forall|j: int| 0 <= j < s.written.len() ==> #[trigger] apply_next(s, e).0.restores[j] == (
            s.written[s.written.len() - 1 - j],
            restore_action(s.originals[slot_index(s.written[s.written.len() - 1 - j])]),
        ),
{
}

} // verus!
