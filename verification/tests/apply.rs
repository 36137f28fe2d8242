use codex_plus_core::apply::{apply_start, ApplyAction, ApplyEvent, ApplyOutcome};
use codex_plus_core::contents::{hashes, Contents, Hashes};
use codex_plus_core::engine::WriteAction;
use codex_plus_core::error::SyncError;
use codex_plus_core::files::FileSlot;

const SLOTS: [FileSlot; 4] = [FileSlot::Auth, FileSlot::Config, FileSlot::Models, FileSlot::Settings];

/// A device's files, kept in memory, with the backup folder beside them.
#[derive(Default)]
struct Disk {
    files: [Option<Vec<u8>>; 4],
    backup: Vec<(FileSlot, Vec<u8>)>,
    index: Option<Hashes>,
    fail_writing: Option<FileSlot>,
    edit_before_rereading: Option<(FileSlot, Vec<u8>)>,
    backup_folders: usize,
}

impl Disk {
    fn contents(&self) -> Contents {
        let mut c = Contents::empty();
        for slot in SLOTS {
            c.set(slot, self.files[slot.index()].clone());
        }
        c
    }

    fn apply(&mut self, files: &Contents, expected: &Contents) -> ApplyOutcome {
        let (mut run, mut action) = apply_start(files.copy(), expected.copy());
        loop {
            let event = match action {
                ApplyAction::Collect => ApplyEvent::Files(self.contents()),
                ApplyAction::OpenBackup => {
                    self.backup_folders += 1;
                    ApplyEvent::Done
                },
                ApplyAction::ReadOriginal(slot) => ApplyEvent::Read(self.files[slot.index()].clone()),
                ApplyAction::Backup(slot, bytes) => {
                    self.backup.push((slot, bytes));
                    ApplyEvent::Done
                },
                ApplyAction::WriteIndex(digests) => {
                    self.index = Some(digests);
                    ApplyEvent::Done
                },
                ApplyAction::ReadCurrent(slot) => {
                    if let Some((edited, bytes)) = self.edit_before_rereading.clone() {
                        if edited == slot {
                            self.files[slot.index()] = Some(bytes);
                        }
                    }
                    ApplyEvent::Read(self.files[slot.index()].clone())
                },
                ApplyAction::Write(slot, bytes) => {
                    if self.fail_writing == Some(slot) {
                        ApplyEvent::Failed
                    } else {
                        self.files[slot.index()] = Some(bytes);
                        ApplyEvent::Done
                    }
                },
                ApplyAction::MoveAside(slot) => {
                    if self.fail_writing == Some(slot) {
                        ApplyEvent::Failed
                    } else {
                        self.files[slot.index()] = None;
                        ApplyEvent::Done
                    }
                },
                ApplyAction::Restore(slot, restore) => {
                    self.files[slot.index()] = match restore {
                        WriteAction::Write(raw) => Some(raw),
                        WriteAction::MoveAside => None,
                    };
                    ApplyEvent::Done
                },
                ApplyAction::Finish(outcome) => return outcome,
            };
            assert!(run.accepts_event(&event));
            action = run.apply_step(event);
        }
    }
}

fn device() -> Disk {
    let mut disk = Disk::default();
    disk.files[FileSlot::Config.index()] = Some(b"model = 'old'\n".to_vec());
    disk.files[FileSlot::Settings.index()] = Some(br#"{"configSyncDeviceToken":"local-only","theme":"dark"}"#.to_vec());
    disk
}

fn received() -> Contents {
    let mut c = Contents::empty();
    c.set(FileSlot::Config, Some(b"model = 'new'\n".to_vec()));
    c.set(FileSlot::Models, Some(b"[]".to_vec()));
    c.set(FileSlot::Settings, Some(br#"{"theme":"light"}"#.to_vec()));
    c
}

#[test]
fn pull_backs_up_and_rejects_concurrent_edits() {
    let mut disk = device();
    let before = disk.contents();
    let mut after = before.copy();
    after.set(FileSlot::Config, Some(b"model = 'new'\n".to_vec()));
    assert!(matches!(disk.apply(&after, &before), ApplyOutcome::Applied));
    assert_eq!(disk.files[FileSlot::Config.index()], Some(b"model = 'new'\n".to_vec()));
    assert_eq!(disk.backup_folders, 1);
    assert_eq!(disk.backup.len(), 2);
    assert!(matches!(disk.apply(&before, &before), ApplyOutcome::Refused(SyncError::ConcurrentLocalEdit)));
    assert_eq!(disk.backup_folders, 1);
}

#[test]
fn received_files_replace_the_local_ones_after_a_backup() {
    let mut disk = device();
    let expected = disk.contents();
    assert!(matches!(disk.apply(&received(), &expected), ApplyOutcome::Applied));
    assert_eq!(disk.files[FileSlot::Config.index()], Some(b"model = 'new'\n".to_vec()));
    assert_eq!(disk.files[FileSlot::Models.index()], Some(b"[]".to_vec()));
    assert_eq!(disk.files[FileSlot::Auth.index()], None);
    let settings: serde_json::Value = serde_json::from_slice(disk.files[FileSlot::Settings.index()].as_ref().unwrap()).unwrap();
    assert_eq!(settings["theme"], "light");
    assert_eq!(settings["configSyncDeviceToken"], "local-only");
    let backed_up: Vec<FileSlot> = disk.backup.iter().map(|(slot, _)| *slot).collect();
    assert_eq!(backed_up, vec![FileSlot::Config, FileSlot::Settings]);
    assert_eq!(disk.index, Some(hashes(&expected)));
}

#[test]
fn a_missing_received_file_moves_the_local_one_aside() {
    let mut disk = device();
    disk.files[FileSlot::Auth.index()] = Some(b"{}".to_vec());
    let expected = disk.contents();
    let mut files = received();
    files.set(FileSlot::Auth, None);
    assert!(matches!(disk.apply(&files, &expected), ApplyOutcome::Applied));
    assert_eq!(disk.files[FileSlot::Auth.index()], None);
    assert!(disk.backup.iter().any(|(slot, bytes)| *slot == FileSlot::Auth && bytes == b"{}"));
}

#[test]
fn a_received_file_in_a_bad_format_is_never_written() {
    let mut disk = device();
    let expected = disk.contents();
    let mut files = received();
    files.set(FileSlot::Models, Some(b"{".to_vec()));
    let outcome = disk.apply(&files, &expected);
    assert!(matches!(outcome, ApplyOutcome::Refused(SyncError::InvalidContent(FileSlot::Models))));
    assert!(codex_plus_core::contents::contents_equal(&disk.contents(), &expected));
}

#[test]
fn a_failed_write_puts_back_what_was_written() {
    let mut disk = device();
    disk.fail_writing = Some(FileSlot::Models);
    let expected = disk.contents();
    match disk.apply(&received(), &expected) {
        ApplyOutcome::RolledBack { cause, failed } => {
            assert_eq!(cause, None);
            assert!(failed.is_empty());
        },
        _ => panic!("the write of the model catalog fails"),
    }
    assert!(codex_plus_core::contents::contents_equal(&disk.contents(), &expected));
}

#[test]
fn a_file_edited_meanwhile_stops_the_writing() {
    let mut disk = device();
    let expected = disk.contents();
    disk.edit_before_rereading = Some((FileSlot::Settings, b"{\"mine\":1}".to_vec()));
    match disk.apply(&received(), &expected) {
        ApplyOutcome::RolledBack { cause, .. } => assert_eq!(cause, Some(SyncError::ModifiedByOther(FileSlot::Settings))),
        _ => panic!("the edited settings are not overwritten"),
    }
    assert_eq!(disk.files[FileSlot::Config.index()], Some(b"model = 'old'\n".to_vec()));
    assert_eq!(disk.files[FileSlot::Models.index()], None);
    assert_eq!(disk.files[FileSlot::Settings.index()], Some(b"{\"mine\":1}".to_vec()));
}
