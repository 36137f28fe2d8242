use codex_plus_core::apply::{apply_start, ApplyAction, ApplyEvent, ApplyOutcome};
use codex_plus_core::contents::{Contents, Hashes};
use codex_plus_core::engine::{alignment, enable_check, LocalState, Operation, WriteAction};
use codex_plus_core::error::SyncError;
use codex_plus_core::files::FileSlot;
use codex_plus_core::json::{object_get, JsonValue};
use codex_plus_core::projection::{accept_file, FileBytes};
use codex_plus_core::protocol::{change_json, SyncChange, SyncFile, SyncSnapshot};
use codex_plus_core::run::{run_start, run_step, RunAction, RunEvent};
use codex_plus_core::server::{acknowledgement_ok, commit_decision, fold_log, CommitOutcome, LogRow, StoredChange};

const SLOTS: [FileSlot; 4] = [FileSlot::Auth, FileSlot::Config, FileSlot::Models, FileSlot::Settings];

/// The service, with its log kept in memory for one user.
#[derive(Default)]
struct Service {
    log: Vec<(String, String, JsonValue, String, bool)>,
}

fn files_of(change: &SyncChange) -> JsonValue {
    match change_json(change) {
        JsonValue::Object(mut entries) => entries.pop().unwrap().1,
        _ => unreachable!(),
    }
}

fn stored_text(change: &SyncChange) -> String {
    let items: Vec<String> = change
        .files
        .iter()
        .map(|f| {
            format!(
                "{{\"contentHash\":\"{}\",\"deleted\":{},\"encryptedContent\":\"{}\",\"path\":\"{}\",\"version\":{}}}",
                f.content_hash, f.deleted, f.encrypted_content, f.path, f.version
            )
        })
        .collect();
    format!("[{}]", items.join(","))
}

fn text_field(entries: &Vec<(String, JsonValue)>, key: &str) -> String {
    match object_get(entries, key) {
        Some(JsonValue::Str(s)) => s.clone(),
        Some(JsonValue::Number(n)) => n.clone(),
        _ => String::new(),
    }
}

impl Service {
    fn commit(&mut self, change: &SyncChange, replace: bool) -> Option<u64> {
        let files = files_of(change);
        let stored = self.log.iter().find(|e| e.0 == change.change_id).map(|e| {
            (StoredChange { username: "user".into(), device_id: e.1.clone(), files: e.2.deep_clone() }, e.4)
        });
        let latest = self.log.len() as u64;
        let outcome = commit_decision(
            &change.change_id,
            &files,
            true,
            stored.as_ref().map(|(s, r)| (s, *r)),
            "user",
            &change.device_id,
            change.base_version,
            replace,
            latest,
        );
        match outcome {
            CommitOutcome::Accepted => {
                self.log.push((change.change_id.clone(), change.device_id.clone(), files, stored_text(change), replace));
                Some(self.log.len() as u64)
            },
            _ => None,
        }
    }

    fn folded(&self) -> codex_plus_core::server::ServerSnapshot {
        let rows: Vec<LogRow> = self
            .log
            .iter()
            .enumerate()
            .map(|(i, e)| LogRow { version: i as u64 + 1, files: e.3.clone(), replace: e.4 })
            .collect();
        fold_log(&rows).unwrap()
    }

    fn snapshot(&self) -> SyncSnapshot {
        let folded = self.folded();
        let files = folded
            .entries
            .iter()
            .map(|(_, item)| match item {
                JsonValue::Object(e) => SyncFile {
                    path: text_field(e, "path"),
                    content_hash: text_field(e, "contentHash"),
                    version: text_field(e, "version").parse().unwrap(),
                    encrypted_content: text_field(e, "encryptedContent"),
                    deleted: matches!(object_get(e, "deleted"), Some(JsonValue::Bool(true))),
                },
                _ => unreachable!(),
            })
            .collect();
        SyncSnapshot { version: folded.version, files }
    }

    fn acknowledge(&self, version: u64, digests: &Hashes) -> bool {
        acknowledgement_ok(&self.folded(), version, digests)
    }
}

/// A device: its files on disk and its sync state.
struct Device {
    disk: [Option<Vec<u8>>; 4],
    state: LocalState,
}

impl Device {
    fn new(secret: &str, device: &str, config: &str) -> Device {
        let mut disk: [Option<Vec<u8>>; 4] = Default::default();
        disk[FileSlot::Config.index()] = Some(config.as_bytes().to_vec());
        disk[FileSlot::Settings.index()] = Some(br#"{"configSyncDeviceToken":"own","theme":"dark"}"#.to_vec());
        Device { disk, state: LocalState { secret: secret.into(), device: device.into(), ..Default::default() } }
    }

    fn edit(&mut self, config: &str) {
        self.disk[FileSlot::Config.index()] = Some(config.as_bytes().to_vec());
    }

    fn config(&self) -> String {
        String::from_utf8(self.disk[FileSlot::Config.index()].clone().unwrap()).unwrap()
    }

    /// The synchronized form of the files, as the engine reads them.
    fn collect(&self) -> Contents {
        let mut c = Contents::empty();
        for slot in SLOTS {
            let bytes = match &self.disk[slot.index()] {
                Some(raw) => FileBytes::Read(raw.clone()),
                None => FileBytes::Missing,
            };
            c.set(slot, accept_file(slot, None, bytes).unwrap());
        }
        c
    }

    fn write(&mut self, files: &Contents, expected: &Contents) -> Result<(), String> {
        let (mut run, mut action) = apply_start(files.copy(), expected.copy());
        loop {
            let event = match action {
                ApplyAction::Collect => ApplyEvent::Files(self.collect()),
                ApplyAction::OpenBackup | ApplyAction::Backup(_, _) | ApplyAction::WriteIndex(_) => ApplyEvent::Done,
                ApplyAction::ReadOriginal(slot) | ApplyAction::ReadCurrent(slot) => ApplyEvent::Read(self.disk[slot.index()].clone()),
                ApplyAction::Write(slot, bytes) => {
                    self.disk[slot.index()] = Some(bytes);
                    ApplyEvent::Done
                },
                ApplyAction::MoveAside(slot) => {
                    self.disk[slot.index()] = None;
                    ApplyEvent::Done
                },
                ApplyAction::Restore(slot, restore) => {
                    self.disk[slot.index()] = match restore {
                        WriteAction::Write(raw) => Some(raw),
                        WriteAction::MoveAside => None,
                    };
                    ApplyEvent::Done
                },
                ApplyAction::Finish(ApplyOutcome::Applied) => return Ok(()),
                ApplyAction::Finish(_) => return Err("the files could not be written".into()),
            };
            action = run.apply_step(event);
        }
    }

    fn run(&mut self, service: &mut Service, mode: Operation) -> Result<(), String> {
        let (mut phase, mut action) = run_start();
        loop {
            let event = match action {
                RunAction::Collect => RunEvent::Files(self.collect()),
                RunAction::FetchSnapshot => RunEvent::Snapshot(service.snapshot()),
                RunAction::Push { change, force } => match service.commit(&change, force) {
                    Some(version) => RunEvent::Reply(Some(version)),
                    None => return Err("the service refused the change".into()),
                },
                RunAction::Apply { files, expected } => {
                    self.write(&files, &expected)?;
                    RunEvent::Written
                },
                RunAction::Acknowledge { version, digests } => {
                    if !service.acknowledge(version, &digests) {
                        return Err("the service refused the acknowledgement".into());
                    }
                    RunEvent::Acknowledged(1_700_000_000)
                },
                RunAction::Save => RunEvent::Saved,
                RunAction::Finish(outcome) => return outcome.map_err(|e| format!("{e:?}")),
            };
            (phase, action) = run_step(phase, mode, &mut self.state, event);
        }
    }

    fn aligned(&self, service: &Service) -> bool {
        alignment(&service.snapshot(), &self.state, &self.collect())
    }

    fn enable(&mut self, service: &Service) -> Result<(), SyncError> {
        enable_check(true, self.aligned(service))?;
        self.state.set_enabled(true);
        Ok(())
    }
}

#[test]
fn two_devices_overwrite_gate_conflict_and_recovery() {
    let mut service = Service::default();
    let mut a = Device::new("key-a", "device-a", "model = 'device-a'\n");
    let mut b = Device::new("key-b", "device-b", "model = 'device-b'\n");

    assert_eq!(a.enable(&service), Err(SyncError::NotAligned));
    a.run(&mut service, Operation::Push).unwrap();
    assert!(a.aligned(&service));

    assert!(b.run(&mut service, Operation::Pull).is_err());
    assert_eq!(b.config(), "model = 'device-b'\n");
    b.state = LocalState { secret: a.state.secret.clone(), device: "device-b".into(), ..Default::default() };
    b.run(&mut service, Operation::Pull).unwrap();
    assert!(b.aligned(&service));
    assert_eq!(b.config(), "model = 'device-a'\n");
    let settings: serde_json::Value = serde_json::from_slice(b.disk[FileSlot::Settings.index()].as_ref().unwrap()).unwrap();
    assert_eq!(settings["configSyncDeviceToken"], "own");

    a.enable(&service).unwrap();
    b.enable(&service).unwrap();

    a.edit("model = 'updated'\n");
    a.run(&mut service, Operation::Auto).unwrap();
    assert!(a.aligned(&service));
    b.run(&mut service, Operation::Auto).unwrap();
    assert!(b.aligned(&service));
    assert_eq!(b.config(), "model = 'updated'\n");

    a.edit("model = 'conflict-a'\n");
    b.edit("model = 'conflict-b'\n");
    a.run(&mut service, Operation::Auto).unwrap();
    assert!(b.run(&mut service, Operation::Auto).is_err());
    assert!(!b.state.enabled);
    assert_eq!(b.config(), "model = 'conflict-b'\n");

    b.run(&mut service, Operation::Push).unwrap();
    assert!(b.aligned(&service));
    a.run(&mut service, Operation::Pull).unwrap();
    assert!(a.aligned(&service));
    assert!(!a.state.enabled);
    assert_eq!(a.config(), "model = 'conflict-b'\n");
}
