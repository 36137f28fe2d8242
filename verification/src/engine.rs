//! The client engine: where each file lives, the device's sync state, and
//! the decisions of a sync run (what to upload, download or refuse), taken
//! from values that the caller reads and writes.

use vstd::prelude::*;
use crate::contents::{
    Contents, Hashes, contents_equal, hashes, hashes_equal, hashes_spec, hashes_view, opt_bytes_view,
};
use crate::crypto::new_device_id;
use crate::error::SyncError;
use crate::files::{FileSlot, slot_at, slot_name, slot_of_name};
use crate::projection::{restore_settings, restore_settings_spec, validate_content, validate_content_spec, opt_slice_view};
use crate::protocol::{
    SyncChange, SyncClient, SyncClientConfig, SyncDeviceResponse, SyncSnapshot, join_path, joined, plain_file_name,
    server_url_check, trim_end_char, trim_end_slashes, verbatim_path,
};
use crate::snapshot::{decrypt_snapshot, decrypt_snapshot_spec, encrypt_files, files_view, sealable, sealed_file};
use crate::text::str_equal;

verus! {

/// Where the engine finds the files it synchronizes and keeps its state.
#[derive(Debug, Clone)]
pub struct Engine {
    pub home: String,
    pub settings_path: String,
    pub state_dir: String,
}

/// What a sync run is asked to do.
#[derive(Debug, Clone, Copy, PartialEq, Eq, Structural)]
pub enum Operation {
    /// Overwrite the server with the local files.
    Push,
    /// Overwrite the local files with the server's.
    Pull,
    /// Follow whichever side changed, while automatic sync is on.
    Auto,
}

/// The device's own sync state, kept beside the backups and never synchronized.
#[derive(Debug, Clone)]
pub struct LocalState {
    pub server: String,
    pub device: String,
    pub version: u64,
    pub hashes: Hashes,
    pub enabled: bool,
    pub secret: String,
    pub last_sync: Option<u64>,
    pub error: String,
}

impl Default for LocalState {
    fn default() -> (r: Self)
        ensures
            r@ == LocalState::empty_view(),
    {
        let r = LocalState {
            server: String::new(),
            device: String::new(),
            version: 0,
            hashes: Vec::new(),
            enabled: false,
            secret: String::new(),
            last_sync: None,
            error: String::new(),
        };
        assert(hashes_view(r.hashes@) =~= Seq::<(Seq<char>, Option<Seq<char>>)>::empty());
        r
    }
}

/// The mathematical value of a [`LocalState`].
pub struct LocalStateView {
    pub server: Seq<char>,
    pub device: Seq<char>,
    pub version: u64,
    pub hashes: Seq<(Seq<char>, Option<Seq<char>>)>,
    pub enabled: bool,
    pub secret: Seq<char>,
    pub last_sync: Option<u64>,
    pub error: Seq<char>,
}

impl LocalState {
    pub open spec fn view(&self) -> LocalStateView {
        LocalStateView {
            server: self.server@,
            device: self.device@,
            version: self.version,
            hashes: hashes_view(self.hashes@),
            enabled: self.enabled,
            secret: self.secret@,
            last_sync: self.last_sync,
            error: self.error@,
        }
    }

    /// The state of a device that has never synchronized.
    pub open spec fn empty_view() -> LocalStateView {
        LocalStateView {
            server: Seq::empty(),
            device: Seq::empty(),
            version: 0,
            hashes: Seq::empty(),
            enabled: false,
            secret: Seq::empty(),
            last_sync: None,
            error: Seq::empty(),
        }
    }
}

/// The sync settings of the manager: the server, the account's shared token
/// and this device's registration.
#[derive(Debug, Clone)]
pub struct SyncSettings {
    pub enabled: bool,
    pub server_url: String,
    pub token: String,
    pub device_name: String,
    pub device_id: String,
    pub device_token: String,
    pub cursor: u64,
}

impl SyncSettings {
    /// Records a new registration on `server_url` under `device_name`:
    /// automatic sync off, the device's id and token, the change cursor back
    /// at the start; the shared token stays.
    pub fn record_connection(&mut self, server_url: String, device_name: String, device: SyncDeviceResponse)
        ensures
            !final(self).enabled,
            final(self).server_url@ == server_url@,
            final(self).device_name@ == device_name@,
            final(self).device_id@ == device.device_id@,
            final(self).device_token@ == device.device_token@,
            final(self).cursor == 0,
            final(self).token@ == old(self).token@,
    {
        self.enabled = false;
        self.server_url = server_url;
        self.device_name = device_name;
        self.device_id = device.device_id;
        self.device_token = device.device_token;
        self.cursor = 0;
    }
}

/// What the engine reports.
#[derive(Debug, Clone)]
pub struct Status {
    pub connected: bool,
    pub enabled: bool,
    pub aligned: bool,
    pub local_version: u64,
    pub server_version: u64,
    pub last_sync: Option<u64>,
    pub error: String,
    pub files: usize,
}

// ---------------------------------------------------------------- paths

proof fn lemma_plain_names(slot: FileSlot)
    ensures
        plain_file_name(slot_name(slot)),
        plain_file_name("config-sync-models.json"@),
{
    reveal_strlit("config-sync-models.json");
    let m = "config-sync-models.json"@;
    assert(m != seq!['.']) by { assert(m.len() != 1); }
    assert(m != seq!['.', '.']) by { assert(m.len() != 2); }
    assert(slot_name(slot) != seq!['.']) by { assert(slot_name(slot).len() != 1); }
    assert(slot_name(slot) != seq!['.', '.']) by { assert(slot_name(slot).len() != 2); }
}

/// Where a synchronized file lives on this device (inside a Codex home that
/// is not a Windows verbatim path, whose joins are not described).
pub open spec fn file_location(e: Engine, slot: FileSlot, path: Seq<char>) -> bool {
    match slot {
        FileSlot::Settings => path == e.settings_path@,
        FileSlot::Models => !verbatim_path(e.home@) ==> joined(e.home@, "config-sync-models.json"@, path),
        _ => !verbatim_path(e.home@) ==> joined(e.home@, slot_name(slot), path),
    }
}

impl Engine {
    /// The local path of a synchronized file: the manager's settings file for
    /// `settings.json`, `config-sync-models.json` in the Codex home for the
    /// model catalog, the file of that name in the Codex home otherwise.
    pub fn path(&self, name: &str) -> (r: Result<String, SyncError>)
        ensures
            match slot_of_name(name@) {
                None => r == Err::<String, SyncError>(SyncError::IllegalPath),
                Some(slot) => (r matches Ok(p) && file_location(*self, slot, p@)),
            },
    {
        let slot = match FileSlot::from_name(name) {
            None => return Err(SyncError::IllegalPath),
            Some(s) => s,
        };
        proof { lemma_plain_names(slot); }
        match slot {
            FileSlot::Settings => Ok(self.settings_path.clone()),
            FileSlot::Models => Ok(join_path(self.home.as_str(), "config-sync-models.json")),
            _ => Ok(join_path(self.home.as_str(), slot.name())),
        }
    }
}

// ---------------------------------------------------------------- session

/// The account's sync token, which keys the files: the recovery key that
/// moves between devices and never goes to the server.
pub open spec fn shared_token_spec(s: SyncSettings) -> Seq<char> {
    s.token@
}

/// Why the settings cannot key the files: no sync token is entered, or the
/// one entered is this device's own login token, which the client sends to
/// the server.
pub open spec fn token_problem(s: SyncSettings) -> Option<SyncError> {
    if s.token@.len() == 0 {
        Some(SyncError::MissingToken)
    } else if s.token@ == s.device_token@ {
        Some(SyncError::TokenIsLoginToken)
    } else {
        None
    }
}

/// The token a session keys the files with; refused where none is entered
/// or where it is the device's login token.
pub fn settings_token(settings: &SyncSettings) -> (r: Result<String, SyncError>)
    ensures
        match token_problem(*settings) {
            Some(e) => r == Err::<String, SyncError>(e),
            None => r matches Ok(t) && t@ == shared_token_spec(*settings),
        },
{
    if settings.token.as_str().is_empty() {
        return Err(SyncError::MissingToken);
    }
    if str_equal(settings.token.as_str(), settings.device_token.as_str()) {
        return Err(SyncError::TokenIsLoginToken);
    }
    Ok(settings.token.clone())
}

/// The state a session continues from: the saved one where it belongs to the
/// same server, device and token, else a fresh one for them.
pub open spec fn session_state_spec(settings: SyncSettings, state: LocalStateView) -> LocalStateView {
    let server = trim_end_char(settings.server_url@, '/');
    let token = shared_token_spec(settings);
    if state.server != server || state.device != settings.device_id@ || state.secret != token {
        LocalStateView { server: server, device: settings.device_id@, secret: token, ..LocalState::empty_view() }
    } else {
        state
    }
}

/// Law: a session keeps the saved state only for the same server, device
/// and sync token. A change of any of them, a new sync token above all,
/// starts from nothing: version 0, no recorded digests, automatic sync off,
/// no last sync and no error, with the new server, device and token.
pub proof fn law_new_session_identity_resets_state(settings: SyncSettings, state: LocalStateView)
    ensures
        state.secret != settings.token@ || state.device != settings.device_id@
            || state.server != trim_end_char(settings.server_url@, '/') ==> {
            let st = session_state_spec(settings, state);
            &&& st.version == 0
            &&& st.hashes.len() == 0
            &&& !st.enabled
            &&& st.last_sync is None
            &&& st.error.len() == 0
            &&& st.secret == settings.token@
            &&& st.device == settings.device_id@
            &&& st.server == trim_end_char(settings.server_url@, '/')
        },
        state.secret == settings.token@ && state.device == settings.device_id@
            && state.server == trim_end_char(settings.server_url@, '/') ==> session_state_spec(settings, state) == state,
{
}

impl Engine {
    /// Opens a session: the sync token, which keys the files and is never
    /// sent, the state that goes with it, and a client that speaks for this
    /// device with its own login token, which differs from the key.
    pub fn session(&self, settings: &SyncSettings, state: LocalState) -> (r: Result<(SyncClient, LocalState), SyncError>)
        ensures
            token_problem(*settings) matches Some(e) ==> r == Err::<(SyncClient, LocalState), SyncError>(e),
            token_problem(*settings) is None && server_url_check(trim_end_char(settings.server_url@, '/')) is Err
                ==> r == Err::<(SyncClient, LocalState), SyncError>(
                    server_url_check(trim_end_char(settings.server_url@, '/'))->Err_0,
                ),
            token_problem(*settings) is None && server_url_check(trim_end_char(settings.server_url@, '/')) is Ok
                ==> (r is Ok || r == Err::<(SyncClient, LocalState), SyncError>(SyncError::HttpClientUnavailable)),
            r matches Ok((client, st)) ==> {
                &&& st@ == session_state_spec(*settings, state@)
                &&& st.secret@.len() > 0
                &&& st.secret@ != client.spec_config().device_token@
                &&& client.spec_config().server_url@ == trim_end_char(settings.server_url@, '/')
                &&& client.spec_config().device_token@ == settings.device_token@
                &&& client.spec_config().device_id@ == settings.device_id@
                &&& client.spec_config().access_token@.len() == 0
                &&& client.http_settings() == (20u64, "CodexPlusPlus-ConfigSync/2"@, false)
            },
    {
        let token = settings_token(settings)?;
        let server = trim_end_slashes(settings.server_url.as_str()).to_owned();
        let same = str_equal(state.server.as_str(), server.as_str())
            && str_equal(state.device.as_str(), settings.device_id.as_str())
            && str_equal(state.secret.as_str(), token.as_str());
        let st = if !same {
            let fresh = LocalState {
                server: server.clone(),
                device: settings.device_id.clone(),
                secret: token.clone(),
                ..Default::default()
            };
            fresh
        } else {
            state
        };
        let config = SyncClientConfig {
            server_url: server,
            access_token: String::new(),
            device_token: settings.device_token.clone(),
            device_id: settings.device_id.clone(),
        };
        let client = SyncClient::new(config)?;
        Ok((client, st))
    }
}

// ---------------------------------------------------------------- status

/// Whether this device is aligned with the server: the server's snapshot
/// opens to exactly the local files, at the version the device last
/// synchronized, and the local files still have the digests it recorded.
pub open spec fn aligned_spec(
    remote_version: u64,
    remote_files: Seq<crate::snapshot::SyncFileView>,
    state: LocalStateView,
    local: Seq<Option<Seq<u8>>>,
) -> bool {
    match decrypt_snapshot_spec(remote_version, remote_files, state.secret) {
        Ok(c) => remote_version == state.version && local == c && hashes_spec(local) == state.hashes,
        Err(_) => false,
    }
}

/// Whether the device is aligned with the server's snapshot `remote`.
pub fn alignment(remote: &SyncSnapshot, state: &LocalState, local: &Contents) -> (r: bool)
    ensures
        r == aligned_spec(remote.version, files_view(remote.files@), state@, local@),
{
    match decrypt_snapshot(remote, state.secret.as_str()) {
        Err(_) => false,
        Ok(contents) => {
            remote.version == state.version && contents_equal(local, &contents)
                && hashes_equal(&hashes(local), &state.hashes)
        },
    }
}

impl Status {
    /// The report before the server has answered: what the state records.
    pub fn from_state(state: &LocalState) -> (r: Status)
        ensures
            !r.connected,
            !r.aligned,
            r.enabled == state.enabled,
            r.local_version == state.version,
            r.server_version == 0,
            r.last_sync == state.last_sync,
            r.error@ == state.error@,
            r.files == 0,
    {
        Status {
            connected: false,
            enabled: state.enabled,
            aligned: false,
            local_version: state.version,
            server_version: 0,
            last_sync: state.last_sync,
            error: state.error.clone(),
            files: 0,
        }
    }

    /// The report once the server's snapshot has arrived.
    pub fn reached(&mut self, remote: &SyncSnapshot, aligned: bool)
        ensures
            final(self).connected,
            final(self).error@.len() == 0,
            final(self).server_version == remote.version,
            final(self).files == remote.files@.len(),
            final(self).aligned == aligned,
            final(self).enabled == old(self).enabled,
            final(self).local_version == old(self).local_version,
            final(self).last_sync == old(self).last_sync,
    {
        self.error = String::new();
        self.connected = true;
        self.server_version = remote.version;
        self.files = remote.files.len();
        self.aligned = aligned;
    }
}

// ---------------------------------------------------------------- planning a run

/// What a sync run goes on to do once local files and server snapshot are known.
pub enum SyncPlan {
    /// Nothing to do.
    Idle,
    /// Send the local files; `force` replaces whatever the server holds.
    Upload { force: bool },
    /// Write these files, received from the server, locally.
    Download(Contents),
}

/// The mathematical value of a [`SyncPlan`].
pub enum PlanView {
    Idle,
    Upload(bool),
    Download(Seq<Option<Seq<u8>>>),
}

impl SyncPlan {
    pub open spec fn view(&self) -> PlanView {
        match self {
            SyncPlan::Idle => PlanView::Idle,
            SyncPlan::Upload { force } => PlanView::Upload(*force),
            SyncPlan::Download(c) => PlanView::Download(c@),
        }
    }
}

/// The server's files, decrypted, as the plan to download them.
pub open spec fn download_spec(
    remote_version: u64,
    remote_files: Seq<crate::snapshot::SyncFileView>,
    secret: Seq<char>,
) -> Result<PlanView, SyncError> {
    match decrypt_snapshot_spec(remote_version, remote_files, secret) {
        Ok(c) => Ok(PlanView::Download(c)),
        Err(e) => Err(e),
    }
}

/// The decision of a sync run, and whether automatic sync stays on.
/// An explicit push or pull always overwrites in its direction and turns
/// automatic sync off, to be turned on again only once aligned. An automatic
/// run does nothing while off; refuses without a recorded alignment; follows
/// the side that changed; and where both changed to different contents it
/// refuses and turns automatic sync off.
pub open spec fn plan_spec(
    mode: Operation,
    state: LocalStateView,
    local: Seq<Option<Seq<u8>>>,
    remote_version: u64,
    remote_files: Seq<crate::snapshot::SyncFileView>,
) -> (Result<PlanView, SyncError>, bool) {
    match mode {
        Operation::Push => (Ok(PlanView::Upload(true)), false),
        Operation::Pull => (download_spec(remote_version, remote_files, state.secret), false),
        Operation::Auto => {
            if !state.enabled {
                (Ok(PlanView::Idle), state.enabled)
            } else if state.hashes.len() == 0 {
                (Err(SyncError::NotAligned), state.enabled)
            } else {
                let local_changed = hashes_spec(local) != state.hashes;
                let remote_changed = remote_version != state.version;
                let decoded = decrypt_snapshot_spec(remote_version, remote_files, state.secret);
                if remote_changed && local_changed && decoded is Err {
                    (Err(decoded->Err_0), state.enabled)
                } else if remote_changed && local_changed && decoded->Ok_0 != local {
                    (Err(SyncError::BothChanged), false)
                } else if !local_changed && !remote_changed {
                    (Ok(PlanView::Idle), state.enabled)
                } else if local_changed && !remote_changed {
                    (Ok(PlanView::Upload(false)), state.enabled)
                } else {
                    (download_spec(remote_version, remote_files, state.secret), state.enabled)
                }
            }
        },
    }
}

fn download(remote: &SyncSnapshot, secret: &str) -> (r: Result<SyncPlan, SyncError>)
    ensures
        match r {
            Ok(p) => download_spec(remote.version, files_view(remote.files@), secret@) == Ok::<PlanView, SyncError>(p@),
            Err(e) => download_spec(remote.version, files_view(remote.files@), secret@) == Err::<PlanView, SyncError>(e),
        },
{
    match decrypt_snapshot(remote, secret) {
        Ok(c) => Ok(SyncPlan::Download(c)),
        Err(e) => Err(e),
    }
}

/// Decides a sync run; see [`plan_spec`]. Only the automatic-sync switch of
/// the state changes.
pub fn plan_sync(mode: Operation, state: &mut LocalState, local: &Contents, remote: &SyncSnapshot) -> (r: Result<SyncPlan, SyncError>)
    ensures
        match r {
            Ok(p) => plan_spec(mode, old(state)@, local@, remote.version, files_view(remote.files@)).0
                == Ok::<PlanView, SyncError>(p@),
            Err(e) => plan_spec(mode, old(state)@, local@, remote.version, files_view(remote.files@)).0
                == Err::<PlanView, SyncError>(e),
        },
        final(state).enabled == plan_spec(mode, old(state)@, local@, remote.version, files_view(remote.files@)).1,
        final(state)@ == (LocalStateView { enabled: final(state).enabled, ..old(state)@ }),
{
    match mode {
        Operation::Push => {
            state.enabled = false;
            Ok(SyncPlan::Upload { force: true })
        },
        Operation::Pull => {
            state.enabled = false;
            download(remote, state.secret.as_str())
        },
        Operation::Auto => {
            if !state.enabled {
                return Ok(SyncPlan::Idle);
            }
            if state.hashes.len() == 0 {
                assert(hashes_view(state.hashes@).len() == 0);
                return Err(SyncError::NotAligned);
            }
            assert(hashes_view(state.hashes@).len() != 0);
            let local_changed = !hashes_equal(&hashes(local), &state.hashes);
            let remote_changed = remote.version != state.version;
            if remote_changed && local_changed {
                let decoded = decrypt_snapshot(remote, state.secret.as_str())?;
                if !contents_equal(&decoded, local) {
                    state.enabled = false;
                    return Err(SyncError::BothChanged);
                }
            }
            if !local_changed && !remote_changed {
                return Ok(SyncPlan::Idle);
            }
            if local_changed && !remote_changed {
                Ok(SyncPlan::Upload { force: false })
            } else {
                download(remote, state.secret.as_str())
            }
        },
    }
}

// ---------------------------------------------------------------- uploading

/// The format check of every present file, in slot order: the first file
/// that fails decides.
pub open spec fn validate_all_spec(c: Seq<Option<Seq<u8>>>) -> Result<(), SyncError> {
    validate_from(c, 0)
}

pub open spec fn validate_from(c: Seq<Option<Seq<u8>>>, i: int) -> Result<(), SyncError>
    decreases 4 - i,
{
    if i >= 4 {
        Ok(())
    } else {
        match c[i] {
            Some(raw) => match validate_content_spec(slot_at(i), raw) {
                Err(e) => Err(e),
                Ok(_) => validate_from(c, i + 1),
            },
            None => validate_from(c, i + 1),
        }
    }
}

proof fn lemma_validate_from(c: Seq<Option<Seq<u8>>>, i: int)
    requires
        0 <= i <= 4,
        c.len() == 4,
    ensures
        (validate_from(c, i) is Ok) <==> (forall|j: int| i <= j < 4 ==> (#[trigger] c[j] matches Some(raw) ==> validate_content_spec(slot_at(j), raw) is Ok)),
    decreases 4 - i,
{
    if i < 4 {
        lemma_validate_from(c, i + 1);
        if validate_from(c, i) is Ok {
            assert forall|j: int| i <= j < 4 implies (#[trigger] c[j] matches Some(raw) ==> validate_content_spec(slot_at(j), raw) is Ok) by {
                if j > i {
                    assert(i + 1 <= j < 4);
                }
            }
        }
    }
}

/// Law: the files pass their check exactly when every present file passes
/// its own format check: `config.toml` as UTF-8 TOML, every other file as
/// JSON; the first failure, in slot order, is the error.
pub proof fn law_every_present_file_is_checked(c: Seq<Option<Seq<u8>>>)
    requires
        c.len() == 4,
    ensures
        (validate_all_spec(c) is Ok) <==> (forall|i: int| 0 <= i < 4 ==> (#[trigger] c[i] matches Some(raw) ==> validate_content_spec(slot_at(i), raw) is Ok)),
        forall|i: int| 0 <= i < 4 && (#[trigger] c[i] matches Some(raw) && crate::json::json_parse_spec(raw) is None) && slot_at(i) != FileSlot::Config
            ==> validate_all_spec(c) is Err,
{
    lemma_validate_from(c, 0);
}

/// Checks the format of every present file.
pub fn validate_all(c: &Contents) -> (r: Result<(), SyncError>)
    ensures
        r == validate_all_spec(c@),
{
    let mut i: usize = 0;
    while i < 4
        invariant
            i <= 4,
            validate_all_spec(c@) == validate_from(c@, i as int),
        decreases 4 - i,
    {
        let slot = FileSlot::at(i);
        if let Some(raw) = c.get(slot) {
            validate_content(slot, raw.as_slice())?;
        }
        i = i + 1;
    }
    Ok(())
}

/// `change` uploads the files `local` from the device of `state`: a fresh
/// change id, this device, on top of the recorded version, and each slot
/// sealed with the recorded version and the state's key.
pub open spec fn change_built(change: SyncChange, local: Seq<Option<Seq<u8>>>, state: LocalStateView) -> bool {
    &&& change.device_id@ == state.device
    &&& change.base_version == state.version
    &&& change.change_id@.len() == 36
    &&& change.files@.len() == 4
    &&& forall|i: int| 0 <= i < 4 ==>
        sealed_file(#[trigger] files_view(change.files@)[i], slot_at(i), local[i], state.version, state.secret)
}

/// The change that uploads the local files: every file checked, then sealed
/// with the recorded version, from this device, on top of the recorded version.
pub fn build_change(local: &Contents, state: &LocalState) -> (r: Result<SyncChange, SyncError>)
    ensures
        validate_all_spec(local@) is Err ==> r == Err::<SyncChange, SyncError>(validate_all_spec(local@)->Err_0),
        validate_all_spec(local@) is Ok && sealable(local@) ==> r is Ok,
        validate_all_spec(local@) is Ok && !sealable(local@) ==> r == Err::<SyncChange, SyncError>(SyncError::EncryptionFailed),
        r matches Ok(change) ==> change_built(change, local@, state@),
        r is Ok ==> forall|i: int| 0 <= i < 4 ==> (#[trigger] local@[i] matches Some(raw) ==> validate_content_spec(slot_at(i), raw) is Ok),
{
    proof { law_every_present_file_is_checked(local@); }
    validate_all(local)?;
    let change_id = new_device_id();
    let files = encrypt_files(local, state.version, state.secret.as_str())?;
    Ok(SyncChange { change_id, device_id: state.device.clone(), base_version: state.version, files })
}

/// The check after an upload: the local files did not change meanwhile, and
/// the server's snapshot is the committed version and opens to the local files.
pub open spec fn confirm_upload_spec(
    local: Seq<Option<Seq<u8>>>,
    recollected: Seq<Option<Seq<u8>>>,
    version: u64,
    check_version: u64,
    check_files: Seq<crate::snapshot::SyncFileView>,
    secret: Seq<char>,
) -> Result<(), SyncError> {
    if recollected != local {
        Err(SyncError::LocalChangedDuringUpload)
    } else if check_version != version {
        Err(SyncError::ServerMovedOn)
    } else {
        match decrypt_snapshot_spec(check_version, check_files, secret) {
            Err(e) => Err(e),
            Ok(c) => if c != local { Err(SyncError::ServerMovedOn) } else { Ok(()) },
        }
    }
}

/// Checks an upload once the server committed it as `version`.
pub fn confirm_upload(local: &Contents, recollected: &Contents, version: u64, check: &SyncSnapshot, secret: &str) -> (r: Result<(), SyncError>)
    ensures
        r == confirm_upload_spec(local@, recollected@, version, check.version, files_view(check.files@), secret@),
{
    if !contents_equal(recollected, local) {
        return Err(SyncError::LocalChangedDuringUpload);
    }
    if check.version != version {
        return Err(SyncError::ServerMovedOn);
    }
    let c = decrypt_snapshot(check, secret)?;
    if !contents_equal(&c, local) {
        return Err(SyncError::ServerMovedOn);
    }
    Ok(())
}

// ---------------------------------------------------------------- downloading

/// The check after a download: the local files are now what was received.
pub fn confirm_download(decoded: &Contents, recollected: &Contents) -> (r: Result<(), SyncError>)
    ensures
        r is Ok <==> recollected@ == decoded@,
        r matches Err(e) ==> e == SyncError::WriteBackMismatch,
{
    if contents_equal(recollected, decoded) { Ok(()) } else { Err(SyncError::WriteBackMismatch) }
}

/// The check before writing downloaded files: the local files are still
/// those the run started from.
pub fn check_unchanged(current: &Contents, expected: &Contents) -> (r: Result<(), SyncError>)
    ensures
        r is Ok <==> current@ == expected@,
        r matches Err(e) ==> e == SyncError::ConcurrentLocalEdit,
{
    if contents_equal(current, expected) { Ok(()) } else { Err(SyncError::ConcurrentLocalEdit) }
}

/// How one downloaded file is put in place.
pub enum WriteAction {
    /// Write these bytes to the file.
    Write(Vec<u8>),
    /// Move the file aside into the backup folder, if it exists.
    MoveAside,
}

/// The mathematical value of a [`WriteAction`].
pub enum WriteActionView {
    Write(Seq<u8>),
    MoveAside,
}

impl WriteAction {
    pub open spec fn view(&self) -> WriteActionView {
        match self {
            WriteAction::Write(b) => WriteActionView::Write(b@),
            WriteAction::MoveAside => WriteActionView::MoveAside,
        }
    }
}

/// How a received file replaces the local one. The file must still be what
/// it was when backed up; received settings keep this device's own
/// settings; a missing file moves the local one aside.
pub open spec fn write_plan_spec(
    slot: FileSlot,
    content: Option<Seq<u8>>,
    original: Option<Seq<u8>>,
    current: Option<Seq<u8>>,
) -> Result<WriteActionView, SyncError> {
    if current != original {
        Err(SyncError::ModifiedByOther(slot))
    } else {
        match content {
            None => Ok(WriteActionView::MoveAside),
            Some(raw) => if slot == FileSlot::Settings {
                match restore_settings_spec(raw, original) {
                    Ok(b) => Ok(WriteActionView::Write(b)),
                    Err(e) => Err(e),
                }
            } else {
                Ok(WriteActionView::Write(raw))
            },
        }
    }
}

/// Decides how one received file is written.
pub fn write_plan(slot: FileSlot, content: &Option<Vec<u8>>, original: &Option<Vec<u8>>, current: &Option<Vec<u8>>) -> (r: Result<WriteAction, SyncError>)
    ensures
        match r {
            Ok(a) => write_plan_spec(slot, opt_bytes_view(*content), opt_bytes_view(*original), opt_bytes_view(*current))
                == Ok::<WriteActionView, SyncError>(a@),
            Err(e) => write_plan_spec(slot, opt_bytes_view(*content), opt_bytes_view(*original), opt_bytes_view(*current))
                == Err::<WriteActionView, SyncError>(e),
        },
{
    let same = match (current, original) {
        (None, None) => true,
        (Some(a), Some(b)) => crate::text::bytes_equal(a.as_slice(), b.as_slice()),
        _ => false,
    };
    if !same {
        return Err(SyncError::ModifiedByOther(slot));
    }
    match content {
        None => Ok(WriteAction::MoveAside),
        Some(raw) => {
            if slot == FileSlot::Settings {
                let orig: Option<&[u8]> = match original {
                    Some(o) => Some(o.as_slice()),
                    None => None,
                };
                assert(opt_slice_view(orig) == opt_bytes_view(*original));
                match restore_settings(raw.as_slice(), orig) {
                    Ok(b) => Ok(WriteAction::Write(b)),
                    Err(e) => Err(e),
                }
            } else {
                Ok(WriteAction::Write(raw.clone()))
            }
        },
    }
}

/// How a file already written is put back when a later write fails: its
/// original bytes are written again, or, where there was no original, the
/// new file is moved aside.
pub open spec fn restore_action(original: Option<Seq<u8>>) -> WriteActionView {
    match original {
        Some(b) => WriteActionView::Write(b),
        None => WriteActionView::MoveAside,
    }
}

/// The roll-back after a failed write: the files written so far, latest
/// first, each put back as it was before the run.
pub fn rollback_plan(written: &Vec<FileSlot>, originals: &Contents) -> (r: Vec<(FileSlot, WriteAction)>)
    ensures
        r@.len() == written@.len(),
        forall|i: int| 0 <= i < r@.len() ==> {
            &&& (#[trigger] r@[i]).0 == written@[written@.len() - 1 - i]
            &&& r@[i].1@ == restore_action(originals@[crate::files::slot_index(written@[written@.len() - 1 - i])])
        },
{
    let mut out: Vec<(FileSlot, WriteAction)> = Vec::new();
    let mut k: usize = written.len();
    while k > 0
        invariant
            k <= written@.len(),
            out@.len() == written@.len() - k,
            forall|i: int| 0 <= i < out@.len() ==> {
                &&& (#[trigger] out@[i]).0 == written@[written@.len() - 1 - i]
                &&& out@[i].1@ == restore_action(originals@[crate::files::slot_index(written@[written@.len() - 1 - i])])
            },
        decreases k,
    {
        k = k - 1;
        let slot = written[k];
        let action = match originals.get(slot) {
            Some(raw) => WriteAction::Write(raw.clone()),
            None => WriteAction::MoveAside,
        };
        out.push((slot, action));
    }
    out
}

/// Whether automatic sync may be switched as asked: turning it on needs the
/// device to be aligned with the server; turning it off is always allowed.
pub fn enable_check(enabled: bool, aligned: bool) -> (r: Result<(), SyncError>)
    ensures
        r is Ok <==> (!enabled || aligned),
        r matches Err(e) ==> e == SyncError::NotAligned,
{
    if enabled && !aligned { Err(SyncError::NotAligned) } else { Ok(()) }
}

// ---------------------------------------------------------------- finishing a run

impl LocalState {
    /// Records a completed push or pull: the server version and the digests
    /// of the files now on both sides, no error, and when it happened.
    pub fn record_sync(&mut self, version: u64, digests: Hashes, now: u64)
        ensures
            final(self)@ == (LocalStateView {
                version: version,
                hashes: hashes_view(digests@),
                error: Seq::empty(),
                last_sync: Some(now),
                ..old(self)@
            }),
    {
        self.version = version;
        self.hashes = digests;
        self.error = String::new();
        self.last_sync = Some(now);
    }

    /// Turns automatic sync on or off and clears the recorded error.
    pub fn set_enabled(&mut self, enabled: bool)
        ensures
            final(self)@ == (LocalStateView { enabled: enabled, error: Seq::empty(), ..old(self)@ }),
    {
        self.enabled = enabled;
        self.error = String::new();
    }

    /// Records why the last run failed.
    pub fn set_error(&mut self, error: String)
        ensures
            final(self)@ == (LocalStateView { error: error@, ..old(self)@ }),
    {
        self.error = error;
    }
}

// ---------------------------------------------------------------- background runs

pub open spec fn opt_hashes_view(h: Option<Hashes>) -> Option<Seq<(Seq<char>, Option<Seq<char>>)>> {
    match h {
        Some(v) => Some(hashes_view(v@)),
        None => None,
    }
}

/// The background loop runs an automatic sync only once two samples in a row
/// (taken a tick apart) read the same digests: edits in progress and the
/// engine's own writes settle first.
pub fn debounce_ready(previous: &Option<Hashes>, observed: &Option<Hashes>) -> (r: bool)
    ensures
        r == (observed is Some && opt_hashes_view(*previous) == opt_hashes_view(*observed)),
{
    match (previous, observed) {
        (Some(p), Some(o)) => hashes_equal(p, o),
        _ => false,
    }
}

/// What the background loop learned after a tick or a server notification.
pub enum BackgroundEvent {
    /// The sync settings could not be read into a session.
    SessionFailed,
    /// Automatic sync has been switched off.
    AutoSyncOff,
    /// Automatic sync is on; the digests of the local files, or `None`
    /// where they could not be read.
    Sampled(Option<Hashes>),
}

/// What the background loop does next.
pub enum BackgroundAction {
    /// Leave the connection and wait for automatic sync to be on again.
    Disconnect,
    /// Wait for the next tick.
    Wait,
    /// Run this operation now, holding the operation lock.
    Run(Operation),
}

/// One step of the background loop: from the previous sample and what was
/// learned, the sample to keep and what to do. A failed session or auto sync
/// switched off ends the connection; a sample that matches the previous one
/// starts an automatic sync; any other sample is kept for the next tick.
pub fn background_step(previous: Option<Hashes>, event: BackgroundEvent) -> (r: (Option<Hashes>, BackgroundAction))
    ensures
        match event {
            BackgroundEvent::Sampled(observed) => {
                &&& opt_hashes_view(r.0) == opt_hashes_view(observed)
                &&& if observed is Some && opt_hashes_view(previous) == opt_hashes_view(observed) {
                    r.1 == BackgroundAction::Run(Operation::Auto)
                } else {
                    r.1 is Wait
                }
            },
            _ => opt_hashes_view(r.0) == opt_hashes_view(previous) && r.1 is Disconnect,
        },
{
    match event {
        BackgroundEvent::Sampled(observed) => {
            let ready = debounce_ready(&previous, &observed);
            if ready {
                (observed, BackgroundAction::Run(Operation::Auto))
            } else {
                (observed, BackgroundAction::Wait)
            }
        },
        _ => (previous, BackgroundAction::Disconnect),
    }
}

// ---------------------------------------------------------------- laws

/// Law: an upload that passed its check, once recorded, leaves the device
/// aligned with the snapshot it was checked against.
pub proof fn law_confirmed_upload_aligns(
    local: Seq<Option<Seq<u8>>>,
    recollected: Seq<Option<Seq<u8>>>,
    version: u64,
    check_version: u64,
    check_files: Seq<crate::snapshot::SyncFileView>,
    state: LocalStateView,
)
    requires
        confirm_upload_spec(local, recollected, version, check_version, check_files, state.secret) is Ok,
    ensures
        aligned_spec(check_version, check_files, LocalStateView {
            version: version,
            hashes: hashes_spec(local),
            ..state
        }, local),
{
}

/// Law: a download that passed its check, once recorded, leaves the device
/// aligned with the snapshot it came from.
pub proof fn law_confirmed_download_aligns(
    remote_version: u64,
    remote_files: Seq<crate::snapshot::SyncFileView>,
    decoded: Seq<Option<Seq<u8>>>,
    recollected: Seq<Option<Seq<u8>>>,
    state: LocalStateView,
)
    requires
        download_spec(remote_version, remote_files, state.secret) == Ok::<PlanView, SyncError>(PlanView::Download(decoded)),
        recollected == decoded,
    ensures
        aligned_spec(remote_version, remote_files, LocalStateView {
            version: remote_version,
            hashes: hashes_spec(decoded),
            ..state
        }, recollected),
{
}

/// Law: while the device is aligned and automatic sync is on, an automatic
/// run does nothing.
pub proof fn law_aligned_auto_is_idle(
    state: LocalStateView,
    local: Seq<Option<Seq<u8>>>,
    remote_version: u64,
    remote_files: Seq<crate::snapshot::SyncFileView>,
)
    requires
        aligned_spec(remote_version, remote_files, state, local),
        state.enabled,
    ensures
        plan_spec(Operation::Auto, state, local, remote_version, remote_files)
            == (Ok::<PlanView, SyncError>(PlanView::Idle), true),
{
    assert(hashes_spec(local).len() == 4);
}

/// Law: where both sides changed since the last alignment, to contents that
/// differ, an automatic run refuses and switches automatic sync off.
pub proof fn law_conflicting_edits_pause_auto(
    state: LocalStateView,
    local: Seq<Option<Seq<u8>>>,
    remote_version: u64,
    remote_files: Seq<crate::snapshot::SyncFileView>,
    remote: Seq<Option<Seq<u8>>>,
)
    requires
        state.enabled,
        state.hashes.len() > 0,
        hashes_spec(local) != state.hashes,
        remote_version != state.version,
        decrypt_snapshot_spec(remote_version, remote_files, state.secret) == Ok::<Seq<Option<Seq<u8>>>, SyncError>(remote),
        remote != local,
    ensures
        plan_spec(Operation::Auto, state, local, remote_version, remote_files)
            == (Err::<PlanView, SyncError>(SyncError::BothChanged), false),
{
}

/// Law: a snapshot that does not hold exactly the four files, as an older
/// server keeps them, is never taken as aligned.
pub proof fn law_incomplete_snapshot_never_aligned(
    remote_version: u64,
    remote_files: Seq<crate::snapshot::SyncFileView>,
    state: LocalStateView,
    local: Seq<Option<Seq<u8>>>,
)
    requires
        remote_files.len() != 4,
    ensures
        !aligned_spec(remote_version, remote_files, state, local),
{
}

/// Law: an explicit push or pull always turns automatic sync off, and an
/// automatic run only ever leaves it as it was or turns it off.
pub proof fn law_runs_never_enable_auto(
    mode: Operation,
    state: LocalStateView,
    local: Seq<Option<Seq<u8>>>,
    remote_version: u64,
    remote_files: Seq<crate::snapshot::SyncFileView>,
)
    ensures
        mode != Operation::Auto ==> !plan_spec(mode, state, local, remote_version, remote_files).1,
        plan_spec(mode, state, local, remote_version, remote_files).1 ==> state.enabled,
{
}

} // verus!

