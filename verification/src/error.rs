//! The errors of the library, one variant per refusal.

use vstd::prelude::*;
use crate::files::FileSlot;

verus! {

/// Why an operation was refused.
#[derive(Debug, Clone, Copy, PartialEq, Eq, Structural)]
pub enum SyncError {
    /// The server address is not a URL.
    InvalidServerUrl,
    /// The server address uses neither HTTPS nor plain HTTP on a loopback host.
    InsecureServerUrl,
    /// The server address carries credentials, a query or a fragment.
    ServerUrlExtras,
    /// The HTTP client could not be built.
    HttpClientUnavailable,
    /// The plaintext is too long for AES-GCM.
    EncryptionFailed,
    /// The encrypted payload is not Base64.
    InvalidEncryptedPayload,
    /// The encrypted payload is shorter than a nonce.
    EncryptedPayloadTooShort,
    /// Authentication of the ciphertext failed.
    DecryptionFailed,
    /// `settings.json` is not JSON.
    SettingsNotJson,
    /// `settings.json` is not a JSON object.
    SettingsNotObject,
    /// The device's own `settings.json` is not JSON.
    LocalSettingsNotJson,
    /// The device's own `settings.json` is not a JSON object.
    LocalSettingsNotObject,
    /// `config.toml` is not UTF-8.
    ConfigNotUtf8,
    /// `config.toml` is not TOML.
    ConfigNotToml,
    /// The content of a file is not what its format requires.
    InvalidContent(FileSlot),
    /// A synchronized path is a link or not a regular file.
    NotRegularFile(FileSlot),
    /// A synchronized file is larger than the limit.
    FileTooLarge(FileSlot),
    /// A synchronized file could not be read.
    ReadFailed(FileSlot),
    /// A file name is none of the synchronized files.
    IllegalPath,
    /// The server holds no configuration yet.
    ServerEmpty,
    /// The server's snapshot does not hold exactly the four files.
    IncompleteSnapshot,
    /// The server's snapshot holds a file twice.
    DuplicateFile,
    /// A file of the snapshot does not decrypt with this device's key.
    UndecryptableFile(FileSlot),
    /// The decrypted envelope of a file is malformed.
    InvalidEnvelope,
    /// The path inside a file's ciphertext is not the file's path.
    PathMismatch,
    /// The content inside an envelope is not Base64.
    InvalidEnvelopeContent,
    /// A file's content does not have the hash the server lists.
    HashMismatch,
    /// A file carries a deletion marker, which no envelope authenticates.
    DeletionMarker,
    /// The snapshot holds no manager settings.
    MissingSettings,
    /// No sync token has been entered.
    MissingToken,
    /// The sync token entered is this device's own login token, which the
    /// client sends to the server; the files need a key that never leaves
    /// the devices.
    TokenIsLoginToken,
    /// Automatic sync needs versions and contents aligned first.
    NotAligned,
    /// Both sides changed; automatic sync is paused.
    BothChanged,
    /// The server's answer to an upload carries no version.
    MissingCommitVersion,
    /// A step was handed an event it does not wait for.
    StepOutOfOrder,
    /// The local files changed while an upload was under way.
    LocalChangedDuringUpload,
    /// After an upload the server already holds something newer.
    ServerMovedOn,
    /// The local files changed while a download was under way.
    ConcurrentLocalEdit,
    /// A file was changed by another program before it was written.
    ModifiedByOther(FileSlot),
    /// After writing, the local files are not what was received.
    WriteBackMismatch,
}

} // verus!
