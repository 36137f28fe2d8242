//! The messages of the sync protocol and the client's addressing rules.

use vstd::prelude::*;
use vstd::string::{StrSliceExecFns, StringExecFns};
use crate::error::SyncError;
use crate::files::{FileSlot, slot_name};
use crate::json::{JsonValue, JsonView, entries_view, items_view, lemma_view_containers};
use crate::snapshot::{SyncFileView, files_view};
use crate::text::{decimal_string, decimal_text, str_equal};

verus! {

/// How a client reaches the server and which identity it uses.
#[derive(Debug, Clone)]
pub struct SyncClientConfig {
    pub server_url: String,
    pub access_token: String,
    pub device_token: String,
    pub device_id: String,
}

/// The server's answer to a login.
#[derive(Debug, Clone)]
pub struct SyncLoginResponse {
    pub access_token: String,
}

/// The server's answer to a device registration.
#[derive(Debug, Clone)]
pub struct SyncDeviceResponse {
    pub device_id: String,
    pub device_token: String,
}

/// What a user enters to connect this device to a sync server.
#[derive(Debug, Clone)]
pub struct ConnectRequest {
    pub server_url: String,
    pub username: String,
    pub password: String,
    pub device_name: String,
}

/// One encrypted file slot as the server stores it.
#[derive(Debug, Clone)]
pub struct SyncFile {
    pub path: String,
    pub content_hash: String,
    pub version: u64,
    pub encrypted_content: String,
    pub deleted: bool,
}

/// The server's current state: its version and the latest file of each path.
#[derive(Debug, Clone)]
pub struct SyncSnapshot {
    pub version: u64,
    pub files: Vec<SyncFile>,
}

/// A set of files that a device submits.
#[derive(Debug, Clone)]
pub struct SyncChange {
    pub change_id: String,
    pub device_id: String,
    pub base_version: u64,
    pub files: Vec<SyncFile>,
}

/// What a device remembers of its place in the change log.
#[derive(Debug, Clone)]
pub struct SyncManifest {
    pub device_id: String,
    pub cursor: u64,
    pub protocol_version: u32,
}

// ---------------------------------------------------------------- wire form

/// The JSON form of a stored file, with its keys in order.
pub open spec fn file_json_spec(f: SyncFileView) -> JsonView {
    JsonView::Object(seq![
        ("contentHash"@, JsonView::Str(f.content_hash)),
        ("deleted"@, JsonView::Bool(f.deleted)),
        ("encryptedContent"@, JsonView::Str(f.encrypted_content)),
        ("path"@, JsonView::Str(f.path)),
        ("version"@, JsonView::Number(decimal_text(f.version as nat))),
    ])
}

/// The JSON form of a change, with its keys in order.
pub open spec fn change_json_spec(c: SyncChange) -> JsonView {
    JsonView::Object(seq![
        ("baseVersion"@, JsonView::Number(decimal_text(c.base_version as nat))),
        ("changeId"@, JsonView::Str(c.change_id@)),
        ("deviceId"@, JsonView::Str(c.device_id@)),
        ("files"@, JsonView::Array(files_view(c.files@).map_values(|f: SyncFileView| file_json_spec(f)))),
    ])
}

fn entry(key: &str, value: JsonValue) -> (r: (String, JsonValue))
    ensures
        r.0@ == key@,
        r.1@ == value@,
{
    (key.to_owned(), value)
}

/// The JSON form in which a file travels to the service.
pub fn sync_file_json(f: &SyncFile) -> (r: JsonValue)
    ensures
        r@ == file_json_spec(f@),
{
    let mut entries: Vec<(String, JsonValue)> = Vec::new();
    entries.push(entry("contentHash", JsonValue::Str(f.content_hash.clone())));
    entries.push(entry("deleted", JsonValue::Bool(f.deleted)));
    entries.push(entry("encryptedContent", JsonValue::Str(f.encrypted_content.clone())));
    entries.push(entry("path", JsonValue::Str(f.path.clone())));
    entries.push(entry("version", JsonValue::Number(decimal_string(f.version))));
    let r = JsonValue::Object(entries);
    proof {
        lemma_view_containers(r);
        assert(entries_view(entries@) =~= file_json_spec(f@)->Object_0);
    }
    r
}

/// The JSON form in which a change travels to the service.
pub fn change_json(c: &SyncChange) -> (r: JsonValue)
    ensures
        r@ == change_json_spec(*c),
{
    let mut items: Vec<JsonValue> = Vec::new();
    let mut i: usize = 0;
    while i < c.files.len()
        invariant
            i <= c.files@.len(),
            items@.len() == i,
            forall|j: int| 0 <= j < i ==> (#[trigger] items@[j])@ == file_json_spec(c.files@[j]@),
        decreases c.files@.len() - i,
    {
        items.push(sync_file_json(&c.files[i]));
        i = i + 1;
    }
    let files = JsonValue::Array(items);
    proof {
        lemma_view_containers(files);
        assert(items_view(items@) =~= files_view(c.files@).map_values(|f: SyncFileView| file_json_spec(f)));
    }
    let mut entries: Vec<(String, JsonValue)> = Vec::new();
    entries.push(entry("baseVersion", JsonValue::Number(decimal_string(c.base_version))));
    entries.push(entry("changeId", JsonValue::Str(c.change_id.clone())));
    entries.push(entry("deviceId", JsonValue::Str(c.device_id.clone())));
    entries.push(entry("files", files));
    let r = JsonValue::Object(entries);
    proof {
        lemma_view_containers(r);
        assert(entries_view(entries@) =~= change_json_spec(*c)->Object_0);
    }
    r
}

// ---------------------------------------------------------------- text helpers

/// `s` without its trailing copies of `c`.
pub open spec fn trim_end_char(s: Seq<char>, c: char) -> Seq<char>
    decreases s.len(),
{
    if s.len() > 0 && s.last() == c { trim_end_char(s.drop_last(), c) } else { s }
}

/// `s` without its leading copies of `c`.
pub open spec fn trim_start_char(s: Seq<char>, c: char) -> Seq<char>
    decreases s.len(),
{
    if s.len() > 0 && s[0] == c { trim_start_char(s.drop_first(), c) } else { s }
}

/// `s` with every non-overlapping occurrence of `from`, scanned from the
/// left, replaced by `to`.
pub open spec fn replace_all(s: Seq<char>, from: Seq<char>, to: Seq<char>) -> Seq<char>
    decreases s.len(),
{
    if from.len() == 0 || s.len() == 0 {
        s
    } else if s.len() >= from.len() && s.take(from.len() as int) == from {
        to + replace_all(s.skip(from.len() as int), from, to)
    } else {
        seq![s[0]] + replace_all(s.drop_first(), from, to)
    }
}

/// The string without its trailing slashes, as `str::trim_end_matches('/')`.
pub(crate) fn trim_end_slashes(s: &str) -> (r: &str)
    ensures
        r@ == trim_end_char(s@, '/'),
{
    let mut k = s.unicode_len();
    assert(s@.take(k as int) =~= s@);
    while k > 0 && s.get_char(k - 1) == '/'
        invariant
            k <= s@.len(),
            trim_end_char(s@, '/') == trim_end_char(s@.take(k as int), '/'),
        decreases k,
    {
        assert(s@.take(k as int).drop_last() =~= s@.take(k - 1));
        k = k - 1;
    }
    assert(s@.take(k as int) =~= s@.subrange(0, k as int));
    s.substring_char(0, k)
}

/// The string without its leading slashes, as `str::trim_start_matches('/')`.
fn trim_start_slashes(s: &str) -> (r: &str)
    ensures
        r@ == trim_start_char(s@, '/'),
{
    let n = s.unicode_len();
    let mut k: usize = 0;
    assert(s@.skip(0) =~= s@);
    while k < n && s.get_char(k) == '/'
        invariant
            n == s@.len(),
            k <= n,
            trim_start_char(s@, '/') == trim_start_char(s@.skip(k as int), '/'),
        decreases n - k,
    {
        assert(s@.skip(k as int).drop_first() =~= s@.skip(k + 1));
        k = k + 1;
    }
    assert(s@.skip(k as int) =~= s@.subrange(k as int, n as int));
    s.substring_char(k, n)
}

/// `s` with every non-overlapping occurrence of a non-empty `from`, scanned
/// from the left, replaced by `to` (what `str::replace` does).
fn replace_text(s: &str, from: &str, to: &str) -> (r: String)
    requires
        from@.len() > 0,
    ensures
        r@ == replace_all(s@, from@, to@),
{
    let n = s.unicode_len();
    let m = from.unicode_len();
    let mut out = String::new();
    let mut i: usize = 0;
    assert(s@.skip(0) =~= s@);
    assert(out@ =~= Seq::<char>::empty());
    while i < n
        invariant
            n == s@.len(),
            m == from@.len(),
            m > 0,
            i <= n,
            out@ + replace_all(s@.skip(i as int), from@, to@) == replace_all(s@, from@, to@),
        decreases n - i,
    {
        let ghost rest = s@.skip(i as int);
        let tail = s.substring_char(i, n);
        assert(tail@ =~= rest);
        if m <= n - i && crate::projection::has_prefix(tail, from) {
            let ghost before = out@;
            out.append(to);
            assert(rest.skip(m as int) =~= s@.skip(i + m));
            i = i + m;
            assert(out@ + replace_all(s@.skip(i as int), from@, to@) =~= before + replace_all(rest, from@, to@));
        } else {
            let ghost before = out@;
            let c = s.substring_char(i, i + 1);
            out.append(c);
            assert(c@ =~= seq![rest[0]]);
            assert(rest.drop_first() =~= s@.skip(i + 1));
            i = i + 1;
            assert(out@ + replace_all(s@.skip(i as int), from@, to@) =~= before + replace_all(rest, from@, to@));
        }
    }
    assert(s@.skip(n as int) =~= Seq::<char>::empty());
    assert(out@ + Seq::<char>::empty() =~= out@);
    out
}

/// `s` without `prefix`, where it starts with it, as `str::strip_prefix`.
pub(crate) fn strip_text_prefix<'a>(s: &'a str, prefix: &str) -> (r: Option<&'a str>)
    ensures
        match r {
            Some(rest) => s@.len() >= prefix@.len() && s@.take(prefix@.len() as int) == prefix@
                && rest@ == s@.skip(prefix@.len() as int),
            None => !(s@.len() >= prefix@.len() && s@.take(prefix@.len() as int) == prefix@),
        },
{
    if crate::projection::has_prefix(s, prefix) {
        let n = prefix.unicode_len();
        let m = s.unicode_len();
        let rest = s.substring_char(n, m);
        assert(rest@ =~= s@.skip(n as int));
        Some(rest)
    } else {
        None
    }
}

/// A name with no path separator, drive or parent part: one file in a folder.
pub open spec fn plain_file_name(name: Seq<char>) -> bool {
    &&& name.len() > 0
    &&& forall|i: int| 0 <= i < name.len() ==> #[trigger] name[i] != '/' && name[i] != '\\' && name[i] != ':'
    &&& name != seq!['.'] && name != seq!['.', '.']
}

/// A path separator: a slash, or a backslash on Windows.
pub open spec fn path_separator(c: char) -> bool {
    c == '/' || c == '\\'
}

/// `path` is the file `name` inside the folder `base`, as `Path::join` makes
/// it for a plain file name: the name alone after an empty folder; the name
/// right after a folder that ends in a slash; after one that ends in a
/// backslash or `:` (a separator or a drive on Windows, plain text elsewhere) the name
/// right after it or after a separator; after any other folder, a separator
/// and then the name.
pub open spec fn joined(base: Seq<char>, name: Seq<char>, path: Seq<char>) -> bool {
    if base.len() == 0 {
        path == name
    } else if base.last() == '/' {
        path == base + name
    } else if base.last() == '\\' || base.last() == ':' {
        path == base + name || exists|sep: char| path_separator(sep) && path == base + seq![sep] + name
    } else {
        exists|sep: char| path_separator(sep) && path == base + seq![sep] + name
    }
}

/// A Windows verbatim path (`\\?\` first), which `PathBuf::push` rebuilds
/// from its components on Windows.
pub open spec fn verbatim_path(base: Seq<char>) -> bool {
    base.len() >= 4 && base.take(4) == seq!['\\', '\\', '?', '\\']
}

/// `Path::new(base).join(name)`, as text. For a file name without
/// separators or drive, `PathBuf::push` appends it, first adding the
/// platform's separator (a slash, or a backslash on Windows) unless the folder is empty
/// or already ends in a separator (or, on Windows, is a bare drive such as
/// `C:`). After a verbatim folder Windows rebuilds the whole path from its
/// components, so nothing is said of that case.
#[verifier::external_body]
pub(crate) fn join_path(base: &str, name: &str) -> (r: String)
    requires
        plain_file_name(name@),
    ensures
        !verbatim_path(base@) ==> joined(base@, name@, r@),
{
    std::path::Path::new(base).join(name).to_string_lossy().into_owned()
}

/// The four synchronized files inside `codex_home`, in the order
/// `settings.json`, `config.toml`, `models.json`, `auth.json` (described for
/// a folder that is not a Windows verbatim path).
pub fn sync_candidate_paths(codex_home: &str) -> (paths: Vec<String>)
    ensures
        paths@.len() == 4,
        !verbatim_path(codex_home@) ==> {
            &&& joined(codex_home@, slot_name(FileSlot::Settings), paths@[0]@)
            &&& joined(codex_home@, slot_name(FileSlot::Config), paths@[1]@)
            &&& joined(codex_home@, slot_name(FileSlot::Models), paths@[2]@)
            &&& joined(codex_home@, slot_name(FileSlot::Auth), paths@[3]@)
        },
{
    let mut paths: Vec<String> = Vec::new();
    paths.push(join_path(codex_home, FileSlot::Settings.name()));
    paths.push(join_path(codex_home, FileSlot::Config.name()));
    paths.push(join_path(codex_home, FileSlot::Models.name()));
    paths.push(join_path(codex_home, FileSlot::Auth.name()));
    paths
}

// ---------------------------------------------------------------- server address

/// The parts of a parsed URL that the address rules read.
pub struct UrlParts {
    pub scheme: String,
    pub host: Option<String>,
    pub username: String,
    pub password: Option<String>,
    pub query: Option<String>,
    pub fragment: Option<String>,
}

/// The mathematical value of [`UrlParts`].
pub struct UrlPartsView {
    pub scheme: Seq<char>,
    pub host: Option<Seq<char>>,
    pub username: Seq<char>,
    pub password: Option<Seq<char>>,
    pub query: Option<Seq<char>>,
    pub fragment: Option<Seq<char>>,
}

pub open spec fn opt_str_view(o: Option<String>) -> Option<Seq<char>> {
    match o {
        Some(s) => Some(s@),
        None => None,
    }
}

impl UrlParts {
    pub open spec fn view(self) -> UrlPartsView {
        UrlPartsView {
            scheme: self.scheme@,
            host: opt_str_view(self.host),
            username: self.username@,
            password: opt_str_view(self.password),
            query: opt_str_view(self.query),
            fragment: opt_str_view(self.fragment),
        }
    }
}

/// What `url::Url::parse` makes of `raw`, or `None` where it reports an error.
pub uninterp spec fn url_parse_spec(raw: Seq<char>) -> Option<UrlPartsView>;

/// `reqwest::Url::parse` (the `url` crate), read into its parts: scheme,
/// host text, user name, password, query and fragment.
#[verifier::external_body]
fn parse_url(raw: &str) -> (r: Option<UrlParts>)
    ensures
        match r {
            Some(u) => url_parse_spec(raw@) == Some(u@),
            None => url_parse_spec(raw@) is None,
        },
{
    reqwest::Url::parse(raw).ok().map(|u| UrlParts {
        scheme: u.scheme().to_string(),
        host: u.host_str().map(str::to_string),
        username: u.username().to_string(),
        password: u.password().map(str::to_string),
        query: u.query().map(str::to_string),
        fragment: u.fragment().map(str::to_string),
    })
}

/// Hosts on which plain HTTP is allowed.
pub open spec fn loopback_host(host: Seq<char>) -> bool {
    host == "127.0.0.1"@ || host == "localhost"@ || host == "[::1]"@
}

/// A host that is present and on loopback.
pub open spec fn loopback_opt(host: Option<Seq<char>>) -> bool {
    match host {
        Some(h) => loopback_host(h),
        None => false,
    }
}

/// The address rules: HTTPS, or HTTP to a loopback host; and no
/// credentials, query or fragment.
pub open spec fn server_url_check(raw: Seq<char>) -> Result<(), SyncError> {
    match url_parse_spec(raw) {
        None => Err(SyncError::InvalidServerUrl),
        Some(u) => if !(u.scheme == "https"@ || (u.scheme == "http"@ && loopback_opt(u.host))) {
            Err(SyncError::InsecureServerUrl)
        } else if !(u.username.len() == 0 && u.password is None && u.query is None && u.fragment is None) {
            Err(SyncError::ServerUrlExtras)
        } else {
            Ok(())
        },
    }
}

/// Checks a server address against the address rules.
pub fn validate_server_url(raw: &str) -> (r: Result<(), SyncError>)
    ensures
        r == server_url_check(raw@),
{
    let u = match parse_url(raw) {
        None => return Err(SyncError::InvalidServerUrl),
        Some(u) => u,
    };
    let secure = str_equal(u.scheme.as_str(), "https");
    let local = str_equal(u.scheme.as_str(), "http") && match &u.host {
        Some(h) => str_equal(h.as_str(), "127.0.0.1") || str_equal(h.as_str(), "localhost")
            || str_equal(h.as_str(), "[::1]"),
        None => false,
    };
    if !(secure || local) {
        return Err(SyncError::InsecureServerUrl);
    }
    if !(u.username.as_str().is_empty() && u.password.is_none() && u.query.is_none() && u.fragment.is_none()) {
        return Err(SyncError::ServerUrlExtras);
    }
    Ok(())
}

/// The login address of a server: checked against the address rules, then
/// the server with its trailing slashes removed and `/v1/auth/login` appended.
pub fn login_url(server_url: &str) -> (r: Result<String, SyncError>)
    ensures
        match server_url_check(server_url@) {
            Err(e) => r == Err::<String, SyncError>(e),
            Ok(_) => r matches Ok(u) && u@ == trim_end_char(server_url@, '/') + "/v1/auth/login"@,
        },
{
    validate_server_url(server_url)?;
    let mut out = trim_end_slashes(server_url).to_owned();
    out.append("/v1/auth/login");
    Ok(out)
}

// ---------------------------------------------------------------- client

#[verifier::external_type_specification]
#[verifier::external_body]
pub struct ExHttpClient(reqwest::Client);

/// An HTTP client with the settings it was built with.
#[derive(Debug)]
pub struct HttpClient {
    client: reqwest::Client,
    timeout_secs: u64,
    user_agent: String,
    follows_redirects: bool,
}

impl HttpClient {
    /// The request timeout in seconds, the user agent, and whether
    /// redirects are followed.
    pub closed spec fn settings(&self) -> (u64, Seq<char>, bool) {
        (self.timeout_secs, self.user_agent@, self.follows_redirects)
    }

    /// The reqwest client itself.
    pub closed spec fn spec_client(&self) -> reqwest::Client {
        self.client
    }
}

/// `reqwest::Client::builder()` with a timeout of `timeout_secs` seconds,
/// redirects refused (`Policy::none()`) and the user agent `user_agent`, then
/// `build()`; the client comes back with those settings, `None` where
/// building fails (which depends on the TLS setup of the machine, so nothing
/// more is said).
#[verifier::external_body]
fn build_http_client(timeout_secs: u64, user_agent: &str) -> (r: Option<HttpClient>)
    ensures
        r matches Some(c) ==> c.settings() == (timeout_secs, user_agent@, false),
{
    let built = reqwest::Client::builder()
        .timeout(std::time::Duration::from_secs(timeout_secs))
        .redirect(reqwest::redirect::Policy::none())
        .user_agent(user_agent)
        .build();
    match built {
        Ok(client) => Some(HttpClient { client, timeout_secs, user_agent: user_agent.to_owned(), follows_redirects: false }),
        Err(_) => None,
    }
}

/// A client bound to one server and one device identity.
#[derive(Debug)]
pub struct SyncClient {
    http: HttpClient,
    config: SyncClientConfig,
}

/// The address of `path` on the server `server`: the two joined by exactly
/// one slash.
pub open spec fn endpoint_url(server: Seq<char>, path: Seq<char>) -> Seq<char> {
    trim_end_char(server, '/') + seq!['/'] + trim_start_char(path, '/')
}

/// The notification socket address of the server `server`.
pub open spec fn websocket_url_spec(server: Seq<char>) -> Seq<char> {
    trim_end_char(
        replace_all(replace_all(server, "https://"@, "wss://"@), "http://"@, "ws://"@),
        '/',
    ) + "/v1/sync/ws"@
}

impl SyncClient {
    pub closed spec fn spec_config(&self) -> SyncClientConfig {
        self.config
    }

    /// The HTTP client the client was made with.
    pub closed spec fn spec_http(&self) -> reqwest::Client {
        self.http.client
    }

    /// The settings its HTTP client was built with: timeout in seconds,
    /// user agent, and whether redirects are followed.
    pub closed spec fn http_settings(&self) -> (u64, Seq<char>, bool) {
        self.http.settings()
    }

    /// A client for `config`, once its server address passes the address
    /// rules and the HTTP client is built: with a 20-second timeout, the sync
    /// user agent, and redirects refused, so that the device's token never
    /// follows a redirect to another host.
    pub fn new(config: SyncClientConfig) -> (r: Result<SyncClient, SyncError>)
        ensures
            server_url_check(config.server_url@) is Err ==> r == Err::<SyncClient, SyncError>(
                server_url_check(config.server_url@)->Err_0,
            ),
            server_url_check(config.server_url@) is Ok ==> (r is Ok || r == Err::<SyncClient, SyncError>(
                SyncError::HttpClientUnavailable,
            )),
            r matches Ok(c) ==> c.spec_config() == config,
            r matches Ok(c) ==> c.http_settings() == (20u64, "CodexPlusPlus-ConfigSync/2"@, false),
    {
        match validate_server_url(config.server_url.as_str()) {
            Err(e) => Err(e),
            Ok(()) => SyncClient::with_http(config, build_http_client(20, "CodexPlusPlus-ConfigSync/2")),
        }
    }

    /// A client for `config` from the outcome of building its HTTP client:
    /// `HttpClientUnavailable` where building failed, else a client that
    /// carries that HTTP client.
    pub fn with_http(config: SyncClientConfig, built: Option<HttpClient>) -> (r: Result<SyncClient, SyncError>)
        ensures
            match built {
                None => r == Err::<SyncClient, SyncError>(SyncError::HttpClientUnavailable),
                Some(h) => r matches Ok(c) && c.spec_config() == config && c.spec_http() == h.spec_client()
                    && c.http_settings() == h.settings(),
            },
    {
        match built {
            None => Err(SyncError::HttpClientUnavailable),
            Some(http) => Ok(SyncClient { http, config }),
        }
    }

    /// The configuration the client was made with.
    pub fn config(&self) -> (r: &SyncClientConfig)
        ensures
            *r == self.spec_config(),
    {
        &self.config
    }

    /// The HTTP client that carries the requests: the one the client was
    /// made with.
    pub fn http(&self) -> (r: &reqwest::Client)
        ensures
            *r == self.spec_http(),
    {
        &self.http.client
    }

    /// The address of an API path on the server.
    pub fn url(&self, path: &str) -> (r: String)
        ensures
            r@ == endpoint_url(self.spec_config().server_url@, path@),
    {
        let mut out = trim_end_slashes(self.config.server_url.as_str()).to_owned();
        proof { reveal_strlit("/"); }
        out.append("/");
        out.append(trim_start_slashes(path));
        proof {
            assert(out@ =~= endpoint_url(self.spec_config().server_url@, path@));
        }
        out
    }

    /// The address of the server's notification socket: `https://` becomes
    /// `wss://`, `http://` becomes `ws://`, trailing slashes go, and
    /// `/v1/sync/ws` follows.
    pub fn websocket_url(&self) -> (r: String)
        ensures
            r@ == websocket_url_spec(self.spec_config().server_url@),
    {
        proof {
            reveal_strlit("https://");
            reveal_strlit("http://");
        }
        let secure = replace_text(self.config.server_url.as_str(), "https://", "wss://");
        let plain = replace_text(secure.as_str(), "http://", "ws://");
        let mut out = trim_end_slashes(plain.as_str()).to_owned();
        out.append("/v1/sync/ws");
        proof {
            assert(out@ =~= websocket_url_spec(self.spec_config().server_url@));
        }
        out
    }
}

} // verus!
