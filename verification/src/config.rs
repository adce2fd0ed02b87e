//! Configuration and storage backends.
//!
//! The backend of a table is told by the scheme of its location:
//!
//! - `./...`, `/abs/path`, `file://...`: local file system
//! - `abfss://...`, `abfs://...`, `az://...`: Azure Data Lake Storage
//! - `s3://...`, `s3a://...`: Amazon S3
//! - `gs://...`: Google Cloud Storage

use vstd::prelude::*;

use crate::text;

verus! {

// ---------------------------------------------------------------------------
// Backends
// ---------------------------------------------------------------------------

/// A storage backend.
#[derive(Debug, Clone, Copy, PartialEq, Eq, Structural)]
pub enum Backend {
    LocalFs,
    Azure,
    S3,
    Gcs,
}

/// Whether the location `uri` has the scheme `scheme`, in whatever case it is written.
pub open spec fn has_scheme(uri: Seq<char>, scheme: Seq<char>) -> bool {
    text::begins_with(text::lower(uri), scheme)
}

/// The backend of the location `uri`.
pub open spec fn backend_of(uri: Seq<char>) -> Backend {
    if has_scheme(uri, "abfss://"@) || has_scheme(uri, "abfs://"@) || has_scheme(uri, "az://"@) {
        Backend::Azure
    } else if has_scheme(uri, "s3://"@) || has_scheme(uri, "s3a://"@) {
        Backend::S3
    } else if has_scheme(uri, "gs://"@) {
        Backend::Gcs
    } else {
        Backend::LocalFs
    }
}

impl Backend {
    /// The backend of the location `uri`. What has no known scheme is a local path.
    pub fn detect(uri: &str) -> (r: Backend)
        ensures
            r == backend_of(uri@),
    {
        let lower = text::to_lower(uri);
        let l = lower.as_str();
        if text::starts_with(l, "abfss://") || text::starts_with(l, "abfs://") || text::starts_with(
            l,
            "az://",
        ) {
            Backend::Azure
        } else if text::starts_with(l, "s3://") || text::starts_with(l, "s3a://") {
            Backend::S3
        } else if text::starts_with(l, "gs://") {
            Backend::Gcs
        } else {
            Backend::LocalFs
        }
    }

    /// How the dashboard shows the backend.
    pub open spec fn label_text(self) -> Seq<char> {
        match self {
            Backend::LocalFs => "LocalFs"@,
            Backend::Azure => "Azure"@,
            Backend::S3 => "S3"@,
            Backend::Gcs => "Gcs"@,
        }
    }

    /// How the dashboard shows the backend.
    pub fn label(self) -> (r: &'static str)
        ensures
            r@ == self.label_text(),
    {
        match self {
            Backend::LocalFs => "LocalFs",
            Backend::Azure => "Azure",
            Backend::S3 => "S3",
            Backend::Gcs => "Gcs",
        }
    }
}

/// Locations that differ in the case of ASCII letters only have the same backend.
pub proof fn lemma_backend_ignores_case(a: Seq<char>, b: Seq<char>)
    requires
        text::lower(a) == text::lower(b),
    ensures
        backend_of(a) == backend_of(b),
{
}

/// The backends of `backends` that need a handler, each once, in the order in which they first
/// occur.
pub open spec fn handlers(backends: Seq<Backend>) -> Seq<Backend>
    decreases backends.len(),
{
    if backends.len() == 0 {
        Seq::empty()
    } else {
        let before = handlers(backends.drop_last());
        let last = backends.last();
        if last == Backend::LocalFs || before.contains(last) {
            before
        } else {
            before.push(last)
        }
    }
}

/// Whether `b` is one of `backends`.
pub fn is_registered(backends: &Vec<Backend>, b: Backend) -> (r: bool)
    ensures
        r == backends@.contains(b),
{
    let n: usize = backends.len();
    for i in 0..n
        invariant
            n == backends.len(),
            forall|j: int| 0 <= j < i ==> backends@[j] != b,
    {
        if backends[i] == b {
            assert(backends@[i as int] == b);
            return true;
        }
    }
    false
}

/// The handlers to register for the given backends: one for each cloud among them.
pub fn register_handlers_for(backends: &Vec<Backend>) -> (r: Vec<Backend>)
    ensures
        r@ == handlers(backends@),
{
    let n: usize = backends.len();
    let mut r: Vec<Backend> = Vec::new();
    for i in 0..n
        invariant
            n == backends.len(),
            r@ == handlers(backends@.take(i as int)),
    {
        let b = backends[i];
        assert(backends@.take(i + 1).drop_last() =~= backends@.take(i as int));
        if b != Backend::LocalFs && !is_registered(&r, b) {
            r.push(b);
        }
    }
    assert(backends@.take(n as int) =~= backends@);
    r
}

/// No handler is registered twice, and exactly the clouds among the backends get one.
pub proof fn lemma_handlers(backends: Seq<Backend>)
    ensures
        handlers(backends).no_duplicates(),
        forall|b: Backend|
            #[trigger] handlers(backends).contains(b) <==> b != Backend::LocalFs
                && backends.contains(b),
    decreases backends.len(),
{
    if backends.len() > 0 {
        let before = handlers(backends.drop_last());
        let last = backends.last();
        lemma_handlers(backends.drop_last());
        assert(backends.drop_last().push(last) =~= backends);
        assert forall|b: Backend| #[trigger] handlers(backends).contains(b) implies b
            != Backend::LocalFs && backends.contains(b) by {
            if before.contains(b) {
                let k = choose|k: int|
                    0 <= k < backends.drop_last().len() && backends.drop_last()[k] == b;
                assert(backends[k] == b);
            } else {
                assert(backends[backends.len() - 1] == b);
            }
        }
        assert forall|b: Backend| b != Backend::LocalFs && backends.contains(
            b,
        ) implies #[trigger] handlers(backends).contains(b) by {
            if b == last {
                if !before.contains(b) {
                    assert(handlers(backends)[before.len() as int] == b);
                }
            } else {
                let k = choose|k: int| 0 <= k < backends.len() && backends[k] == b;
                assert(backends.drop_last()[k] == b);
                assert(before.contains(b));
                let m = choose|m: int| 0 <= m < before.len() && before[m] == b;
                assert(handlers(backends)[m] == b);
            }
        }
    }
}

// ---------------------------------------------------------------------------
// Azure accounts and authentication
// ---------------------------------------------------------------------------

/// What stands in `uri` behind its first `://`, up to the next one.
pub open spec fn behind_scheme(uri: Seq<char>) -> Option<Seq<char>> {
    match text::found_from(uri, "://"@, 0) {
        None => None,
        Some(i) => {
            let rest = uri.skip(i + 3);
            match text::found_from(rest, "://"@, 0) {
                None => Some(rest),
                Some(j) => Some(rest.take(j)),
            }
        },
    }
}

/// The storage account in a location such as `abfss://container@account.host/path`.
pub open spec fn azure_account(uri: Seq<char>) -> Option<Seq<char>> {
    match behind_scheme(uri) {
        None => None,
        Some(rest) => {
            let host = text::pieces(rest, '/')[0];
            let parts = text::pieces(host, '@');
            let name = if parts.len() > 1 {
                parts[1]
            } else {
                host
            };
            Some(text::pieces(name, '.')[0])
        },
    }
}

/// The first piece of `s` before an occurrence of `sep`.
fn first_piece(s: &str, sep: char) -> (r: String)
    ensures
        r@ == text::pieces(s@, sep)[0],
{
    let parts = text::split(s, sep);
    proof {
        text::lemma_pieces_nonempty(s@, sep);
        assert(text::views(parts@)[0] == parts@[0]@);
    }
    parts[0].clone()
}

/// The storage account in a location such as `abfss://container@account.host/path`.
pub fn extract_azure_account(uri: &str) -> (r: Option<String>)
    ensures
        match r {
            Some(account) => azure_account(uri@) == Some(account@),
            None => azure_account(uri@) is None,
        },
{
    let cs = text::chars_of(uri);
    let mark = text::chars_of("://");
    proof {
        reveal_strlit("://");
    }
    let at = match text::find_from(&cs, &mark, 0) {
        None => {
            return None;
        },
        Some(i) => i,
    };
    let rest = text::string_of(&cs, at + 3, cs.len());
    assert(rest@ =~= uri@.skip(at + 3));
    let rest_chars = text::chars_of(rest.as_str());
    let end: usize = match text::find_from(&rest_chars, &mark, 0) {
        None => rest_chars.len(),
        Some(j) => j,
    };
    let section = text::string_of(&rest_chars, 0, end);
    assert(behind_scheme(uri@) == Some(section@)) by {
        assert(rest@.subrange(0, end as int) =~= rest@.take(end as int));
        assert(rest@.take(rest@.len() as int) =~= rest@);
    }
    let host = first_piece(section.as_str(), '/');
    let parts = text::split(host.as_str(), '@');
    let name = if parts.len() > 1 {
        assert(text::views(parts@)[1] == parts@[1]@);
        parts[1].clone()
    } else {
        assert(text::views(parts@).len() <= 1);
        host
    };
    Some(first_piece(name.as_str(), '.'))
}

/// The environment variables that bear on storage access.
#[derive(Debug, Clone)]
pub struct StorageEnv {
    /// `AZURE_STORAGE_ACCOUNT`
    pub storage_account: Option<String>,
    /// `AZURE_STORAGE_ACCOUNT_KEY`
    pub storage_account_key: Option<String>,
    /// `AZURE_STORAGE_KEY`
    pub storage_key: Option<String>,
    /// Whether `AZURE_TENANT_ID` is set.
    pub tenant_id: bool,
    /// Whether `AZURE_CLIENT_ID` is set.
    pub client_id: bool,
    /// Whether `AZURE_CLIENT_SECRET` is set.
    pub client_secret: bool,
    /// Whether `IDENTITY_ENDPOINT` is set.
    pub identity_endpoint: bool,
    /// Whether `MSI_ENDPOINT` is set.
    pub msi_endpoint: bool,
    /// Whether `AWS_S3_ALLOW_UNSAFE_RENAME` is set.
    pub s3_allow_unsafe_rename: bool,
}

/// The lower-case form of a text by the rules of Unicode.
pub uninterp spec fn unicode_lower(s: Seq<char>) -> Seq<char>;

/// Whether `s` is made of ASCII characters.
pub open spec fn ascii_only(s: Seq<char>) -> bool {
    forall|i: int| 0 <= i < s.len() ==> (#[trigger] s[i] as u32) < 128
}

/// Calls `str::to_lowercase`. Claimed is that the result depends on `s` alone, and that on
/// ASCII text it is the text with its capitals in lower case.
#[verifier::external_body]
fn to_unicode_lower(s: &str) -> (r: String)
    ensures
        r@ == unicode_lower(s@),
        ascii_only(s@) ==> r@ == text::lower(s@),
{
    s.to_lowercase()
}

/// The Azure authentication method that stands behind the normalised request `want`: `auto` is
/// the first available of a service principal in the environment, a managed identity, and the
/// Azure command line.
pub open spec fn resolved_auth(want: Seq<char>, env: StorageEnv) -> Seq<char> {
    if want != "auto"@ {
        want
    } else if env.tenant_id && env.client_id && env.client_secret {
        "env"@
    } else if env.identity_endpoint || env.msi_endpoint {
        "msi"@
    } else {
        "cli"@
    }
}

/// The Azure authentication method behind a request that is trimmed and in lower case.
pub fn resolve_normalised_auth(want: &str, env: &StorageEnv) -> (r: String)
    ensures
        r@ == resolved_auth(want@, *env),
{
    if !text::same_text(want, "auto") {
        want.to_string()
    } else if env.tenant_id && env.client_id && env.client_secret {
        "env".to_string()
    } else if env.identity_endpoint || env.msi_endpoint {
        "msi".to_string()
    } else {
        "cli".to_string()
    }
}

/// A request for an authentication method without the white space around it and in lower case.
pub open spec fn normalised_auth(requested: Seq<char>) -> Seq<char> {
    if ascii_only(text::trimmed(requested)) {
        text::lower(text::trimmed(requested))
    } else {
        unicode_lower(text::trimmed(requested))
    }
}

/// The Azure authentication method behind a request. White space around it and its case do not
/// matter.
pub fn resolve_azure_auth(requested: &str, env: &StorageEnv) -> (r: String)
    ensures
        r@ == resolved_auth(normalised_auth(requested@), *env),
{
    let want = to_unicode_lower(text::trim(requested).as_str());
    resolve_normalised_auth(want.as_str(), env)
}

// ---------------------------------------------------------------------------
// Storage options
// ---------------------------------------------------------------------------

/// Why storage options cannot be made.
#[derive(Debug, Clone, PartialEq, Eq)]
pub enum ConfigError {
    /// An account key was asked for and none is set.
    KeyMissing,
    /// There is no such authentication method.
    UnknownAuth { auth: String },
}

impl ConfigError {
    /// The message that the user is shown.
    pub open spec fn text(&self) -> Seq<char> {
        match self {
            ConfigError::KeyMissing =>
                "azure_auth=key but neither AZURE_STORAGE_ACCOUNT_KEY nor AZURE_STORAGE_KEY is set"@,
            ConfigError::UnknownAuth { auth } => "Unknown azure_auth '"@ + auth@
                + "'. Use auto | cli | msi | key | env."@,
        }
    }

    /// The message that the user is shown.
    pub fn message(&self) -> (r: String)
        ensures
            r@ == self.text(),
    {
        match self {
            ConfigError::KeyMissing =>
                "azure_auth=key but neither AZURE_STORAGE_ACCOUNT_KEY nor AZURE_STORAGE_KEY is set".to_string(),
            ConfigError::UnknownAuth { auth } => {
                let mut r = "Unknown azure_auth '".to_string();
                r.append(auth.as_str());
                r.append("'. Use auto | cli | msi | key | env.");
                r
            },
        }
    }
}

/// Names and values as character sequences.
pub open spec fn option_views(options: Seq<(String, String)>) -> Seq<(Seq<char>, Seq<char>)> {
    Seq::new(options.len(), |i: int| (options[i].0@, options[i].1@))
}

/// The account that the options name: the one in the location, else the one in the environment.
pub open spec fn account_option(uri: Seq<char>, env: StorageEnv) -> Seq<(Seq<char>, Seq<char>)> {
    match azure_account(uri) {
        Some(account) => seq![("account_name"@, account)],
        None => match env.storage_account {
            Some(account) => seq![("account_name"@, account@)],
            None => Seq::empty(),
        },
    }
}

/// The account key in the environment.
pub open spec fn account_key(env: StorageEnv) -> Option<String> {
    match env.storage_account_key {
        Some(key) => Some(key),
        None => env.storage_key,
    }
}

/// The options that select the authentication method `auth`; `None` where there are none.
pub open spec fn auth_option(auth: Seq<char>, env: StorageEnv) -> Option<
    Seq<(Seq<char>, Seq<char>)>,
> {
    if auth == "cli"@ {
        Some(seq![("use_azure_cli"@, "true"@)])
    } else if auth == "msi"@ {
        Some(seq![("use_azure_managed_identity"@, "true"@)])
    } else if auth == "key"@ {
        match account_key(env) {
            Some(key) => Some(seq![("account_key"@, key@)]),
            None => None,
        }
    } else if auth == "env"@ || auth == "sp"@ {
        Some(Seq::empty())
    } else {
        None
    }
}

/// The options with which the table at `uri` is opened, where Azure is authenticated to by
/// `auth`.
pub open spec fn storage_options(uri: Seq<char>, auth: Seq<char>, env: StorageEnv) -> Option<
    Seq<(Seq<char>, Seq<char>)>,
> {
    match backend_of(uri) {
        Backend::LocalFs => Some(Seq::empty()),
        Backend::Azure => match auth_option(auth, env) {
            Some(option) => Some(account_option(uri, env) + option),
            None => None,
        },
        Backend::S3 => if env.s3_allow_unsafe_rename {
            Some(seq![("AWS_S3_ALLOW_UNSAFE_RENAME"@, "true"@)])
        } else {
            Some(Seq::empty())
        },
        Backend::Gcs => Some(Seq::empty()),
    }
}

/// Why there are no options for the authentication method `auth`.
pub open spec fn is_auth_error(error: ConfigError, auth: Seq<char>) -> bool {
    match error {
        ConfigError::KeyMissing => auth == "key"@,
        ConfigError::UnknownAuth { auth: a } => auth != "key"@ && a@ == auth,
    }
}

/// The options with which the table at `uri` is opened, where Azure is authenticated to by the
/// resolved method `auth`. No option occurs twice.
pub fn storage_options_for(uri: &str, auth: &str, env: &StorageEnv) -> (r: Result<
    Vec<(String, String)>,
    ConfigError,
>)
    ensures
        match r {
            Ok(options) => storage_options(uri@, auth@, *env) == Some(option_views(options@)),
            Err(e) => storage_options(uri@, auth@, *env) is None && is_auth_error(e, auth@),
        },
{
    let mut options: Vec<(String, String)> = Vec::new();
    match Backend::detect(uri) {
        Backend::LocalFs => {},
        Backend::Azure => {
            match extract_azure_account(uri) {
                Some(account) => {
                    options.push(("account_name".to_string(), account));
                },
                None => if let Some(account) = &env.storage_account {
                    options.push(("account_name".to_string(), account.clone()));
                },
            }
            assert(option_views(options@) =~= account_option(uri@, *env));
            if text::same_text(auth, "cli") {
                options.push(("use_azure_cli".to_string(), "true".to_string()));
            } else if text::same_text(auth, "msi") {
                options.push(("use_azure_managed_identity".to_string(), "true".to_string()));
            } else if text::same_text(auth, "key") {
                let key = match &env.storage_account_key {
                    Some(key) => Some(key.clone()),
                    None => text::copy_option(&env.storage_key),
                };
                match key {
                    Some(key) => {
                        options.push(("account_key".to_string(), key));
                    },
                    None => {
                        return Err(ConfigError::KeyMissing);
                    },
                }
            } else if !text::same_text(auth, "env") && !text::same_text(auth, "sp") {
                return Err(ConfigError::UnknownAuth { auth: auth.to_string() });
            }
            assert(option_views(options@) =~= account_option(uri@, *env) + auth_option(
                auth@,
                *env,
            )->0);
        },
        Backend::S3 => if env.s3_allow_unsafe_rename {
            options.push(("AWS_S3_ALLOW_UNSAFE_RENAME".to_string(), "true".to_string()));
            assert(option_views(options@) =~= seq![("AWS_S3_ALLOW_UNSAFE_RENAME"@, "true"@)]);
        },
        Backend::Gcs => {},
    }
    assert(option_views(options@) =~= storage_options(uri@, auth@, *env)->0);
    Ok(options)
}

/// The options with which the table at `uri` is opened.
pub fn build_storage_options(uri: &str, azure_auth: &str, env: &StorageEnv) -> (r: Result<
    Vec<(String, String)>,
    ConfigError,
>)
    ensures
        ({
            let auth = resolved_auth(normalised_auth(azure_auth@), *env);
            match r {
                Ok(options) => storage_options(uri@, auth, *env) == Some(option_views(options@)),
                Err(e) => storage_options(uri@, auth, *env) is None && is_auth_error(e, auth),
            }
        }),
{
    let auth = resolve_azure_auth(azure_auth, env);
    storage_options_for(uri, auth.as_str(), env)
}

/// No storage option is given twice.
pub proof fn lemma_storage_options_distinct(uri: Seq<char>, auth: Seq<char>, env: StorageEnv)
    requires
        storage_options(uri, auth, env) is Some,
    ensures
        forall|i: int, j: int|
            0 <= i < j < storage_options(uri, auth, env)->0.len() ==> (#[trigger] storage_options(
                uri,
                auth,
                env,
            )->0[i]).0 != (#[trigger] storage_options(uri, auth, env)->0[j]).0,
{
    reveal_strlit("account_name");
    reveal_strlit("use_azure_cli");
    reveal_strlit("use_azure_managed_identity");
    reveal_strlit("account_key");
    assert("account_name"@.len() == 12);
    assert("use_azure_cli"@.len() == 13);
    assert("use_azure_managed_identity"@.len() == 26);
    assert("account_key"@.len() == 11);
}

// ---------------------------------------------------------------------------
// Configuration
// ---------------------------------------------------------------------------

/// The settings of the demo: a producer, an adaptive consumer and an optional sink.
#[derive(Debug, Clone)]
pub struct Config {
    pub table_uri: String,
    pub bind_addr: String,
    pub producer_enabled: bool,
    pub consumer_enabled: bool,
    /// Fewest rows per write of the producer.
    pub batch_min_rows: usize,
    /// Most rows per write of the producer.
    pub batch_max_rows: usize,
    pub write_interval_secs: u64,
    pub poll_interval_secs: u64,
    pub checkpoint_file: String,
    /// Rows per chunk when a large version is split.
    pub chunk_target_rows: u64,
    /// Consecutive small versions are merged up to this many rows.
    pub merge_threshold_rows: u64,
    /// Versions with more rows than this are split.
    pub split_threshold_rows: u64,
    pub azure_auth: String,
    pub sink_enabled: bool,
    pub target_table_uri: String,
    pub sink_mode: String,
    pub merge_keys: String,
    pub merge_update_columns: String,
    pub merge_update_predicate: Option<String>,
    pub merge_delete_predicate: Option<String>,
    pub merge_insert_predicate: Option<String>,
}

impl Config {
    /// The backend of the source table.
    pub fn backend(&self) -> (r: Backend)
        ensures
            r == backend_of(self.table_uri@),
    {
        Backend::detect(self.table_uri.as_str())
    }

    /// The backend of the sink's target table.
    pub fn target_backend(&self) -> (r: Backend)
        ensures
            r == backend_of(self.target_table_uri@),
    {
        Backend::detect(self.target_table_uri.as_str())
    }

    /// The options with which the source table is opened.
    pub fn storage_options(&self, env: &StorageEnv) -> (r: Result<
        Vec<(String, String)>,
        ConfigError,
    >)
        ensures
            ({
                let auth = resolved_auth(normalised_auth(self.azure_auth@), *env);
                match r {
                    Ok(options) => storage_options(self.table_uri@, auth, *env) == Some(
                        option_views(options@),
                    ),
                    Err(e) => storage_options(self.table_uri@, auth, *env) is None
                        && is_auth_error(e, auth),
                }
            }),
    {
        build_storage_options(self.table_uri.as_str(), self.azure_auth.as_str(), env)
    }

    /// The options with which the sink's target table is opened.
    pub fn target_storage_options(&self, env: &StorageEnv) -> (r: Result<
        Vec<(String, String)>,
        ConfigError,
    >)
        ensures
            ({
                let auth = resolved_auth(normalised_auth(self.azure_auth@), *env);
                match r {
                    Ok(options) => storage_options(self.target_table_uri@, auth, *env) == Some(
                        option_views(options@),
                    ),
                    Err(e) => storage_options(self.target_table_uri@, auth, *env) is None
                        && is_auth_error(e, auth),
                }
            }),
    {
        build_storage_options(self.target_table_uri.as_str(), self.azure_auth.as_str(), env)
    }

    /// The handlers to register: those of the source's backend and, with a sink, of the
    /// target's.
    pub fn register_handlers(&self) -> (r: Vec<Backend>)
        ensures
            r@ == handlers(
                if self.sink_enabled {
                    seq![backend_of(self.table_uri@), backend_of(self.target_table_uri@)]
                } else {
                    seq![backend_of(self.table_uri@)]
                },
            ),
    {
        let mut backends: Vec<Backend> = Vec::new();
        backends.push(self.backend());
        if self.sink_enabled {
            backends.push(self.target_backend());
        }
        assert(backends@ =~= if self.sink_enabled {
            seq![backend_of(self.table_uri@), backend_of(self.target_table_uri@)]
        } else {
            seq![backend_of(self.table_uri@)]
        });
        register_handlers_for(&backends)
    }
}

// ---------------------------------------------------------------------------
// What backends and options are for
// ---------------------------------------------------------------------------

/// A location with one of the schemes of a cloud is in that cloud, whatever follows.
pub proof fn lemma_backend_by_scheme(rest: Seq<char>)
    ensures
        backend_of("abfss://"@ + rest) == Backend::Azure,
        backend_of("abfs://"@ + rest) == Backend::Azure,
        backend_of("az://"@ + rest) == Backend::Azure,
        backend_of("s3://"@ + rest) == Backend::S3,
        backend_of("s3a://"@ + rest) == Backend::S3,
        backend_of("gs://"@ + rest) == Backend::Gcs,
{
    reveal_strlit("abfss://");
    reveal_strlit("abfs://");
    reveal_strlit("az://");
    reveal_strlit("s3://");
    reveal_strlit("s3a://");
    reveal_strlit("gs://");
    let a = text::lower("abfss://"@ + rest);
    let b = text::lower("abfs://"@ + rest);
    let c = text::lower("az://"@ + rest);
    let d = text::lower("s3://"@ + rest);
    let e = text::lower("s3a://"@ + rest);
    let f = text::lower("gs://"@ + rest);
    assert(a.take(8) =~= "abfss://"@);
    assert(b.take(7) =~= "abfs://"@);
    assert(c.take(5) =~= "az://"@);
    assert(d.take(5) =~= "s3://"@);
    assert(e.take(6) =~= "s3a://"@);
    assert(f.take(5) =~= "gs://"@);
    lemma_other_beginning(d, 's');
    lemma_other_beginning(e, 's');
    lemma_other_beginning(f, 'g');
    assert(d[0] == 's' && e[0] == 's' && f[0] == 'g');
    assert(!text::begins_with(f, "s3://"@)) by {
        assert(f.take(5)[0] == 'g');
    }
    assert(!text::begins_with(f, "s3a://"@)) by {
        if f.len() >= 6 {
            assert(f.take(6)[0] == 'g');
        }
    }
}

proof fn lemma_other_beginning(s: Seq<char>, c: char)
    requires
        s.len() > 0,
        s[0] == c,
        c != 'a',
    ensures
        !text::begins_with(s, "abfss://"@),
        !text::begins_with(s, "abfs://"@),
        !text::begins_with(s, "az://"@),
{
    reveal_strlit("abfss://");
    reveal_strlit("abfs://");
    reveal_strlit("az://");
    if s.len() >= 8 {
        assert(s.take(8)[0] == c);
    }
    if s.len() >= 7 {
        assert(s.take(7)[0] == c);
    }
    if s.len() >= 5 {
        assert(s.take(5)[0] == c);
    }
}

/// A location without a colon is a path of the local file system.
pub proof fn lemma_paths_are_local(uri: Seq<char>)
    requires
        !uri.contains(':'),
    ensures
        backend_of(uri) == Backend::LocalFs,
{
    reveal_strlit("abfss://");
    reveal_strlit("abfs://");
    reveal_strlit("az://");
    reveal_strlit("s3://");
    reveal_strlit("s3a://");
    reveal_strlit("gs://");
    let l = text::lower(uri);
    assert forall|i: int| 0 <= i < l.len() implies #[trigger] l[i] != ':' by {
        assert(l[i] == text::lower_char(uri[i]));
        assert(uri.contains(uri[i]));
    }
    if l.len() >= 8 {
        assert(l.take(8)[5] == l[5]);
    }
    if l.len() >= 7 {
        assert(l.take(7)[4] == l[4]);
    }
    if l.len() >= 6 {
        assert(l.take(6)[3] == l[3]);
    }
    if l.len() >= 5 {
        assert(l.take(5)[2] == l[2]);
    }
}

/// Each backend is shown under a name of its own.
pub proof fn lemma_labels_differ(a: Backend, b: Backend)
    requires
        a.label_text() == b.label_text(),
    ensures
        a == b,
{
    reveal_strlit("LocalFs");
    reveal_strlit("Azure");
    reveal_strlit("S3");
    reveal_strlit("Gcs");
    assert("LocalFs"@.len() == 7 && "Azure"@.len() == 5 && "S3"@.len() == 2 && "Gcs"@.len() == 3);
}

proof fn lemma_behind_scheme(scheme: Seq<char>, rest: Seq<char>)
    requires
        !scheme.contains(':'),
        !text::occurs_in(rest, "://"@),
    ensures
        behind_scheme(scheme + "://"@ + rest) == Some(rest),
{
    reveal_strlit("://");
    let mark = "://"@;
    let uri = scheme + mark + rest;
    let n = scheme.len() as int;
    assert(uri.subrange(n, n + 3) =~= mark);
    text::lemma_found_from(uri, mark, 0, n);
    let at = text::found_from(uri, mark, 0);
    assert(at is Some);
    if at->0 < n {
        assert(uri.subrange(at->0, at->0 + 3)[0] == ':');
        assert(uri[at->0] == scheme[at->0]);
        assert(scheme.contains(scheme[at->0]));
    }
    assert(uri.skip(n + 3) =~= rest);
    text::lemma_found_from(rest, mark, 0, 0);
    if let Some(j) = text::found_from(rest, mark, 0) {
        assert(text::occurs_at(rest, mark, j));
    }
}

/// The storage account of a location is what stands between the container and the rest of the
/// host, or at the beginning of the host where no container is named; the scheme and the path make
/// no difference.
pub proof fn lemma_account_of_location(
    scheme: Seq<char>,
    container: Seq<char>,
    account: Seq<char>,
    host: Seq<char>,
    path: Seq<char>,
)
    requires
        !scheme.contains(':'),
        !container.contains('/') && !container.contains('@'),
        !account.contains('/') && !account.contains('@') && !account.contains('.'),
        !host.contains('/') && !host.contains('@'),
        !text::occurs_in(
            container.push('@') + account.push('.') + host.push('/') + path,
            "://"@,
        ),
        !text::occurs_in(account.push('.') + host.push('/') + path, "://"@),
    ensures
        azure_account(
            scheme + "://"@ + (container.push('@') + account.push('.') + host.push('/') + path),
        ) == Some(account),
        azure_account(scheme + "://"@ + (account.push('.') + host.push('/') + path)) == Some(
            account,
        ),
{
    let name = account.push('.') + host;
    let full = container.push('@') + name;
    let rest = container.push('@') + account.push('.') + host.push('/') + path;
    let short = account.push('.') + host.push('/') + path;
    lemma_behind_scheme(scheme, rest);
    lemma_behind_scheme(scheme, short);
    assert forall|i: int| 0 <= i < name.len() implies name[i] != '/' && name[i] != '@' by {
        if i < account.len() {
            assert(account.contains(name[i]));
        } else if i > account.len() {
            assert(name[i] == host[i - account.len() - 1]);
            assert(host.contains(name[i]));
        }
    }
    assert forall|i: int| 0 <= i < full.len() implies full[i] != '/' by {
        if i < container.len() {
            assert(container.contains(full[i]));
        } else if i > container.len() {
            assert(full[i] == name[i - container.len() - 1]);
        }
    }
    assert(rest =~= full.push('/') + path);
    assert(short =~= name.push('/') + path);
    text::lemma_first_piece(full, path, '/');
    text::lemma_first_piece(name, path, '/');
    text::lemma_first_piece(container, name, '@');
    text::lemma_one_piece(name, '@');
    text::lemma_first_piece(account, host, '.');
}

/// A location without `://` names no account.
pub proof fn lemma_no_account_without_scheme(uri: Seq<char>)
    requires
        !text::occurs_in(uri, "://"@),
    ensures
        azure_account(uri) is None,
{
    text::lemma_found_from(uri, "://"@, 0, 0);
    if let Some(i) = text::found_from(uri, "://"@, 0) {
        assert(text::occurs_at(uri, "://"@, i));
    }
}

/// A method that is asked for by its name is the one that is used; `auto` is a service principal
/// where the environment has all of its parts, else a managed identity where there is one, and else
/// the command line.
pub proof fn lemma_resolved_auth(want: Seq<char>, env: StorageEnv)
    ensures
        want != "auto"@ ==> resolved_auth(want, env) == want,
        env.tenant_id && env.client_id && env.client_secret ==> resolved_auth("auto"@, env)
            == "env"@,
        !(env.tenant_id && env.client_id && env.client_secret) && (env.identity_endpoint
            || env.msi_endpoint) ==> resolved_auth("auto"@, env) == "msi"@,
        !(env.tenant_id && env.client_id && env.client_secret) && !env.identity_endpoint
            && !env.msi_endpoint ==> resolved_auth("auto"@, env) == "cli"@,
        resolved_auth(resolved_auth(want, env), env) == resolved_auth(want, env),
{
    reveal_strlit("auto");
    reveal_strlit("env");
    reveal_strlit("msi");
    reveal_strlit("cli");
    assert("auto"@.len() == 4 && "env"@.len() == 3 && "msi"@.len() == 3 && "cli"@.len() == 3);
}

/// Neither the case of ASCII letters nor the white space around a request makes a difference.
pub proof fn lemma_normalised_auth(a: Seq<char>, b: Seq<char>)
    requires
        ascii_only(text::trimmed(a)),
        ascii_only(text::trimmed(b)),
        text::lower(text::trimmed(a)) == text::lower(text::trimmed(b)),
    ensures
        normalised_auth(a) == normalised_auth(b),
        normalised_auth(a) == text::lower(text::trimmed(a)),
{
}

/// Which options there are: none for a local table and one at Google, none at Amazon but the one
/// that the environment asks for, and for a table at Azure its account and what the method of
/// authentication needs. There are none only for an unknown method, or a key that is not set.
pub proof fn lemma_storage_options(uri: Seq<char>, auth: Seq<char>, env: StorageEnv)
    ensures
        backend_of(uri) == Backend::LocalFs || backend_of(uri) == Backend::Gcs ==> storage_options(
            uri,
            auth,
            env,
        ) == Some(Seq::<(Seq<char>, Seq<char>)>::empty()),
        backend_of(uri) == Backend::S3 ==> storage_options(uri, auth, env) == Some(
            if env.s3_allow_unsafe_rename {
                seq![("AWS_S3_ALLOW_UNSAFE_RENAME"@, "true"@)]
            } else {
                Seq::empty()
            },
        ),
        backend_of(uri) == Backend::Azure ==> {
            let known = auth == "cli"@ || auth == "msi"@ || auth == "env"@ || auth == "sp"@ || (auth
                == "key"@ && (env.storage_account_key is Some || env.storage_key is Some));
            &&& storage_options(uri, auth, env) is Some <==> known
            &&& storage_options(uri, auth, env) matches Some(o) ==> is_azure_options(
                uri,
                auth,
                env,
                o,
            )
        },
{
    reveal_strlit("cli");
    reveal_strlit("msi");
    reveal_strlit("env");
    reveal_strlit("sp");
    reveal_strlit("key");
    assert("cli"@[0] == 'c' && "msi"@[0] == 'm' && "env"@[0] == 'e' && "sp"@[0] == 's' && "key"@[0]
        == 'k');
    if backend_of(uri) == Backend::Azure {
        if let Some(o) = storage_options(uri, auth, env) {
            let account = account_option(uri, env);
            let option = auth_option(auth, env)->0;
            assert(o == account + option);
            assert(account.len() > 0 ==> o[0] == account[0]);
            assert(option.len() > 0 ==> o[account.len() as int] == option[0]);
        }
    }
}

/// Whether `o` names the account of the location, or else that of the environment, and has what
/// the method of authentication needs, and nothing else.
pub open spec fn is_azure_options(
    uri: Seq<char>,
    auth: Seq<char>,
    env: StorageEnv,
    o: Seq<(Seq<char>, Seq<char>)>,
) -> bool {
    &&& azure_account(uri) matches Some(a) ==> o.contains(("account_name"@, a))
    &&& azure_account(uri) is None ==> (env.storage_account matches Some(a) ==> o.contains(
        ("account_name"@, a@),
    ))
    &&& auth == "cli"@ ==> o.contains(("use_azure_cli"@, "true"@))
    &&& auth == "msi"@ ==> o.contains(("use_azure_managed_identity"@, "true"@))
    &&& auth == "key"@ ==> (env.storage_account_key matches Some(k) ==> o.contains(
        ("account_key"@, k@),
    ))
    &&& auth == "key"@ && env.storage_account_key is None ==> (env.storage_key matches Some(k)
        ==> o.contains(("account_key"@, k@)))
    &&& o.len() == (if azure_account(uri) is Some || env.storage_account is Some {
        1int
    } else {
        0
    }) + (if auth == "env"@ || auth == "sp"@ {
        0int
    } else {
        1
    })
}

/// Why there are no options: a key was asked for and is not set, or the method is unknown, which is
/// then named.
pub proof fn lemma_auth_error(error: ConfigError, auth: Seq<char>)
    requires
        is_auth_error(error, auth),
    ensures
        error is KeyMissing <==> auth == "key"@,
        error matches ConfigError::UnknownAuth { auth: a } ==> a@ == auth,
{
}

} // verus!
