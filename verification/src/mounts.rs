//! External-provider mounts of a workspace: the prefix rule, the provider
//! configurations and what a mount request resolves to, the non-secret view
//! returned to clients, and the checks of the mount routes.

use vstd::prelude::*;

use crate::api::ApiError;
use crate::text::{chars_eq, chars_of, contains_char, has_char, push_chars, push_str, str_eq,
    string_of, trim, trim_char, trim_matches, trim_ws};

verus! {

/// Prefix of the workspace's local file mount; no provider mount may use it.
pub const LOCAL_MOUNT: &'static str = "/files";

/// Region an S3 mount gets when the request names none.
pub const DEFAULT_S3_REGION: &'static str = "us-east-1";

/// Why a mount prefix was refused.
#[derive(Debug, Clone, Copy, PartialEq, Eq, Structural)]
pub enum PrefixError {
    /// Empty, or more than one path segment.
    NotSingleSegment,
    /// The name of the local file mount.
    Reserved,
}

/// The prefix a mount is stored under: the request's prefix trimmed of
/// whitespace and slashes, which must be one non-empty segment other than
/// `files`, made absolute.
pub open spec fn normalize_prefix_spec(prefix: Seq<char>) -> Result<Seq<char>, PrefixError> {
    let t = trim_char(trim(prefix), '/');
    if t.len() == 0 || has_char(t, '/') {
        Err(PrefixError::NotSingleSegment)
    } else if t == "files"@ {
        Err(PrefixError::Reserved)
    } else {
        Ok("/"@ + t)
    }
}

/// Normalise and validate a mount prefix.
pub fn normalize_prefix(prefix: &str) -> (r: Result<String, PrefixError>)
    ensures
        match r {
            Ok(p) => normalize_prefix_spec(prefix@) == Ok::<Seq<char>, PrefixError>(p@),
            Err(e) => normalize_prefix_spec(prefix@) == Err::<Seq<char>, PrefixError>(e),
        },
{
    let t = trim_matches(&trim_ws(&chars_of(prefix)), '/');
    if t.len() == 0 || contains_char(&t, '/') {
        return Err(PrefixError::NotSingleSegment);
    }
    if chars_eq(&t, &chars_of("files")) {
        return Err(PrefixError::Reserved);
    }
    let mut out: Vec<char> = Vec::new();
    push_str(&mut out, "/");
    push_chars(&mut out, &t);
    Ok(string_of(&out))
}

/// Credentials and location of an S3 (or S3-compatible) bucket.
pub struct S3Config {
    pub bucket: String,
    pub region: String,
    pub access_key_id: String,
    pub secret_access_key: String,
    pub endpoint: Option<String>,
    pub key_prefix: Option<String>,
}

/// A Notion integration token.
pub struct NotionConfig {
    pub api_key: String,
}

/// A Gmail mount as stored: the account's own refresh token, its address
/// and the index cap. The deployment's OAuth client and base URL are never
/// part of it; they are supplied when the mount is opened.
pub struct GmailConfig {
    pub refresh_token: String,
    pub account_email: String,
    pub index_cap: Option<usize>,
}

/// A Google Drive mount as stored: the account's own refresh token and its
/// address, none of the deployment's OAuth client or base URL.
pub struct GdriveConfig {
    pub refresh_token: String,
    pub account_email: String,
}

/// A live provider configuration.
pub enum ProviderConfig {
    S3(S3Config),
    Notion(NotionConfig),
    Gmail(GmailConfig),
    Gdrive(GdriveConfig),
}

/// The discriminator a provider is stored under.
pub open spec fn provider_kind_spec(p: ProviderConfig) -> Seq<char> {
    match p {
        ProviderConfig::S3(_) => "s3"@,
        ProviderConfig::Notion(_) => "notion"@,
        ProviderConfig::Gmail(_) => "gmail"@,
        ProviderConfig::Gdrive(_) => "gdrive"@,
    }
}

/// The discriminator a provider is stored under.
pub fn provider_kind(p: &ProviderConfig) -> (r: &'static str)
    ensures
        r@ == provider_kind_spec(*p),
{
    match p {
        ProviderConfig::S3(_) => "s3",
        ProviderConfig::Notion(_) => "notion",
        ProviderConfig::Gmail(_) => "gmail",
        ProviderConfig::Gdrive(_) => "gdrive",
    }
}

/// A stored provider discriminator.
#[derive(Debug, Clone, Copy, PartialEq, Eq, Structural)]
pub enum ProviderKind {
    S3,
    Notion,
    Gmail,
    Gdrive,
}

/// The provider a stored discriminator names; `None` for an unknown one.
pub fn parse_provider_kind(kind: &str) -> (r: Option<ProviderKind>)
    ensures
        r == (if kind@ == "s3"@ {
            Some(ProviderKind::S3)
        } else if kind@ == "notion"@ {
            Some(ProviderKind::Notion)
        } else if kind@ == "gmail"@ {
            Some(ProviderKind::Gmail)
        } else if kind@ == "gdrive"@ {
            Some(ProviderKind::Gdrive)
        } else {
            None
        }),
{
    if str_eq(kind, "s3") {
        Some(ProviderKind::S3)
    } else if str_eq(kind, "notion") {
        Some(ProviderKind::Notion)
    } else if str_eq(kind, "gmail") {
        Some(ProviderKind::Gmail)
    } else if str_eq(kind, "gdrive") {
        Some(ProviderKind::Gdrive)
    } else {
        None
    }
}

/// Provider configuration as supplied when creating a mount (carries
/// secrets). Gmail and Drive send an OAuth authorization code, which the
/// server exchanges with its own client credentials.
pub enum ProviderSpec {
    S3 {
        bucket: String,
        region: Option<String>,
        access_key_id: String,
        secret_access_key: String,
        endpoint: Option<String>,
        key_prefix: Option<String>,
    },
    Notion { api_key: String },
    Gmail { code: String, redirect_uri: String, index_cap: Option<usize> },
    Gdrive { code: String, redirect_uri: String },
}

/// Which Google service an authorization code is for.
#[derive(Debug, Clone, Copy, PartialEq, Eq, Structural)]
pub enum GoogleService {
    Gmail,
    Gdrive,
}

/// An authorization code to exchange with the app's OAuth client.
pub struct OAuthExchange {
    pub service: GoogleService,
    pub client_id: String,
    pub client_secret: String,
    pub code: String,
    pub redirect_uri: String,
    pub base_url: Option<String>,
    pub index_cap: Option<usize>,
}

/// What the exchange of an authorization code yields.
pub struct ExchangedToken {
    pub refresh_token: String,
    pub account_email: String,
}

/// What a mount request resolves to before any network call.
pub enum Resolution {
    /// The configuration is complete.
    Ready(ProviderConfig),
    /// An authorization code must be exchanged first.
    Exchange(OAuthExchange),
}

/// Message for a Google mount on a server without an OAuth client.
pub open spec fn not_configured_message(service: GoogleService) -> Seq<char> {
    match service {
        GoogleService::Gmail => "Gmail is not configured on this server (GOOGLE_CLIENT_ID / GOOGLE_CLIENT_SECRET)"@,
        GoogleService::Gdrive => "Google Drive is not configured on this server (GOOGLE_CLIENT_ID / GOOGLE_CLIENT_SECRET)"@,
    }
}

/// Prefix of the message of a failed exchange.
pub open spec fn exchange_error_prefix(service: GoogleService) -> Seq<char> {
    match service {
        GoogleService::Gmail => "gmail oauth: "@,
        GoogleService::Gdrive => "gdrive oauth: "@,
    }
}

impl ProviderSpec {
    /// Resolve a mount request, given the server's OAuth client credentials
    /// (`None` when it has none) and its deployment-level base URL. S3 and
    /// Notion carry their credentials and are ready (an S3 mount without a
    /// region gets `us-east-1`); Gmail and Drive need the code exchanged and
    /// are refused with 400 when the server has no OAuth client. The base
    /// URL always comes from the server, never from the request.
    pub fn plan(self, credentials: Option<(String, String)>, base_url: Option<String>) -> (r: Result<
        Resolution,
        ApiError,
    >)
        ensures
            match self {
                ProviderSpec::S3 { bucket, region, access_key_id, secret_access_key, endpoint, key_prefix } => {
                    r matches Ok(Resolution::Ready(ProviderConfig::S3(c))) && c.bucket@ == bucket@
                        && c.region@ == (match region {
                        Some(rg) => rg@,
                        None => DEFAULT_S3_REGION@,
                    }) && c.access_key_id@ == access_key_id@ && c.secret_access_key@
                        == secret_access_key@ && c.endpoint == endpoint && c.key_prefix
                        == key_prefix
                },
                ProviderSpec::Notion { api_key } => r matches Ok(
                    Resolution::Ready(ProviderConfig::Notion(c)),
                ) && c.api_key@ == api_key@,
                ProviderSpec::Gmail { code, redirect_uri, index_cap } => match credentials {
                    None => r matches Err(e) && e.status == 400 && e.message@
                        == not_configured_message(GoogleService::Gmail),
                    Some((id, secret)) => r matches Ok(Resolution::Exchange(x)) && x.service
                        == GoogleService::Gmail && x.client_id@ == id@ && x.client_secret@
                        == secret@ && x.code@ == code@ && x.redirect_uri@ == redirect_uri@
                        && x.base_url == base_url && x.index_cap == index_cap,
                },
                ProviderSpec::Gdrive { code, redirect_uri } => match credentials {
                    None => r matches Err(e) && e.status == 400 && e.message@
                        == not_configured_message(GoogleService::Gdrive),
                    Some((id, secret)) => r matches Ok(Resolution::Exchange(x)) && x.service
                        == GoogleService::Gdrive && x.client_id@ == id@ && x.client_secret@
                        == secret@ && x.code@ == code@ && x.redirect_uri@ == redirect_uri@
                        && x.base_url == base_url && x.index_cap is None,
                },
            },
    {
        match self {
            ProviderSpec::S3 { bucket, region, access_key_id, secret_access_key, endpoint, key_prefix } => {
                let region = match region {
                    Some(rg) => rg,
                    None => DEFAULT_S3_REGION.to_string(),
                };
                Ok(
                    Resolution::Ready(
                        ProviderConfig::S3(
                            S3Config { bucket, region, access_key_id, secret_access_key, endpoint, key_prefix },
                        ),
                    ),
                )
            },
            ProviderSpec::Notion { api_key } => Ok(
                Resolution::Ready(ProviderConfig::Notion(NotionConfig { api_key })),
            ),
            ProviderSpec::Gmail { code, redirect_uri, index_cap } => match credentials {
                None => Err(
                    ApiError {
                        status: 400,
                        message: "Gmail is not configured on this server (GOOGLE_CLIENT_ID / GOOGLE_CLIENT_SECRET)".to_string(),
                    },
                ),
                Some((client_id, client_secret)) => Ok(
                    Resolution::Exchange(
                        OAuthExchange {
                            service: GoogleService::Gmail,
                            client_id,
                            client_secret,
                            code,
                            redirect_uri,
                            base_url,
                            index_cap,
                        },
                    ),
                ),
            },
            ProviderSpec::Gdrive { code, redirect_uri } => match credentials {
                None => Err(
                    ApiError {
                        status: 400,
                        message: "Google Drive is not configured on this server (GOOGLE_CLIENT_ID / GOOGLE_CLIENT_SECRET)".to_string(),
                    },
                ),
                Some((client_id, client_secret)) => Ok(
                    Resolution::Exchange(
                        OAuthExchange {
                            service: GoogleService::Gdrive,
                            client_id,
                            client_secret,
                            code,
                            redirect_uri,
                            base_url,
                            index_cap: None,
                        },
                    ),
                ),
            },
        }
    }
}

impl OAuthExchange {
    /// Finish a Google mount with the outcome of the code exchange: a
    /// success stores the account's refresh token and address (and, for
    /// Gmail, the index cap) and none of the app's client id, client secret
    /// or base URL; a failure is a 400 naming the service.
    pub fn complete(self, outcome: Result<ExchangedToken, String>) -> (r: Result<ProviderConfig, ApiError>)
        ensures
            match outcome {
                Err(e) => r matches Err(a) && a.status == 400 && a.message@
                    == exchange_error_prefix(self.service) + e@,
                Ok(t) => match self.service {
                    GoogleService::Gmail => r == Ok::<ProviderConfig, ApiError>(
                        ProviderConfig::Gmail(
                            GmailConfig {
                                refresh_token: t.refresh_token,
                                account_email: t.account_email,
                                index_cap: self.index_cap,
                            },
                        ),
                    ),
                    GoogleService::Gdrive => r == Ok::<ProviderConfig, ApiError>(
                        ProviderConfig::Gdrive(
                            GdriveConfig {
                                refresh_token: t.refresh_token,
                                account_email: t.account_email,
                            },
                        ),
                    ),
                },
            },
    {
        match outcome {
            Err(e) => {
                let mut m: Vec<char> = Vec::new();
                match self.service {
                    GoogleService::Gmail => push_str(&mut m, "gmail oauth: "),
                    GoogleService::Gdrive => push_str(&mut m, "gdrive oauth: "),
                }
                push_str(&mut m, e.as_str());
                Err(ApiError { status: 400, message: string_of(&m) })
            },
            Ok(t) => match self.service {
                GoogleService::Gmail => Ok(
                    ProviderConfig::Gmail(
                        GmailConfig {
                            refresh_token: t.refresh_token,
                            account_email: t.account_email,
                            index_cap: self.index_cap,
                        },
                    ),
                ),
                GoogleService::Gdrive => Ok(
                    ProviderConfig::Gdrive(
                        GdriveConfig { refresh_token: t.refresh_token, account_email: t.account_email },
                    ),
                ),
            },
        }
    }
}

/// Non-secret view of a mount's provider, safe to return in responses.
pub enum ProviderInfo {
    S3 { bucket: String, region: String, endpoint: Option<String>, key_prefix: Option<String> },
    /// Notion carries only its token, which is a secret.
    Notion {},
    Gmail { email: String },
    Gdrive { email: String },
}

/// A copy of an optional string.
fn clone_opt(s: &Option<String>) -> (r: Option<String>)
    ensures
        r == *s,
{
    match s {
        Some(v) => Some(v.clone()),
        None => None,
    }
}

impl ProviderInfo {
    /// The non-secret view of a provider: the bucket, region, endpoint and
    /// key prefix of S3, the account of Gmail and Drive, nothing of Notion.
    /// No credential of any kind is carried over.
    pub fn from(p: &ProviderConfig) -> (r: ProviderInfo)
        ensures
            match *p {
                ProviderConfig::S3(c) => r matches ProviderInfo::S3 { bucket, region, endpoint, key_prefix }
                    && bucket == c.bucket && region == c.region && endpoint == c.endpoint
                    && key_prefix == c.key_prefix,
                ProviderConfig::Notion(_) => r is Notion,
                ProviderConfig::Gmail(c) => r matches ProviderInfo::Gmail { email } && email
                    == c.account_email,
                ProviderConfig::Gdrive(c) => r matches ProviderInfo::Gdrive { email } && email
                    == c.account_email,
            },
    {
        match p {
            ProviderConfig::S3(c) => ProviderInfo::S3 {
                bucket: c.bucket.clone(),
                region: c.region.clone(),
                endpoint: clone_opt(&c.endpoint),
                key_prefix: clone_opt(&c.key_prefix),
            },
            ProviderConfig::Notion(_) => ProviderInfo::Notion {},
            ProviderConfig::Gmail(c) => ProviderInfo::Gmail { email: c.account_email.clone() },
            ProviderConfig::Gdrive(c) => ProviderInfo::Gdrive { email: c.account_email.clone() },
        }
    }
}

/// Whether a looked-up mount belongs to workspace `wid`: a mount of another
/// workspace is reported like a missing one, 404.
pub fn require_mount_in(mount_workspace: Option<u128>, wid: u128) -> (r: Result<(), ApiError>)
    ensures
        r is Ok <==> mount_workspace == Some(wid),
        r matches Err(e) ==> e.status == 404 && e.message@ == "mount not found"@,
{
    match mount_workspace {
        Some(w) => if w == wid {
            Ok(())
        } else {
            Err(ApiError { status: 404, message: "mount not found".to_string() })
        },
        None => Err(ApiError { status: 404, message: "mount not found".to_string() }),
    }
}

/// The Gmail configuration of a mount that may be synced: only a Gmail
/// mount has a mirror, so any other provider is a 400.
pub fn gmail_config_of(provider: ProviderConfig) -> (r: Result<GmailConfig, ApiError>)
    ensures
        match provider {
            ProviderConfig::Gmail(c) => r matches Ok(g) && g == c,
            _ => r matches Err(e) && e.status == 400 && e.message@
                == "mount provider does not support sync"@,
        },
{
    match provider {
        ProviderConfig::Gmail(c) => Ok(c),
        _ => Err(ApiError { status: 400, message: "mount provider does not support sync".to_string() }),
    }
}

/// Progress of a Gmail mount's mailbox mirror.
#[derive(Debug, Clone, Copy, PartialEq, Eq, Structural)]
pub struct SyncProgress {
    pub total: usize,
    pub fetched: usize,
    pub completed: bool,
}

/// Sync status of a Gmail mount's on-disk mailbox mirror.
#[derive(Debug, Clone, Copy, PartialEq, Eq, Structural)]
pub struct MountSyncResponse {
    /// A sync run is active right now.
    pub running: bool,
    /// This request started a new run.
    pub started: bool,
    /// Messages in the mailbox at the last full listing.
    pub total: usize,
    /// Messages mirrored so far.
    pub fetched: usize,
    /// The initial full sync has finished.
    pub completed: bool,
}

impl MountSyncResponse {
    /// The response for a mirror's progress (none yet reads as zero and not
    /// completed).
    pub fn of(progress: Option<SyncProgress>, running: bool, started: bool) -> (r: MountSyncResponse)
        ensures
            r.running == running,
            r.started == started,
            match progress {
                Some(p) => r.total == p.total && r.fetched == p.fetched && r.completed == p.completed,
                None => r.total == 0 && r.fetched == 0 && !r.completed,
            },
    {
        let p = match progress {
            Some(p) => p,
            None => SyncProgress { total: 0, fetched: 0, completed: false },
        };
        MountSyncResponse { running, started, total: p.total, fetched: p.fetched, completed: p.completed }
    }
}

/// Request to attach a mount.
pub struct CreateMountRequest {
    /// Virtual top-level prefix (e.g. `/s3-prod` or `s3-prod`).
    pub prefix: String,
    pub provider: ProviderSpec,
}

/// Whether a sync of an account's mirror may start: not while one is
/// running for it (`running` is `None` when no run was ever started, else
/// whether the last one is still going).
pub fn may_start_sync(running: Option<bool>) -> (r: bool)
    ensures
        r == (running != Some(true)),
{
    match running {
        Some(true) => false,
        _ => true,
    }
}

/// Whether an account's mirror directory is still used by some mount: the
/// mirror is removed only when no remaining mount maps to it.
pub fn mirror_still_referenced(account_dir: &str, mount_dirs: &[String]) -> (r: bool)
    ensures
        r == exists|i: int| 0 <= i < mount_dirs@.len() && #[trigger] mount_dirs@[i]@ == account_dir@,
{
    let mut i: usize = 0;
    while i < mount_dirs.len()
        invariant
            i <= mount_dirs@.len(),
            forall|k: int| 0 <= k < i ==> #[trigger] mount_dirs@[k]@ != account_dir@,
        decreases mount_dirs@.len() - i,
    {
        if str_eq(mount_dirs[i].as_str(), account_dir) {
            return true;
        }
        i = i + 1;
    }
    false
}

} // verus!
