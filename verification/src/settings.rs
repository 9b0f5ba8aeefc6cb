//! Process settings and their startup validation.
//!
//! URLs and the cron expression are held as the strings the configuration
//! supplies; `Settings::validate` checks them once at startup, so a value
//! that reaches the running system is known to parse. The bucket fetcher
//! requires at least one of `region` and `endpoint`.

use vstd::prelude::*;

verus! {

/// The HTTP server's bind address.
pub struct ServerSettings {
    pub addr: String,
}

/// The verification subsystem: the compiler cache directory, the refresh
/// schedule as a cron expression, and the fetcher strategy.
pub struct SoliditySettings {
    pub enabled: bool,
    pub compilers_dir: String,
    pub refresh_versions_schedule: String,
    pub fetcher: FetcherSettings,
}

/// Fetcher strategy: a remote version-list manifest, or an object-storage
/// bucket. Exactly one is active.
pub enum FetcherSettings {
    List(ListFetcherSettings),
    S3(S3FetcherSettings),
}

/// The list strategy's manifest URL.
pub struct ListFetcherSettings {
    pub list_url: String,
}

/// The bucket strategy's credentials and location. At least one of
/// `region` and `endpoint` must be set.
pub struct S3FetcherSettings {
    pub access_key: Option<String>,
    pub secret_key: Option<String>,
    pub region: Option<String>,
    pub endpoint: Option<String>,
    pub bucket: String,
}

/// The delegated verification API.
pub struct SourcifySettings {
    pub enabled: bool,
    pub api_url: String,
    /// Number of attempts the server makes against the API; at least one.
    pub verification_attempts: u64,
    pub request_timeout: u64,
}

/// The metrics exporter endpoint.
pub struct MetricsSettings {
    pub endpoint: String,
    pub addr: String,
}

/// The whole process configuration. The path the configuration was read
/// from is carried only so that re-reading it can be reported; it takes
/// no part in equality.
pub struct Settings {
    pub server: ServerSettings,
    pub solidity: SoliditySettings,
    pub sourcify: SourcifySettings,
    pub metrics: MetricsSettings,
    pub config_path: Option<String>,
}

/// Whether a string parses as a URL.
pub uninterp spec fn url_ok(s: Seq<char>) -> bool;

/// Relies on `url::Url::parse`: whether a string parses as an absolute
/// URL depends on the string alone.
#[verifier::external_body]
fn url_parses(s: &str) -> (r: bool)
    ensures
        r == url_ok(s@),
{
    url::Url::parse(s).is_ok()
}

/// Whether a string parses as a cron schedule expression.
pub uninterp spec fn schedule_ok(s: Seq<char>) -> bool;

/// Relies on `cron::Schedule`'s `FromStr`: whether a cron expression
/// parses depends on the string alone.
#[verifier::external_body]
fn schedule_parses(s: &str) -> (r: bool)
    ensures
        r == schedule_ok(s@),
{
    <cron::Schedule as core::str::FromStr>::from_str(s).is_ok()
}

/// The fetcher configuration is acceptable: a list fetcher's manifest URL
/// parses; a bucket fetcher names a region or an endpoint.
pub open spec fn spec_fetcher_valid(f: &FetcherSettings) -> bool {
    match f {
        FetcherSettings::List(l) => url_ok(l.list_url@),
        FetcherSettings::S3(s3) => s3.region is Some || s3.endpoint is Some,
    }
}

/// The whole configuration is acceptable at startup.
pub open spec fn spec_settings_valid(s: &Settings) -> bool {
    &&& spec_fetcher_valid(&s.solidity.fetcher)
    &&& schedule_ok(s.solidity.refresh_versions_schedule@)
    &&& url_ok(s.sourcify.api_url@)
    &&& s.sourcify.verification_attempts >= 1
}

impl Settings {
    /// Validates the configuration at startup: the fetcher strategy's own
    /// rule first, then the refresh schedule and the delegated API URL.
    /// Returns `Ok` exactly on acceptable configurations.
    pub fn validate(&self) -> (r: Result<(), String>)
        ensures
            r is Ok <==> spec_settings_valid(self),
            (self.solidity.fetcher matches FetcherSettings::S3(s3) && s3.region is None
                && s3.endpoint is None) ==> (r matches Err(m) && m@
                == "for s3 fetcher settings at least one of `region` or `endpoint` should be defined"@),
    {
        match &self.solidity.fetcher {
            FetcherSettings::S3(s3) => {
                if s3.region.is_none() && s3.endpoint.is_none() {
                    return Err(
                        "for s3 fetcher settings at least one of `region` or `endpoint` should be defined".to_owned(),
                    );
                }
            },
            FetcherSettings::List(l) => {
                if !url_parses(l.list_url.as_str()) {
                    return Err("the compiler list url is not a valid url".to_owned());
                }
            },
        }
        if !schedule_parses(self.solidity.refresh_versions_schedule.as_str()) {
            return Err("the refresh versions schedule is not a valid cron expression".to_owned());
        }
        if !url_parses(self.sourcify.api_url.as_str()) {
            return Err("the sourcify api url is not a valid url".to_owned());
        }
        if self.sourcify.verification_attempts < 1 {
            return Err("sourcify verification attempts should be at least one".to_owned());
        }
        Ok(())
    }
}

pub open spec fn spec_default_server(s: &ServerSettings) -> bool {
    s.addr@ == "0.0.0.0:8043"@
}

impl Default for ServerSettings {
    fn default() -> (r: ServerSettings)
        ensures
            spec_default_server(&r),
    {
        ServerSettings { addr: "0.0.0.0:8043".to_owned() }
    }
}

pub open spec fn spec_default_list_fetcher(l: &ListFetcherSettings) -> bool {
    l.list_url@ == "https://solc-bin.ethereum.org/linux-amd64/list.json"@
}

impl Default for ListFetcherSettings {
    fn default() -> (r: ListFetcherSettings)
        ensures
            spec_default_list_fetcher(&r),
    {
        ListFetcherSettings {
            list_url: "https://solc-bin.ethereum.org/linux-amd64/list.json".to_owned(),
        }
    }
}

pub open spec fn spec_default_fetcher(f: &FetcherSettings) -> bool {
    f matches FetcherSettings::List(l) && spec_default_list_fetcher(&l)
}

impl Default for FetcherSettings {
    fn default() -> (r: FetcherSettings)
        ensures
            spec_default_fetcher(&r),
    {
        FetcherSettings::List(ListFetcherSettings::default())
    }
}

pub open spec fn spec_default_s3_fetcher(s: &S3FetcherSettings) -> bool {
    &&& s.access_key is None
    &&& s.secret_key is None
    &&& s.region is None
    &&& s.endpoint is None
    &&& s.bucket@ == Seq::<char>::empty()
}

impl Default for S3FetcherSettings {
    fn default() -> (r: S3FetcherSettings)
        ensures
            spec_default_s3_fetcher(&r),
    {
        S3FetcherSettings {
            access_key: None,
            secret_key: None,
            region: None,
            endpoint: None,
            bucket: String::new(),
        }
    }
}

pub open spec fn spec_default_solidity(s: &SoliditySettings) -> bool {
    &&& s.enabled == true
    &&& s.compilers_dir@ == "/tmp/compilers"@
    &&& s.refresh_versions_schedule@ == "0 0 * * * * *"@
    &&& spec_default_fetcher(&s.fetcher)
}

impl Default for SoliditySettings {
    /// The default compiler directory is a fixed path: deriving it from
    /// the machine's temp directory needs the environment, which the
    /// embedding program reads; that program may override this field
    /// before start-up validation.
    fn default() -> (r: SoliditySettings)
        ensures
            spec_default_solidity(&r),
    {
        SoliditySettings {
            enabled: true,
            compilers_dir: "/tmp/compilers".to_owned(),
            // every hour
            refresh_versions_schedule: "0 0 * * * * *".to_owned(),
            fetcher: FetcherSettings::default(),
        }
    }
}

pub open spec fn spec_default_sourcify(s: &SourcifySettings) -> bool {
    &&& s.enabled == true
    &&& s.api_url@ == "https://sourcify.dev/server/"@
    &&& s.verification_attempts == 3
    &&& s.request_timeout == 10
}

impl Default for SourcifySettings {
    fn default() -> (r: SourcifySettings)
        ensures
            spec_default_sourcify(&r),
    {
        SourcifySettings {
            enabled: true,
            api_url: "https://sourcify.dev/server/".to_owned(),
            verification_attempts: 3,
            request_timeout: 10,
        }
    }
}

pub open spec fn spec_default_metrics(s: &MetricsSettings) -> bool {
    &&& s.endpoint@ == "/metrics"@
    &&& s.addr@ == "0.0.0.0:6060"@
}

impl Default for MetricsSettings {
    fn default() -> (r: MetricsSettings)
        ensures
            spec_default_metrics(&r),
    {
        MetricsSettings { endpoint: "/metrics".to_owned(), addr: "0.0.0.0:6060".to_owned() }
    }
}

pub open spec fn spec_default_settings(s: &Settings) -> bool {
    &&& spec_default_server(&s.server)
    &&& spec_default_solidity(&s.solidity)
    &&& spec_default_sourcify(&s.sourcify)
    &&& spec_default_metrics(&s.metrics)
    &&& s.config_path is None
}

impl Default for Settings {
    fn default() -> (r: Settings)
        ensures
            spec_default_settings(&r),
    {
        Settings {
            server: ServerSettings::default(),
            solidity: SoliditySettings::default(),
            sourcify: SourcifySettings::default(),
            metrics: MetricsSettings::default(),
            config_path: None,
        }
    }
}

/// The two optional strings hold the same text.
pub open spec fn spec_opt_string_eq(a: &Option<String>, b: &Option<String>) -> bool {
    match (a, b) {
        (Some(x), Some(y)) => x@ == y@,
        (None, None) => true,
        _ => false,
    }
}

fn opt_string_eq(a: &Option<String>, b: &Option<String>) -> (r: bool)
    ensures
        r == spec_opt_string_eq(a, b),
{
    match (a, b) {
        (Some(x), Some(y)) => x.eq(y),
        (None, None) => true,
        _ => false,
    }
}

/// The fetcher configurations are equal, field by field.
pub open spec fn spec_fetcher_eq(a: &FetcherSettings, b: &FetcherSettings) -> bool {
    match (a, b) {
        (FetcherSettings::List(x), FetcherSettings::S3(y)) => false,
        (FetcherSettings::S3(x), FetcherSettings::List(y)) => false,
        (FetcherSettings::List(x), FetcherSettings::List(y)) => x.list_url@ == y.list_url@,
        (FetcherSettings::S3(x), FetcherSettings::S3(y)) => {
            &&& spec_opt_string_eq(&x.access_key, &y.access_key)
            &&& spec_opt_string_eq(&x.secret_key, &y.secret_key)
            &&& spec_opt_string_eq(&x.region, &y.region)
            &&& spec_opt_string_eq(&x.endpoint, &y.endpoint)
            &&& x.bucket@ == y.bucket@
        },
    }
}

fn fetcher_eq(a: &FetcherSettings, b: &FetcherSettings) -> (r: bool)
    ensures
        r == spec_fetcher_eq(a, b),
{
    match (a, b) {
        (FetcherSettings::List(x), FetcherSettings::List(y)) => x.list_url.eq(&y.list_url),
        (FetcherSettings::S3(x), FetcherSettings::S3(y)) => opt_string_eq(&x.access_key,
            &y.access_key) && opt_string_eq(&x.secret_key, &y.secret_key) && opt_string_eq(
            &x.region,
            &y.region,
        ) && opt_string_eq(&x.endpoint, &y.endpoint) && x.bucket.eq(&y.bucket),
        _ => false,
    }
}

/// Equality of the observable configuration: every field but the path the
/// configuration was read from.
pub open spec fn spec_settings_eq(a: &Settings, b: &Settings) -> bool {
    &&& a.server.addr@ == b.server.addr@
    &&& a.solidity.enabled == b.solidity.enabled
    &&& a.solidity.compilers_dir@ == b.solidity.compilers_dir@
    &&& a.solidity.refresh_versions_schedule@ == b.solidity.refresh_versions_schedule@
    &&& spec_fetcher_eq(&a.solidity.fetcher, &b.solidity.fetcher)
    &&& a.sourcify.enabled == b.sourcify.enabled
    &&& a.sourcify.api_url@ == b.sourcify.api_url@
    &&& a.sourcify.verification_attempts == b.sourcify.verification_attempts
    &&& a.sourcify.request_timeout == b.sourcify.request_timeout
    &&& a.metrics.endpoint@ == b.metrics.endpoint@
    &&& a.metrics.addr@ == b.metrics.addr@
}

impl PartialEq for Settings {
    /// Compares every field but `config_path`, which is plumbing, not
    /// configuration.
    fn eq(&self, other: &Settings) -> (r: bool) {
        self.server.addr.eq(&other.server.addr) && self.solidity.enabled == other.solidity.enabled
            && self.solidity.compilers_dir.eq(&other.solidity.compilers_dir)
            && self.solidity.refresh_versions_schedule.eq(&other.solidity.refresh_versions_schedule)
            && fetcher_eq(&self.solidity.fetcher, &other.solidity.fetcher)
            && self.sourcify.enabled == other.sourcify.enabled && self.sourcify.api_url.eq(
            &other.sourcify.api_url,
        ) && self.sourcify.verification_attempts == other.sourcify.verification_attempts
            && self.sourcify.request_timeout == other.sourcify.request_timeout
            && self.metrics.endpoint.eq(&other.metrics.endpoint) && self.metrics.addr.eq(
            &other.metrics.addr,
        )
    }
}

impl vstd::std_specs::cmp::PartialEqSpecImpl for Settings {
    open spec fn obeys_eq_spec() -> bool {
        true
    }

    open spec fn eq_spec(&self, other: &Settings) -> bool {
        spec_settings_eq(self, other)
    }
}

} // verus!
