//! The settings of the multichain aggregator and their defaults.
use url::{ParseError, Url};
use vstd::prelude::*;

use crate::database_settings::{
    DatabaseConnectOptionsSettings, DatabaseConnectSettings, DatabaseSettings,
};
use crate::server_settings::{
    self, JaegerSettings, MetricsSettings, ServerSettings, TracingSettings,
};

verus! {

/// The prefix of the environment variables that hold the settings.
pub const SERVICE_NAME: &'static str = "MULTICHAIN_AGGREGATOR";

/// Where the client for dapps finds its service by default.
pub const DEFAULT_DAPP_URL: &'static str = "http://localhost:8050";

/// Where the client for token info finds its service by default.
pub const DEFAULT_TOKEN_INFO_URL: &'static str = "http://localhost:8051";

/// `url::Url`, a parsed URL. Its inside is not visible here.
#[verifier::external_type_specification]
#[verifier::external_body]
pub struct ExUrl(url::Url);

/// `url::ParseError`, the reason why a text is no URL. Its inside is not visible here.
#[verifier::external_type_specification]
#[verifier::external_body]
pub struct ExParseError(url::ParseError);

/// All settings of the service.
#[derive(Debug, Clone, PartialEq, Eq)]
pub struct Settings {
    pub server: ServerSettings,
    pub metrics: MetricsSettings,
    pub tracing: TracingSettings,
    pub jaeger: JaegerSettings,
    pub database: DatabaseSettings,
    /// An optional read-only replica. If there is one, all search queries go to it.
    pub replica_database: Option<DatabaseSettings>,
    pub service: ServiceSettings,
}

/// The settings of the service proper.
#[derive(Debug, Clone, PartialEq, Eq)]
pub struct ServiceSettings {
    pub dapp_client: DappClientSettings,
    pub token_info_client: TokenInfoClientSettings,
    pub api: ApiSettings,
    /// The chains used for quick search, ordered by priority.
    pub quick_search_chains: Vec<i64>,
    pub fetch_chains: bool,
}

/// The settings of the API.
#[derive(Debug, Clone, Copy, PartialEq, Eq)]
pub struct ApiSettings {
    pub default_page_size: u32,
    pub max_page_size: u32,
}

/// The settings of the client for dapps.
#[derive(Debug, PartialEq, Eq)]
pub struct DappClientSettings {
    pub url: Url,
}

/// The settings of the client for token info.
#[derive(Debug, PartialEq, Eq)]
pub struct TokenInfoClientSettings {
    pub url: Url,
}

/// What `url::Url::parse` makes of a text.
pub uninterp spec fn parsed_url(text: Seq<char>) -> Result<Url, ParseError>;

/// Whether a text is `http://localhost:` with one to four decimal digits behind it.
pub open spec fn is_localhost_url(text: Seq<char>) -> bool {
    let head = "http://localhost:"@;
    &&& head.is_prefix_of(text)
    &&& head.len() < text.len() <= head.len() + 4
    &&& forall|i: int| head.len() <= i < text.len() ==> '0' <= #[trigger] text[i] <= '9'
}

/// Calls `url::Url::parse`. Claimed of it: the result depends on the text alone, and a text that is
/// `http://localhost:` with one to four decimal digits behind it is accepted, the digits being a
/// port.
#[verifier::external_body]
fn parse_url(text: &str) -> (r: Result<Url, ParseError>)
    ensures
        r == parsed_url(text@),
        is_localhost_url(text@) ==> r is Ok,
{
    Url::parse(text)
}

/// Calls `url::Url::clone`. Claimed of it: the copy is the same URL.
#[verifier::external_body]
fn clone_url(url: &Url) -> (copy: Url)
    ensures
        copy == *url,
{
    url.clone()
}

impl Clone for DappClientSettings {
    fn clone(&self) -> (copy: DappClientSettings)
        ensures
            copy == *self,
    {
        DappClientSettings { url: clone_url(&self.url) }
    }
}

impl Clone for TokenInfoClientSettings {
    fn clone(&self) -> (copy: TokenInfoClientSettings)
        ensures
            copy == *self,
    {
        TokenInfoClientSettings { url: clone_url(&self.url) }
    }
}

/// The default of the largest page size.
pub fn default_max_page_size() -> (size: u32)
    ensures
        size == 100,
{
    100
}

/// The default of the page size.
pub fn default_default_page_size() -> (size: u32)
    ensures
        size == 50,
{
    50
}

/// The chains used for quick search by default, ordered by priority.
pub open spec fn quick_search_chains() -> Seq<i64> {
    seq![1, 8453, 57073, 698, 109, 7777777, 100, 10, 42161, 690, 534352]
}

/// The chains used for quick search by default.
pub fn default_quick_search_chains() -> (chains: Vec<i64>)
    ensures
        chains@ == quick_search_chains(),
{
    let chains: Vec<i64> = vec![
        1, 8453, 57073, 698, 109, 7777777, 100, 10, 42161, 690, 534352,
    ];
    assert(chains@ =~= quick_search_chains());
    chains
}

impl ApiSettings {
    /// The default settings of the API.
    pub open spec fn defaults() -> ApiSettings {
        ApiSettings { default_page_size: 50, max_page_size: 100 }
    }
}

impl Default for ApiSettings {
    fn default() -> (settings: ApiSettings)
        ensures
            settings == ApiSettings::defaults(),
    {
        ApiSettings {
            default_page_size: default_default_page_size(),
            max_page_size: default_max_page_size(),
        }
    }
}

impl Settings {
    /// The default settings, with the primary database at the given URL.
    pub fn default(database_url: String) -> (settings: Settings)
        ensures
            settings.server.is_default(),
            settings.metrics.is_default(),
            settings.tracing.is_default(),
            settings.jaeger.is_default(),
            settings.database.connect == DatabaseConnectSettings::Url(database_url),
            settings.database.connect_options == DatabaseConnectOptionsSettings::defaults(),
            !settings.database.create_database,
            !settings.database.run_migrations,
            settings.replica_database is None,
            parsed_url(DEFAULT_DAPP_URL@) == Ok::<Url, ParseError>(
                settings.service.dapp_client.url,
            ),
            parsed_url(DEFAULT_TOKEN_INFO_URL@) == Ok::<Url, ParseError>(
                settings.service.token_info_client.url,
            ),
            settings.service.api == ApiSettings::defaults(),
            settings.service.quick_search_chains@ == quick_search_chains(),
            !settings.service.fetch_chains,
    {
        proof {
            reveal_strlit("http://localhost:");
            reveal_strlit("http://localhost:8050");
            reveal_strlit("http://localhost:8051");
            assert(is_localhost_url(DEFAULT_DAPP_URL@));
            assert(is_localhost_url(DEFAULT_TOKEN_INFO_URL@));
        }
        Settings {
            server: server_settings::default_server(),
            metrics: server_settings::default_metrics(),
            tracing: server_settings::default_tracing(),
            jaeger: server_settings::default_jaeger(),
            database: DatabaseSettings {
                connect: DatabaseConnectSettings::Url(database_url),
                connect_options: DatabaseConnectOptionsSettings::default(),
                create_database: false,
                run_migrations: false,
            },
            replica_database: None,
            service: ServiceSettings {
                dapp_client: DappClientSettings { url: parse_url(DEFAULT_DAPP_URL).unwrap() },
                token_info_client: TokenInfoClientSettings {
                    url: parse_url(DEFAULT_TOKEN_INFO_URL).unwrap(),
                },
                api: ApiSettings {
                    default_page_size: default_default_page_size(),
                    max_page_size: default_max_page_size(),
                },
                quick_search_chains: default_quick_search_chains(),
                fetch_chains: false,
            },
        }
    }
}

/// A page has half of the largest size by default, which is a hundred, and no chain is searched
/// twice.
pub proof fn law_default_page_is_half_the_largest()
    ensures
        ApiSettings::defaults().max_page_size == 100,
        ApiSettings::defaults().default_page_size * 2 == ApiSettings::defaults().max_page_size,
        quick_search_chains() == seq![
            1i64,
            8453,
            57073,
            698,
            109,
            7777777,
            100,
            10,
            42161,
            690,
            534352,
        ],
        quick_search_chains().no_duplicates(),
{
}

} // verus!
