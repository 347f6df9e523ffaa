//! The settings of the servers, of metrics and of tracing, with the defaults of the service
//! launcher.
use blockscout_service_launcher as launcher;
use vstd::prelude::*;

verus! {

/// The settings of the HTTP and GRPC servers.
#[derive(Debug, Clone, PartialEq, Eq)]
pub struct ServerSettings {
    pub http: HttpServerSettings,
    pub grpc: GrpcServerSettings,
}

/// The settings of the HTTP server.
#[derive(Debug, Clone, PartialEq, Eq)]
pub struct HttpServerSettings {
    pub enabled: bool,
    pub addr: String,
    pub max_body_size: usize,
    pub cors: CorsSettings,
}

/// The settings of cross-origin requests.
#[derive(Debug, Clone, PartialEq, Eq)]
pub struct CorsSettings {
    pub enabled: bool,
    pub allowed_origin: String,
    pub allowed_methods: String,
    pub allowed_credentials: bool,
    pub max_age: usize,
    pub block_on_origin_mismatch: bool,
    pub send_wildcard: bool,
}

/// The settings of the GRPC server.
#[derive(Debug, Clone, PartialEq, Eq)]
pub struct GrpcServerSettings {
    pub enabled: bool,
    pub addr: String,
}

/// The settings of the metrics.
#[derive(Debug, Clone, PartialEq, Eq)]
pub struct MetricsSettings {
    pub enabled: bool,
    pub addr: String,
    pub route: String,
}

/// The format of a trace.
#[derive(Debug, Clone, Copy, PartialEq, Eq)]
pub enum TracingFormat {
    Default,
    Json,
}

/// The settings of tracing.
#[derive(Debug, Clone, Copy, PartialEq, Eq)]
pub struct TracingSettings {
    pub enabled: bool,
    pub format: TracingFormat,
}

/// The settings of the Jaeger agent.
#[derive(Debug, Clone, PartialEq, Eq)]
pub struct JaegerSettings {
    pub enabled: bool,
    pub agent_endpoint: String,
}

impl CorsSettings {
    /// Whether these are the default settings: cross-origin requests are off.
    pub open spec fn is_default(self) -> bool {
        &&& !self.enabled
        &&& self.allowed_origin@ == ""@
        &&& self.allowed_methods@ == "PUT, GET, POST, OPTIONS, DELETE, PATCH"@
        &&& self.allowed_credentials
        &&& self.max_age == 3600
        &&& !self.block_on_origin_mismatch
        &&& !self.send_wildcard
    }
}

impl ServerSettings {
    /// Whether these are the default settings: the HTTP server is on and the GRPC server off.
    pub open spec fn is_default(self) -> bool {
        &&& self.http.enabled
        &&& self.http.addr@ == "0.0.0.0:8050"@
        &&& self.http.max_body_size == 2 * 1024 * 1024
        &&& self.http.cors.is_default()
        &&& !self.grpc.enabled
        &&& self.grpc.addr@ == "0.0.0.0:8051"@
    }
}

impl MetricsSettings {
    /// Whether these are the default settings: metrics are off.
    pub open spec fn is_default(self) -> bool {
        &&& !self.enabled
        &&& self.addr@ == "0.0.0.0:6060"@
        &&& self.route@ == "/metrics"@
    }
}

impl TracingSettings {
    /// Whether these are the default settings: tracing is on, in the default format.
    pub open spec fn is_default(self) -> bool {
        self.enabled && self.format is Default
    }
}

impl JaegerSettings {
    /// Whether these are the default settings: the agent is not used.
    pub open spec fn is_default(self) -> bool {
        !self.enabled && self.agent_endpoint@ == "127.0.0.1:6831"@
    }
}

/// Calls `blockscout_service_launcher::launcher::ServerSettings::default` and copies its fields,
/// addresses as text. Claimed of it: the values that [`ServerSettings::is_default`] lists.
#[verifier::external_body]
pub(crate) fn default_server() -> (settings: ServerSettings)
    ensures
        settings.is_default(),
{
    let launcher::launcher::ServerSettings { http, grpc } = Default::default();
    let cors = CorsSettings {
        enabled: http.cors.enabled,
        allowed_origin: http.cors.allowed_origin,
        allowed_methods: http.cors.allowed_methods,
        allowed_credentials: http.cors.allowed_credentials,
        max_age: http.cors.max_age,
        block_on_origin_mismatch: http.cors.block_on_origin_mismatch,
        send_wildcard: http.cors.send_wildcard,
    };
    let (enabled, addr, max_body_size) = (http.enabled, http.addr.to_string(), http.max_body_size);
    let grpc = GrpcServerSettings { enabled: grpc.enabled, addr: grpc.addr.to_string() };
    ServerSettings { http: HttpServerSettings { enabled, addr, max_body_size, cors }, grpc }
}

/// Calls `blockscout_service_launcher::launcher::MetricsSettings::default` and copies its fields,
/// the address as text. Claimed of it: the values that [`MetricsSettings::is_default`] lists.
#[verifier::external_body]
pub(crate) fn default_metrics() -> (settings: MetricsSettings)
    ensures
        settings.is_default(),
{
    let metrics = launcher::launcher::MetricsSettings::default();
    MetricsSettings {
        enabled: metrics.enabled,
        addr: metrics.addr.to_string(),
        route: metrics.route,
    }
}

/// Calls `blockscout_service_launcher::tracing::TracingSettings::default` and copies its fields.
/// Claimed of it: the values that [`TracingSettings::is_default`] lists.
#[verifier::external_body]
pub(crate) fn default_tracing() -> (settings: TracingSettings)
    ensures
        settings.is_default(),
{
    let tracing = launcher::tracing::TracingSettings::default();
    let format = match tracing.format {
        launcher::tracing::TracingFormat::Default => TracingFormat::Default,
        launcher::tracing::TracingFormat::Json => TracingFormat::Json,
    };
    TracingSettings { enabled: tracing.enabled, format }
}

/// Calls `blockscout_service_launcher::tracing::JaegerSettings::default` and copies its fields.
/// Claimed of it: the values that [`JaegerSettings::is_default`] lists.
#[verifier::external_body]
pub(crate) fn default_jaeger() -> (settings: JaegerSettings)
    ensures
        settings.is_default(),
{
    let jaeger = launcher::tracing::JaegerSettings::default();
    JaegerSettings { enabled: jaeger.enabled, agent_endpoint: jaeger.agent_endpoint }
}

/// By default the HTTP server listens on its port, open to any address, with bodies of two megabytes
/// at most and without cross-origin requests, and the GRPC server is off.
pub proof fn law_default_servers(settings: ServerSettings)
    requires
        settings.is_default(),
    ensures
        settings.http.enabled,
        settings.http.addr@ == "0.0.0.0:8050"@,
        settings.http.max_body_size == 2097152,
        !settings.http.cors.enabled,
        settings.http.cors.allowed_origin@ == ""@,
        settings.http.cors.allowed_methods@ == "PUT, GET, POST, OPTIONS, DELETE, PATCH"@,
        settings.http.cors.allowed_credentials,
        settings.http.cors.max_age == 3600,
        !settings.http.cors.block_on_origin_mismatch,
        !settings.http.cors.send_wildcard,
        !settings.grpc.enabled,
        settings.grpc.addr@ == "0.0.0.0:8051"@,
{
}

/// By default metrics and the Jaeger agent are off, and traces are written in the default format.
pub proof fn law_default_telemetry(
    metrics: MetricsSettings,
    tracing: TracingSettings,
    jaeger: JaegerSettings,
)
    requires
        metrics.is_default(),
        tracing.is_default(),
        jaeger.is_default(),
    ensures
        !metrics.enabled,
        metrics.addr@ == "0.0.0.0:6060"@,
        metrics.route@ == "/metrics"@,
        tracing.enabled,
        tracing.format is Default,
        !jaeger.enabled,
        jaeger.agent_endpoint@ == "127.0.0.1:6831"@,
{
}

} // verus!
