use blockscout_services::database_settings::{
    DatabaseConnectOptionsSettings, DatabaseConnectSettings, LevelFilter,
};
use blockscout_services::server_settings::TracingFormat;
use blockscout_services::settings::{
    default_default_page_size, default_max_page_size, default_quick_search_chains, ApiSettings,
    Settings, SERVICE_NAME,
};

#[test]
fn page_sizes_by_default() {
    assert_eq!(default_default_page_size(), 50);
    assert_eq!(default_max_page_size(), 100);
    let api = ApiSettings::default();
    assert_eq!(api.default_page_size, 50);
    assert_eq!(api.max_page_size, 100);
    assert!(api.default_page_size <= api.max_page_size);
}

#[test]
fn quick_search_chains_by_default() {
    assert_eq!(
        default_quick_search_chains(),
        vec![1, 8453, 57073, 698, 109, 7777777, 100, 10, 42161, 690, 534352]
    );
}

#[test]
fn settings_by_default_carry_the_database_url() {
    let settings = Settings::default("postgres://db/x".to_string());
    assert_eq!(
        settings.database.connect,
        DatabaseConnectSettings::Url("postgres://db/x".to_string())
    );
    assert!(!settings.database.create_database);
    assert!(!settings.database.run_migrations);
    assert!(settings.replica_database.is_none());
}

#[test]
fn connect_options_by_default() {
    let options = Settings::default(String::new()).database.connect_options;
    assert_eq!(options, DatabaseConnectOptionsSettings::default());
    assert_eq!(options.max_connections, None);
    assert_eq!(options.max_lifetime, None);
    assert!(options.sqlx_logging);
    assert_eq!(options.sqlx_logging_level, LevelFilter::Debug);
    assert_eq!(options.sqlx_slow_statements_logging_level, LevelFilter::Off);
    assert_eq!(options.sqlx_slow_statements_logging_threshold, 1);
}

#[test]
fn service_settings_by_default() {
    let service = Settings::default(String::new()).service;
    assert_eq!(service.dapp_client.url.as_str(), "http://localhost:8050/");
    assert_eq!(service.dapp_client.url.port(), Some(8050));
    assert_eq!(service.token_info_client.url.as_str(), "http://localhost:8051/");
    assert_eq!(service.api, ApiSettings::default());
    assert_eq!(service.quick_search_chains, default_quick_search_chains());
    assert!(!service.fetch_chains);
}

#[test]
fn server_settings_by_default() {
    let server = Settings::default(String::new()).server;
    assert!(server.http.enabled);
    assert_eq!(server.http.addr, "0.0.0.0:8050");
    assert_eq!(server.http.max_body_size, 2097152);
    assert!(!server.http.cors.enabled);
    assert_eq!(server.http.cors.allowed_origin, "");
    assert_eq!(
        server.http.cors.allowed_methods,
        "PUT, GET, POST, OPTIONS, DELETE, PATCH"
    );
    assert!(server.http.cors.allowed_credentials);
    assert_eq!(server.http.cors.max_age, 3600);
    assert!(!server.http.cors.block_on_origin_mismatch);
    assert!(!server.http.cors.send_wildcard);
    assert!(!server.grpc.enabled);
    assert_eq!(server.grpc.addr, "0.0.0.0:8051");
}

#[test]
fn metrics_and_tracing_by_default() {
    let settings = Settings::default(String::new());
    assert!(!settings.metrics.enabled);
    assert_eq!(settings.metrics.addr, "0.0.0.0:6060");
    assert_eq!(settings.metrics.route, "/metrics");
    assert!(settings.tracing.enabled);
    assert_eq!(settings.tracing.format, TracingFormat::Default);
    assert!(!settings.jaeger.enabled);
    assert_eq!(settings.jaeger.agent_endpoint, "127.0.0.1:6831");
}

#[test]
fn settings_can_be_cloned_and_compared() {
    let settings = Settings::default("a".to_string());
    assert_eq!(settings.clone(), settings);
    assert_ne!(settings, Settings::default("b".to_string()));
    assert_eq!(SERVICE_NAME, "MULTICHAIN_AGGREGATOR");
}
