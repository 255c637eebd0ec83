use enma::cli::Options;
use enma::configuration::{
    default_server_config, vault_settings, Config, NewrelicConfig, ServerConfig, SettingsError,
};
use enma::log::log_settings;

#[test]
fn default_server_configuration() {
    let config = default_server_config();
    assert_eq!(*config.get_port(), 8080);
    assert_eq!(*config.get_buffer(), 10);
    assert_eq!(*config.get_concurrency_limit(), 5);
    assert_eq!(*config.get_rate_limit(), 5);
    assert_eq!(*config.get_limiter_timeout(), 10_000);
    assert_eq!(*config.get_timeout(), 10_000);
    assert!(!*config.get_metrics());
}

#[test]
fn server_configuration_on_one_line() {
    assert_eq!(
        default_server_config().to_string(),
        "buffer: 10 | concurrency limit: 5 | rate limit: 5 | limiter timeout: 10s | timeout: 10s"
    );
    let config = ServerConfig::new(1, 1024, 64, 1000, 1500, 999, true).unwrap();
    assert_eq!(
        config.to_string(),
        "buffer: 1024 | concurrency limit: 64 | rate limit: 1000 | limiter timeout: 1s | timeout: 0s"
    );
}

#[test]
fn positive_limits_are_accepted() {
    let config = ServerConfig::new(9000, 1, 2, 3, 4, 5, true).unwrap();
    assert_eq!(*config.get_port(), 9000);
    assert_eq!(*config.get_buffer(), 1);
    assert_eq!(*config.get_concurrency_limit(), 2);
    assert_eq!(*config.get_rate_limit(), 3);
    assert_eq!(*config.get_limiter_timeout(), 4);
    assert_eq!(*config.get_timeout(), 5);
    assert!(*config.get_metrics());
}

#[test]
fn port_zero_is_accepted() {
    assert!(ServerConfig::new(0, 1, 1, 1, 1, 1, false).is_some());
}

#[test]
fn a_zero_limit_is_refused() {
    assert!(ServerConfig::new(80, 0, 1, 1, 1, 1, false).is_none());
    assert!(ServerConfig::new(80, 1, 0, 1, 1, 1, false).is_none());
    assert!(ServerConfig::new(80, 1, 1, 0, 1, 1, false).is_none());
    assert!(ServerConfig::new(80, 1, 1, 1, 0, 1, false).is_none());
    assert!(ServerConfig::new(80, 1, 1, 1, 1, 0, false).is_none());
}

#[test]
fn credentials_are_kept() {
    let config = NewrelicConfig::new(String::from("key"), 31);
    assert_eq!(config.get_api_key(), "key");
    assert_eq!(config.get_account_id(), 31);
}

#[test]
fn missing_server_section_gets_the_defaults() {
    let config = Config::new(NewrelicConfig::new(String::from("key"), 1), None);
    assert_eq!(*config.server.get_port(), 8080);
    assert_eq!(*config.server.get_buffer(), 10);
    assert_eq!(config.newrelic.get_api_key(), "key");
    let given = ServerConfig::new(1, 2, 3, 4, 5, 6, true);
    let config = Config::new(NewrelicConfig::new(String::from("key"), 1), given);
    assert_eq!(*config.server.get_port(), 1);
    assert_eq!(*config.server.get_timeout(), 6);
}

#[test]
fn options_default_to_the_configuration_directory() {
    let options = Options::new(None, None);
    assert_eq!(options.get_config_path(), "configuration/enma.yaml");
    assert_eq!(options.get_log_config_path(), "configuration/log4rs.yaml");
}

#[test]
fn options_keep_what_is_given() {
    let options = Options::new(Some(String::from("/etc/enma.yaml")), None);
    assert_eq!(options.get_config_path(), "/etc/enma.yaml");
    assert_eq!(options.get_log_config_path(), "configuration/log4rs.yaml");
    let options = Options::new(None, Some(String::from("log.yaml")));
    assert_eq!(options.get_config_path(), "configuration/enma.yaml");
    assert_eq!(options.get_log_config_path(), "log.yaml");
}

fn text(value: &str) -> Option<String> {
    Some(String::from(value))
}

#[test]
fn vault_settings_default_to_the_local_store() {
    let settings = vault_settings(None, None, None, None, text("s.token")).unwrap();
    assert_eq!(settings.protocol, "http");
    assert_eq!(settings.address, "127.0.0.1");
    assert_eq!(settings.port, 8200);
    assert_eq!(settings.path, "secret/config/enma");
    assert_eq!(settings.token, "s.token");
}

#[test]
fn vault_settings_keep_what_is_given() {
    let settings = vault_settings(
        text("https"),
        text("vault.internal"),
        text("443"),
        text("secret/other"),
        text("s.token"),
    )
    .unwrap();
    assert_eq!(settings.protocol, "https");
    assert_eq!(settings.address, "vault.internal");
    assert_eq!(settings.port, 443);
    assert_eq!(settings.path, "secret/other");
}

#[test]
fn vault_settings_need_a_token() {
    match vault_settings(None, None, None, None, None) {
        Err(fault) => assert_eq!(fault, SettingsError::MissingToken),
        Ok(settings) => panic!("{:?}", settings),
    }
}

#[test]
fn vault_settings_need_a_port_number() {
    match vault_settings(None, None, text("eighty"), None, text("s.token")) {
        Err(fault) => assert_eq!(fault, SettingsError::BadPort),
        Ok(settings) => panic!("{:?}", settings),
    }
    // a bad port is reported even where the token is missing too
    match vault_settings(None, None, text("70000"), None, None) {
        Err(fault) => assert_eq!(fault, SettingsError::BadPort),
        Ok(settings) => panic!("{:?}", settings),
    }
}

#[test]
fn log_defaults_to_info_without_colour() {
    let settings = log_settings(None, None).unwrap();
    assert_eq!(settings.filter, "info");
    assert!(!settings.ansi);
}

#[test]
fn log_takes_the_filter_and_the_colour_given() {
    let settings = log_settings(text("enma=debug"), text("true")).unwrap();
    assert_eq!(settings.filter, "enma=debug");
    assert!(settings.ansi);
    let settings = log_settings(None, text("false")).unwrap();
    assert!(!settings.ansi);
}

#[test]
fn log_colour_must_be_true_or_false() {
    assert!(log_settings(None, text("yes")).is_none());
    assert!(log_settings(None, text("True")).is_none());
    assert!(log_settings(None, text("")).is_none());
    assert!(log_settings(None, text("1")).is_none());
}
