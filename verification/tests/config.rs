use capsa::config::{Config, EMBEDDING_CONTEXT};
use capsa::executor::Executor;
use secrecy::{ExposeSecret, SecretString};

#[test]
fn test_config_debug_redacts_api_key() {
    let config_with_key = Config::new(
        "http://localhost:9000".to_string(),
        "test-model".to_string(),
        "./test.db".to_string(),
        Some(SecretString::from("super-secret-api-key-12345")),
    );

    let debug_output = format!("{:?}", config_with_key);

    assert!(debug_output.contains("[REDACTED]"));
    assert!(!debug_output.contains("super-secret-api-key-12345"));
    assert!(debug_output.contains("http://localhost:9000"));
    assert!(debug_output.contains("test-model"));
    assert!(debug_output.contains("./test.db"));
}

#[test]
fn test_config_debug_without_api_key() {
    let config_without_key: Config<SecretString> = Config::new(
        "http://localhost:9000".to_string(),
        "test-model".to_string(),
        "./test.db".to_string(),
        None,
    );

    let debug_output = format!("{:?}", config_without_key);

    assert!(!debug_output.contains("[REDACTED]"));
    assert!(debug_output.contains("None"));
    assert!(debug_output.contains("http://localhost:9000"));
    assert!(debug_output.contains("test-model"));
    assert!(debug_output.contains("./test.db"));
}

#[test]
fn test_config_clone() {
    let original = Config::new(
        "http://localhost:9000".to_string(),
        "test-model".to_string(),
        "./test.db".to_string(),
        Some(SecretString::from("api-key")),
    );

    let cloned = original.clone();

    assert_eq!(original.base_url, cloned.base_url);
    assert_eq!(original.model, cloned.model);
    assert_eq!(original.db_path, cloned.db_path);
    assert_eq!(
        original.api_key.as_ref().map(|s| s.expose_secret()),
        cloned.api_key.as_ref().map(|s| s.expose_secret())
    );
}

#[test]
fn config_runs_on_the_calling_thread_unless_told_otherwise() {
    let config: Config<SecretString> =
        Config::new("u".to_string(), "m".to_string(), "d".to_string(), None);
    assert!(!config.executor.offloads());
    let config = config.with_executor(Executor::parallel());
    assert!(config.executor.offloads());
    assert_eq!(config.base_url, "u");
    assert_eq!(config.model, "m");
    assert_eq!(config.db_path, "d");
    assert_eq!(EMBEDDING_CONTEXT, 128);
}

#[test]
fn par_map_keeps_the_order() {
    let items: Vec<u64> = (0..1000).collect();
    let expected: Vec<String> = items.iter().map(|n| format!("<{}>", n)).collect();
    assert_eq!(Executor::sequential().par_map(items.clone(), |n| format!("<{}>", n)), expected);
    assert_eq!(Executor::parallel().par_map(items, |n| format!("<{}>", n)), expected);
    assert!(!Executor::default().offloads());
}
