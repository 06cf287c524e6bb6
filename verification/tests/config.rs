use rust_journey::config::{validate_required_env, AppConfig, ConfigError, EnvVarError};

fn present(value: &str) -> Result<String, EnvVarError> {
    Ok(value.to_string())
}

fn sample_config() -> AppConfig {
    AppConfig::from_env(
        present(" sk-test-key "),
        present("https://api.openai.com/v1/images/generations"),
        present("gpt-image-2"),
        present("1024x1536\n"),
        present("\thigh"),
    )
    .expect("all variables are set")
}

#[test]
fn required_env_rejects_empty_values() {
    let name = "GENERATE_IMAGE_TEST_REQUIRED";
    assert!(matches!(
        validate_required_env(name, Ok("  ".into())),
        Err(ConfigError::Empty { name: error_name }) if error_name == name
    ));
}

#[test]
fn required_env_trims_values() {
    let name = "GENERATE_IMAGE_TEST_REQUIRED";
    assert_eq!(
        validate_required_env(name, Ok(" value ".into())).expect("value should be present"),
        "value"
    );
}

#[test]
fn required_env_rejects_missing_values() {
    let name = "GENERATE_IMAGE_TEST_REQUIRED";
    assert!(matches!(
        validate_required_env(name, Err(EnvVarError::NotPresent)),
        Err(ConfigError::Missing { name: error_name }) if error_name == name
    ));
}

#[test]
fn required_env_rejects_values_that_are_not_unicode() {
    assert_eq!(
        validate_required_env("IMAGE_SIZE", Err(EnvVarError::NotUnicode)).unwrap_err(),
        ConfigError::NotUnicode { name: "IMAGE_SIZE" }
    );
}

#[test]
fn required_env_trims_unicode_whitespace() {
    assert_eq!(
        validate_required_env("IMAGE_MODEL", Ok("\u{3000}\u{a0}gpt-image-2\u{2028}".into())).unwrap(),
        "gpt-image-2"
    );
    assert_eq!(
        validate_required_env("IMAGE_MODEL", Ok("\u{3000}\u{85}\r\n".into())).unwrap_err(),
        ConfigError::Empty { name: "IMAGE_MODEL" }
    );
}

#[test]
fn config_keeps_trimmed_values() {
    let config = sample_config();
    assert_eq!(config.api_key(), "sk-test-key");
    assert_eq!(config.endpoint(), "https://api.openai.com/v1/images/generations");
    assert_eq!(config.model(), "gpt-image-2");
    assert_eq!(config.size(), "1024x1536");
    assert_eq!(config.quality(), "high");
}

#[test]
fn config_reports_the_first_unusable_variable() {
    let error = AppConfig::from_env(
        present("key"),
        Err(EnvVarError::NotPresent),
        present(" "),
        present("1024x1024"),
        present("low"),
    )
    .err()
    .expect("a variable is unusable");
    assert_eq!(error, ConfigError::Missing { name: "IMAGE_API_ENDPOINT" });

    let error = AppConfig::from_env(
        present("key"),
        present("https://example.com"),
        present(" "),
        Err(EnvVarError::NotUnicode),
        present("low"),
    )
    .err()
    .expect("a variable is unusable");
    assert_eq!(error, ConfigError::Empty { name: "IMAGE_MODEL" });

    let error = AppConfig::from_env(
        present("key"),
        present("https://example.com"),
        present("gpt-image-2"),
        present("1024x1024"),
        Err(EnvVarError::NotPresent),
    )
    .err()
    .expect("a variable is unusable");
    assert_eq!(error.name(), "IMAGE_QUALITY");
}

#[test]
fn debug_text_redacts_the_api_key() {
    let config = sample_config();
    let text = config.redacted_debug();
    assert_eq!(
        text,
        "AppConfig { api_key: \"[REDACTED]\", endpoint: \"https://api.openai.com/v1/images/generations\", model: \"gpt-image-2\", size: \"1024x1536\", quality: \"high\" }"
    );
    assert!(!text.contains("sk-test-key"));
}

#[test]
fn debug_text_escapes_values() {
    let config = AppConfig::from_env(
        present("k"),
        present("a\"b"),
        present("m"),
        present("s"),
        present("q"),
    )
    .unwrap();
    assert!(config.redacted_debug().contains("endpoint: \"a\\\"b\""));
}

#[test]
fn config_error_messages_name_the_variable() {
    assert_eq!(ConfigError::Missing { name: "API_KEY" }.message(), "环境变量 API_KEY 未配置");
    assert_eq!(ConfigError::Empty { name: "API_KEY" }.message(), "环境变量 API_KEY 不能为空");
    assert_eq!(
        ConfigError::NotUnicode { name: "API_KEY" }.message(),
        "环境变量 API_KEY 不是有效的 UTF-8"
    );
}
