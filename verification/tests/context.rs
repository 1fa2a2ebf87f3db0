use valiforge::config::{Config, ReportingConfig, ResolvedConfig, SchemaConfig, TargetConfig};
use valiforge::types::{FailCondition, ValidationContext};

#[test]
fn default_context_targets_localhost() {
    let ctx = ValidationContext::default();
    assert_eq!(ctx.target_url, "http://localhost:3000/");
    assert!(ctx.headers.is_empty());
    assert_eq!(ctx.timeout, std::time::Duration::from_secs(10));
    assert_eq!(ctx.max_concurrency, 8);
    assert_eq!(ctx.retry_count, 1);
    assert_eq!(ctx.fail_on, vec![FailCondition::SchemaViolations]);
}

#[test]
fn context_for_a_target_url() {
    let ctx = ValidationContext::with_target("http://Example.test:8080").unwrap();
    assert_eq!(ctx.target_url, "http://example.test:8080/");
    assert_eq!(ctx.retry_count, 1);
    assert_eq!(ctx.timeout, std::time::Duration::from_secs(10));
    assert!(ValidationContext::with_target("not a url").is_none());
}

#[test]
fn config_resolves_schema_path_and_target() {
    let c = Config {
        schema: Some(SchemaConfig { path: Some(std::path::PathBuf::from("api/openapi.yaml")), format: None }),
        target: Some(TargetConfig {
            base_url: Some("http://example.test".to_string()),
            timeout: Some("5s".to_string()),
        }),
        validation: None,
        reporting: Some(ReportingConfig { formats: Some(vec!["junit".to_string()]) }),
    };
    let r = c.resolve();
    assert_eq!(r.schema_path, Some(std::path::PathBuf::from("api/openapi.yaml")));
    assert_eq!(r.target_url.as_deref(), Some("http://example.test"));
}

#[test]
fn config_without_tables_resolves_to_nothing() {
    let r = Config::default().resolve();
    assert_eq!(r.schema_path, None);
    assert_eq!(r.target_url, None);
    let c = Config {
        schema: Some(SchemaConfig { path: None, format: Some("yaml".to_string()) }),
        target: Some(TargetConfig { base_url: None, timeout: None }),
        validation: None,
        reporting: None,
    };
    let r = c.resolve();
    assert_eq!(r.schema_path, None);
    assert_eq!(r.target_url, None);
    let u = ResolvedConfig::unset();
    assert_eq!(u.schema_path, None);
    assert_eq!(u.target_url, None);
}
