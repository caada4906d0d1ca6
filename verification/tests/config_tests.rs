use tyl_tracing::config::{parse_usize, RATE_SCALE_PPM};
use tyl_tracing::{Environment, TraceConfig, TracingError};

#[test]
fn test_trace_config_builder() {
    let config = TraceConfig::new("test-service")
        .with_environment(Environment::Production)
        .with_sampling_rate(500000)
        .with_max_spans(500);

    assert_eq!(config.service_name, "test-service");
    assert_eq!(config.environment, Environment::Production);
    assert_eq!(config.sampling_rate_ppm, 500000);
    assert_eq!(config.max_spans, 500);
}

#[test]
fn test_sampling_rate_clamped_to_one() {
    let config = TraceConfig::new("clamp-service").with_sampling_rate(2500000);
    assert_eq!(config.sampling_rate_ppm, RATE_SCALE_PPM);
}

#[test]
fn test_validate_accepts_default_config() {
    let config = TraceConfig::new("ok-service");
    assert!(config.validate().is_ok());
}

#[test]
fn test_validate_rejects_empty_service_name() {
    let config = TraceConfig::new("");
    let err = config.validate().unwrap_err();
    match err {
        TracingError::Configuration { message } => {
            assert_eq!(message, "service_name cannot be empty")
        }
        _ => panic!("expected a configuration error"),
    }
}

#[test]
fn test_validate_rejects_zero_max_spans() {
    let config = TraceConfig::new("zero-service").with_max_spans(0);
    let err = config.validate().unwrap_err();
    match err {
        TracingError::Configuration { message } => {
            assert_eq!(message, "max_spans must be greater than 0")
        }
        _ => panic!("expected a configuration error"),
    }
}

#[test]
fn test_parse_usize_accepts_plain_numerals() {
    assert_eq!(parse_usize("0"), Some(0));
    assert_eq!(parse_usize("500"), Some(500));
    assert_eq!(parse_usize("+42"), Some(42));
    assert_eq!(parse_usize("18446744073709551615"), Some(usize::MAX));
}

#[test]
fn test_parse_usize_rejects_malformed_numerals() {
    assert_eq!(parse_usize(""), None);
    assert_eq!(parse_usize("12a"), None);
    assert_eq!(parse_usize("-3"), None);
    assert_eq!(parse_usize(" 7"), None);
    assert_eq!(parse_usize("+"), None);
    assert_eq!(parse_usize("++2"), None);
    assert_eq!(parse_usize("18446744073709551616"), None);
}

#[test]
fn test_environment_from_name() {
    assert_eq!(
        Environment::from_name("development"),
        Some(Environment::Development)
    );
    assert_eq!(Environment::from_name("dev"), Some(Environment::Development));
    assert_eq!(
        Environment::from_name("production"),
        Some(Environment::Production)
    );
    assert_eq!(Environment::from_name("prod"), Some(Environment::Production));
    assert_eq!(Environment::from_name("test"), Some(Environment::Testing));
    assert_eq!(Environment::from_name("testing"), Some(Environment::Testing));
    assert_eq!(Environment::from_name("staging"), None);
}

#[test]
fn test_environment_from_name_lenient_defaults_to_development() {
    assert_eq!(
        Environment::from_name_lenient("prod"),
        Environment::Production
    );
    assert_eq!(
        Environment::from_name_lenient("testing"),
        Environment::Testing
    );
    assert_eq!(
        Environment::from_name_lenient("anything-else"),
        Environment::Development
    );
}

#[test]
fn test_merge_values_applies_each_field() {
    let mut config = TraceConfig::new("before");
    let result = config.merge_values(
        Some("after".to_string()),
        Some(250000),
        Some("75".to_string()),
        Some("production".to_string()),
    );
    assert!(result.is_ok());
    assert_eq!(config.service_name, "after");
    assert_eq!(config.sampling_rate_ppm, 250000);
    assert_eq!(config.max_spans, 75);
    assert_eq!(config.environment, Environment::Production);
}

#[test]
fn test_merge_values_without_values_changes_nothing() {
    let mut config = TraceConfig::new("steady");
    let result = config.merge_values(None, None, None, None);
    assert!(result.is_ok());
    assert_eq!(config.service_name, "steady");
    assert_eq!(config.sampling_rate_ppm, RATE_SCALE_PPM);
    assert_eq!(config.max_spans, 1000);
    assert_eq!(config.environment, Environment::Development);
}

#[test]
fn test_merge_values_rejects_bad_max_spans() {
    let mut config = TraceConfig::new("svc");
    let err = config
        .merge_values(
            Some("renamed".to_string()),
            None,
            Some("many".to_string()),
            Some("production".to_string()),
        )
        .unwrap_err();
    match err {
        TracingError::Configuration { message } => {
            assert_eq!(message, "invalid max spans: many")
        }
        _ => panic!("expected a configuration error"),
    }
    // the earlier fields merged, the later ones did not
    assert_eq!(config.service_name, "renamed");
    assert_eq!(config.max_spans, 1000);
    assert_eq!(config.environment, Environment::Development);
}

#[test]
fn test_merge_values_rejects_unknown_environment() {
    let mut config = TraceConfig::new("svc");
    let err = config
        .merge_values(None, None, None, Some("cloud".to_string()))
        .unwrap_err();
    match err {
        TracingError::Configuration { message } => {
            assert_eq!(message, "invalid environment: cloud")
        }
        _ => panic!("expected a configuration error"),
    }
    assert_eq!(config.environment, Environment::Development);
}

#[test]
fn test_error_messages_name_their_class() {
    let invalid = TracingError::InvalidSpanId {
        span_id: "abc".to_string(),
    };
    assert_eq!(invalid.message(), "Invalid span ID: abc");

    let config_err = TracingError::Configuration {
        message: "broken".to_string(),
    };
    assert_eq!(config_err.message(), "Configuration error: broken");
}
