use tyl_tracing::{Span, SpanStatus};

#[test]
fn test_span_creation() {
    let span = Span::new("test_operation".to_string(), None);
    assert_eq!(span.operation_name, "test_operation");
    assert!(span.is_active());
    assert!(span.end_time.is_none());
}

#[test]
fn test_span_completion() {
    let mut span = Span::new("test_operation".to_string(), None);
    span.complete();
    assert!(!span.is_active());
    assert!(span.end_time.is_some());
    assert!(matches!(span.status, SpanStatus::Completed));
}

#[test]
fn test_span_error_records_message() {
    let mut span = Span::new("failing_operation".to_string(), None);
    span.error("boom".to_string());
    assert!(!span.is_active());
    assert!(span.end_time.is_some());
    match span.status {
        SpanStatus::Error { ref message } => assert_eq!(message, "boom"),
        _ => panic!("status should be Error"),
    }
}

#[test]
fn test_duration_absent_while_active() {
    let span = Span::new("open_operation".to_string(), None);
    assert_eq!(span.duration_ms(), None);
}

#[test]
fn test_duration_matches_timestamps() {
    let mut span = Span::new("timed_operation".to_string(), None);
    span.complete();
    let duration = span.duration_ms().expect("completed span has a duration");
    let end = span.end_time.expect("completed span has an end time");
    assert!(end >= span.start_time);
    assert_eq!(duration, end - span.start_time);
}

fn assert_canonical_id(id: &str) {
    assert_eq!(id.len(), 36);
    for (i, c) in id.chars().enumerate() {
        if i == 8 || i == 13 || i == 18 || i == 23 {
            assert_eq!(c, '-');
        } else {
            assert!(c.is_ascii_hexdigit() && !c.is_ascii_uppercase());
        }
    }
    assert_eq!(id.chars().nth(14), Some('4'));
    let variant = id.chars().nth(19).unwrap();
    assert!(matches!(variant, '8' | '9' | 'a' | 'b'));
}

#[test]
fn test_generated_ids_are_canonical_and_distinct() {
    let a = tyl_tracing::generate_span_id();
    let b = tyl_tracing::generate_span_id();
    let t = tyl_tracing::generate_trace_id();
    assert_canonical_id(&a);
    assert_canonical_id(&b);
    assert_canonical_id(&t);
    assert_ne!(a, b);
}

#[test]
fn test_span_attributes_overwrite_by_key() {
    let mut span = Span::new("attributed_operation".to_string(), None);
    span.set_attribute(
        "k".to_string(),
        serde_json::Value::String("first".to_string()),
    );
    span.set_attribute(
        "k".to_string(),
        serde_json::Value::String("second".to_string()),
    );
    assert_eq!(span.attributes.len(), 1);
    assert_eq!(span.attributes[0].0, "k");
    assert_eq!(
        span.attributes[0].1,
        serde_json::Value::String("second".to_string())
    );
}
