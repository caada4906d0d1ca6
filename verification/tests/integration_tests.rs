use tyl_tracing::{Environment, SimpleTracer, TraceConfig, TracingError, TracingManager};

fn attribute<'a>(
    span: &'a tyl_tracing::Span,
    key: &str,
) -> Option<&'a serde_json::Value> {
    span.attributes
        .iter()
        .find(|entry| entry.0 == key)
        .map(|entry| &entry.1)
}

#[test]
fn test_end_to_end_tracing() {
    let config = TraceConfig::new("integration-test-service");
    let mut tracer = SimpleTracer::new(config);

    let span_id = tracer.start_span("end_to_end_operation", None).unwrap();
    tracer
        .add_span_attribute(
            &span_id,
            "test_id",
            serde_json::Value::String("integration_001".to_string()),
        )
        .unwrap();
    tracer
        .add_span_attribute(
            &span_id,
            "environment",
            serde_json::Value::String("test".to_string()),
        )
        .unwrap();
    tracer.end_span(span_id).unwrap();

    let completed_spans = tracer.get_completed_spans();
    assert_eq!(completed_spans.len(), 1);
    assert_eq!(completed_spans[0].operation_name, "end_to_end_operation");
    assert_eq!(completed_spans[0].attributes.len(), 2);
}

#[test]
fn test_configuration_integration() {
    let config = TraceConfig::new("config-test-service")
        .with_environment(Environment::Testing)
        .with_sampling_rate(750000)
        .with_max_spans(50);

    let tracer = SimpleTracer::new(config);

    assert_eq!(tracer.config().service_name, "config-test-service");
    assert_eq!(tracer.config().environment, Environment::Testing);
    assert_eq!(tracer.config().sampling_rate_ppm, 750000);
    assert_eq!(tracer.config().max_spans, 50);
}

#[test]
fn test_span_lifecycle_integration() {
    let mut tracer = SimpleTracer::new(TraceConfig::new("lifecycle-test"));

    // Start multiple spans
    let span1_id = tracer.start_span("operation_1", None).unwrap();
    let span2_id = tracer.start_span("operation_2", None).unwrap();
    let span3_id = tracer
        .start_span("operation_3", Some(span1_id.clone()))
        .unwrap();

    // Add attributes
    tracer
        .add_span_attribute(
            &span1_id,
            "type",
            serde_json::Value::String("parent".to_string()),
        )
        .unwrap();
    tracer
        .add_span_attribute(
            &span3_id,
            "type",
            serde_json::Value::String("child".to_string()),
        )
        .unwrap();

    // End spans in different order
    tracer.end_span(span2_id).unwrap();
    tracer.end_span(span3_id).unwrap();
    tracer.end_span(span1_id).unwrap();

    let completed_spans = tracer.get_completed_spans();
    assert_eq!(completed_spans.len(), 3);

    // Verify parent-child relationship
    let child_span = completed_spans
        .iter()
        .find(|s| s.operation_name == "operation_3")
        .unwrap();
    assert!(child_span.parent_span_id.is_some());
}

#[test]
fn test_baggage_context_integration() {
    let mut tracer = SimpleTracer::new(TraceConfig::new("baggage-test"));

    // Set baggage context
    tracer.set_baggage("request_id", "req_integration_123");
    tracer.set_baggage("user_session", "session_abc");
    tracer.set_baggage("trace_context", "ctx_xyz");

    // Create spans that use baggage
    let span_id = tracer.start_span("business_operation", None).unwrap();

    // Simulate using baggage in span
    if let Some(req_id) = tracer.get_baggage("request_id") {
        tracer
            .add_span_attribute(&span_id, "request_id", serde_json::Value::String(req_id))
            .unwrap();
    }

    if let Some(session) = tracer.get_baggage("user_session") {
        tracer
            .add_span_attribute(&span_id, "session", serde_json::Value::String(session))
            .unwrap();
    }

    tracer.end_span(span_id).unwrap();

    // Verify baggage retrieval
    assert_eq!(
        tracer.get_baggage("request_id"),
        Some("req_integration_123".to_string())
    );
    assert_eq!(
        tracer.get_baggage("user_session"),
        Some("session_abc".to_string())
    );
    assert_eq!(tracer.get_baggage("non_existent"), None);

    // Verify span has baggage-derived attributes
    let completed_spans = tracer.get_completed_spans();
    let span = &completed_spans[0];
    assert_eq!(
        attribute(span, "request_id").unwrap(),
        &serde_json::Value::String("req_integration_123".to_string())
    );
    assert_eq!(
        attribute(span, "session").unwrap(),
        &serde_json::Value::String("session_abc".to_string())
    );
}

#[test]
fn test_error_handling_integration() {
    let mut tracer = SimpleTracer::new(TraceConfig::new("error-test"));

    // Test invalid span operations
    let result = tracer.end_span("non_existent_span".to_string());
    assert!(result.is_err());
    assert!(matches!(
        result.unwrap_err(),
        TracingError::InvalidSpanId { .. }
    ));

    let result = tracer.add_span_attribute(
        "non_existent_span",
        "key",
        serde_json::Value::String("value".to_string()),
    );
    assert!(result.is_err());
    assert!(matches!(
        result.unwrap_err(),
        TracingError::InvalidSpanId { .. }
    ));

    // Test that valid operations still work after errors
    let span_id = tracer.start_span("valid_operation", None).unwrap();
    tracer
        .add_span_attribute(&span_id, "test", serde_json::Value::String("valid".to_string()))
        .unwrap();
    tracer.end_span(span_id).unwrap();

    assert_eq!(tracer.get_completed_spans().len(), 1);
}

#[test]
fn test_max_spans_boundary_integration() {
    let config = TraceConfig::new("boundary-test").with_max_spans(3);
    let mut tracer = SimpleTracer::new(config);

    // Create more spans than the limit
    for i in 0..5 {
        let span_id = tracer
            .start_span(&format!("operation_{}", i), None)
            .unwrap();
        tracer
            .add_span_attribute(
                &span_id,
                "iteration",
                serde_json::Value::Number(serde_json::Number::from(i as u64)),
            )
            .unwrap();
        tracer.end_span(span_id).unwrap();
    }

    let completed_spans = tracer.get_completed_spans();

    // Should respect the max_spans limit
    assert_eq!(completed_spans.len(), 3);

    // Should keep the most recent spans
    assert_eq!(completed_spans[0].operation_name, "operation_2");
    assert_eq!(completed_spans[1].operation_name, "operation_3");
    assert_eq!(completed_spans[2].operation_name, "operation_4");
}

#[test]
fn test_interleaved_spans_and_baggage() {
    // five distinct spans and five baggage keys, interleaved: all five end up
    // completed, none duplicated or lost, and every key stays readable
    let mut tracer = SimpleTracer::new(TraceConfig::new("interleaved-test"));
    let mut ids = Vec::new();

    for i in 0..5 {
        let span_id = tracer
            .start_span(&format!("thread_operation_{}", i), None)
            .unwrap();
        tracer.set_baggage(&format!("thread_{}_key", i), &format!("thread_{}_value", i));
        ids.push(span_id);
    }
    for span_id in ids {
        tracer.end_span(span_id).unwrap();
    }

    let completed_spans = tracer.get_completed_spans();
    assert_eq!(completed_spans.len(), 5);
    for i in 0..5 {
        assert_eq!(
            completed_spans
                .iter()
                .filter(|s| s.operation_name == format!("thread_operation_{}", i))
                .count(),
            1
        );
        let key = format!("thread_{}_key", i);
        let expected_value = format!("thread_{}_value", i);
        assert_eq!(tracer.get_baggage(&key), Some(expected_value));
    }
}
