use mojentic::null_tracer::NullTracer;

#[test]
fn test_null_tracer_is_disabled() {
    let tracer = NullTracer::new();
    assert!(!tracer.is_enabled());
}

#[test]
fn test_null_tracer_enable_disable() {
    let tracer = NullTracer::new();
    tracer.enable();
    assert!(!tracer.is_enabled());

    tracer.disable();
    assert!(!tracer.is_enabled());
}

#[test]
fn test_null_tracer_clear() {
    let tracer = NullTracer::new();
    tracer.clear();
    assert!(tracer.is_empty());
}

#[test]
fn test_null_tracer_len() {
    let tracer = NullTracer::new();
    assert_eq!(tracer.len(), 0);
}

#[test]
fn null_tracer_records_nothing() {
    let tracer = NullTracer::default();
    tracer.record_agent_interaction("agent1", "agent2", "message", Some("evt-123".to_string()), "test", "corr-abc");
    assert_eq!(tracer.len(), 0);
    let none: Option<&dyn Fn(&str) -> bool> = None;
    assert!(tracer.get_last_n_summaries(10, none).is_empty());
}

#[test]
fn test_null_tracer_query_methods() {
    let tracer = NullTracer::new();
    let no_filter: Option<&dyn Fn(&str) -> bool> = None;

    // All query methods should return empty results
    let summaries = tracer.get_event_summaries(None::<f64>, None, no_filter);
    assert!(summaries.is_empty());

    let last_summaries = tracer.get_last_n_summaries(10, no_filter);
    assert!(last_summaries.is_empty());

    let count = tracer.count_events(None::<f64>, None, no_filter);
    assert_eq!(count, 0);
}
