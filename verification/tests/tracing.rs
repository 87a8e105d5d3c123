use std::time::Duration;

use posh::gl::raw::tracing::{FrameStart, FrameTrace, Tracing, TracingConfig};

#[test]
fn frames_are_timed_one_query_at_a_time() {
    let mut tracing = Tracing::new(TracingConfig::default());

    // First frame: nothing waits, a query is begun.
    let start = tracing.start_frame(false);
    assert_eq!(start, FrameStart { finished: None, begin_query: true });
    tracing.began(Some(1));
    assert_eq!(tracing.stop_frame(), Some(1));

    // Second frame: the result is not there yet; no new query.
    let start = tracing.start_frame(false);
    assert_eq!(start, FrameStart { finished: None, begin_query: false });
    assert_eq!(tracing.stop_frame(), None);

    // Third frame: the result is there; it is read and a new query begins.
    let start = tracing.start_frame(true);
    assert_eq!(start, FrameStart { finished: Some(1), begin_query: true });
    tracing.began(Some(2));
    assert_eq!(tracing.stop_frame(), Some(2));
}

#[test]
fn frames_without_timer_queries() {
    let mut tracing = Tracing::new(TracingConfig::default());
    let start = tracing.start_frame(true);
    assert_eq!(start, FrameStart { finished: None, begin_query: true });
    // The query could not be created.
    tracing.began(None);
    assert_eq!(tracing.stop_frame(), None);
    let start = tracing.start_frame(false);
    assert!(start.begin_query);
}

#[test]
fn frame_trace_holds_the_duration() {
    let trace = FrameTrace { duration: Duration::from_nanos(1500) };
    assert_eq!(trace.duration.as_nanos(), 1500);
}
