//! A tracer that records nothing, for code that traces unconditionally.
use vstd::prelude::*;

verus! {

/// Accepts every tracing call and keeps nothing: it is never enabled, holds
/// no events and answers every query with nothing.
pub struct NullTracer;

impl NullTracer {
    pub fn new() -> Self {
        NullTracer
    }

    /// Always false.
    pub fn is_enabled(&self) -> (b: bool)
        ensures
            !b,
    {
        false
    }

    /// Has no effect: the tracer stays disabled.
    pub fn enable(&self) {
    }

    /// Has no effect.
    pub fn disable(&self) {
    }

    /// Discards the interaction.
    pub fn record_agent_interaction(
        &self,
        _from_agent: &str,
        _to_agent: &str,
        _event_type: &str,
        _event_id: Option<String>,
        _source: &str,
        _correlation_id: &str,
    ) {
    }

    /// Always empty, whatever the time window and filter.
    pub fn get_event_summaries<T, F: ?Sized>(
        &self,
        _start_time: Option<T>,
        _end_time: Option<T>,
        _filter_func: Option<&F>,
    ) -> (v: Vec<String>)
        ensures
            v@.len() == 0,
    {
        Vec::new()
    }

    /// Always zero, whatever the time window and filter.
    pub fn count_events<T, F: ?Sized>(&self, _start_time: Option<T>, _end_time: Option<T>, _filter_func: Option<&F>) -> (n:
        usize)
        ensures
            n == 0,
    {
        0
    }

    /// Always empty, whatever the count and filter.
    pub fn get_last_n_summaries<F: ?Sized>(&self, _n: usize, _filter_func: Option<&F>) -> (v: Vec<
        String,
    >)
        ensures
            v@.len() == 0,
    {
        Vec::new()
    }

    /// Has no effect: there is nothing to clear.
    pub fn clear(&self) {
    }

    /// Always zero.
    pub fn len(&self) -> (n: usize)
        ensures
            n == 0,
    {
        0
    }

    /// Always true.
    pub fn is_empty(&self) -> (b: bool)
        ensures
            b,
    {
        true
    }
}

impl Default for NullTracer {
    fn default() -> (t: Self) {
        NullTracer
    }
}

} // verus!
