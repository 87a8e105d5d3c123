//! Frame tracing: timing each frame on the GPU with a timer query.
//!
//! The decisions are taken here, on query object ids; the caller creates,
//! begins, ends, reads and deletes the queries as the results say.

use std::time::Duration;

use vstd::prelude::*;

verus! {

/// How frames are traced. It has no settings yet.
#[derive(Debug, Clone)]
pub struct TracingConfig {}

impl Default for TracingConfig {
    fn default() -> (r: Self)
        ensures
            r == (TracingConfig {}),
    {
        TracingConfig {}
    }
}

/// What was measured of a frame: the time that the GPU took for it.
#[derive(Debug, Clone, Copy)]
pub struct FrameTrace {
    pub duration: Duration,
}

/// The timer queries of frame tracing: that of a finished frame whose
/// result has not been read yet, and that of the frame in progress.
pub struct Tracing {
    last_query: Option<u32>,
    current_query: Option<u32>,
}

/// What to do when a frame starts.
#[derive(Debug, Clone, Copy, PartialEq, Eq)]
pub struct FrameStart {
    /// The query of an earlier frame whose result is available: read it,
    /// then delete it.
    pub finished: Option<u32>,
    /// Whether to create a timer query for the new frame and begin it.
    pub begin_query: bool,
}

impl Tracing {
    /// No query yet.
    pub fn new(config: TracingConfig) -> (r: Self)
        ensures
            r.last_view() is None,
            r.current_view() is None,
            r.wf(),
    {
        Tracing { last_query: None, current_query: None }
    }

    /// The query of a finished frame that waits for its result.
    pub closed spec fn last_view(&self) -> Option<u32> {
        self.last_query
    }

    /// The query of the frame in progress.
    pub closed spec fn current_view(&self) -> Option<u32> {
        self.current_query
    }

    /// At most one query is outstanding: a frame is timed only when no
    /// earlier frame waits for its result.
    pub open spec fn wf(&self) -> bool {
        !(self.last_view() is Some && self.current_view() is Some)
    }

    /// Starts a frame. `last_available` tells whether the result of the
    /// waiting query, if any, is available. That query is handed out to be
    /// read once its result is; a new query is begun when no query waits.
    /// Starting a frame while one is being timed is not allowed.
    pub fn start_frame(&mut self, last_available: bool) -> (r: FrameStart)
        requires
            old(self).wf(),
            old(self).current_view() is Some ==> (old(self).last_view() is Some && !last_available),
        ensures
            final(self).wf(),
            r.finished == start_finished(old(self).last_view(), last_available),
            final(self).last_view() == start_last(old(self).last_view(), last_available),
            final(self).current_view() == old(self).current_view(),
            r.begin_query == (final(self).last_view() is None),
    {
        let finished = if last_available {
            self.last_query.take()
        } else {
            None
        };
        let begin_query = self.last_query.is_none();
        FrameStart { finished, begin_query }
    }

    /// Records the query that was begun for the frame, if one could be
    /// created.
    pub fn began(&mut self, query: Option<u32>)
        requires
            old(self).last_view() is None,
            old(self).current_view() is None,
        ensures
            final(self).wf(),
            final(self).current_view() == query,
            final(self).last_view() is None,
    {
        self.current_query = query;
    }

    /// Stops the frame: the query to end, if the frame is being timed; it
    /// then waits for its result.
    pub fn stop_frame(&mut self) -> (r: Option<u32>)
        requires
            old(self).wf(),
        ensures
            final(self).wf(),
            r == old(self).current_view(),
            final(self).current_view() is None,
            final(self).last_view() == stop_last(old(self).last_view(), old(self).current_view()),
    {
        match self.current_query.take() {
            Some(q) => {
                self.last_query = Some(q);
                Some(q)
            },
            None => None,
        }
    }
}

/// The query that a frame start hands out to be read: the waiting one, if
/// its result is available.
pub open spec fn start_finished(last: Option<u32>, last_available: bool) -> Option<u32> {
    if last_available {
        last
    } else {
        None
    }
}

/// The query that waits after a frame start.
pub open spec fn start_last(last: Option<u32>, last_available: bool) -> Option<u32> {
    if last_available {
        None
    } else {
        last
    }
}

/// The query that waits after a frame stop.
pub open spec fn stop_last(last: Option<u32>, current: Option<u32>) -> Option<u32> {
    match current {
        Some(q) => Some(q),
        None => last,
    }
}

/// The query of a timed frame is the one that a later frame start reads,
/// once its result is available; until then every start keeps it waiting
/// and begins no new query.
pub proof fn lemma_stopped_query_is_read(last: Option<u32>, q: u32)
    requires
        last is None,
    ensures
        stop_last(last, Some(q)) == Some(q),
        start_last(stop_last(last, Some(q)), false) == Some(q),
        start_finished(stop_last(last, Some(q)), false) is None,
        start_finished(stop_last(last, Some(q)), true) == Some(q),
        start_last(stop_last(last, Some(q)), true) is None,
{
}

} // verus!
