//! Opening a stream to a peer over the connections the swarm selected for
//! it: each connection is tried in the order given until a stream opens;
//! when none does, the failure names the last error.

use vstd::prelude::*;

use crate::text::concat;

verus! {

/// What to do next while opening a stream.
#[derive(Debug)]
pub enum StreamStep {
    /// Try to open the stream on the selected connection at this position.
    TryConnection(usize),
    /// Every connection failed: report this error.
    GiveUp(String),
}

/// The error reported when no selected connection carried the stream.
pub open spec fn stream_failure(peer_id: Seq<char>, last_error: Option<Seq<char>>) -> Seq<char> {
    "Failed to open stream to peer "@ + peer_id + " using selected connections: "@ + match last_error {
        Some(e) => e,
        None => "no candidate connections returned"@,
    }
}

/// How far the attempts to open a stream have come: how many connections
/// were selected, how many of them failed, and the last failure's error.
pub struct StreamAttempts {
    candidates: usize,
    failed: usize,
    last_error: Option<String>,
}

impl StreamAttempts {
    pub closed spec fn candidates(&self) -> nat {
        self.candidates as nat
    }

    pub closed spec fn failed(&self) -> nat {
        self.failed as nat
    }

    pub closed spec fn last_error(&self) -> Option<Seq<char>> {
        match self.last_error {
            Some(e) => Some(e@),
            None => None,
        }
    }

    /// Attempts stay within the selected connections, and an error is known
    /// exactly when some attempt failed.
    pub open spec fn wf(&self) -> bool {
        self.failed() <= self.candidates() && (self.last_error() is Some <==> self.failed() > 0)
    }

    /// No attempt made yet on `candidates` selected connections.
    pub fn new(candidates: usize) -> (a: StreamAttempts)
        ensures
            a.wf(),
            a.candidates() == candidates,
            a.failed() == 0,
    {
        StreamAttempts { candidates, failed: 0, last_error: None }
    }

    /// The next connection to try, in the order selected, or the error to
    /// report when every one has failed.
    pub fn next_step(&self, peer_id: &str) -> (s: StreamStep)
        requires
            self.wf(),
        ensures
            match s {
                StreamStep::TryConnection(i) => self.failed() < self.candidates() && i == self.failed(),
                StreamStep::GiveUp(e) => self.failed() == self.candidates() && e@ == stream_failure(
                    peer_id@,
                    self.last_error(),
                ),
            },
    {
        if self.failed < self.candidates {
            StreamStep::TryConnection(self.failed)
        } else {
            let prefix = concat("Failed to open stream to peer ", peer_id);
            let head = concat(prefix.as_str(), " using selected connections: ");
            let msg = match &self.last_error {
                Some(e) => concat(head.as_str(), e.as_str()),
                None => concat(head.as_str(), "no candidate connections returned"),
            };
            proof {
                assert(msg@ =~= stream_failure(peer_id@, self.last_error()));
            }
            StreamStep::GiveUp(msg)
        }
    }

    /// The connection that was tried last failed with `error`.
    pub fn record_failure(&mut self, error: String)
        requires
            old(self).wf(),
            old(self).failed() < old(self).candidates(),
        ensures
            final(self).wf(),
            final(self).candidates() == old(self).candidates(),
            final(self).failed() == old(self).failed() + 1,
            final(self).last_error() == Some(error@),
    {
        self.failed = self.failed + 1;
        self.last_error = Some(error);
    }
}

} // verus!
