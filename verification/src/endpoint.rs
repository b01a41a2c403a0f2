use vstd::prelude::*;

verus! {

/// One backend server: its base URI and its telemetry cells.
///
/// The success and failure counters only ever grow (saturating at the
/// machine limit rather than wrapping); the concurrent-connection gauge is
/// raised before a request is dispatched and lowered exactly once when the
/// request terminates, so it never goes negative.
#[derive(Debug, PartialEq)]
pub struct Endpoint {
    pub uri: String,
    pub count_success: usize,
    pub count_failure: usize,
    pub count_concurrent_connections: usize,
    pub active_server: bool,
}

/// A counter bumped by one, saturating at the machine limit so that it
/// never wraps.
pub open spec fn bumped(c: usize) -> usize {
    if c == usize::MAX {
        c
    } else {
        (c + 1) as usize
    }
}

/// Counter monotonicity law: a counter bump never decreases the counter,
/// so `count_success` and `count_failure`, which every pool operation
/// either keeps or bumps, are non-decreasing over the process lifetime.
pub proof fn lemma_bumped_monotonic(c: usize)
    ensures
        bumped(c) >= c,
{
}

impl Clone for Endpoint {
    fn clone(&self) -> (r: Self)
        ensures
            r == *self,
    {
        Endpoint {
            uri: self.uri.clone(),
            count_success: self.count_success,
            count_failure: self.count_failure,
            count_concurrent_connections: self.count_concurrent_connections,
            active_server: self.active_server,
        }
    }
}

impl Endpoint {
    /// A fresh endpoint: zero telemetry, eligible for selection.
    pub fn new(uri: String) -> (r: Endpoint)
        ensures
            r.uri == uri,
            r.count_success == 0,
            r.count_failure == 0,
            r.count_concurrent_connections == 0,
            r.active_server,
    {
        Endpoint {
            uri,
            count_success: 0,
            count_failure: 0,
            count_concurrent_connections: 0,
            active_server: true,
        }
    }

    pub fn incr_success(&mut self)
        ensures
            *final(self) == (Endpoint {
                count_success: bumped(old(self).count_success),
                ..*old(self)
            }),
    {
        if self.count_success < usize::MAX {
            self.count_success = self.count_success + 1;
        }
    }

    pub fn incr_failure(&mut self)
        ensures
            *final(self) == (Endpoint {
                count_failure: bumped(old(self).count_failure),
                ..*old(self)
            }),
    {
        if self.count_failure < usize::MAX {
            self.count_failure = self.count_failure + 1;
        }
    }

    pub fn success_count(&self) -> (r: usize)
        ensures
            r == self.count_success,
    {
        self.count_success
    }

    pub fn failure_count(&self) -> (r: usize)
        ensures
            r == self.count_failure,
    {
        self.count_failure
    }

    pub fn increase_concurrent_connection_count(&mut self)
        ensures
            *final(self) == (Endpoint {
                count_concurrent_connections: bumped(old(self).count_concurrent_connections),
                ..*old(self)
            }),
    {
        if self.count_concurrent_connections < usize::MAX {
            self.count_concurrent_connections = self.count_concurrent_connections + 1;
        }
    }

    /// Lowering the gauge pairs with an earlier raise, so the gauge is
    /// positive here: it never goes negative.
    pub fn decrease_concurrent_connection_count(&mut self)
        requires
            old(self).count_concurrent_connections > 0,
        ensures
            *final(self) == (Endpoint {
                count_concurrent_connections: (old(self).count_concurrent_connections
                    - 1) as usize,
                ..*old(self)
            }),
    {
        self.count_concurrent_connections = self.count_concurrent_connections - 1;
    }

    pub fn activate(&mut self)
        ensures
            *final(self) == (Endpoint { active_server: true, ..*old(self) }),
    {
        self.active_server = true;
    }

    pub fn deactivate(&mut self)
        ensures
            *final(self) == (Endpoint { active_server: false, ..*old(self) }),
    {
        self.active_server = false;
    }
}

} // verus!
