use vstd::prelude::*;
use crate::endpoint::{bumped, Endpoint};

verus! {

broadcast use vstd::seq_lib::group_filter_ensures, Seq::<_>::lemma_filter_push;

/// Appending one endpoint adds exactly its URI to the pool's URI set.
proof fn lemma_contains_uri_push(s: Seq<Endpoint>, e: Endpoint, uri: Seq<char>)
    ensures
        contains_uri(s.push(e), uri) == (contains_uri(s, uri) || e.uri@ == uri),
{
    if contains_uri(s.push(e), uri) {
        let j = choose|j: int| 0 <= j < s.push(e).len() && s.push(e)[j].uri@ == uri;
        if j < s.len() {
            assert(s[j] == s.push(e)[j]);
            assert(contains_uri(s, uri));
        }
    }
    if contains_uri(s, uri) {
        let j = choose|j: int| 0 <= j < s.len() && s[j].uri@ == uri;
        assert(s.push(e)[j] == s[j]);
        assert(contains_uri(s.push(e), uri));
    }
    if e.uri@ == uri {
        assert(s.push(e)[s.len() as int].uri@ == uri);
        assert(contains_uri(s.push(e), uri));
    }
}

/// Errors reported by the endpoint pool.
#[derive(Debug, PartialEq)]
pub enum EndpointStoreError {
    EndpointAlreadyExists,
    NoEndpoints,
    InvalidCredentials,
    UnexpectedError,
}

/// The URI occurs somewhere in the pool.
pub open spec fn contains_uri(s: Seq<Endpoint>, uri: Seq<char>) -> bool {
    exists|i: int| 0 <= i < s.len() && s[i].uri@ == uri
}

/// Every endpoint of the pool carries a distinct URI.
pub open spec fn unique_uris(s: Seq<Endpoint>) -> bool {
    forall|i: int, j: int| 0 <= i < j < s.len() ==> s[i].uri@ != s[j].uri@
}

/// The endpoints eligible for selection, in the pool's iteration order.
pub open spec fn active_view(s: Seq<Endpoint>) -> Seq<Endpoint> {
    s.filter(|e: Endpoint| e.active_server)
}

/// An endpoint violates the health policy: it has seen at least one
/// success and its failures exceed a tenth of its successes.
pub open spec fn unhealthy(e: Endpoint) -> bool {
    e.count_success > 0 && e.count_failure > e.count_success / 10
}

/// What one health scan does to a single endpoint: telemetry untouched,
/// unhealthy endpoints deactivated.
pub open spec fn scan_endpoint(e: Endpoint) -> Endpoint {
    Endpoint { active_server: e.active_server && !unhealthy(e), ..e }
}

/// What one health scan does to the whole pool.
pub open spec fn scan_result(s: Seq<Endpoint>) -> Seq<Endpoint> {
    s.map_values(|e: Endpoint| scan_endpoint(e))
}

/// The index the round-robin policy selects from an active list of length
/// `n`, given the stored cursor `c`: the cursor, reset to the front once it
/// meets or passes the end.
pub open spec fn rr_pick(c: nat, n: nat) -> nat {
    if c >= n {
        0
    } else {
        c
    }
}

/// The pool of backend endpoints, keyed by URI, with the round-robin
/// cursor. Iteration order is newest-first and stays stable while the
/// membership does not change.
pub struct HashmapEndpointStore {
    endpoints: Vec<Endpoint>,
    current_index: usize,
}

impl HashmapEndpointStore {
    /// The pool's contents, in iteration order.
    pub closed spec fn eps(&self) -> Seq<Endpoint> {
        self.endpoints@
    }

    /// The round-robin cursor.
    pub closed spec fn cursor(&self) -> nat {
        self.current_index as nat
    }

    /// The pool's invariant: one endpoint per URI.
    pub open spec fn wf(&self) -> bool {
        unique_uris(self.eps())
    }

    /// Inserts a new endpoint, or reports `EndpointAlreadyExists` when its
    /// URI is already present.
    pub fn add_endpoint(&mut self, endpoint: Endpoint) -> (r: Result<(), EndpointStoreError>)
        requires
            old(self).wf(),
        ensures
            final(self).wf(),
            final(self).cursor() == old(self).cursor(),
            contains_uri(old(self).eps(), endpoint.uri@) ==> r == Err::<(), EndpointStoreError>(
                EndpointStoreError::EndpointAlreadyExists,
            ) && final(self).eps() == old(self).eps(),
            !contains_uri(old(self).eps(), endpoint.uri@) ==> r == Ok::<(), EndpointStoreError>(())
                && final(self).eps() == old(self).eps().insert(0, endpoint),
    {
        let n = self.endpoints.len();
        let mut i: usize = 0;
        while i < n
            invariant
                n == self.endpoints.len(),
                0 <= i <= n,
                old(self).wf(),
                *self == *old(self),
                forall|k: int| 0 <= k < i ==> self.endpoints@[k].uri@ != endpoint.uri@,
            decreases n - i,
        {
            if self.endpoints[i].uri == endpoint.uri {
                return Err(EndpointStoreError::EndpointAlreadyExists);
            }
            i = i + 1;
        }
        proof {
            assert(!contains_uri(self.endpoints@, endpoint.uri@));
        }
        self.endpoints.insert(0, endpoint);
        proof {
            let pre = old(self).eps();
            let post = self.endpoints@;
            assert(post =~= seq![endpoint] + pre);
            assert forall|i: int, j: int| 0 <= i < j < post.len() implies post[i].uri@
                != post[j].uri@ by {
                if i == 0 {
                    assert(post[j] == pre[j - 1]);
                } else {
                    assert(post[i] == pre[i - 1]);
                    assert(post[j] == pre[j - 1]);
                }
            }
        }
        Ok(())
    }

    /// A stable snapshot of the pool for reporting.
    pub fn get_all_endpoints(&self) -> (r: Result<Vec<Endpoint>, EndpointStoreError>)
        ensures
            r is Ok,
            r->Ok_0@ == self.eps(),
    {
        let mut out: Vec<Endpoint> = Vec::new();
        let n = self.endpoints.len();
        let mut i: usize = 0;
        while i < n
            invariant
                n == self.endpoints.len(),
                0 <= i <= n,
                out@ == self.endpoints@.take(i as int),
            decreases n - i,
        {
            out.push(self.endpoints[i].clone());
            proof {
                assert(self.endpoints@.take(i + 1) =~= self.endpoints@.take(i as int).push(
                    self.endpoints@[i as int],
                ));
            }
            i = i + 1;
        }
        proof {
            assert(self.endpoints@.take(n as int) =~= self.endpoints@);
        }
        Ok(out)
    }

    /// Selects one active endpoint under the round-robin policy, or
    /// reports `NoEndpoints` when no endpoint is eligible. The pool's
    /// membership is left untouched; only the cursor moves.
    pub fn get_next_endpoint(&mut self) -> (r: Result<Endpoint, EndpointStoreError>)
        ensures
            final(self).eps() == old(self).eps(),
            ({
                let a = active_view(old(self).eps());
                &&& a.len() == 0 ==> r == Err::<Endpoint, EndpointStoreError>(
                    EndpointStoreError::NoEndpoints,
                ) && final(self).cursor() == old(self).cursor()
                &&& a.len() > 0 ==> {
                    let k = rr_pick(old(self).cursor(), a.len());
                    &&& r == Ok::<Endpoint, EndpointStoreError>(a[k as int])
                    &&& final(self).cursor() == k + 1
                    &&& final(self).cursor() <= a.len()
                }
            }),
            r is Ok ==> r->Ok_0.active_server,
    {
        let active = self.active_endpoints();
        if active.len() == 0 {
            return Err(EndpointStoreError::NoEndpoints);
        }
        let chosen = self.round_robin_index_selection(&active);
        Ok(chosen)
    }

    /// The currently active endpoints, in iteration order.
    fn active_endpoints(&self) -> (r: Vec<Endpoint>)
        ensures
            r@ == active_view(self.eps()),
    {
        let mut out: Vec<Endpoint> = Vec::new();
        let n = self.endpoints.len();
        let mut i: usize = 0;
        while i < n
            invariant
                n == self.endpoints.len(),
                0 <= i <= n,
                out@ == active_view(self.endpoints@.take(i as int)),
            decreases n - i,
        {
            proof {
                assert(self.endpoints@.take(i + 1) =~= self.endpoints@.take(i as int).push(
                    self.endpoints@[i as int],
                ));
            }
            if self.endpoints[i].active_server {
                out.push(self.endpoints[i].clone());
            }
            i = i + 1;
        }
        proof {
            assert(self.endpoints@.take(n as int) =~= self.endpoints@);
        }
        out
    }

    /// Round-robin over a non-empty active list: reset the cursor when it
    /// has run off the end, then return the endpoint under it and advance.
    pub fn round_robin_index_selection(&mut self, active_endpoints: &Vec<Endpoint>) -> (r:
        Endpoint)
        requires
            active_endpoints@.len() > 0,
        ensures
            final(self).eps() == old(self).eps(),
            r == active_endpoints@[rr_pick(old(self).cursor(), active_endpoints@.len()) as int],
            final(self).cursor() == rr_pick(old(self).cursor(), active_endpoints@.len()) + 1,
    {
        if self.current_index >= active_endpoints.len() {
            self.current_index = 0;
        }
        let current_idx = self.current_index;
        self.current_index = self.current_index + 1;
        proof {
            vstd::arithmetic::div_mod::lemma_small_mod(
                current_idx as nat,
                active_endpoints@.len() as nat,
            );
        }
        active_endpoints[current_idx % active_endpoints.len()].clone()
    }

    /// Least-in-flight over a non-empty active list: the endpoint whose
    /// concurrent-connection gauge is minimal, ties broken by iteration
    /// order.
    pub fn lowest_connection_index_selection(&self, active_endpoints: &Vec<Endpoint>) -> (r:
        Endpoint)
        requires
            active_endpoints@.len() > 0,
        ensures
            r == active_endpoints@[min_inflight_index(active_endpoints@)],
    {
        let mut best: usize = 0;
        let mut i: usize = 1;
        while i < active_endpoints.len()
            invariant
                1 <= i <= active_endpoints@.len(),
                0 <= best < i,
                best == min_inflight_upto(active_endpoints@, i as int),
            decreases active_endpoints@.len() - i,
        {
            if active_endpoints[i].count_concurrent_connections
                < active_endpoints[best].count_concurrent_connections {
                best = i;
            }
            i = i + 1;
        }
        active_endpoints[best].clone()
    }

    /// Deactivates every active endpoint that violates the health policy;
    /// counters and membership are left untouched.
    pub fn check_for_dead_servers(&mut self)
        ensures
            final(self).eps() == scan_result(old(self).eps()),
            final(self).cursor() == old(self).cursor(),
    {
        let n = self.endpoints.len();
        let mut scanned: Vec<Endpoint> = Vec::new();
        let mut i: usize = 0;
        while i < n
            invariant
                n == self.endpoints.len(),
                0 <= i <= n,
                *self == *old(self),
                scanned@ == scan_result(self.endpoints@.take(i as int)),
            decreases n - i,
        {
            let e = &self.endpoints[i];
            let success_count = e.count_success;
            let failure_count = e.count_failure;
            let still_active = e.active_server && !(success_count > 0 && failure_count
                > success_count / 10);
            scanned.push(
                Endpoint {
                    uri: e.uri.clone(),
                    count_success: e.count_success,
                    count_failure: e.count_failure,
                    count_concurrent_connections: e.count_concurrent_connections,
                    active_server: still_active,
                },
            );
            proof {
                assert(self.endpoints@.take(i + 1) =~= self.endpoints@.take(i as int).push(
                    self.endpoints@[i as int],
                ));
                assert(scanned@ =~= scan_result(self.endpoints@.take(i + 1)));
            }
            i = i + 1;
        }
        proof {
            assert(self.endpoints@.take(n as int) =~= self.endpoints@);
        }
        self.endpoints = scanned;
    }

    /// Raises the concurrent-connection gauge of the endpoint carrying the
    /// URI, if it is present; reports whether it was.
    pub fn acquire_connection(&mut self, uri: &String) -> (found: bool)
        ensures
            final(self).eps() == acquire_at(old(self).eps(), uri@),
            final(self).cursor() == old(self).cursor(),
            found == contains_uri(old(self).eps(), uri@),
    {
        let n = self.endpoints.len();
        let mut out: Vec<Endpoint> = Vec::new();
        let mut found = false;
        let mut i: usize = 0;
        while i < n
            invariant
                n == self.endpoints.len(),
                0 <= i <= n,
                *self == *old(self),
                out@ == acquire_at(self.endpoints@.take(i as int), uri@),
                found == contains_uri(self.endpoints@.take(i as int), uri@),
            decreases n - i,
        {
            proof {
                assert(self.endpoints@.take(i + 1) =~= self.endpoints@.take(i as int).push(
                    self.endpoints@[i as int],
                ));
            }
            let e = &self.endpoints[i];
            if e.uri == *uri {
                let mut bumped_e = e.clone();
                bumped_e.increase_concurrent_connection_count();
                out.push(bumped_e);
                found = true;
            } else {
                out.push(e.clone());
            }
            proof {
                assert(out@ =~= acquire_at(self.endpoints@.take(i + 1), uri@));
                lemma_contains_uri_push(
                    self.endpoints@.take(i as int),
                    self.endpoints@[i as int],
                    uri@,
                );
            }
            i = i + 1;
        }
        proof {
            assert(self.endpoints@.take(n as int) =~= self.endpoints@);
        }
        self.endpoints = out;
        found
    }

    /// Lowers the concurrent-connection gauge of the endpoint carrying the
    /// URI and records the request's outcome on it: a success bumps
    /// `count_success`, anything else bumps `count_failure`. Reports
    /// whether the URI was present.
    pub fn release_connection(&mut self, uri: &String, success: bool) -> (found: bool)
        ensures
            final(self).eps() == release_at(old(self).eps(), uri@, success),
            final(self).cursor() == old(self).cursor(),
            found == contains_uri(old(self).eps(), uri@),
    {
        let n = self.endpoints.len();
        let mut out: Vec<Endpoint> = Vec::new();
        let mut found = false;
        let mut i: usize = 0;
        while i < n
            invariant
                n == self.endpoints.len(),
                0 <= i <= n,
                *self == *old(self),
                out@ == release_at(self.endpoints@.take(i as int), uri@, success),
                found == contains_uri(self.endpoints@.take(i as int), uri@),
            decreases n - i,
        {
            proof {
                assert(self.endpoints@.take(i + 1) =~= self.endpoints@.take(i as int).push(
                    self.endpoints@[i as int],
                ));
            }
            let e = &self.endpoints[i];
            if e.uri == *uri {
                let mut released = e.clone();
                if released.count_concurrent_connections > 0 {
                    released.decrease_concurrent_connection_count();
                }
                if success {
                    released.incr_success();
                } else {
                    released.incr_failure();
                }
                out.push(released);
                found = true;
            } else {
                out.push(e.clone());
            }
            proof {
                assert(out@ =~= release_at(self.endpoints@.take(i + 1), uri@, success));
                lemma_contains_uri_push(
                    self.endpoints@.take(i as int),
                    self.endpoints@[i as int],
                    uri@,
                );
            }
            i = i + 1;
        }
        proof {
            assert(self.endpoints@.take(n as int) =~= self.endpoints@);
        }
        self.endpoints = out;
        found
    }
}

/// What acquiring a connection for a URI does to the pool: the matching
/// endpoint's gauge is raised, everything else is untouched.
pub open spec fn acquire_at(s: Seq<Endpoint>, uri: Seq<char>) -> Seq<Endpoint> {
    s.map_values(
        |e: Endpoint|
            if e.uri@ == uri {
                (Endpoint { count_concurrent_connections: bumped(e.count_concurrent_connections), ..e })
            } else {
                e
            },
    )
}

/// What releasing a connection does to a single endpoint: its gauge drops
/// by one (it cannot go below zero) and the outcome is counted.
pub open spec fn release_one(e: Endpoint, success: bool) -> Endpoint {
    let gauge = if e.count_concurrent_connections > 0 {
        (e.count_concurrent_connections - 1) as usize
    } else {
        0usize
    };
    if success {
        Endpoint {
            count_concurrent_connections: gauge,
            count_success: bumped(e.count_success),
            ..e
        }
    } else {
        Endpoint {
            count_concurrent_connections: gauge,
            count_failure: bumped(e.count_failure),
            ..e
        }
    }
}

/// What releasing a connection for a URI does to the pool.
pub open spec fn release_at(s: Seq<Endpoint>, uri: Seq<char>, success: bool) -> Seq<Endpoint> {
    s.map_values(
        |e: Endpoint|
            if e.uri@ == uri {
                release_one(e, success)
            } else {
                e
            },
    )
}

/// The position of the first endpoint among `s[0 .. i]` whose
/// concurrent-connection gauge is minimal there.
pub open spec fn min_inflight_upto(s: Seq<Endpoint>, i: int) -> int
    recommends
        1 <= i <= s.len(),
    decreases i,
{
    if i <= 1 {
        0
    } else {
        let m = min_inflight_upto(s, i - 1);
        if s[i - 1].count_concurrent_connections < s[m].count_concurrent_connections {
            i - 1
        } else {
            m
        }
    }
}

/// The position of the first endpoint whose concurrent-connection gauge
/// is minimal in `s`.
pub open spec fn min_inflight_index(s: Seq<Endpoint>) -> int {
    min_inflight_upto(s, s.len() as int)
}

/// Health policy law: after a scan, every endpoint still active either has
/// no recorded success at all or keeps its failures within a tenth of its
/// successes.
pub proof fn lemma_scan_health(s: Seq<Endpoint>)
    ensures
        forall|i: int|
            0 <= i < scan_result(s).len() && (#[trigger] scan_result(s)[i]).active_server
                ==> scan_result(s)[i].count_failure <= scan_result(s)[i].count_success / 10
                || scan_result(s)[i].count_success == 0,
{
}

/// Idempotence law: scanning a pool that was just scanned changes nothing.
pub proof fn lemma_scan_idempotent(s: Seq<Endpoint>)
    ensures
        scan_result(scan_result(s)) == scan_result(s),
{
    assert(scan_result(scan_result(s)) =~= scan_result(s));
}

/// The cursor the pool holds after `k` round-robin selections from an
/// active list of fixed length `n`, starting from cursor `c`.
pub open spec fn rr_cursor_after(c: nat, n: nat, k: nat) -> nat
    decreases k,
{
    if k == 0 {
        c
    } else {
        rr_pick(rr_cursor_after(c, n, (k - 1) as nat), n) + 1
    }
}

/// The index the `k`-th of a run of round-robin selections picks (counted
/// from zero) from an active list of fixed length `n`, starting from
/// cursor `c`.
pub open spec fn rr_selected(c: nat, n: nat, k: nat) -> nat {
    rr_pick(rr_cursor_after(c, n, k), n)
}

/// The step, within a run of `n` round-robin selections that starts from
/// cursor `c`, at which position `t` of the active list is selected.
pub open spec fn rr_step_of(c: nat, n: nat, t: nat) -> nat {
    let p = rr_pick(c, n);
    if t >= p {
        (t - p) as nat
    } else {
        (t + n - p) as nat
    }
}

/// Each selection of a round-robin run lands one step beyond the previous
/// one, wrapping at the end of the active list.
proof fn lemma_rr_selected_formula(c: nat, n: nat, k: nat)
    requires
        n > 0,
    ensures
        rr_selected(c, n, k) as int == (rr_pick(c, n) + k) as int % (n as int),
    decreases k,
{
    let p = rr_pick(c, n) as int;
    if k == 0 {
        vstd::arithmetic::div_mod::lemma_small_mod(rr_pick(c, n), n);
    } else {
        lemma_rr_selected_formula(c, n, (k - 1) as nat);
        let m = rr_selected(c, n, (k - 1) as nat) as int;
        vstd::arithmetic::div_mod::lemma_mod_bound(p + k - 1, n as int);
        vstd::arithmetic::div_mod::lemma_add_mod_noop_right(1, p + k - 1, n as int);
        if m + 1 < n {
            vstd::arithmetic::div_mod::lemma_small_mod((m + 1) as nat, n);
        } else {
            vstd::arithmetic::div_mod::lemma_mod_self_0(n as int);
        }
    }
}

/// Round-robin fairness law: starting from any cursor, a run of `n`
/// selections from an unchanged active list of length `n` picks each
/// position exactly once.
pub proof fn lemma_round_robin_fairness(c: nat, n: nat)
    requires
        n > 0,
    ensures
        forall|k: nat| k < n ==> #[trigger] rr_selected(c, n, k) < n,
        forall|k1: nat, k2: nat|
            k1 < k2 < n ==> #[trigger] rr_selected(c, n, k1) != #[trigger] rr_selected(c, n, k2),
        forall|t: nat|
            t < n ==> #[trigger] rr_step_of(c, n, t) < n && rr_selected(c, n, rr_step_of(c, n, t))
                == t,
{
    let p = rr_pick(c, n);
    assert forall|k: nat| k < n implies #[trigger] rr_selected(c, n, k) < n by {
        lemma_rr_selected_formula(c, n, k);
        vstd::arithmetic::div_mod::lemma_mod_bound(p as int + k, n as int);
    }
    assert forall|k1: nat, k2: nat| k1 < k2 < n implies #[trigger] rr_selected(c, n, k1)
        != #[trigger] rr_selected(c, n, k2) by {
        lemma_rr_selected_formula(c, n, k1);
        lemma_rr_selected_formula(c, n, k2);
        if rr_selected(c, n, k1) == rr_selected(c, n, k2) {
            vstd::arithmetic::div_mod::lemma_mod_equivalence(
                p as int + k2,
                p as int + k1,
                n as int,
            );
            vstd::arithmetic::div_mod::lemma_small_mod((k2 - k1) as nat, n);
        }
    }
    assert forall|t: nat| t < n implies #[trigger] rr_step_of(c, n, t) < n && rr_selected(
        c,
        n,
        rr_step_of(c, n, t),
    ) == t by {
        let k = rr_step_of(c, n, t);
        lemma_rr_selected_formula(c, n, k);
        if t < p {
            vstd::arithmetic::div_mod::lemma_mod_add_multiples_vanish(t as int, n as int);
        }
        vstd::arithmetic::div_mod::lemma_small_mod(t, n);
    }
}

/// The first minimum over a prefix really is minimal there, and every
/// earlier endpoint is strictly busier.
proof fn lemma_min_inflight_upto(s: Seq<Endpoint>, i: int)
    requires
        1 <= i <= s.len(),
    ensures
        0 <= min_inflight_upto(s, i) < i,
        forall|j: int|
            0 <= j < i ==> s[min_inflight_upto(s, i)].count_concurrent_connections <= (
            #[trigger] s[j]).count_concurrent_connections,
        forall|j: int|
            0 <= j < min_inflight_upto(s, i) ==> (#[trigger] s[j]).count_concurrent_connections
                > s[min_inflight_upto(s, i)].count_concurrent_connections,
    decreases i,
{
    if i > 1 {
        lemma_min_inflight_upto(s, i - 1);
    }
}

/// Least-in-flight law: the selected position holds the least
/// concurrent-connection gauge, and no earlier position ties with it. In
/// particular, when one endpoint is strictly idle and the others are
/// busy, the idle one is the one selected.
pub proof fn lemma_min_inflight_index(s: Seq<Endpoint>)
    requires
        s.len() > 0,
    ensures
        0 <= min_inflight_index(s) < s.len(),
        forall|j: int|
            0 <= j < s.len() ==> s[min_inflight_index(s)].count_concurrent_connections <= (
            #[trigger] s[j]).count_concurrent_connections,
        forall|j: int|
            0 <= j < min_inflight_index(s) ==> (#[trigger] s[j]).count_concurrent_connections
                > s[min_inflight_index(s)].count_concurrent_connections,
{
    lemma_min_inflight_upto(s, s.len() as int);
}

impl Default for HashmapEndpointStore {
    /// An empty pool with the cursor at the front.
    fn default() -> (r: Self)
        ensures
            r.eps() == Seq::<Endpoint>::empty(),
            r.cursor() == 0,
            r.wf(),
    {
        HashmapEndpointStore { endpoints: Vec::new(), current_index: 0 }
    }
}

} // verus!
