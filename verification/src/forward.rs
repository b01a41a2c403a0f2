use vstd::prelude::*;
use vstd::string::StringExecFns;
use crate::endpoint::Endpoint;
use crate::error::RouterError;
use crate::store::{
    acquire_at, active_view, release_at, rr_pick, scan_result, unique_uris, HashmapEndpointStore,
};

verus! {

/// The decision for one forwarding request: the chosen endpoint's base
/// URI and the fully composed outbound URL.
#[derive(Debug)]
pub struct ForwardTarget {
    pub uri: String,
    pub url: String,
}

/// The outbound URL: the endpoint's base URI with the inbound request's
/// path-and-query appended verbatim. An empty path-and-query yields the
/// bare base URI.
pub fn compose_forward_url(base_uri: &str, path_and_query: &str) -> (r: String)
    ensures
        r@ == base_uri@ + path_and_query@,
{
    let mut url = base_uri.to_owned();
    url.append(path_and_query);
    url
}

/// A health scan leaves every URI in place, so it keeps the pool's
/// one-endpoint-per-URI invariant.
proof fn lemma_scan_keeps_unique(s: Seq<Endpoint>)
    requires
        unique_uris(s),
    ensures
        unique_uris(scan_result(s)),
{
    assert forall|i: int, j: int| 0 <= i < j < scan_result(s).len() implies scan_result(s)[i].uri@
        != scan_result(s)[j].uri@ by {
        assert(scan_result(s)[i].uri@ == s[i].uri@);
        assert(scan_result(s)[j].uri@ == s[j].uri@);
    }
}

/// Raising one endpoint's gauge leaves every URI in place, so it keeps
/// the pool's one-endpoint-per-URI invariant.
proof fn lemma_acquire_keeps_unique(s: Seq<Endpoint>, uri: Seq<char>)
    requires
        unique_uris(s),
    ensures
        unique_uris(acquire_at(s, uri)),
{
    assert forall|i: int, j: int| 0 <= i < j < acquire_at(s, uri).len() implies acquire_at(
        s,
        uri,
    )[i].uri@ != acquire_at(s, uri)[j].uri@ by {
        assert(acquire_at(s, uri)[i].uri@ == s[i].uri@);
        assert(acquire_at(s, uri)[j].uri@ == s[j].uri@);
    }
}

/// The per-request half of the forwarding handler that precedes the
/// outbound call: scan the pool's health, select the next active
/// endpoint, raise its concurrent-connection gauge, and compose the
/// outbound URL. When no endpoint is eligible, the request is refused
/// with `IncorrectCredentials` (surfaced as HTTP 401) and the pool is
/// left as the scan left it.
pub fn prepare_forward(store: &mut HashmapEndpointStore, path_and_query: &str) -> (r: Result<
    ForwardTarget,
    RouterError,
>)
    requires
        old(store).wf(),
    ensures
        final(store).wf(),
        ({
            let scanned = scan_result(old(store).eps());
            let a = active_view(scanned);
            &&& a.len() == 0 ==> r == Err::<ForwardTarget, RouterError>(
                RouterError::IncorrectCredentials,
            ) && final(store).eps() == scanned && final(store).cursor() == old(store).cursor()
            &&& a.len() > 0 ==> {
                let chosen = a[rr_pick(old(store).cursor(), a.len()) as int];
                &&& r is Ok
                &&& r->Ok_0.uri == chosen.uri
                &&& r->Ok_0.url@ == chosen.uri@ + path_and_query@
                &&& chosen.active_server
                &&& final(store).eps() == acquire_at(scanned, chosen.uri@)
                &&& final(store).cursor() == rr_pick(old(store).cursor(), a.len()) + 1
            }
        }),
{
    proof {
        lemma_scan_keeps_unique(old(store).eps());
    }
    store.check_for_dead_servers();
    let selected = store.get_next_endpoint();
    match selected {
        Err(_) => Err(RouterError::IncorrectCredentials),
        Ok(end_point) => {
            store.acquire_connection(&end_point.uri);
            proof {
                lemma_acquire_keeps_unique(
                    scan_result(old(store).eps()),
                    end_point.uri@,
                );
            }
            let url = compose_forward_url(end_point.uri.as_str(), path_and_query);
            Ok(ForwardTarget { uri: end_point.uri, url })
        },
    }
}

/// Inflight conservation law: a request that raises an endpoint's gauge
/// and, once its outcome is known, releases it leaves every gauge in the
/// pool exactly where it started, whatever the outcome was.
pub proof fn lemma_inflight_conservation(s: Seq<Endpoint>, uri: Seq<char>, success: bool)
    requires
        forall|i: int|
            0 <= i < s.len() && (#[trigger] s[i]).uri@ == uri ==> s[i].count_concurrent_connections
                < usize::MAX,
    ensures
        release_at(acquire_at(s, uri), uri, success).len() == s.len(),
        forall|i: int|
            0 <= i < s.len() ==> (#[trigger] release_at(acquire_at(s, uri), uri, success)[i])
                .count_concurrent_connections == s[i].count_concurrent_connections,
{
}

} // verus!
