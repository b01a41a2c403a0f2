use vstd::prelude::*;
use crate::endpoint::Endpoint;

verus! {

/// Container-level resource metrics for one backend, joined by URI into
/// the stats report. Only the plain byte counters live here; the derived
/// percentage figures belong to the reporting boundary.
#[derive(Clone, Copy, Debug, PartialEq, Eq)]
pub struct ContainerMetrics {
    pub memory_usage: usize,
    pub memory_limit: usize,
    pub network_rx_bytes: usize,
    pub network_tx_bytes: usize,
}

/// The metrics reported for a backend the sensor knows nothing about.
pub open spec fn zero_metrics() -> ContainerMetrics {
    ContainerMetrics { memory_usage: 0, memory_limit: 0, network_rx_bytes: 0, network_tx_bytes: 0 }
}

/// The first metrics entry recorded for the URI; all zeroes when none is.
pub open spec fn lookup_metrics(
    ms: Seq<(String, ContainerMetrics)>,
    uri: Seq<char>,
) -> ContainerMetrics
    decreases ms.len(),
{
    if ms.len() == 0 {
        zero_metrics()
    } else if ms[0].0@ == uri {
        ms[0].1
    } else {
        lookup_metrics(ms.drop_first(), uri)
    }
}

/// One row of the stats report: an endpoint's telemetry joined with its
/// container metrics.
#[derive(Debug, PartialEq)]
pub struct EndpointStats {
    pub uri: String,
    pub count_success: usize,
    pub count_failure: usize,
    pub count_concurrent_connections: usize,
    pub active_server: bool,
    pub memory_usage: usize,
    pub memory_limit: usize,
    pub network_rx_bytes: usize,
    pub network_tx_bytes: usize,
}

/// The row the report owes a single endpoint.
pub open spec fn stats_row(e: Endpoint, ms: Seq<(String, ContainerMetrics)>) -> EndpointStats {
    let m = lookup_metrics(ms, e.uri@);
    EndpointStats {
        uri: e.uri,
        count_success: e.count_success,
        count_failure: e.count_failure,
        count_concurrent_connections: e.count_concurrent_connections,
        active_server: e.active_server,
        memory_usage: m.memory_usage,
        memory_limit: m.memory_limit,
        network_rx_bytes: m.network_rx_bytes,
        network_tx_bytes: m.network_tx_bytes,
    }
}

/// The first metrics entry recorded for the URI; all zeroes when none is.
pub fn find_metrics(metrics: &Vec<(String, ContainerMetrics)>, uri: &String) -> (r:
    ContainerMetrics)
    ensures
        r == lookup_metrics(metrics@, uri@),
{
    let n = metrics.len();
    let mut i: usize = 0;
    proof {
        assert(metrics@.skip(0) =~= metrics@);
    }
    while i < n
        invariant
            n == metrics@.len(),
            0 <= i <= n,
            lookup_metrics(metrics@, uri@) == lookup_metrics(metrics@.skip(i as int), uri@),
        decreases n - i,
    {
        if metrics[i].0 == *uri {
            proof {
                assert(metrics@.skip(i as int)[0] == metrics@[i as int]);
            }
            return metrics[i].1;
        }
        proof {
            assert(metrics@.skip(i as int)[0] == metrics@[i as int]);
            assert(metrics@.skip(i as int).drop_first() =~= metrics@.skip(i + 1));
        }
        i = i + 1;
    }
    proof {
        assert(metrics@.skip(n as int).len() == 0);
    }
    ContainerMetrics { memory_usage: 0, memory_limit: 0, network_rx_bytes: 0, network_tx_bytes: 0 }
}

/// Addition that stops at the machine limit instead of wrapping.
pub open spec fn sat_add_u64(a: u64, b: u64) -> u64 {
    if a + b > u64::MAX {
        u64::MAX
    } else {
        (a + b) as u64
    }
}

/// The saturating sum of the received-bytes counts of the pairs.
pub open spec fn sum_rx(pairs: Seq<(u64, u64)>) -> u64
    decreases pairs.len(),
{
    if pairs.len() == 0 {
        0
    } else {
        sat_add_u64(sum_rx(pairs.drop_last()), pairs.last().0)
    }
}

/// The saturating sum of the sent-bytes counts of the pairs.
pub open spec fn sum_tx(pairs: Seq<(u64, u64)>) -> u64
    decreases pairs.len(),
{
    if pairs.len() == 0 {
        0
    } else {
        sat_add_u64(sum_tx(pairs.drop_last()), pairs.last().1)
    }
}

/// Sums received and sent bytes across all reported network interfaces,
/// saturating at the machine limit.
pub fn calc_network_io(pairs: &Vec<(u64, u64)>) -> (r: (u64, u64))
    ensures
        r.0 == sum_rx(pairs@),
        r.1 == sum_tx(pairs@),
{
    let mut rx: u64 = 0;
    let mut tx: u64 = 0;
    let n = pairs.len();
    let mut i: usize = 0;
    while i < n
        invariant
            n == pairs@.len(),
            0 <= i <= n,
            rx == sum_rx(pairs@.take(i as int)),
            tx == sum_tx(pairs@.take(i as int)),
        decreases n - i,
    {
        let (p_rx, p_tx) = pairs[i];
        if u64::MAX - rx < p_rx {
            rx = u64::MAX;
        } else {
            rx = rx + p_rx;
        }
        if u64::MAX - tx < p_tx {
            tx = u64::MAX;
        } else {
            tx = tx + p_tx;
        }
        proof {
            assert(pairs@.take(i + 1).drop_last() =~= pairs@.take(i as int));
            assert(pairs@.take(i + 1).last() == pairs@[i as int]);
        }
        i = i + 1;
    }
    proof {
        assert(pairs@.take(n as int) =~= pairs@);
    }
    (rx, tx)
}

/// The stats report: one row per endpoint of the snapshot, in order, each
/// joined by URI with the sensor's metrics; backends the sensor does not
/// know default to zeroed metrics.
pub fn print_stats(endpoints: &Vec<Endpoint>, metrics: &Vec<(String, ContainerMetrics)>) -> (r:
    Vec<EndpointStats>)
    ensures
        r@.len() == endpoints@.len(),
        forall|i: int| 0 <= i < r@.len() ==> r@[i] == stats_row(endpoints@[i], metrics@),
{
    let mut rows: Vec<EndpointStats> = Vec::new();
    let n = endpoints.len();
    let mut i: usize = 0;
    while i < n
        invariant
            n == endpoints@.len(),
            0 <= i <= n,
            rows@.len() == i,
            forall|k: int| 0 <= k < i ==> rows@[k] == stats_row(endpoints@[k], metrics@),
        decreases n - i,
    {
        let e = &endpoints[i];
        let m = find_metrics(metrics, &e.uri);
        rows.push(
            EndpointStats {
                uri: e.uri.clone(),
                count_success: e.count_success,
                count_failure: e.count_failure,
                count_concurrent_connections: e.count_concurrent_connections,
                active_server: e.active_server,
                memory_usage: m.memory_usage,
                memory_limit: m.memory_limit,
                network_rx_bytes: m.network_rx_bytes,
                network_tx_bytes: m.network_tx_bytes,
            },
        );
        i = i + 1;
    }
    rows
}

} // verus!
