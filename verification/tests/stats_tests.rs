use roundest_robin_router::endpoint::Endpoint;
use roundest_robin_router::stats::{calc_network_io, find_metrics, print_stats, ContainerMetrics};

fn sample_metrics(seed: usize) -> ContainerMetrics {
    ContainerMetrics {
        memory_usage: 100 + seed,
        memory_limit: 1000 + seed,
        network_rx_bytes: 10 + seed,
        network_tx_bytes: 20 + seed,
    }
}

#[test]
fn stats_join_by_uri_with_zero_default() {
    let mut known = Endpoint::new("http://known/".to_string());
    known.incr_success();
    known.incr_success();
    known.incr_failure();
    let unknown = Endpoint::new("http://unknown/".to_string());

    let endpoints = vec![known, unknown];
    let metrics = vec![("http://known/".to_string(), sample_metrics(0))];

    let rows = print_stats(&endpoints, &metrics);
    assert_eq!(rows.len(), 2);

    assert_eq!(rows[0].uri, "http://known/");
    assert_eq!(rows[0].count_success, 2);
    assert_eq!(rows[0].count_failure, 1);
    assert_eq!(rows[0].count_concurrent_connections, 0);
    assert!(rows[0].active_server);
    assert_eq!(rows[0].memory_usage, 100);
    assert_eq!(rows[0].memory_limit, 1000);
    assert_eq!(rows[0].network_rx_bytes, 10);
    assert_eq!(rows[0].network_tx_bytes, 20);

    // The missing join defaults to zeroes, not an error.
    assert_eq!(rows[1].uri, "http://unknown/");
    assert_eq!(rows[1].memory_usage, 0);
    assert_eq!(rows[1].memory_limit, 0);
    assert_eq!(rows[1].network_rx_bytes, 0);
    assert_eq!(rows[1].network_tx_bytes, 0);
}

#[test]
fn stats_report_is_empty_for_empty_pool() {
    let endpoints: Vec<Endpoint> = Vec::new();
    let metrics = vec![("http://ghost/".to_string(), sample_metrics(3))];
    let rows = print_stats(&endpoints, &metrics);
    assert!(rows.is_empty());
}

#[test]
fn find_metrics_takes_first_match() {
    let metrics = vec![
        ("http://a/".to_string(), sample_metrics(1)),
        ("http://a/".to_string(), sample_metrics(2)),
    ];
    let found = find_metrics(&metrics, &"http://a/".to_string());
    assert_eq!(found, sample_metrics(1));
}

#[test]
fn find_metrics_missing_defaults_to_zero() {
    let metrics = vec![("http://a/".to_string(), sample_metrics(1))];
    let found = find_metrics(&metrics, &"http://b/".to_string());
    assert_eq!(
        found,
        ContainerMetrics {
            memory_usage: 0,
            memory_limit: 0,
            network_rx_bytes: 0,
            network_tx_bytes: 0,
        }
    );
}

#[test]
fn network_io_sums_interfaces() {
    let pairs = vec![(10, 1), (20, 2), (30, 3)];
    assert_eq!(calc_network_io(&pairs), (60, 6));
    assert_eq!(calc_network_io(&Vec::new()), (0, 0));
}

#[test]
fn network_io_saturates_at_machine_limit() {
    let pairs = vec![(u64::MAX - 5, 7), (10, 8)];
    assert_eq!(calc_network_io(&pairs), (u64::MAX, 15));
}
