use roundest_robin_router::endpoint::Endpoint;
use roundest_robin_router::store::{EndpointStoreError, HashmapEndpointStore};

#[test]
fn test_add_endpoint() {
    let mut endpoint_store = HashmapEndpointStore::default();

    let endpoint1 = Endpoint::new("http://example.com".to_string());
    let endpoint2 = Endpoint::new("http://example-two.com".to_string());

    // Test adding a new endpoint
    let result = endpoint_store.add_endpoint(endpoint1);
    assert!(result.is_ok());

    // Test adding another endpoint
    let result = endpoint_store.add_endpoint(endpoint2);
    assert!(result.is_ok());
}

#[test]
fn test_get_endpoint() {
    let mut endpoint_store = HashmapEndpointStore::default();
    let endpoint1 = Endpoint::new("http://example.com".to_string());
    let endpoint2 = Endpoint::new("http://example-two.com".to_string());

    // Test getting endpoint from empty store
    let result = endpoint_store.get_next_endpoint();
    assert!(result.is_err());

    // Add endpoints
    let _ = endpoint_store.add_endpoint(endpoint1);
    let _ = endpoint_store.add_endpoint(endpoint2);

    // Test that we get different endpoints on successive calls - round robin 1, 0, 1
    let first_endpoint = endpoint_store.get_next_endpoint().unwrap();
    let second_endpoint = endpoint_store.get_next_endpoint().unwrap();
    let third_endpoint = endpoint_store.get_next_endpoint().unwrap();

    println!(
        "First: {:?}, Second: {:?}, Third: {:?}",
        first_endpoint, second_endpoint, third_endpoint
    );

    assert_eq!(first_endpoint.uri, "http://example-two.com");
    assert_eq!(second_endpoint.uri, "http://example.com");
    assert_eq!(third_endpoint.uri, "http://example-two.com");
}

#[test]
fn test_get_endpoint_failed_server() {
    let mut endpoint_store = HashmapEndpointStore::default();
    let mut endpoint1 = Endpoint::new("http://example.com".to_string());
    endpoint1.deactivate(); // inactive server

    let mut endpoint2 = Endpoint::new("http://example-two.com".to_string());
    endpoint2.deactivate(); // inactive server

    // Add endpoints
    let _ = endpoint_store.add_endpoint(endpoint1);
    let _ = endpoint_store.add_endpoint(endpoint2);

    // Test that we get error when all servers are inactive
    let result = endpoint_store.get_next_endpoint();
    assert!(result.is_err());
}

#[test]
fn duplicate_uri_is_rejected() {
    let mut store = HashmapEndpointStore::default();
    let first = Endpoint::new("http://a/".to_string());
    let second = Endpoint::new("http://a/".to_string());

    assert!(store.add_endpoint(first).is_ok());
    let result = store.add_endpoint(second);
    assert_eq!(result, Err(EndpointStoreError::EndpointAlreadyExists));

    // Exactly one endpoint per URI was retained.
    let all = store.get_all_endpoints().unwrap();
    assert_eq!(all.len(), 1);
    assert_eq!(all[0].uri, "http://a/");
}

#[test]
fn round_robin_cycle() {
    let mut store = HashmapEndpointStore::default();
    store
        .add_endpoint(Endpoint::new("http://a/".to_string()))
        .unwrap();
    store
        .add_endpoint(Endpoint::new("http://b/".to_string()))
        .unwrap();

    let first = store.get_next_endpoint().unwrap();
    let second = store.get_next_endpoint().unwrap();
    let third = store.get_next_endpoint().unwrap();

    assert_eq!(first.uri, "http://b/");
    assert_eq!(second.uri, "http://a/");
    assert_eq!(third.uri, "http://b/");
}

#[test]
fn empty_store_returns_no_endpoints() {
    let mut store = HashmapEndpointStore::default();
    let result = store.get_next_endpoint();
    assert_eq!(result, Err(EndpointStoreError::NoEndpoints));
}

#[test]
fn all_inactive_returns_no_endpoints() {
    let mut store = HashmapEndpointStore::default();
    let mut a = Endpoint::new("http://a/".to_string());
    a.deactivate();
    let mut b = Endpoint::new("http://b/".to_string());
    b.deactivate();
    store.add_endpoint(a).unwrap();
    store.add_endpoint(b).unwrap();

    let result = store.get_next_endpoint();
    assert_eq!(result, Err(EndpointStoreError::NoEndpoints));
}

#[test]
fn round_robin_fairness_three_endpoints() {
    let mut store = HashmapEndpointStore::default();
    for uri in ["http://a/", "http://b/", "http://c/"] {
        store.add_endpoint(Endpoint::new(uri.to_string())).unwrap();
    }

    let mut seen: Vec<String> = Vec::new();
    for _ in 0..3 {
        seen.push(store.get_next_endpoint().unwrap().uri);
    }
    seen.sort();
    assert_eq!(seen, vec!["http://a/", "http://b/", "http://c/"]);
}

#[test]
fn health_scan_deactivates_over_threshold() {
    let mut store = HashmapEndpointStore::default();
    let mut bad = Endpoint::new("http://bad/".to_string());
    for _ in 0..100 {
        bad.incr_success();
    }
    for _ in 0..11 {
        bad.incr_failure();
    }
    assert_eq!(bad.success_count(), 100);
    assert_eq!(bad.failure_count(), 11);
    store.add_endpoint(bad).unwrap();

    store.check_for_dead_servers();

    let all = store.get_all_endpoints().unwrap();
    assert_eq!(all.len(), 1);
    assert!(!all[0].active_server);
}

#[test]
fn health_scan_keeps_at_threshold() {
    let mut store = HashmapEndpointStore::default();
    let mut ok = Endpoint::new("http://ok/".to_string());
    for _ in 0..100 {
        ok.incr_success();
    }
    for _ in 0..10 {
        ok.incr_failure();
    }
    store.add_endpoint(ok).unwrap();

    store.check_for_dead_servers();

    let all = store.get_all_endpoints().unwrap();
    assert!(all[0].active_server);
}

#[test]
fn health_scan_ignores_untried_endpoint() {
    let mut store = HashmapEndpointStore::default();
    let mut untried = Endpoint::new("http://fresh/".to_string());
    for _ in 0..5 {
        untried.incr_failure();
    }
    // No success recorded at all: the policy leaves it alone.
    store.add_endpoint(untried).unwrap();

    store.check_for_dead_servers();

    let all = store.get_all_endpoints().unwrap();
    assert!(all[0].active_server);
}

#[test]
fn health_scan_is_idempotent() {
    let mut store = HashmapEndpointStore::default();
    let mut bad = Endpoint::new("http://bad/".to_string());
    for _ in 0..10 {
        bad.incr_success();
    }
    for _ in 0..2 {
        bad.incr_failure();
    }
    let good = Endpoint::new("http://good/".to_string());
    store.add_endpoint(bad).unwrap();
    store.add_endpoint(good).unwrap();

    store.check_for_dead_servers();
    let once = store.get_all_endpoints().unwrap();
    store.check_for_dead_servers();
    let twice = store.get_all_endpoints().unwrap();

    assert_eq!(once.len(), twice.len());
    for (a, b) in once.iter().zip(twice.iter()) {
        assert_eq!(a.uri, b.uri);
        assert_eq!(a.count_success, b.count_success);
        assert_eq!(a.count_failure, b.count_failure);
        assert_eq!(a.count_concurrent_connections, b.count_concurrent_connections);
        assert_eq!(a.active_server, b.active_server);
    }
}

#[test]
fn selection_skips_inactive_endpoint() {
    let mut store = HashmapEndpointStore::default();
    let mut dead = Endpoint::new("http://dead/".to_string());
    dead.deactivate();
    let live = Endpoint::new("http://live/".to_string());
    store.add_endpoint(dead).unwrap();
    store.add_endpoint(live).unwrap();

    for _ in 0..5 {
        let chosen = store.get_next_endpoint().unwrap();
        assert!(chosen.active_server);
        assert_eq!(chosen.uri, "http://live/");
    }
}

#[test]
fn least_in_flight_prefers_idle_endpoint() {
    let store = HashmapEndpointStore::default();
    let mut busy = Endpoint::new("http://busy/".to_string());
    busy.increase_concurrent_connection_count();
    busy.increase_concurrent_connection_count();
    let idle = Endpoint::new("http://idle/".to_string());
    let mut busier = Endpoint::new("http://busier/".to_string());
    busier.increase_concurrent_connection_count();
    busier.increase_concurrent_connection_count();
    busier.increase_concurrent_connection_count();

    let active = vec![busy, idle, busier];
    let chosen = store.lowest_connection_index_selection(&active);
    assert_eq!(chosen.uri, "http://idle/");
}

#[test]
fn least_in_flight_ties_break_in_iteration_order() {
    let store = HashmapEndpointStore::default();
    let first = Endpoint::new("http://first/".to_string());
    let second = Endpoint::new("http://second/".to_string());

    let active = vec![first, second];
    let chosen = store.lowest_connection_index_selection(&active);
    assert_eq!(chosen.uri, "http://first/");
}
