use baliusd::network::handle_legacy_networks;
use baliusd::proxy::{cors_headers, extract_key, request_filter, upstream_host, Consumer,
    ProxyConfig, RouteDecision};
use baliusd::ratelimit::{RateLimiter, RateSpec};
use baliusd::strmap::StrMap;

fn config() -> ProxyConfig {
    ProxyConfig {
        health_endpoint: String::from("/healthz"),
        balius_dns: String::from("svc.cluster.local"),
        balius_port: 3000,
    }
}

#[test]
fn normalize_maps_legacy_names() {
    assert_eq!(handle_legacy_networks("mainnet"), "cardano-mainnet");
    assert_eq!(handle_legacy_networks("preprod"), "cardano-preprod");
    assert_eq!(handle_legacy_networks("preview"), "cardano-preview");
}

#[test]
fn normalize_is_idempotent_on_examples() {
    for name in ["mainnet", "preprod", "preview", "cardano-mainnet", "vector-testnet"] {
        let once = handle_legacy_networks(name);
        let twice = handle_legacy_networks(&once);
        assert_eq!(once, twice);
    }
}

#[test]
fn normalize_passes_unknown_names_through() {
    assert_eq!(handle_legacy_networks("cardano-mainnet"), "cardano-mainnet");
    assert_eq!(handle_legacy_networks("vector-testnet"), "vector-testnet");
}

#[test]
fn header_key_wins_over_host_label() {
    let header = String::from("secret-key");
    assert_eq!(extract_key(Some(&header), "abc123.example.com"), "secret-key");
}

#[test]
fn host_label_is_the_fallback_key() {
    assert_eq!(extract_key(None, "abc123.example.com"), "abc123");
    assert_eq!(extract_key(None, "only-label"), "only-label");
    assert_eq!(extract_key(None, ".example.com"), "");
}

#[test]
fn upstream_uses_the_normalized_network() {
    assert_eq!(
        upstream_host("preprod", "svc.cluster.local", 3000),
        "balius-cardano-preprod.svc.cluster.local:3000"
    );
}

#[test]
fn proxy_routes_by_host_label_and_legacy_network() {
    let mut limiter = RateLimiter::new();
    let mut consumers: StrMap<Consumer> = StrMap::new();
    consumers.insert(
        "abc123",
        Consumer {
            key: String::from("abc123"),
            network: String::from("preprod"),
            tier: String::from("t"),
        },
    );
    let tiers: StrMap<Vec<RateSpec>> = StrMap::new();
    let d = request_filter(
        &mut limiter,
        &consumers,
        &tiers,
        false,
        "/abc123",
        None,
        "abc123.example.com",
        0,
        &config(),
    );
    match d {
        RouteDecision::Forward(upstream) => {
            assert_eq!(upstream, "balius-cardano-preprod.svc.cluster.local:3000");
        },
        _ => panic!("expected a forward"),
    }
}

#[test]
fn preflight_and_health_are_answered_locally() {
    let mut limiter = RateLimiter::new();
    let consumers: StrMap<Consumer> = StrMap::new();
    let tiers: StrMap<Vec<RateSpec>> = StrMap::new();
    let d = request_filter(
        &mut limiter, &consumers, &tiers, true, "/x", None, "h.example.com", 0, &config(),
    );
    assert!(matches!(d, RouteDecision::CorsPreflight));
    let d = request_filter(
        &mut limiter, &consumers, &tiers, false, "/healthz", None, "h.example.com", 0, &config(),
    );
    assert!(matches!(d, RouteDecision::Health));
}

#[test]
fn unknown_key_is_unauthorized() {
    let mut limiter = RateLimiter::new();
    let consumers: StrMap<Consumer> = StrMap::new();
    let tiers: StrMap<Vec<RateSpec>> = StrMap::new();
    let d = request_filter(
        &mut limiter, &consumers, &tiers, false, "/w", None, "ghost.example.com", 0, &config(),
    );
    assert!(matches!(d, RouteDecision::Unauthorized));
}

#[test]
fn sixth_request_in_the_window_is_limited() {
    let mut limiter = RateLimiter::new();
    let mut consumers: StrMap<Consumer> = StrMap::new();
    consumers.insert(
        "abc123",
        Consumer {
            key: String::from("abc123"),
            network: String::from("preprod"),
            tier: String::from("t"),
        },
    );
    let mut tiers: StrMap<Vec<RateSpec>> = StrMap::new();
    tiers.insert("t", vec![RateSpec { interval_ms: 1000, limit: 5 }]);
    let times: [u64; 6] = [0, 40, 80, 120, 160, 200];
    for (i, t) in times.iter().enumerate() {
        let d = request_filter(
            &mut limiter,
            &consumers,
            &tiers,
            false,
            "/w",
            None,
            "abc123.example.com",
            *t,
            &config(),
        );
        if i < 5 {
            assert!(matches!(d, RouteDecision::Forward(_)), "request {} should pass", i);
        } else {
            assert!(matches!(d, RouteDecision::TooManyRequests), "request {} should be limited", i);
        }
    }
    let d = request_filter(
        &mut limiter,
        &consumers,
        &tiers,
        false,
        "/w",
        None,
        "abc123.example.com",
        1300,
        &config(),
    );
    assert!(matches!(d, RouteDecision::Forward(_)), "after the window, a request passes");
}

#[test]
fn preflight_headers_are_exact() {
    let headers = cors_headers();
    assert_eq!(headers.len(), 3);
    assert_eq!(headers[0], ("Access-Control-Allow-Origin".to_string(), "*".to_string()));
    assert_eq!(headers[1], ("Access-Control-Allow-Methods".to_string(), "POST".to_string()));
    assert_eq!(
        headers[2],
        ("Access-Control-Allow-Headers".to_string(), "Content-Type,dmtr-api-key".to_string())
    );
}

#[test]
fn missing_tier_is_allowed_through() {
    let mut limiter = RateLimiter::new();
    let rates: Option<&Vec<RateSpec>> = None;
    for now in [0u64, 1, 2, 3, 4, 5, 6, 7] {
        assert!(limiter.check("anyone", rates, now));
    }
}
