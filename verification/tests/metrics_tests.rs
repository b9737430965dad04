//! Tests of the metric label functions.

use vikunja_rust_mcp::metrics::{
    method_label, route_label, status_class_label, MetricsRegistry, DURATION_BUCKET_LABELS,
};

#[test]
fn route_labels_collapse_unknown_paths() {
    assert_eq!(route_label("/healthz"), "/healthz");
    assert_eq!(route_label("/readyz"), "/readyz");
    assert_eq!(route_label("/metrics"), "/metrics");
    assert_eq!(route_label("/mcp"), "/mcp");
    assert_eq!(route_label("/mcp/session"), "/mcp");
    assert_eq!(route_label("/mcpx"), "other");
    assert_eq!(route_label("/tasks/42?token=secret"), "other");
    assert_eq!(route_label("/"), "other");
}

#[test]
fn method_labels_collapse_unknown_methods() {
    for m in ["GET", "POST", "PUT", "DELETE", "PATCH", "HEAD", "OPTIONS"] {
        assert_eq!(method_label(m), m);
    }
    assert_eq!(method_label("BREW"), "OTHER");
}

#[test]
fn status_classes_cover_all_codes() {
    assert_eq!(status_class_label(101), "1xx");
    assert_eq!(status_class_label(200), "2xx");
    assert_eq!(status_class_label(308), "3xx");
    assert_eq!(status_class_label(404), "4xx");
    assert_eq!(status_class_label(503), "5xx");
    assert_eq!(status_class_label(7), "other");
}

#[test]
fn bucket_labels_are_float_strings_matching_the_bounds() {
    let bounds: [f64; 11] = [0.005, 0.01, 0.025, 0.05, 0.1, 0.25, 0.5, 1.0, 2.5, 5.0, 10.0];
    assert_eq!(DURATION_BUCKET_LABELS.len(), bounds.len());
    for (label, bound) in DURATION_BUCKET_LABELS.iter().zip(bounds.iter()) {
        assert!(label.contains('.'), "le label {label} must look like a float");
        assert_eq!(label.parse::<f64>().unwrap(), *bound, "label {label}");
    }
}

const BOUNDS: [f64; 11] = [0.005, 0.01, 0.025, 0.05, 0.1, 0.25, 0.5, 1.0, 2.5, 5.0, 10.0];

/// The bucket of an observation: the first bound it does not exceed.
fn bucket(seconds: f64) -> Option<usize> {
    BOUNDS.iter().position(|&le| seconds <= le)
}

#[test]
fn http_requests_are_counted_by_route_method_and_class() {
    let mut metrics = MetricsRegistry::new();
    metrics.record_http_request("/healthz", "GET", 200, bucket(0.001));
    metrics.record_http_request("/healthz", "GET", 200, bucket(0.002));
    metrics.record_http_request("/mcp", "POST", 401, bucket(0.003));
    let body = metrics.render("0.006");
    assert!(body.contains("vikunja_mcp_http_requests_total{route=\"/healthz\",method=\"GET\",status=\"2xx\"} 2"));
    assert!(body.contains("vikunja_mcp_http_requests_total{route=\"/mcp\",method=\"POST\",status=\"4xx\"} 1"));
    let healthz = body.find("route=\"/healthz\"").unwrap();
    let mcp = body.find("route=\"/mcp\"").unwrap();
    assert!(healthz < mcp, "counters are listed in label order");
}

#[test]
fn duration_histogram_buckets_are_cumulative() {
    let mut metrics = MetricsRegistry::new();
    metrics.record_http_request("/mcp", "POST", 200, bucket(0.001));
    metrics.record_http_request("/mcp", "POST", 200, bucket(0.060));
    metrics.record_http_request("/mcp", "POST", 200, bucket(60.0));
    let body = metrics.render("60.061");
    assert!(body.contains("duration_seconds_bucket{le=\"0.005\"} 1"), "{body}");
    assert!(body.contains("duration_seconds_bucket{le=\"0.1\"} 2"), "{body}");
    assert!(body.contains("duration_seconds_bucket{le=\"10.0\"} 2"), "{body}");
    assert!(body.contains("duration_seconds_bucket{le=\"+Inf\"} 3"), "{body}");
    assert!(body.contains("duration_seconds_count 3"), "{body}");
    assert!(body.contains("duration_seconds_sum 60.061"), "{body}");
}

#[test]
fn vikunja_outcomes_and_retries_are_counted() {
    let mut metrics = MetricsRegistry::new();
    metrics.record_vikunja_request("tasks.get", "ok");
    metrics.record_vikunja_request("tasks.get", "ok");
    metrics.record_vikunja_request("tasks.get", "not_found");
    metrics.record_vikunja_retry("tasks.get");
    let body = metrics.render("0.0");
    assert!(body.contains("vikunja_mcp_vikunja_requests_total{endpoint=\"tasks.get\",outcome=\"ok\"} 2"));
    assert!(body.contains("vikunja_mcp_vikunja_requests_total{endpoint=\"tasks.get\",outcome=\"not_found\"} 1"));
    assert!(body.contains("vikunja_mcp_vikunja_retries_total{endpoint=\"tasks.get\"} 1"));
}

#[test]
fn empty_registry_still_renders_all_metric_families() {
    let body = MetricsRegistry::new().render("0.0");
    for needle in [
        "# TYPE vikunja_mcp_http_requests_total counter",
        "# TYPE vikunja_mcp_http_request_duration_seconds histogram",
        "# TYPE vikunja_mcp_vikunja_requests_total counter",
        "# TYPE vikunja_mcp_vikunja_retries_total counter",
        "vikunja_mcp_http_request_duration_seconds_sum 0.0",
        "vikunja_mcp_http_request_duration_seconds_count 0",
    ] {
        assert!(body.contains(needle), "missing {needle} in:\n{body}");
    }
}

#[test]
fn a_sequence_of_recordings_is_counted_exactly() {
    let mut metrics = MetricsRegistry::new();
    metrics.record_http_request("/mcp", "POST", 200, Some(0));
    metrics.record_vikunja_request("tasks.get", "ok");
    metrics.record_http_request("/mcp", "POST", 204, Some(3));
    metrics.record_vikunja_retry("tasks.get");
    metrics.record_http_request("/healthz", "GET", 503, None);
    let body = metrics.render("1.0");
    assert!(body.contains("vikunja_mcp_http_requests_total{route=\"/mcp\",method=\"POST\",status=\"2xx\"} 2"));
    assert!(body.contains("vikunja_mcp_http_requests_total{route=\"/healthz\",method=\"GET\",status=\"5xx\"} 1"));
    assert!(!body.contains("status=\"4xx\""));
    assert!(body.contains("duration_seconds_bucket{le=\"+Inf\"} 3"));
    assert!(body.contains("duration_seconds_count 3"));
    assert!(body.contains("vikunja_mcp_vikunja_requests_total{endpoint=\"tasks.get\",outcome=\"ok\"} 1"));
    assert!(body.contains("vikunja_mcp_vikunja_retries_total{endpoint=\"tasks.get\"} 1"));
    let mut last = 0u64;
    for line in body.lines().filter(|l| l.starts_with("vikunja_mcp_http_request_duration_seconds_bucket")) {
        let value: u64 = line.rsplit(' ').next().unwrap().parse().unwrap();
        assert!(value >= last);
        last = value;
    }
    assert_eq!(last, 3);
}
