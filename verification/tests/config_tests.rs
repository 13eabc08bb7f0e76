use seq_everruns_bridge::config::{
    dedup_targets, resolve_targets, split_csv, MapleConfigError, MapleExporterConfig,
    MapleIngestTarget,
};

#[test]
fn resolves_dual_pair_config() {
    let targets = resolve_targets(
        Some("http://ingest.maple.localhost/v1/traces"),
        Some("maple_pk_local"),
        Some("https://ingest.maple.dev/v1/traces"),
        Some("maple_pk_hosted"),
        None,
        None,
    )
    .expect("both pairs are complete");
    assert_eq!(targets.len(), 2);
    assert!(targets.iter().any(|t| t.traces_endpoint == "http://ingest.maple.localhost/v1/traces"));
    assert!(targets.iter().any(|t| t.traces_endpoint == "https://ingest.maple.dev/v1/traces"));
}

#[test]
fn csv_count_mismatch_is_an_error() {
    let err = resolve_targets(
        None,
        None,
        None,
        None,
        Some("http://ingest.maple.localhost/v1/traces,https://ingest.maple.dev/v1/traces"),
        Some("maple_pk_only_one"),
    )
    .expect_err("mismatch should error");
    assert!(matches!(err, MapleConfigError::EndpointKeyCountMismatch { endpoints: 2, keys: 1 }));
    assert_eq!(
        err.message(),
        "SEQ_EVERRUNS_MAPLE_TRACES_ENDPOINTS count (2) does not match SEQ_EVERRUNS_MAPLE_INGEST_KEYS count (1)"
    );
}

#[test]
fn incomplete_local_pair_is_an_error() {
    let err = resolve_targets(
        Some("http://ingest.maple.localhost/v1/traces"),
        None,
        None,
        None,
        None,
        None,
    )
    .expect_err("incomplete pair should error");
    assert!(matches!(err, MapleConfigError::IncompletePair { prefix: "SEQ_EVERRUNS_MAPLE_LOCAL" }));
    assert_eq!(err.message(), "SEQ_EVERRUNS_MAPLE_LOCAL endpoint/key must both be set");
}

#[test]
fn incomplete_hosted_pair_is_an_error() {
    let err = resolve_targets(None, None, None, Some("maple_pk_hosted"), None, None)
        .expect_err("incomplete pair should error");
    assert!(matches!(
        err,
        MapleConfigError::IncompletePair { prefix: "SEQ_EVERRUNS_MAPLE_HOSTED" }
    ));
}

#[test]
fn csv_targets_pair_up_and_dedup_applies() {
    let targets = resolve_targets(
        Some("http://a/v1/traces"),
        Some("k1"),
        None,
        None,
        Some("http://a/v1/traces, http://b/v1/traces"),
        Some("k1, k2"),
    )
    .expect("complete configuration");
    // the csv repeat of the local pair is dropped
    assert_eq!(targets.len(), 2);
    assert_eq!(targets[0].traces_endpoint, "http://a/v1/traces");
    assert_eq!(targets[0].ingest_key, "k1");
    assert_eq!(targets[1].traces_endpoint, "http://b/v1/traces");
    assert_eq!(targets[1].ingest_key, "k2");
}

#[test]
fn blank_values_read_as_unset() {
    let targets = resolve_targets(Some("   "), Some(""), None, None, None, None)
        .expect("blank pair is absent, not incomplete");
    assert_eq!(targets.len(), 0);
}

#[test]
fn dedup_keeps_first_occurrence_in_order() {
    let t = |e: &str, k: &str| MapleIngestTarget {
        traces_endpoint: e.to_string(),
        ingest_key: k.to_string(),
    };
    let out = dedup_targets(vec![t("a", "1"), t("b", "2"), t("a", "1"), t("a", "2")]);
    assert_eq!(out.len(), 3);
    assert_eq!(out[0].traces_endpoint, "a");
    assert_eq!(out[0].ingest_key, "1");
    assert_eq!(out[1].traces_endpoint, "b");
    assert_eq!(out[2].traces_endpoint, "a");
    assert_eq!(out[2].ingest_key, "2");
}

#[test]
fn split_csv_trims_and_drops_blanks() {
    let pieces = split_csv(" a, ,b ,,c");
    assert_eq!(pieces, vec!["a", "b", "c"]);
    let empty = split_csv("");
    assert!(empty.is_empty());
    let one = split_csv("only");
    assert_eq!(one, vec!["only"]);
}

#[test]
fn default_config_values() {
    let c = MapleExporterConfig::default();
    assert_eq!(c.service_name, "seq-everruns-bridge");
    assert_eq!(c.service_version, None);
    assert_eq!(c.deployment_environment, "local");
    assert_eq!(c.scope_name, "seq_everruns_bridge");
    assert_eq!(c.queue_capacity, 4096);
    assert_eq!(c.max_batch_size, 128);
    assert_eq!(c.flush_interval_ms, 50);
    assert_eq!(c.connect_timeout_ms, 400);
    assert_eq!(c.request_timeout_ms, 800);
    assert!(c.targets.is_empty());
}

#[test]
fn from_env_values_applies_defaults_and_overrides() {
    let c = MapleExporterConfig::from_env_values(
        Vec::new(),
        Some("  my-service  "),
        Some(""),
        None,
        None,
        Some(" 64 "),
        Some("junk"),
        Some("75"),
        None,
        Some("18446744073709551615"),
    );
    assert_eq!(c.service_name, "my-service");
    assert_eq!(c.service_version, None);
    assert_eq!(c.deployment_environment, "local");
    assert_eq!(c.scope_name, "seq_everruns_bridge");
    assert_eq!(c.queue_capacity, 64);
    // unparsable text falls back to the default
    assert_eq!(c.max_batch_size, 128);
    assert_eq!(c.flush_interval_ms, 75);
    assert_eq!(c.connect_timeout_ms, 400);
    assert_eq!(c.request_timeout_ms, 18446744073709551615);
}

#[test]
fn from_env_values_raises_capacities_to_one() {
    let c = MapleExporterConfig::from_env_values(
        Vec::new(),
        None,
        None,
        None,
        None,
        Some("0"),
        Some("0"),
        None,
        None,
        None,
    );
    assert_eq!(c.queue_capacity, 1);
    assert_eq!(c.max_batch_size, 1);
}
