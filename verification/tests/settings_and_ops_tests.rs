use api::alerting::{alert_channels, slack_text, AlertDeduper, AlertSeverity, DEDUP_INTERVAL_MICROS};
use api::archival::{no_enabled_policies, policy_not_found, retention_cutoff, run_outcome};
use api::cache_config::{
    contract_access_refresh_due, entry_weight, namespaced_key, CacheConfig, CacheSettings,
    CONTRACT_ACCESS_DEBOUNCE_SECS,
};
use api::feature_flags::{
    flag_disabled_error, rollout_decision, FeatureFlag, FeatureFlagEntry, FeatureFlagManager,
    FeatureFlagMetrics,
};
use api::partitions::{
    audit_partition_name, detach_ddl, interaction_partition_name, next_month, partition_ddl,
};
use api::search::{parse_networks, search_query, split_tags, synonym_term, trending_window, Network, TrendingParams};

fn no_settings() -> CacheSettings {
    CacheSettings {
        cache_enabled: None,
        cache_max_capacity: None,
        redis_enabled: None,
        contracts_cache_ttl: None,
        abi_cache_ttl: None,
        search_cache_ttl: None,
        stats_cache_ttl: None,
        verification_cache_max_capacity: None,
        verification_cache_ttl: None,
        redis_url: None,
    }
}

#[test]
fn cache_settings_default_to_the_documented_values() {
    let c = CacheConfig::from_settings(no_settings());
    assert_eq!(c, CacheConfig::default());
    assert_eq!(c.verification_capacity(), 10_000);
    assert_eq!(c.verification_ttl(), 604_800);
}

#[test]
fn cache_settings_override_defaults() {
    let mut s = no_settings();
    s.verification_cache_max_capacity = Some("2048".into());
    s.verification_cache_ttl = Some("60".into());
    s.cache_enabled = Some("FALSE".into());
    s.redis_enabled = Some("True".into());
    s.contracts_cache_ttl = Some("120".into());
    s.abi_cache_ttl = Some("not a number".into());
    s.redis_url = Some("redis://localhost".into());
    let c = CacheConfig::from_settings(s);
    assert_eq!(c.verification_capacity(), 2048);
    assert_eq!(c.verification_ttl(), 60);
    assert!(!c.enabled);
    assert!(c.redis_enabled);
    assert_eq!((c.contracts_ttl, c.metadata_ttl_secs), (120, 120));
    assert_eq!(c.abi_ttl_secs, 86_400);
    assert_eq!(c.redis_url.as_deref(), Some("redis://localhost"));
}

#[test]
fn cache_keys_and_weights() {
    assert_eq!(namespaced_key("abi", "C1"), "abi:C1");
    assert_eq!(namespaced_key("", ""), ":");
    assert_eq!(entry_weight(0), 0);
    assert_eq!(entry_weight(1234), 1234);
}

#[test]
fn alerts_are_deduplicated_and_routed() {
    let mut d = AlertDeduper::new();
    assert!(d.should_send("db", "down", 0));
    assert!(!d.should_send("db", "down", DEDUP_INTERVAL_MICROS - 1));
    assert!(d.should_send("db", "up", 1));
    assert!(d.should_send("db", "down", DEDUP_INTERVAL_MICROS));
    assert!(!d.should_send("db", "down", DEDUP_INTERVAL_MICROS + 5));
    assert_eq!(alert_channels(AlertSeverity::Critical, true, true), (true, true));
    assert_eq!(alert_channels(AlertSeverity::Warning, true, true), (true, false));
    assert_eq!(alert_channels(AlertSeverity::Info, true, true), (false, false));
    assert_eq!(alert_channels(AlertSeverity::Critical, false, true), (false, true));
    assert_eq!(slack_text(AlertSeverity::Critical, "db", "pool exhausted"), "🚨 *[Critical - db]*\npool exhausted");
    assert_eq!(slack_text(AlertSeverity::Info, "s", "m"), "ℹ️ *[Info - s]*\nm");
}

fn flag(enabled: bool, pct: u8, users: Vec<u128>) -> FeatureFlag {
    FeatureFlag { key: "f".into(), is_enabled: enabled, rollout_percentage: pct, targeted_users: users }
}

#[test]
fn rollout_follows_switch_targets_and_percentage() {
    assert!(!rollout_decision(&flag(false, 100, vec![1]), Some(1), 0));
    assert!(rollout_decision(&flag(true, 0, vec![1]), Some(1), 99));
    assert!(!rollout_decision(&flag(true, 0, vec![1]), Some(2), 0));
    assert!(rollout_decision(&flag(true, 100, vec![]), None, 99));
    assert!(rollout_decision(&flag(true, 30, vec![]), Some(5), 129));
    assert!(!rollout_decision(&flag(true, 30, vec![]), Some(5), 130));
}

#[test]
fn flag_manager_counts_evaluations() {
    let entries = vec![
        FeatureFlagEntry { key: "beta".into(), is_enabled: true, rollout_percentage: 100 },
        FeatureFlagEntry { key: "alpha".into(), is_enabled: false, rollout_percentage: 50 },
    ];
    let mut m = FeatureFlagManager::from_config(&entries);
    assert!(m.is_enabled("beta", None));
    assert!(m.is_enabled("beta", Some(42)));
    assert!(!m.is_enabled("alpha", Some(42)));
    assert!(!m.is_enabled("new_dashboard", None));
    assert!(!m.is_enabled("missing", None));
    let all = m.get_all_status();
    let keys: Vec<&str> = all.iter().map(|s| s.key.as_str()).collect();
    assert_eq!(keys, vec!["alpha", "beta", "new_dashboard"]);
    assert_eq!((all[1].evaluations, all[1].hits), (2, 2));
    assert_eq!((all[0].evaluations, all[0].hits), (1, 0));
    assert_eq!((all[2].evaluations, all[2].hits), (1, 0));
    m.update_flag(FeatureFlag {
        key: "new_dashboard".into(),
        is_enabled: true,
        rollout_percentage: 0,
        targeted_users: vec![7],
    });
    assert!(m.is_enabled("new_dashboard", Some(7)));
    assert!(!m.is_enabled("new_dashboard", Some(8)));
    assert_eq!(FeatureFlagMetrics::default(), FeatureFlagMetrics { evaluations: 0, hits: 0 });
    let e = flag_disabled_error("beta");
    assert_eq!(e.status, 404);
    assert_eq!(e.message, "This endpoint requires the 'beta' feature flag to be enabled");
}

#[test]
fn search_inputs_are_normalised() {
    assert_eq!(parse_networks("mainnet, testnet ,bogus,futurenet"), vec![Network::Mainnet, Network::Testnet, Network::Futurenet]);
    assert!(parse_networks("").is_empty());
    assert_eq!(search_query(Some("  token ")).unwrap(), "token");
    assert_eq!(search_query(Some("   ")).unwrap_err().code, "EMPTY_QUERY");
    assert_eq!(search_query(None).unwrap_err().status, 400);
    assert_eq!(trending_window(TrendingParams { hours: None, limit: None }, 10, 50), (24, 10));
    assert_eq!(trending_window(TrendingParams { hours: Some(0), limit: Some(500) }, 10, 50), (1, 50));
    assert_eq!(trending_window(TrendingParams { hours: Some(1000), limit: Some(0) }, 10, 50), (168, 1));
    assert_eq!(synonym_term("  Token ").unwrap(), "token");
    assert_eq!(synonym_term(" ").unwrap_err().code, "INVALID_TERM");
    assert_eq!(split_tags("a,b,,c"), vec!["a", "b", "", "c"]);
}

#[test]
fn partition_ddl_and_names() {
    assert_eq!(
        partition_ddl("interactions_partitioned", "p1", Some("2024-01-01T00:00:00Z"), Some("2024-02-01T00:00:00Z"), None).unwrap(),
        "CREATE TABLE IF NOT EXISTS p1 PARTITION OF interactions_partitioned FOR VALUES FROM ('2024-01-01T00:00:00Z') TO ('2024-02-01T00:00:00Z')"
    );
    assert_eq!(
        partition_ddl("audit_logs_partitioned", "p2", None, Some("x"), Some("v")).unwrap(),
        "CREATE TABLE IF NOT EXISTS p2 PARTITION OF audit_logs_partitioned FOR VALUES IN ('v')"
    );
    assert_eq!(partition_ddl("audit_logs_partitioned", "p3", Some("a"), None, None).unwrap_err().code, "INVALID_PARTITION_SPEC");
    assert_eq!(partition_ddl("users", "p4", Some("a"), Some("b"), None).unwrap_err().code, "INVALID_PARENT");
    assert_eq!(detach_ddl("t", "p"), "ALTER TABLE t DETACH PARTITION p");
    assert_eq!(next_month(2024, 12), (2025, 1));
    assert_eq!(next_month(2024, 1), (2024, 2));
    assert_eq!(interaction_partition_name(2024, 3), "interactions_p_2024_03");
    assert_eq!(interaction_partition_name(987, 11), "interactions_p_0987_11");
    assert_eq!(audit_partition_name(2025), "audit_logs_p_2025");
    assert_eq!(audit_partition_name(12345), "audit_logs_p_12345");
}

#[test]
fn archival_outcomes_and_errors() {
    let ok = run_outcome(Ok((10, 8)));
    assert_eq!((ok.status.as_str(), ok.rows_archived, ok.rows_deleted), ("completed", 10, 8));
    assert!(ok.error_message.is_none());
    let bad = run_outcome(Err("disk full".into()));
    assert_eq!((bad.status.as_str(), bad.rows_archived, bad.rows_deleted), ("failed", 0, 0));
    assert_eq!(bad.error_message.as_deref(), Some("disk full"));
    assert_eq!(retention_cutoff(1_000_000, 2), 1_000_000 - 172_800);
    assert_eq!(no_enabled_policies().code, "NO_ENABLED_POLICIES");
    let e = policy_not_found("logs");
    assert_eq!((e.status, e.message.as_str()), (404, "Policy 'logs' not found"));
}

#[test]
fn namespaces_keep_equal_keys_apart() {
    assert_ne!(namespaced_key("ns1", "key1"), namespaced_key("ns2", "key1"));
    assert_ne!(namespaced_key("system", "a"), namespaced_key("system", "b"));
    assert_eq!(namespaced_key("meta", "C1"), "meta:C1");
}

#[test]
fn contract_access_refresh_is_debounced() {
    assert_eq!(CONTRACT_ACCESS_DEBOUNCE_SECS, 60);
    assert!(contract_access_refresh_due(true, None));
    assert!(!contract_access_refresh_due(true, Some(0)));
    assert!(!contract_access_refresh_due(true, Some(59)));
    assert!(contract_access_refresh_due(true, Some(60)));
    assert!(contract_access_refresh_due(false, Some(0)));
}
