use api::analytics::{
    build_csv, default_format, default_limit, growth, has_next_page, interactions_cache_key,
    is_error_interaction, listing_contract_id, merge_breakdown, page_bounds, resolve_ranges, serves_from_cache,
    sort_listing, BreakdownRow, CsvRow,
};
use api::state_monitor::{
    diff_snapshots, live_rows, monitor_disabled, page_limit, parse_anchor, parse_contract_id,
    prefix_param_error,
    replace_str, Anchor, StateRow,
};
use chrono::{Datelike, Utc};

fn sv(key: &str, value: Option<&str>) -> StateRow {
    StateRow {
        state_key: key.to_string(),
        value: value.map(|v| v.to_string()),
        value_type: Some("string".to_string()),
    }
}

/// Keys of the three parts of a diff.
fn diff_pure(from: Vec<StateRow>, to: Vec<StateRow>) -> (Vec<String>, Vec<String>, Vec<String>) {
    let d = diff_snapshots(&from, &to);
    (
        d.added.iter().map(|e| e.state_key.clone()).collect(),
        d.removed.iter().map(|e| e.state_key.clone()).collect(),
        d.changed.iter().map(|e| e.state_key.clone()).collect(),
    )
}

#[test]
fn diff_added_removed_changed() {
    let (a, r, c) = diff_pure(
        vec![sv("a", Some("1")), sv("b", Some("x")), sv("c", Some("keep"))],
        vec![sv("a", Some("2")), sv("c", Some("keep")), sv("d", Some("new"))],
    );
    assert_eq!(a, vec!["d"]);
    assert_eq!(r, vec!["b"]);
    assert_eq!(c, vec!["a"]);
}

#[test]
fn diff_empty_when_identical() {
    let (a, r, c) = diff_pure(vec![sv("a", Some("1"))], vec![sv("a", Some("1"))]);
    assert!(a.is_empty() && r.is_empty() && c.is_empty());
}

#[test]
fn diff_null_value_treated_as_changed() {
    let (a, r, c) = diff_pure(vec![sv("a", Some("1"))], vec![]);
    assert!(a.is_empty() && c.is_empty());
    assert_eq!(r, vec!["a"]);
}

#[test]
fn diff_parts_carry_values_and_are_sorted() {
    let d = diff_snapshots(
        &vec![sv("z", Some("1")), sv("m", Some("old")), sv("m", Some("older"))],
        &vec![sv("m", Some("new")), sv("b", Some("2")), sv("a", Some("3"))],
    );
    let added: Vec<&str> = d.added.iter().map(|e| e.state_key.as_str()).collect();
    assert_eq!(added, vec!["a", "b"]);
    assert_eq!(d.added[0].value.as_deref(), Some("3"));
    assert_eq!(d.removed.len(), 1);
    assert_eq!(d.removed[0].value.as_deref(), Some("1"));
    assert_eq!(d.changed.len(), 1);
    assert_eq!(d.changed[0].state_key, "m");
    assert_eq!(d.changed[0].from_value.as_deref(), Some("older"));
    assert_eq!(d.changed[0].to_value.as_deref(), Some("new"));
}

#[test]
fn deleted_rows_drop_out_of_snapshots() {
    let rows = vec![sv("a", Some("1")), sv("b", None), sv("c", Some("3"))];
    let live = live_rows(&rows);
    let keys: Vec<&str> = live.iter().map(|r| r.state_key.as_str()).collect();
    assert_eq!(keys, vec!["a", "c"]);
}

#[test]
fn anchors_and_limits() {
    assert_eq!(parse_anchor(Some(5), None).unwrap(), Anchor::Ledger(5));
    assert_eq!(parse_anchor(None, Some(10)).unwrap(), Anchor::Timestamp(10));
    let both = parse_anchor(Some(1), Some(2)).unwrap_err();
    assert_eq!(both.status, 400);
    assert_eq!(both.message, "supply exactly one of `ledger` or `timestamp`, not both");
    assert_eq!(parse_anchor(None, None).unwrap_err().message, "supply one of `ledger` or `timestamp`");
    let neg = parse_anchor(Some(-1), None).unwrap_err();
    assert_eq!(neg.message, "`ledger` must be non-negative");
    let prefixed = prefix_param_error(neg, "from_");
    assert_eq!(prefixed.message, "`from_ledger` must be non-negative");
    let both = prefix_param_error(parse_anchor(Some(1), Some(2)).unwrap_err(), "to_");
    assert_eq!(both.message, "supply exactly one of `to_ledger` or `to_timestamp`, not both");
    assert_eq!(replace_str("aaa", "aa", "b"), "ba");
    assert_eq!(page_limit(None), 50);
    assert_eq!(page_limit(Some(0)), 1);
    assert_eq!(page_limit(Some(5000)), 1000);
    assert_eq!(page_limit(Some(20)), 20);
    assert_eq!(monitor_disabled().status, 503);
}

#[test]
fn resolve_ranges_defaults_to_last_30_days() {
    let today = Utc::now().date_naive().num_days_from_ce();
    let r = resolve_ranges(None, None, today).expect("range should resolve");
    assert_eq!(r.until, today as i64);
    assert_eq!(r.since, r.until - 29);
    assert_eq!(r.previous_until, r.since - 1);
    assert_eq!(r.previous_since, r.previous_until - 29);
    assert_eq!(r.time_series_since, r.since);
}

#[test]
fn resolve_ranges_with_explicit_bounds() {
    let r = resolve_ranges(Some(100), Some(109), 500).unwrap();
    assert_eq!((r.since, r.until, r.previous_since, r.previous_until, r.time_series_since), (100, 109, 90, 99, 100));
    let long = resolve_ranges(Some(0), Some(99), 500).unwrap();
    assert_eq!(long.time_series_since, 70);
    assert_eq!(long.previous_since, -100);
    let bad = resolve_ranges(Some(10), Some(9), 500).unwrap_err();
    assert_eq!((bad.status, bad.code.as_str()), (400, "InvalidDateRange"));
}

fn row(name: &str, count: i64, verified: i64) -> BreakdownRow {
    BreakdownRow { name: name.to_string(), contract_count: count, verified_count: verified }
}

#[test]
fn breakdowns_merge_and_sort() {
    assert_eq!(growth(10, 4), 6);
    assert_eq!(growth(0, 4), -4);
    let current = vec![row("testnet", 5, 2), row("mainnet", 9, 9), row("futurenet", 5, 0)];
    let previous = vec![row("mainnet", 3, 3), row("testnet", 1, 0), row("mainnet", 4, 4)];
    let merged = merge_breakdown(&current, &previous);
    assert_eq!(merged.len(), 3);
    assert_eq!((merged[0].previous_contract_count, merged[0].contract_growth), (1, 4));
    assert_eq!((merged[1].previous_contract_count, merged[1].contract_growth), (4, 5));
    assert_eq!((merged[2].previous_contract_count, merged[2].contract_growth), (0, 5));
    let sorted = sort_listing(merged);
    let names: Vec<&str> = sorted.iter().map(|e| e.name.as_str()).collect();
    assert_eq!(names, vec!["mainnet", "futurenet", "testnet"]);
}

#[test]
fn interaction_listing_helpers() {
    assert_eq!(default_limit(), 50);
    assert_eq!(default_format(), "json");
    assert_eq!(page_bounds(0, -5, false), (1, 0));
    assert_eq!(page_bounds(500, 30, false), (100, 30));
    assert_eq!(page_bounds(20, 30, true), (20, 0));
    assert!(serves_from_cache("json"));
    assert!(!serves_from_cache("csv"));
    assert_eq!(
        interactions_cache_key("C1", 50, 0, None, Some("2024-01-01"), None, Some("transfer")),
        "C1:50:0::2024-01-01::transfer"
    );
    assert_eq!(interactions_cache_key("C1", -3, 7, Some("cur"), None, None, None), "C1:-3:7:cur:::");
    assert!(is_error_interaction("publish_failed"));
    assert!(!is_error_interaction("publish_success"));
    assert!(has_next_page(50, 50));
    assert!(!has_next_page(49, 50));
}

#[test]
fn csv_export_has_header_and_lines() {
    let rows = vec![
        CsvRow {
            id: "1".into(),
            caller: Some("GA".into()),
            function: None,
            transaction_hash: Some("ab".into()),
            timestamp: "2024-01-01T00:00:00Z".into(),
            is_error: false,
        },
        CsvRow {
            id: "2".into(),
            caller: None,
            function: Some("f".into()),
            transaction_hash: None,
            timestamp: "t".into(),
            is_error: true,
        },
    ];
    assert_eq!(
        build_csv(&rows),
        "id,caller,function,transaction_hash,timestamp,is_error\n1,GA,,ab,2024-01-01T00:00:00Z,false\n2,,f,,t,true\n"
    );
    assert_eq!(build_csv(&vec![]), "id,caller,function,transaction_hash,timestamp,is_error\n");
}

#[test]
fn contract_ids_must_be_uuids() {
    let id = "67e55044-10b1-426f-9247-bb680e5fe0c8";
    let expected = uuid::Uuid::parse_str(id).unwrap().as_u128();
    assert_eq!(listing_contract_id(id), Ok(expected));
    assert_eq!(listing_contract_id("67e5504410b1426f9247bb680e5fe0c8"), Ok(expected));
    let e = listing_contract_id("not-a-uuid").unwrap_err();
    assert_eq!((e.status, e.code.as_str(), e.message.as_str()), (400, "InvalidContractId", "Invalid contract ID format: not-a-uuid"));
    assert_eq!(parse_contract_id(id), Ok(expected));
    assert_eq!(parse_contract_id("").unwrap_err().message, "contract_id must be a valid UUID");
}
