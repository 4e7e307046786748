use api::batch_verify::{
    basic_verdict, check_batch_size, failed_item, full_verdict, item_verdict, parse_level,
    strict_inputs_present, summarize_results, wants_source_check, BatchItemResult,
    BatchJobStatus, BatchJobStore, BatchRejection, OnChainSummary, VerifyLevel, MAX_JOB_BATCH,
    SYNC_BATCH_LIMIT,
};

fn item(id: &str, verified: bool, error: Option<&str>) -> BatchItemResult {
    BatchItemResult {
        contract_id: id.to_string(),
        verified,
        error: error.map(|e| e.to_string()),
        network: None,
        wasm_hash_matches: None,
        abi_valid: None,
    }
}

#[test]
fn partial_failure_status_when_some_contracts_fail() {
    let results = vec![
        BatchItemResult {
            contract_id: "CA".to_string(),
            verified: true,
            error: None,
            network: Some("testnet".to_string()),
            wasm_hash_matches: Some(true),
            abi_valid: Some(true),
        },
        BatchItemResult {
            contract_id: "CB".to_string(),
            verified: false,
            error: Some("contract not found in registry".to_string()),
            network: None,
            wasm_hash_matches: None,
            abi_valid: None,
        },
    ];
    let (verified, failed, status) = summarize_results(&results);
    assert_eq!(status, BatchJobStatus::PartialFailure);
    assert_eq!(verified, 1);
    assert_eq!(failed, 1);
}

#[test]
fn all_failed_produces_failed_status() {
    let results = vec![item("CA", false, Some("not found")), item("CB", false, Some("not found"))];
    let (_, _, status) = summarize_results(&results);
    assert_eq!(status, BatchJobStatus::Failed);
}

#[test]
fn get_job_returns_404_for_unknown_id() {
    let jobs = BatchJobStore::new();
    let id = uuid::Uuid::new_v4().as_u128();
    assert!(jobs.get(id).is_none());
}

#[test]
fn all_verified_completes_and_empty_completes() {
    let results = vec![item("CA", true, None), item("CB", true, None)];
    assert_eq!(summarize_results(&results), (2, 0, BatchJobStatus::Completed));
    assert_eq!(summarize_results(&vec![]), (0, 0, BatchJobStatus::Completed));
}

#[test]
fn batch_sizes_are_bounded() {
    assert_eq!(check_batch_size(0, SYNC_BATCH_LIMIT), Err(BatchRejection::Empty));
    assert_eq!(check_batch_size(1, SYNC_BATCH_LIMIT), Ok(()));
    assert_eq!(check_batch_size(50, SYNC_BATCH_LIMIT), Ok(()));
    assert_eq!(
        check_batch_size(51, SYNC_BATCH_LIMIT),
        Err(BatchRejection::TooLarge { limit: 50, submitted: 51 })
    );
    assert_eq!(check_batch_size(500, MAX_JOB_BATCH), Ok(()));
    assert_eq!(
        check_batch_size(501, MAX_JOB_BATCH),
        Err(BatchRejection::TooLarge { limit: 500, submitted: 501 })
    );
}

#[test]
fn job_store_records_submission_and_completion() {
    let mut jobs = BatchJobStore::new();
    jobs.submit(7, 2);
    let j = jobs.get(7).expect("submitted");
    assert_eq!(j.status, BatchJobStatus::Processing);
    assert_eq!((j.total, j.verified, j.failed), (2, 0, 0));
    assert!(j.completed_at.is_none());
    jobs.complete(7, vec![item("CA", true, None), item("CB", false, Some("x"))], 99);
    let j = jobs.get(7).expect("completed");
    assert_eq!(j.status, BatchJobStatus::PartialFailure);
    assert_eq!((j.total, j.verified, j.failed), (2, 1, 1));
    assert_eq!(j.completed_at, Some(99));
    assert_eq!(j.results.len(), 2);
    jobs.complete(8, vec![item("CC", true, None)], 100);
    assert!(jobs.get(8).is_none());
}

fn summary(exists: bool, hash: bool, abi: bool, reasons: &[&str]) -> OnChainSummary {
    OnChainSummary {
        contract_exists_on_chain: exists,
        wasm_hash_matches: hash,
        abi_valid: abi,
        failure_reasons: reasons.iter().map(|r| r.to_string()).collect(),
    }
}

#[test]
fn item_verdict_joins_reasons() {
    let ok = item_verdict("CA".into(), "testnet".into(), &summary(true, true, true, &[]), true);
    assert!(ok.verified);
    assert!(ok.error.is_none());
    assert_eq!(ok.network.as_deref(), Some("testnet"));
    assert_eq!((ok.wasm_hash_matches, ok.abi_valid), (Some(true), Some(true)));
    let bad = item_verdict(
        "CB".into(),
        "mainnet".into(),
        &summary(true, false, true, &["hash mismatch", "abi drift"]),
        true,
    );
    assert!(!bad.verified);
    assert_eq!(bad.error.as_deref(), Some("hash mismatch; abi drift"));
    let src = item_verdict("CC".into(), "testnet".into(), &summary(true, true, true, &[]), false);
    assert!(!src.verified);
    assert!(src.error.is_none());
    let f = failed_item("CD".into(), "contract not found in registry".into(), None);
    assert!(!f.verified);
    assert_eq!(f.error.as_deref(), Some("contract not found in registry"));
    assert!(f.network.is_none() && f.wasm_hash_matches.is_none() && f.abi_valid.is_none());
}

#[test]
fn levels_and_verdicts() {
    assert_eq!(parse_level(None), VerifyLevel::Standard);
    assert_eq!(parse_level(Some("basic")), VerifyLevel::Basic);
    assert_eq!(parse_level(Some("strict")), VerifyLevel::Strict);
    assert_eq!(parse_level(Some("standard")), VerifyLevel::Standard);
    assert_eq!(parse_level(Some("BASIC")), VerifyLevel::Other);
    assert!(strict_inputs_present(Some("fn main"), Some("21.0")));
    assert!(!strict_inputs_present(Some("  "), Some("21.0")));
    assert!(!strict_inputs_present(Some("fn main"), None));
    assert!(wants_source_check(Some("src"), Some("")));
    assert!(!wants_source_check(Some(" "), Some("21")));
    assert!(!wants_source_check(None, Some("21")));
    assert!(basic_verdict(&summary(true, true, false, &[])));
    assert!(!basic_verdict(&summary(false, true, true, &[])));
    assert!(full_verdict(&summary(true, true, true, &[]), None));
    assert!(!full_verdict(&summary(true, true, true, &[]), Some(None)));
    assert!(full_verdict(&summary(true, true, true, &[]), Some(Some(true))));
    assert!(!full_verdict(&summary(true, true, false, &[]), Some(Some(true))));
}
