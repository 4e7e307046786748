use api::usdc_scanner::{
    classify_confirm_status, cursor_after_outcomes, is_marketplace_memo, memo_of_transaction,
    parse_amount_to_stroops, screen_payment, AmountError, ConfirmOutcome, HorizonPayment, MemoRead,
    PollCycle, ScannerConfig, Screening,
};

#[test]
fn amount_parsing() {
    assert_eq!(parse_amount_to_stroops("1").unwrap(), 10_000_000);
    assert_eq!(parse_amount_to_stroops("1.0").unwrap(), 10_000_000);
    assert_eq!(parse_amount_to_stroops("1.0000001").unwrap(), 10_000_001);
    assert_eq!(parse_amount_to_stroops("29.99").unwrap(), 299_900_000);
    assert_eq!(parse_amount_to_stroops("0.0000001").unwrap(), 1);
    assert!(parse_amount_to_stroops("1.00000001").is_err());
    assert!(parse_amount_to_stroops("not-a-number").is_err());
}

#[test]
fn amount_parsing_error_kinds_and_edges() {
    assert_eq!(parse_amount_to_stroops("1.00000001"), Err(AmountError::TooManyDecimals));
    assert_eq!(parse_amount_to_stroops("abc"), Err(AmountError::BadInteger));
    assert_eq!(parse_amount_to_stroops(".5"), Err(AmountError::BadInteger));
    assert_eq!(parse_amount_to_stroops("1.x"), Err(AmountError::BadFraction));
    assert_eq!(parse_amount_to_stroops("1."), Ok(10_000_000));
    assert_eq!(parse_amount_to_stroops("+2.5"), Ok(25_000_000));
    assert_eq!(parse_amount_to_stroops("-1.5"), Ok(-15_000_000));
    assert_eq!(parse_amount_to_stroops("-0.5"), Ok(-5_000_000));
    assert_eq!(parse_amount_to_stroops("-922337203685.4775808"), Ok(i64::MIN));
    assert_eq!(parse_amount_to_stroops("-922337203685.4775809"), Err(AmountError::Overflow));
    assert_eq!(parse_amount_to_stroops("922337203685.4775807"), Ok(i64::MAX));
    assert_eq!(parse_amount_to_stroops("922337203686"), Err(AmountError::Overflow));
    assert_eq!(parse_amount_to_stroops("1.2.3"), Err(AmountError::BadFraction));
}

fn simulate_cursor_advance(outcomes: &[(&str, ConfirmOutcome)]) -> Option<String> {
    let v: Vec<(String, ConfirmOutcome)> =
        outcomes.iter().map(|(t, o)| (t.to_string(), *o)).collect();
    cursor_after_outcomes(&v)
}

#[test]
fn cursor_halts_on_first_transient_failure() {
    let advance = simulate_cursor_advance(&[
        ("token-1", ConfirmOutcome::Handled),
        ("token-2", ConfirmOutcome::Handled),
        ("token-3", ConfirmOutcome::Transient),
        ("token-4", ConfirmOutcome::Handled),
    ]);
    assert_eq!(advance.as_deref(), Some("token-2"));
}

#[test]
fn cursor_advances_when_all_handled() {
    let advance = simulate_cursor_advance(&[
        ("token-1", ConfirmOutcome::Handled),
        ("token-2", ConfirmOutcome::Handled),
        ("token-3", ConfirmOutcome::Handled),
    ]);
    assert_eq!(advance.as_deref(), Some("token-3"));
}

#[test]
fn cursor_unchanged_when_first_is_transient() {
    let advance = simulate_cursor_advance(&[
        ("token-1", ConfirmOutcome::Transient),
        ("token-2", ConfirmOutcome::Handled),
    ]);
    assert_eq!(advance, None);
}

fn config() -> ScannerConfig {
    ScannerConfig::from_settings(
        Some("GRECEIVER".to_string()),
        Some("GISSUER".to_string()),
        None,
        None,
        Some("http://localhost:3001".to_string()),
        Some("token".to_string()),
    )
    .unwrap()
    .unwrap()
}

#[test]
fn config_defaults_and_requirements() {
    let c = config();
    assert_eq!(c.network, "testnet");
    assert_eq!(c.horizon_url, "https://horizon-testnet.stellar.org");
    let public = ScannerConfig::from_settings(
        Some("G".into()),
        Some("I".into()),
        Some("public".into()),
        None,
        Some("u".into()),
        Some("t".into()),
    )
    .unwrap()
    .unwrap();
    assert_eq!(public.horizon_url, "https://horizon.stellar.org");
    assert!(ScannerConfig::from_settings(Some("".into()), None, None, None, None, None)
        .unwrap()
        .is_none());
    assert!(ScannerConfig::from_settings(Some("G".into()), None, None, None, None, None).is_err());
    assert_eq!(
        c.payments_url(Some("123")),
        "https://horizon-testnet.stellar.org/accounts/GRECEIVER/payments?order=asc&limit=50&cursor=123"
    );
    assert_eq!(c.confirm_url(), "http://localhost:3001/api/marketplace/usdc/confirm");
}

fn payment(kind: &str, to: &str, code: &str, amount: Option<&str>) -> HorizonPayment {
    HorizonPayment {
        paging_token: "p1".into(),
        type_field: kind.into(),
        transaction_hash: Some("abc".into()),
        to: Some(to.into()),
        amount: amount.map(String::from),
        asset_code: Some(code.into()),
        asset_issuer: Some("GISSUER".into()),
    }
}

#[test]
fn screening_payments() {
    let c = config();
    assert_eq!(
        screen_payment(&c, &payment("payment", "GRECEIVER", "USDC", Some("29.99"))),
        Screening::Candidate { tx_hash: "abc".into(), stroops: 299_900_000 }
    );
    assert_eq!(
        screen_payment(&c, &payment("path_payment_strict_send", "GRECEIVER", "USDC", None)),
        Screening::Candidate { tx_hash: "abc".into(), stroops: 0 }
    );
    assert_eq!(screen_payment(&c, &payment("create_account", "GRECEIVER", "USDC", Some("1"))), Screening::Skip);
    assert_eq!(screen_payment(&c, &payment("payment", "GOTHER", "USDC", Some("1"))), Screening::Skip);
    assert_eq!(screen_payment(&c, &payment("payment", "GRECEIVER", "EURC", Some("1"))), Screening::Skip);
    assert_eq!(screen_payment(&c, &payment("payment", "GRECEIVER", "USDC", Some("1.123456789"))), Screening::Skip);
}

#[test]
fn memo_and_status_classification() {
    assert_eq!(memo_of_transaction(Some("mp-1".into()), &Some("text".into())), Some("mp-1".to_string()));
    assert_eq!(memo_of_transaction(Some("mp-1".into()), &Some("hash".into())), None);
    assert!(is_marketplace_memo("mp-abc"));
    assert!(!is_marketplace_memo("mpx"));
    assert_eq!(classify_confirm_status(Some(200)), ConfirmOutcome::Handled);
    assert_eq!(classify_confirm_status(Some(404)), ConfirmOutcome::Handled);
    assert_eq!(classify_confirm_status(Some(409)), ConfirmOutcome::Handled);
    assert_eq!(classify_confirm_status(Some(422)), ConfirmOutcome::Handled);
    assert_eq!(classify_confirm_status(Some(503)), ConfirmOutcome::Transient);
    assert_eq!(classify_confirm_status(Some(302)), ConfirmOutcome::Transient);
    assert_eq!(classify_confirm_status(None), ConfirmOutcome::Transient);
}

#[test]
fn poll_cycle_counts_confirmed_payments() {
    let mut cycle = PollCycle::new();
    cycle.skip(&"t1".to_string());
    cycle.record_confirm(&"t2".to_string(), &"h2".to_string(), ConfirmOutcome::Handled);
    assert_eq!(cycle.processed, 1);
    assert_eq!(cycle.advance_to_tx.as_deref(), Some("h2"));
    cycle.halt();
    assert!(cycle.halted);
    assert_eq!(cycle.advance_to_token.as_deref(), Some("t2"));
}

#[test]
fn memo_reads_decide_the_payment() {
    let mut c = PollCycle::new();
    let token = "t1".to_string();
    assert_eq!(c.after_memo(&token, MemoRead::Found("mp-abc".into())), Some("mp-abc".to_string()));
    assert!(c.advance_to_token.is_none() && !c.halted);
    assert_eq!(c.after_memo(&token, MemoRead::Found("hello".into())), None);
    assert_eq!(c.advance_to_token.as_deref(), Some("t1"));
    let t2 = "t2".to_string();
    assert_eq!(c.after_memo(&t2, MemoRead::Missing), None);
    assert_eq!(c.advance_to_token.as_deref(), Some("t2"));
    assert!(!c.halted);
    let t3 = "t3".to_string();
    assert_eq!(c.after_memo(&t3, MemoRead::Failed), None);
    assert!(c.halted);
    assert_eq!(c.advance_to_token.as_deref(), Some("t2"));
}
