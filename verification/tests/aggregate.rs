//! Aggregation: the provider registry, the mock institution, provider type
//! mapping, the sync run and webhooks.

use std::hash::{Hash, Hasher};
use ultimate_finance::aggregate::{
    agg_err, canned, canned_transactions, default_status, map_type, AggregatorError, MockAggregator, Provider,
    Registry, SyncPage, plaid_account, plaid_txn
};
use ultimate_finance::dates::{days_before, is_valid_date, parse_date, today_utc};
use ultimate_finance::error::ApiError;
use ultimate_finance::ids::{fresh_id, now_nanos, uuid_to_string};
use ultimate_finance::models::{AccountType, Connection, ConnectionStatus, Date, User};
use ultimate_finance::service::{
    authenticate, authorize_connection, create_transaction, event_key_of, list_connections, list_transactions,
    mock_connect, plaid_webhook, signup, CreateTransactionReq, ListTxQuery, SignupReq, WebhookOutcome,
};
use ultimate_finance::store::{MemoryStore, StoreError};
use ultimate_finance::sync::SyncRun;

fn test_connection(id: u128, cursor: Option<&str>) -> Connection {
    Connection {
        id,
        household_id: 7,
        provider: "mock".into(),
        external_item_id: Some("x".into()),
        access_token: Some("t".into()),
        cursor: cursor.map(|c| c.to_string()),
        status: ConnectionStatus::Connected,
        institution_name: None,
        created_at: 0,
    }
}

/// Drives a sync against the mock institution, as the server does.
fn sync_mock(store: &mut MemoryStore, conn: &Connection) -> Result<usize, AggregatorError> {
    let registry: Registry<()> = Registry { plaid: None };
    let (provider, mut run) = SyncRun::start(&registry, store, conn)?;
    let mock = match provider {
        Provider::Mock(m) => m,
        Provider::Plaid(_) => panic!("the test registry has no real provider"),
    };
    run.record_accounts(store, mock.accounts(conn)?)?;
    loop {
        let page: SyncPage = mock.transactions(conn, run.cursor.as_deref())?;
        if !run.record_page(store, page)? {
            break;
        }
    }
    run.finish(store)
}

fn signup_as(store: &mut MemoryStore, email: &str) -> (User, u128) {
    let ok = signup(
        store,
        SignupReq {
            email: email.to_string(),
            password: "correct-horse-battery".to_string(),
            display_name: "Blake Tester".to_string(),
        },
    )
    .expect("signup");
    (ok.user, ok.household.id)
}

#[test]
fn type_mapping_covers_common_cases() {
    assert_eq!(map_type("depository", Some("checking")), AccountType::Checking);
    assert_eq!(map_type("depository", Some("savings")), AccountType::Savings);
    assert_eq!(map_type("credit", Some("credit card")), AccountType::CreditCard);
    assert_eq!(map_type("loan", Some("mortgage")), AccountType::Mortgage);
    assert_eq!(map_type("investment", Some("401k")), AccountType::Brokerage);
    assert_eq!(map_type("weird", None), AccountType::Other);
}

#[test]
fn type_mapping_other_subtypes() {
    assert_eq!(map_type("depository", Some("cd")), AccountType::Savings);
    assert_eq!(map_type("depository", Some("hsa")), AccountType::Savings);
    assert_eq!(map_type("depository", Some("money market")), AccountType::Savings);
    assert_eq!(map_type("depository", None), AccountType::Other);
    assert_eq!(map_type("investment", Some("529")), AccountType::Retirement);
    assert_eq!(map_type("investment", Some("retirement")), AccountType::Retirement);
    assert_eq!(map_type("loan", Some("student")), AccountType::Loan);
    assert!(AccountType::CreditCard.is_liability() && AccountType::Loan.is_liability());
    assert!(!AccountType::Checking.is_liability() && !AccountType::Other.is_liability());
}

#[test]
fn date_parsing_is_strict_iso() {
    assert_eq!(parse_date("2026-08-26"), Some(Date::new(2026, 8, 26)));
    assert_eq!(parse_date("2026-01-05"), Some(Date::new(2026, 1, 5)));
    assert_eq!(parse_date("2024-02-29"), Some(Date::new(2024, 2, 29)));
    assert_eq!(parse_date("2026-02-29"), None);
    assert_eq!(parse_date("2026-13-01"), None);
    assert_eq!(parse_date("2026-08"), None);
    assert_eq!(parse_date("2026-08-x1"), None);
    assert!(is_valid_date(2000, 2, 29) && !is_valid_date(1900, 2, 29));
}

#[test]
fn registry_resolves_providers() {
    let none: Registry<u8> = Registry { plaid: None };
    let some: Registry<u8> = Registry { plaid: Some(5) };
    assert!(matches!(none.get("mock"), Ok(Provider::Mock(_))));
    assert!(matches!(none.get("plaid"), Err(AggregatorError::NotConfigured)));
    assert!(matches!(some.get("plaid"), Ok(Provider::Plaid(5))));
    assert!(matches!(none.get("teller"), Err(AggregatorError::Unsupported("unknown provider"))));
    assert!(none.has("mock") && !none.has("plaid") && some.has("plaid") && !some.has("teller"));
    assert_eq!(Provider::<u8>::Mock(MockAggregator).name(), "mock");
    assert_eq!(Provider::Plaid(1u8).name(), "plaid");
}

#[test]
fn aggregator_errors_map_to_api_errors() {
    assert!(matches!(agg_err(AggregatorError::NotConfigured), ApiError::Conflict(m) if m == "provider not configured on this server"));
    assert!(matches!(agg_err(AggregatorError::Unsupported("nope")), ApiError::Validation(m) if m == "nope"));
    assert!(matches!(agg_err(AggregatorError::Provider("ITEM_LOGIN_REQUIRED: x".into())), ApiError::Conflict(m) if m == "provider error: ITEM_LOGIN_REQUIRED: x"));
    assert!(matches!(agg_err(AggregatorError::Store(StoreError::NotFound("connection"))), ApiError::NotFound));
}

#[test]
fn mock_provider_contract_holds_directly() {
    let conn = test_connection(0x1234, None);
    let m = MockAggregator;
    let accts = m.accounts(&conn).unwrap();
    assert_eq!(accts.len(), 2);
    assert_eq!(accts[0].current_balance_minor, 152_340);

    let page1 = m.transactions(&conn, None).unwrap();
    assert_eq!(page1.txns.len(), 3);
    assert!(page1.has_more);
    let page2 = m.transactions(&conn, Some(&page1.next_cursor)).unwrap();
    assert_eq!(page2.txns.len(), 3);
    let page3 = m.transactions(&conn, Some(&page2.next_cursor)).unwrap();
    assert_eq!(page3.txns.len(), 3);
    assert!(!page3.has_more);
    let page4 = m.transactions(&conn, Some(&page3.next_cursor)).unwrap();
    assert!(page4.txns.is_empty());
    assert_eq!(page4.next_cursor, "9");
    assert_eq!(m.transactions(&conn, Some("garbage")).unwrap().next_cursor, "3");
    assert_eq!(m.transactions(&conn, Some("100")).unwrap().txns.len(), 0);
    assert_eq!(default_status(), ConnectionStatus::Connected);
}

#[test]
fn canned_feed_is_prefixed_by_the_connection() {
    let rows = canned();
    assert_eq!(rows.len(), 9);
    assert_eq!(rows[6].4, None);
    let id = 0x0123_4567_89ab_cdef_0123_4567_89ab_cdefu128;
    let feed = canned_transactions(id);
    assert_eq!(uuid_to_string(id), "01234567-89ab-cdef-0123-456789abcdef");
    assert_eq!(feed[0].external_id, "01234567-89ab-cdef-0123-456789abcdef-mc-1");
    assert_eq!(feed[0].posted_on, Date::new(2026, 8, 25));
    assert_eq!(feed[0].description.as_deref(), Some("Coffee Bar purchase"));
    assert_eq!(feed[6].description, None);
    assert_eq!(feed[2].amount_minor, 10_000_000);
}

#[test]
fn mock_connect_syncs_accounts_and_transactions() {
    let mut store = MemoryStore::new();
    let (user, hh) = signup_as(&mut store, "agg@example.com");
    let conn = mock_connect(&mut store, &user, hh, false).unwrap();
    assert_eq!(conn.institution_name.as_deref(), Some("Mock Bank"));
    assert_eq!(conn.external_item_id, Some(format!("mock-item-{}", uuid_to_string(conn.id))));

    assert_eq!(sync_mock(&mut store, &conn).unwrap(), 9, "all canned txns on first sync");
    let accounts = store.accounts_for_connection(conn.id);
    assert_eq!(accounts.len(), 2);
    let checking = accounts.iter().find(|a| a.name == "Mock Everyday Checking").unwrap();
    assert_eq!(checking.current_balance_minor, 152_340);
    assert_eq!(checking.connection_id, Some(conn.id));

    let list = list_transactions(&store, &user, ListTxQuery { household_id: hh, account_id: None, before: None, limit: Some(100) })
        .unwrap();
    assert_eq!(list.transactions.len(), 9);

    // Sync again: idempotent, no duplicates; the cursor sits at the end.
    let again = store.get_connection(conn.id).unwrap();
    assert_eq!(again.cursor.as_deref(), Some("9"));
    assert_eq!(sync_mock(&mut store, &conn).unwrap(), 0, "second sync must insert nothing");

    // Manual transactions on a synced account don't fight the provider.
    create_transaction(
        &mut store,
        &user,
        CreateTransactionReq {
            account_id: checking.id,
            posted_on: Date::new(2026, 8, 26),
            amount_minor: -999,
            merchant_raw: Some("Manual Note".into()),
            description: None,
        },
    )
    .unwrap();
    assert_eq!(store.get_account(checking.id).unwrap().current_balance_minor, 152_340);
}

#[test]
fn connection_routes_enforce_membership() {
    let mut store = MemoryStore::new();
    let (alice, alice_hh) = signup_as(&mut store, "alice@example.com");
    let (bob, _) = signup_as(&mut store, "bob@example.com");
    assert!(matches!(mock_connect(&mut store, &bob, alice_hh, false), Err(ApiError::Forbidden)));
    let conn = mock_connect(&mut store, &alice, alice_hh, false).unwrap();
    assert!(matches!(list_connections(&store, &bob, alice_hh), Err(ApiError::Forbidden)));
    assert!(matches!(authorize_connection(&store, &bob, conn.id), Err(ApiError::Forbidden)));
    assert_eq!(list_connections(&store, &alice, alice_hh).unwrap().len(), 1);
    // The mock route does not exist in production.
    assert!(matches!(mock_connect(&mut store, &alice, alice_hh, true), Err(ApiError::NotFound)));
}

#[test]
fn sync_requires_existing_connection() {
    let mut store = MemoryStore::new();
    let (user, _) = signup_as(&mut store, "ghost@example.com");
    assert!(matches!(authorize_connection(&store, &user, 42), Err(ApiError::NotFound)));
    // Finishing a sync of a connection that is not stored reports it missing.
    let conn = test_connection(42, None);
    assert!(matches!(sync_mock(&mut store, &conn), Err(AggregatorError::Store(StoreError::NotFound(_)))));
}

#[test]
fn sync_without_credential_is_refused() {
    let mut store = MemoryStore::new();
    let mut conn = test_connection(3, None);
    conn.access_token = None;
    match sync_mock(&mut store, &conn) {
        Err(AggregatorError::Provider(m)) => assert_eq!(m, "connection missing credential"),
        _ => panic!("expected a provider error"),
    }
}

#[test]
fn plaid_webhook_is_idempotent_and_triggers_one_sync() {
    let mut store = MemoryStore::new();
    let (user, hh) = signup_as(&mut store, "hook@example.com");
    let conn = mock_connect(&mut store, &user, hh, false).unwrap();
    let item_id = format!("mock-item-{}", conn.external_item_id.clone().unwrap());
    let body = format!(
        "{{\"item_id\":\"{item_id}\",\"webhook_code\":\"SYNC_UPDATES_RECEIVED\",\"webhook_type\":\"TRANSACTIONS\"}}"
    );
    // The item is not a plaid one, so nothing matches, but dedup still applies.
    assert!(matches!(plaid_webhook(&mut store, &body, &item_id, "SYNC_UPDATES_RECEIVED"), WebhookOutcome::Unmatched));
    assert!(matches!(plaid_webhook(&mut store, &body, &item_id, "SYNC_UPDATES_RECEIVED"), WebhookOutcome::Duplicate));
    // Unknown items are answered without side effects.
    let other = "{\"item_id\":\"does-not-exist\",\"webhook_code\":\"SYNC_UPDATES_RECEIVED\"}";
    assert!(matches!(plaid_webhook(&mut store, other, "does-not-exist", "SYNC_UPDATES_RECEIVED"), WebhookOutcome::Unmatched));
    let _ = authenticate(&mut store, None);
}

#[test]
fn webhook_for_a_plaid_item_asks_for_a_sync() {
    let mut store = MemoryStore::new();
    let conn = store.insert_connection(Connection {
        id: 77,
        household_id: 1,
        provider: "plaid".into(),
        external_item_id: Some("item-1".into()),
        access_token: Some("access".into()),
        cursor: None,
        status: ConnectionStatus::Connected,
        institution_name: None,
        created_at: 0,
    });
    match plaid_webhook(&mut store, "{\"a\":1}", "item-1", "INITIAL_UPDATE") {
        WebhookOutcome::Sync(c) => assert_eq!(c.id, conn.id),
        _ => panic!("expected a sync"),
    }
    assert!(matches!(plaid_webhook(&mut store, "{\"a\":2}", "item-1", "ITEM_ERROR"), WebhookOutcome::Noted));
    assert!(matches!(plaid_webhook(&mut store, "{\"a\":1}", "item-1", "INITIAL_UPDATE"), WebhookOutcome::Duplicate));
}

#[test]
fn webhook_key_is_sixteen_hex_digits_of_the_body_hash() {
    let body = "{\"x\":true}";
    let mut h = std::collections::hash_map::DefaultHasher::new();
    body.to_string().hash(&mut h);
    assert_eq!(event_key_of(body), format!("{:016x}", h.finish()));
    assert_eq!(event_key_of(body).len(), 16);
    assert_ne!(event_key_of(body), event_key_of("{\"x\":false}"));
}

#[test]
fn days_before_walks_the_calendar_back() {
    assert_eq!(days_before(Date::new(2026, 3, 1), 1), Some(Date::new(2026, 2, 28)));
    assert_eq!(days_before(Date::new(2024, 3, 1), 1), Some(Date::new(2024, 2, 29)));
    assert_eq!(days_before(Date::new(2026, 1, 15), 30), Some(Date::new(2025, 12, 16)));
    assert_eq!(days_before(Date::new(2026, 8, 26), 0), Some(Date::new(2026, 8, 26)));
    assert_eq!(days_before(Date::new(-9999, 1, 1), 1), None);
    let today = today_utc();
    assert!(is_valid_date(today.year, today.month, today.day));
}

#[test]
fn fresh_ids_are_version_four_uuids() {
    let a = fresh_id().expect("random source");
    let b = fresh_id().expect("random source");
    let mask = 0x0000_0000_0000_F000_C000_0000_0000_0000u128;
    assert_eq!(a & mask, 0x0000_0000_0000_4000_8000_0000_0000_0000u128);
    assert_ne!(a, b);
    assert_eq!(uuid_to_string(a).len(), 36);
    assert!(now_nanos() > 1_600_000_000_000_000_000);
}

#[test]
fn plaid_rows_map_into_the_ledger_convention() {
    let card = plaid_account("acc-1".into(), "Visa".into(), "credit", Some("credit card"), None, 12_345);
    assert_eq!(card.account_type, AccountType::CreditCard);
    assert_eq!(card.currency, "USD");
    assert_eq!(card.current_balance_minor, -12_345);
    let chk = plaid_account("acc-2".into(), "Chk".into(), "depository", Some("checking"), Some("EUR".into()), 5_000);
    assert_eq!(chk.account_type, AccountType::Checking);
    assert_eq!(chk.currency, "EUR");
    assert_eq!(chk.current_balance_minor, 5_000);
    assert_eq!(plaid_account("a".into(), "L".into(), "loan", None, None, i64::MIN).current_balance_minor, i64::MAX);

    let t = plaid_txn("t-1".into(), "acc-2".into(), "2024-02-29", 4_250, Some("COFFEE 123".into()), None).unwrap();
    assert_eq!(t.amount_minor, -4_250);
    assert_eq!(t.posted_on, Date { year: 2024, month: 2, day: 29 });
    assert_eq!(t.merchant_raw.as_deref(), Some("COFFEE 123"));
    assert_eq!(t.description.as_deref(), Some("COFFEE 123"));
    let u = plaid_txn("t-2".into(), "acc-2".into(), "2024-03-01", -10_000, Some("PAYROLL".into()), Some("Acme".into()))
        .unwrap();
    assert_eq!(u.amount_minor, 10_000);
    assert_eq!(u.merchant_raw.as_deref(), Some("Acme"));
    assert!(plaid_txn("t-3".into(), "a".into(), "2023-02-29", 1, None, None).is_none());
    assert!(plaid_txn("t-4".into(), "a".into(), "2024-01-01", i64::MIN, None, None).is_none());
}
