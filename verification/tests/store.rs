//! The ledger store's own guarantees, exercised directly.

use ultimate_finance::aggregate::ExtAccount;
use ultimate_finance::models::{Account, AccountType, Date, ReviewState, Transaction, TxSource, Visibility};
use ultimate_finance::seed::{run, seed_as_of, DemoIds, DEMO_EMAIL, DEMO_PASSWORD};
use ultimate_finance::service::{login, LoginReq};
use ultimate_finance::store::{MemoryStore, StoreError};
use ultimate_finance::text::normalize_email;

fn account(id: u128, household: u128, connection: Option<u128>, balance: i64) -> Account {
    Account {
        id,
        household_id: household,
        connection_id: connection,
        external_id: connection.map(|_| "ext-1".to_string()),
        created_by: 1,
        account_type: AccountType::Checking,
        name: "Acct".into(),
        currency: "USD".into(),
        current_balance_minor: balance,
        visibility: Visibility::AllMembers,
        created_at: 10,
    }
}

fn txn(id: u128, account: u128, amount: i64, external: Option<&str>) -> Transaction {
    Transaction {
        id,
        household_id: 5,
        account_id: account,
        external_id: external.map(|e| e.to_string()),
        posted_on: Date::new(2026, 8, 1),
        amount_minor: amount,
        merchant_raw: None,
        description: None,
        notes: None,
        review_state: ReviewState::Unreviewed,
        source: TxSource::Manual,
        created_by: 1,
        created_at: 20,
    }
}

fn store_with_household() -> MemoryStore {
    let mut s = MemoryStore::new();
    s.insert_household(5, 0, 0, "Home".into(), "USD", 1);
    s
}

#[test]
fn emails_are_normalized_and_unique() {
    let mut s = MemoryStore::new();
    assert_eq!(normalize_email("  Mixed@Example.COM "), "mixed@example.com");
    let u = s.insert_user(1, 0, " Mixed@Example.COM", "h".into(), "M".into()).unwrap();
    assert_eq!(u.email, "mixed@example.com");
    assert!(matches!(s.insert_user(2, 0, "mixed@example.com", "h".into(), "N".into()), Err(StoreError::EmailTaken)));
    assert_eq!(s.user_by_email("MIXED@example.com").unwrap().user.id, 1);
    assert!(s.user_by_email("other@example.com").is_none());
}

#[test]
fn delete_undoes_create() {
    let mut s = store_with_household();
    s.insert_account(account(9, 5, None, 1_000)).unwrap();
    s.create_transaction(txn(1, 9, -250, None)).unwrap();
    assert_eq!(s.get_account(9).unwrap().current_balance_minor, 750);
    s.delete_transaction(1).unwrap();
    assert_eq!(s.get_account(9).unwrap().current_balance_minor, 1_000);
    assert!(s.get_transaction(1).is_none());
    assert!(matches!(s.delete_transaction(1), Err(StoreError::NotFound("transaction"))));
}

#[test]
fn synced_balances_are_provider_authoritative() {
    let mut s = store_with_household();
    s.insert_account(account(9, 5, Some(3), 1_000)).unwrap();
    s.create_transaction(txn(1, 9, -250, None)).unwrap();
    assert_eq!(s.get_account(9).unwrap().current_balance_minor, 1_000);
    let refreshed = s.upsert_synced_account(
        5,
        1,
        3,
        ExtAccount {
            external_id: "ext-1".into(),
            name: "Renamed".into(),
            account_type: AccountType::Savings,
            currency: "USD".into(),
            current_balance_minor: 4_242,
        },
    )
    .expect("random source");
    assert_eq!(refreshed.id, 9);
    assert_eq!(s.get_account(9).unwrap().current_balance_minor, 4_242);
    assert_eq!(s.get_account(9).unwrap().name, "Renamed");
}

#[test]
fn synced_inserts_are_deduplicated() {
    let mut s = store_with_household();
    s.insert_account(account(9, 5, None, 0)).unwrap();
    assert!(s.upsert_synced_transaction(txn(1, 9, 100, Some("p-1"))));
    assert!(!s.upsert_synced_transaction(txn(2, 9, 100, Some("p-1"))));
    assert!(s.upsert_synced_transaction(txn(3, 9, 100, None)));
    assert!(s.upsert_synced_transaction(txn(4, 9, 100, None)));
    assert_eq!(s.get_account(9).unwrap().current_balance_minor, 300);
}

#[test]
fn deleting_an_account_cascades() {
    let mut s = store_with_household();
    s.insert_account(account(9, 5, None, 0)).unwrap();
    s.insert_account(account(8, 5, None, 0)).unwrap();
    s.create_transaction(txn(1, 9, 100, None)).unwrap();
    s.create_transaction(txn(2, 9, 100, None)).unwrap();
    s.create_transaction(txn(3, 8, 100, None)).unwrap();
    s.delete_account(9).unwrap();
    assert!(s.get_transaction(1).is_none() && s.get_transaction(2).is_none());
    assert!(s.get_transaction(3).is_some());
    assert!(matches!(s.delete_account(9), Err(StoreError::NotFound("account"))));
}

#[test]
fn accounts_need_a_household() {
    let mut s = MemoryStore::new();
    assert!(matches!(s.insert_account(account(9, 5, None, 0)), Err(StoreError::NotFound("household"))));
}

#[test]
fn webhook_events_are_claimed_once() {
    let mut s = MemoryStore::new();
    assert!(s.claim_webhook_event("plaid", "abc"));
    assert!(!s.claim_webhook_event("plaid", "abc"));
    assert!(s.claim_webhook_event("mock", "abc"));
}

#[test]
fn sessions_expire_and_end() {
    let mut s = MemoryStore::new();
    s.insert_user(1, 0, "a@b.co", "h".into(), "A".into()).unwrap();
    let live = "0123456789abcdef".repeat(4);
    let other = "f".repeat(64);
    s.insert_session(live.clone(), 1, 1_000);
    assert_eq!(s.resolve_session_at(&live, 999).unwrap().id, 1);
    assert!(s.resolve_session_at("garbage-token", 999).is_none());
    assert!(s.resolve_session_at(&live, 1_000).is_none());
    // The expired session was dropped.
    assert!(s.resolve_session_at(&live, 0).is_none());
    s.insert_session(other.clone(), 1, 1_000);
    assert!(s.delete_session(&other));
    assert!(!s.delete_session(&other));
}

#[test]
fn shared_accounts_are_hidden_from_outsiders() {
    let mut s = MemoryStore::new();
    s.insert_household(5, 30, 0, "Home".into(), "USD", 1);
    s.insert_household(6, 30, 0, "Elsewhere".into(), "USD", 2);
    s.insert_account(account(100, 5, None, 0)).unwrap();
    let acct = s.get_account(100).unwrap();
    // The owner of the household sees the shared account; an owner of
    // another household does not.
    assert!(s.can_view_account(&acct, 1));
    assert!(!s.can_view_account(&acct, 2));
    assert_eq!(s.accounts_for_household(5, 1).len(), 1);
    assert_eq!(s.accounts_for_household(5, 2).len(), 0);
}

#[test]
fn household_owner_and_listing_order() {
    let mut s = MemoryStore::new();
    assert_eq!(s.household_owner(5), None);
    s.insert_household(5, 30, 0, "Later".into(), "USD", 1);
    s.insert_household(6, 10, 0, "Earlier".into(), "USD", 1);
    assert_eq!(s.household_owner(5), Some(1));
    let list = s.households_for_user(1);
    assert_eq!(list.len(), 2);
    assert_eq!(list[0].0.name, "Earlier");
    assert_eq!(list[1].0.name, "Later");
}

#[test]
fn demo_seed_runs_once() {
    let mut s = MemoryStore::new();
    run(&mut s).expect("seed");
    let demo = s.user_by_email(DEMO_EMAIL).expect("demo user");
    let households = s.households_for_user(demo.user.id);
    assert_eq!(households.len(), 1);
    assert_eq!(households[0].0.name, "Demo Household");
    let accounts = s.accounts_for_household(households[0].0.id, demo.user.id);
    assert_eq!(accounts.len(), 5);
    // Seeding again changes nothing.
    run(&mut s).expect("seed again");
    assert_eq!(s.accounts_for_household(households[0].0.id, demo.user.id).len(), 5);
    assert!(login(&mut s, LoginReq { email: DEMO_EMAIL.into(), password: DEMO_PASSWORD.into() }).is_ok());
}

#[test]
fn demo_seed_opens_five_accounts_with_their_history() {
    let mut s = MemoryStore::new();
    run(&mut s).expect("seed");
    let demo = s.user_by_email(DEMO_EMAIL).expect("demo user");
    let hh = s.households_for_user(demo.user.id)[0].0.id;
    let accounts = s.accounts_for_household(hh, demo.user.id);
    let mut seen: Vec<(String, i64, usize)> = accounts
        .iter()
        .map(|a| {
            let n = s.transactions_page(hh, Some(a.id), None, 1_000).len();
            (a.name.clone(), a.current_balance_minor, n)
        })
        .collect();
    seen.sort();
    assert_eq!(
        seen,
        vec![
            ("Brokerage".to_string(), 2_116_585, 4),
            ("Car Loan".to_string(), -1_032_500, 3),
            ("Everyday Checking".to_string(), 1_856_725, 38),
            ("High-Yield Savings".to_string(), 2_009_360, 6),
            ("Sapphire Credit Card".to_string(), -125_812, 53),
        ]
    );
    assert_eq!(s.transactions_page(hh, None, None, 1_000).len(), 104);
    assert!(accounts.iter().all(|a| a.currency == "USD" && a.connection_id.is_none()));
}

fn demo_ids() -> DemoIds {
    DemoIds {
        user: 1_000,
        household: 2_000,
        accounts: vec![3_000, 3_001, 3_002, 3_003, 3_004],
        txns: (0..104u128).map(|i| 4_000 + i).collect(),
    }
}

#[test]
fn seeding_as_of_a_day_uses_the_given_ids_and_dates() {
    let mut s = MemoryStore::new();
    seed_as_of(&mut s, Date { year: 2024, month: 3, day: 15 }, "hash".into(), demo_ids()).expect("seed");
    let demo = s.user_by_email(DEMO_EMAIL).expect("demo user");
    assert_eq!(demo.user.id, 1_000);
    assert_eq!(demo.password_hash, "hash");
    assert_eq!(s.household_owner(2_000), Some(1_000));
    assert_eq!(s.get_account(3_000).unwrap().name, "Everyday Checking");
    assert_eq!(s.get_account(3_004).unwrap().current_balance_minor, -1_032_500);
    // The first step is the oldest payroll, 61 days back.
    let first = s.get_transaction(4_000).unwrap();
    assert_eq!(first.posted_on, Date { year: 2024, month: 1, day: 14 });
    assert_eq!(first.amount_minor, 425_000);
    assert_eq!(s.transactions_page(2_000, None, None, 1_000).len(), 104);
}

#[test]
fn seeding_near_the_first_calendar_day_changes_nothing() {
    let mut s = MemoryStore::new();
    assert!(seed_as_of(&mut s, Date { year: -9999, month: 1, day: 20 }, "hash".into(), demo_ids()).is_err());
    assert!(s.user_by_email(DEMO_EMAIL).is_none());
    assert!(s.get_account(3_000).is_none());
}
