//! Request handling over the in-memory ledger: sign-up, sessions, accounts,
//! transactions and their balances, pagination.

use ultimate_finance::error::ApiError;
use ultimate_finance::models::{AccountType, Date, ReviewState, Role, User, Visibility};
use ultimate_finance::service::{
    authenticate, authorized_account, create_account, create_household, create_transaction, delete_account,
    delete_transaction, list_accounts, list_transactions, login, logout, patch_account, patch_transaction,
    require_writer, signup, validate_amount, validate_currency, validate_email, validate_signup,
    CreateAccountReq, CreateHouseholdReq, CreateTransactionReq, HouseholdAccess, ListTxQuery, LoginReq,
    PatchAccountReq, SignupReq,
};
use ultimate_finance::store::{MemoryStore, TxPatch};

struct Ctx {
    token: String,
    user: User,
    household_id: u128,
}

fn signup_as(store: &mut MemoryStore, email: &str) -> Ctx {
    let ok = signup(
        store,
        SignupReq {
            email: email.to_string(),
            password: "correct-horse-battery".to_string(),
            display_name: "Blake Tester".to_string(),
        },
    )
    .expect("signup failed");
    Ctx { token: ok.session.token, user: ok.user, household_id: ok.household.id }
}

fn bearer(token: &str) -> String {
    format!("Bearer {token}")
}

fn make_account(store: &mut MemoryStore, ctx: &Ctx, name: &str, balance: i64) -> u128 {
    create_account(
        store,
        &ctx.user,
        CreateAccountReq {
            household_id: ctx.household_id,
            account_type: AccountType::Checking,
            name: name.to_string(),
            currency: None,
            current_balance_minor: Some(balance),
            visibility: None,
        },
    )
    .expect("create account")
    .id
}

fn balance_of(store: &MemoryStore, ctx: &Ctx, account: u128) -> i64 {
    authorized_account(store, &ctx.user, account).unwrap().current_balance_minor
}

fn day(d: u8) -> Date {
    Date::new(2026, 8, d)
}

fn add_txn(store: &mut MemoryStore, ctx: &Ctx, account: u128, posted_on: Date, amount: i64) -> u128 {
    create_transaction(
        store,
        &ctx.user,
        CreateTransactionReq { account_id: account, posted_on, amount_minor: amount, merchant_raw: None, description: None },
    )
    .expect("create transaction")
    .id
}

#[test]
fn signup_rejects_bad_input() {
    let mut store = MemoryStore::new();
    for (email, password, name) in [
        ("nope", "longenough1", "X"),
        ("a@b.co", "short", "X"),
        ("a@b.co", "longenough1", "  "),
        ("", "longenough1", "X"),
    ] {
        let r = signup(
            &mut store,
            SignupReq { email: email.to_string(), password: password.to_string(), display_name: name.to_string() },
        );
        assert!(matches!(r, Err(ApiError::Validation(_))), "expected validation failure");
    }
}

#[test]
fn signup_login_me_flow() {
    let mut store = MemoryStore::new();
    let ctx = signup_as(&mut store, "flow@example.com");

    // Wrong password → unauthorized.
    let r = login(&mut store, LoginReq { email: "flow@example.com".into(), password: "wrong-password".into() });
    assert!(matches!(r, Err(ApiError::Unauthorized)));

    // Right password, email in another case with a trailing space → a token.
    let (session, user) =
        login(&mut store, LoginReq { email: "FLOW@example.com ".into(), password: "correct-horse-battery".into() })
            .expect("login");
    assert_eq!(session.token.len(), 64);
    assert_eq!(user.id, ctx.user.id);

    // The caller is the user, with the starter household as owner.
    let me = authenticate(&mut store, Some(&bearer(&ctx.token))).expect("me");
    assert_eq!(me.email, "flow@example.com");
    let households = store.households_for_user(me.id);
    assert_eq!(households[0].0.id, ctx.household_id);
    assert_eq!(households[0].1, Role::Owner);
    assert_eq!(households[0].0.name, "Blake's Household");
}

#[test]
fn duplicate_email_conflicts() {
    let mut store = MemoryStore::new();
    signup_as(&mut store, "dupe@example.com");
    let r = signup(
        &mut store,
        SignupReq {
            email: "DUPE@example.com".into(),
            password: "different-pass-1".into(),
            display_name: "Impostor".into(),
        },
    );
    match r {
        Err(ApiError::Conflict(m)) => assert_eq!(m, "email already registered"),
        _ => panic!("expected a conflict"),
    }
}

#[test]
fn endpoints_require_auth() {
    let mut store = MemoryStore::new();
    assert!(matches!(authenticate(&mut store, None), Err(ApiError::Unauthorized)));
    assert!(matches!(authenticate(&mut store, Some("Bearer garbage-token")), Err(ApiError::Unauthorized)));
    assert!(matches!(authenticate(&mut store, Some("Token abc")), Err(ApiError::Unauthorized)));
}

#[test]
fn bearer_token_whitespace_is_ignored() {
    let mut store = MemoryStore::new();
    let ctx = signup_as(&mut store, "spaces@example.com");
    let header = format!("Bearer  {} ", ctx.token);
    assert_eq!(authenticate(&mut store, Some(&header)).unwrap().id, ctx.user.id);
}

#[test]
fn account_crud_and_household_isolation() {
    let mut store = MemoryStore::new();
    let alice = signup_as(&mut store, "alice@example.com");
    let bob = signup_as(&mut store, "bob@example.com");
    let acct = make_account(&mut store, &alice, "Everyday Checking", 500_000);

    // The owner sees it; a stranger is forbidden on the list and the account.
    assert_eq!(list_accounts(&store, &alice.user, alice.household_id).unwrap().len(), 1);
    assert!(matches!(list_accounts(&store, &bob.user, alice.household_id), Err(ApiError::Forbidden)));
    assert!(matches!(authorized_account(&store, &bob.user, acct), Err(ApiError::Forbidden)));

    // Rename works.
    let patched = patch_account(
        &mut store,
        &alice.user,
        acct,
        PatchAccountReq { name: Some("Primary Checking".into()), visibility: None },
    )
    .unwrap();
    assert_eq!(patched.name, "Primary Checking");

    // Delete, then the account is gone.
    delete_account(&mut store, &alice.user, acct).unwrap();
    assert!(matches!(authorized_account(&store, &alice.user, acct), Err(ApiError::NotFound)));
}

#[test]
fn private_accounts_look_missing_to_other_members() {
    let mut store = MemoryStore::new();
    let alice = signup_as(&mut store, "owner@example.com");
    let acct = create_account(
        &mut store,
        &alice.user,
        CreateAccountReq {
            household_id: alice.household_id,
            account_type: AccountType::Savings,
            name: "Secret".into(),
            currency: Some("EUR".into()),
            current_balance_minor: None,
            visibility: Some(Visibility::Private),
        },
    )
    .unwrap();
    assert_eq!(acct.currency, "EUR");
    assert_eq!(acct.current_balance_minor, 0);
    assert_eq!(authorized_account(&store, &alice.user, acct.id).unwrap().id, acct.id);
}

#[test]
fn account_validation_errors() {
    let mut store = MemoryStore::new();
    let ctx = signup_as(&mut store, "val@example.com");
    let req = |name: &str, ty: AccountType, currency: Option<&str>, balance: i64| CreateAccountReq {
        household_id: ctx.household_id,
        account_type: ty,
        name: name.to_string(),
        currency: currency.map(|c| c.to_string()),
        current_balance_minor: Some(balance),
        visibility: None,
    };
    let msg = |r: Result<ultimate_finance::models::Account, ApiError>| match r {
        Err(ApiError::Validation(m)) => m,
        _ => panic!("expected a validation error"),
    };
    assert_eq!(msg(create_account(&mut store, &ctx.user, req("   ", AccountType::Cash, None, 0))), "name must be 1–120 characters");
    assert_eq!(
        msg(create_account(&mut store, &ctx.user, req("Card", AccountType::Cash, Some("usd"), 0))),
        "currency must be 3 uppercase letters"
    );
    assert_eq!(
        msg(create_account(&mut store, &ctx.user, req("Big", AccountType::Cash, None, 100_000_000_000_001))),
        "balance out of range"
    );
    assert_eq!(
        msg(create_account(&mut store, &ctx.user, req("Card", AccountType::CreditCard, None, 1))),
        "liability balances must be zero or negative (you owe less than the limit)"
    );
    // A negative opening balance on a credit card is fine.
    assert!(create_account(&mut store, &ctx.user, req("Card", AccountType::CreditCard, None, -1)).is_ok());
}

#[test]
fn transactions_move_balances_exactly() {
    let mut store = MemoryStore::new();
    let ctx = signup_as(&mut store, "ledger@example.com");
    let acct = make_account(&mut store, &ctx, "Wallet", 100_000);

    // -$25 expense.
    let txn = create_transaction(
        &mut store,
        &ctx.user,
        CreateTransactionReq {
            account_id: acct,
            posted_on: day(20),
            amount_minor: -2_500,
            merchant_raw: Some("Coffee Shop".into()),
            description: None,
        },
    )
    .unwrap();
    assert_eq!(balance_of(&store, &ctx, acct), 97_500);

    // Zero amounts are rejected.
    let r = create_transaction(
        &mut store,
        &ctx.user,
        CreateTransactionReq { account_id: acct, posted_on: day(21), amount_minor: 0, merchant_raw: None, description: None },
    );
    assert!(matches!(r, Err(ApiError::Validation(_))));

    // Patch -2500 → -3000; the balance follows the difference.
    let patched = patch_transaction(
        &mut store,
        &ctx.user,
        txn.id,
        TxPatch { amount_minor: Some(-3_000), review_state: Some(ReviewState::Reviewed), ..TxPatch::default() },
    )
    .unwrap();
    assert_eq!(patched.review_state, ReviewState::Reviewed);
    assert_eq!(balance_of(&store, &ctx, acct), 97_000);

    // Delete reverses fully back to the opening balance.
    delete_transaction(&mut store, &ctx.user, txn.id).unwrap();
    assert_eq!(balance_of(&store, &ctx, acct), 100_000);
}

#[test]
fn pagination_walks_newest_first() {
    let mut store = MemoryStore::new();
    let ctx = signup_as(&mut store, "pager@example.com");
    let acct = make_account(&mut store, &ctx, "Pager Card", 0);
    for d in 1..=6u8 {
        add_txn(&mut store, &ctx, acct, day(d), -(d as i64) * 100);
    }
    let query = |before| ListTxQuery { household_id: ctx.household_id, account_id: Some(acct), before, limit: Some(4) };

    let page1 = list_transactions(&store, &ctx.user, query(None)).unwrap();
    assert_eq!(page1.transactions.len(), 4);
    assert_eq!(page1.transactions[0].posted_on, day(6));
    assert_eq!(page1.transactions[3].posted_on, day(3));

    let cursor = page1.next_before.expect("a full page carries a cursor");
    let page2 = list_transactions(&store, &ctx.user, query(Some(cursor))).unwrap();
    assert_eq!(page2.transactions.len(), 2);
    assert_eq!(page2.transactions[0].posted_on, day(2));
    assert_eq!(page2.transactions[1].posted_on, day(1));
    assert!(page2.next_before.is_none(), "last page must not carry a cursor");
}

#[test]
fn page_limit_is_clamped() {
    let mut store = MemoryStore::new();
    let ctx = signup_as(&mut store, "clamp@example.com");
    let acct = make_account(&mut store, &ctx, "Card", 0);
    for d in 1..=3u8 {
        add_txn(&mut store, &ctx, acct, day(d), 100);
    }
    let q = |limit| ListTxQuery { household_id: ctx.household_id, account_id: None, before: None, limit };
    assert_eq!(list_transactions(&store, &ctx.user, q(Some(0))).unwrap().transactions.len(), 1);
    assert_eq!(list_transactions(&store, &ctx.user, q(None)).unwrap().transactions.len(), 3);
}

#[test]
fn logout_invalidates_session() {
    let mut store = MemoryStore::new();
    let ctx = signup_as(&mut store, "bye@example.com");
    logout(&mut store, Some(&bearer(&ctx.token))).unwrap();
    assert!(matches!(authenticate(&mut store, Some(&bearer(&ctx.token))), Err(ApiError::Unauthorized)));
}

#[test]
fn create_household_trims_and_validates() {
    let mut store = MemoryStore::new();
    let ctx = signup_as(&mut store, "hh@example.com");
    let hh = create_household(&mut store, &ctx.user, &CreateHouseholdReq { name: "  Beach House ".into() }).unwrap();
    assert_eq!(hh.name, "Beach House");
    assert_eq!(hh.currency, "USD");
    assert!(matches!(
        create_household(&mut store, &ctx.user, &CreateHouseholdReq { name: "x".repeat(121) }),
        Err(ApiError::Validation(_))
    ));
    assert_eq!(store.households_for_user(ctx.user.id).len(), 2);
}

#[test]
fn advisors_are_read_only() {
    assert!(matches!(require_writer(&HouseholdAccess { role: Role::Advisor }), Err(ApiError::Forbidden)));
    assert!(require_writer(&HouseholdAccess { role: Role::Member }).is_ok());
    assert!(require_writer(&HouseholdAccess { role: Role::Owner }).is_ok());
}

#[test]
fn validators_report_each_problem() {
    assert!(validate_email("name@domain.tld").is_ok());
    assert!(validate_email("@domain.tld").is_err());
    assert!(validate_email("name@domain").is_err());
    assert!(validate_currency("USD").is_ok());
    assert!(validate_currency("US").is_err());
    assert!(validate_currency("ÜSD").is_err());
    match validate_amount(0) {
        Err(ApiError::Validation(m)) => assert_eq!(m, "amountMinor must be non-zero (income positive, expense negative)"),
        _ => panic!("zero must be refused"),
    }
    match validate_amount(-100_000_000_000_001) {
        Err(ApiError::Validation(m)) => assert_eq!(m, "amount out of range"),
        _ => panic!("out of range must be refused"),
    }
    assert!(validate_amount(i64::MIN).is_err());
    assert!(validate_amount(-100_000_000_000_000).is_ok());
    let req = SignupReq { email: "a@b.co".into(), password: "1234567".into(), display_name: "X".into() };
    match validate_signup(&req) {
        Err(ApiError::Validation(m)) => assert_eq!(m, "password must be at least 8 characters"),
        _ => panic!("short password must be refused"),
    }
}

#[test]
fn problem_responses_have_status_code_and_message() {
    let (status, code, message) = ApiError::Forbidden.problem();
    assert_eq!((status, code.as_str(), message.as_str()), (403, "forbidden", "no access to this resource"));
    let (status, code, message) = ApiError::validation("bad").problem();
    assert_eq!((status, code.as_str(), message.as_str()), (422, "validation", "bad"));
    let (status, _, message) = ApiError::Internal.problem();
    assert_eq!((status, message.as_str()), (500, "something went wrong"));
}
