//! Demo data: a demo user with a household, five accounts and three months
//! of history. Seeding only happens when the demo user does not exist yet, so
//! that restarts are safe.

use vstd::prelude::*;
use vstd::utf8::{is_ascii_chars, is_ascii_chars_encode_utf8};
use crate::auth::{argon2_accepts, hash_password};
use crate::dates::{date_minus_days, days_before, today_utc, valid_date};
use crate::error::{ApiError, ApiErrorView};
use crate::ids::{fresh_id, fresh_ids, now_nanos};
use crate::models::{
    Account, AccountType, AccountView, Date, ReviewState, Timestamp, Transaction, TransactionView, TxSource,
    Visibility,
};
use crate::store::{MemoryStore, StoreView};
use crate::text::normalized_email;

verus! {

pub const DEMO_EMAIL: &'static str = "demo@ultimatefinance.app";

pub const DEMO_PASSWORD: &'static str = "demo1234";

/// Writes the demo rows of one household.
struct Seeder {
    household: u128,
    owner: u128,
}

/// A demo account: manual, household-wide, in US dollars.
pub open spec fn demo_account(
    household: u128,
    owner: u128,
    id: u128,
    name: Seq<char>,
    ty: AccountType,
    balance: i64,
    created_at: Timestamp,
) -> AccountView {
    AccountView {
        id,
        household_id: household,
        connection_id: None,
        external_id: None,
        created_by: owner,
        account_type: ty,
        name,
        currency: "USD"@,
        current_balance_minor: balance,
        visibility: Visibility::AllMembers,
        created_at,
    }
}

/// A calendar date given as `(year, month, day)`.
pub open spec fn day_of(d: (i32, u8, u8)) -> Date {
    Date { year: d.0, month: d.1, day: d.2 }
}

/// A demo transaction: manual, with a merchant and no description or notes,
/// reviewed or not.
pub open spec fn demo_txn(
    household: u128,
    owner: u128,
    account: u128,
    posted_on: Date,
    amount: i64,
    merchant: Seq<char>,
    reviewed: bool,
    id: u128,
    created_at: Timestamp,
) -> TransactionView {
    TransactionView {
        id,
        household_id: household,
        account_id: account,
        external_id: None,
        posted_on,
        amount_minor: amount,
        merchant_raw: Some(merchant),
        description: None,
        notes: None,
        review_state: if reviewed { ReviewState::Reviewed } else { ReviewState::Unreviewed },
        source: TxSource::Manual,
        created_by: owner,
        created_at,
    }
}

/// The five demo accounts, by their position in the order they are opened.
pub const CHECKING: usize = 0;
pub const SAVINGS: usize = 1;
pub const CARD: usize = 2;
pub const BROKERAGE: usize = 3;
pub const CAR_LOAN: usize = 4;

/// One transaction of the demo history: the account it is posted to (one of
/// the five slots above), how many days before today, the amount, the
/// merchant and whether it is already reviewed.
#[derive(Clone, Copy)]
pub struct DemoStep {
    pub slot: usize,
    pub days_ago: i64,
    pub amount: i64,
    pub merchant: &'static str,
    pub reviewed: bool,
}

/// A step with its days and amount given as integers.
pub open spec fn step(slot: usize, days_ago: int, amount: int, merchant: &'static str, reviewed: bool) -> DemoStep {
    DemoStep { slot, days_ago: days_ago as i64, amount: amount as i64, merchant, reviewed }
}

/// The recurring items of month `m` (3 is the oldest month, 1 the latest),
/// whose days count back from `30 * (m - 1)` days ago.
pub open spec fn month_fixed(m: int) -> Seq<DemoStep> {
    let s = 30 * (m - 1);
    let income = seq![
        step(CHECKING, s + 1, 425_000, "Acme Corp — Payroll", true),
        step(CHECKING, s + 15, 425_000, "Acme Corp — Payroll", true),
    ];
    let windfall = if m == 3 {
        seq![step(CHECKING, s + 9, 120_000, "Consulting Invoice #204", true)]
    } else {
        Seq::<DemoStep>::empty()
    };
    let bills = seq![
        step(CHECKING, s + 1, -165_000, "Skyline Apartments — Rent", true),
        step(CHECKING, s + 18, -38_500, "Auto Loan Payment", true),
        step(CAR_LOAN, s + 18, 38_500, "Payment posted", true),
        step(CHECKING, s + 22, -11_200, "Volt Energy — Electric", true),
        step(CHECKING, s + 22, -6_500, "Fiberline Internet", true),
        step(CARD, s + 3, -1_299, "Streamly", true),
        step(CARD, s + 7, -2_999, "GymLife Membership", true),
        step(CARD, s + 12, -299, "CloudVault Storage", true),
        step(CARD, s + 14, -1_099, "Streamly Music", true),
        step(CHECKING, s + 20, -60_000, "Sapphire Card Payment", true),
        step(CARD, s + 20, 60_000, "Payment received", true),
        step(CHECKING, s + 2, -50_000, "Transfer to Savings", true),
        step(SAVINGS, s + 2, 50_000, "Auto-save", true),
        step(SAVINGS, s + 28, 3_120, "Interest earned", true),
        step(BROKERAGE, s + 5, -100_000, "VTI — Buy 2 shares", true),
    ];
    let dividend = if m % 2 == 0 {
        seq![step(BROKERAGE, s + 25, 4_530, "Dividend — VTI", true)]
    } else {
        Seq::<DemoStep>::empty()
    };
    income + windfall + bills + dividend
}

/// The variable spending of week `week` of month `m`; only the latest
/// month's is left unreviewed.
pub open spec fn week_spend(m: int, week: int) -> Seq<DemoStep> {
    let w = 30 * (m - 1) + 7 * week;
    seq![
        step(CARD, w + 2, -8_500 - (week * 1_250) % 4_000, "Grocery Mart", m > 1),
        step(CARD, w + 3, -450 - (week * 90) % 300, "Coffee Bar", m > 1),
        step(CARD, w + 5, -3_200 - (week * 2_100) % 5_000, "Trattoria Roma", m > 1),
        step(CHECKING, w + 4, -4_100 - (week * 700) % 1_500, "Gas N Go", m > 1),
    ]
}

/// The spending of the first `n` weeks of month `m`.
pub open spec fn month_weeks(m: int, n: nat) -> Seq<DemoStep>
    decreases n,
{
    if n == 0 {
        Seq::empty()
    } else {
        month_weeks(m, (n - 1) as nat) + week_spend(m, n - 1)
    }
}

/// Everything of month `m`.
pub open spec fn month_history(m: int) -> Seq<DemoStep> {
    month_fixed(m) + month_weeks(m, 4)
}

/// The first `k` months of history, oldest first.
pub open spec fn first_months(k: nat) -> Seq<DemoStep>
    decreases k,
{
    if k == 0 {
        Seq::empty()
    } else {
        first_months((k - 1) as nat) + month_history(4 - k)
    }
}

/// The whole demo history: three months, then a few fresh unreviewed items.
pub open spec fn demo_plan() -> Seq<DemoStep> {
    first_months(3) + seq![
        step(CARD, 1, -6_789, "MegaMart Electronics", false),
        step(CARD, 0, -4_999, "Streamly", false),
        step(CHECKING, 0, -2_375, "Coffee Bar", false),
    ]
}

/// The demo history has 104 transactions.
pub proof fn lemma_demo_plan_len()
    ensures
        demo_plan().len() == 104,
{
    reveal_with_fuel(month_weeks, 5);
    reveal_with_fuel(first_months, 4);
    assert(month_fixed(3).len() == 18);
    assert(month_fixed(2).len() == 18);
    assert(month_fixed(1).len() == 17);
    assert(month_weeks(1, 4).len() == 16);
    assert(month_weeks(2, 4).len() == 16);
    assert(month_weeks(3, 4).len() == 16);
}

/// A step names one of the five accounts, lies within a hundred days and
/// moves at most $5,000.
pub open spec fn step_ok(s: DemoStep) -> bool {
    &&& s.slot < 5
    &&& 0 <= s.days_ago <= 100
    &&& -500_000 <= s.amount <= 500_000
}

/// Every step of `v` is in bounds.
pub open spec fn all_ok(v: Seq<DemoStep>) -> bool {
    forall|i: int| 0 <= i < v.len() ==> step_ok(#[trigger] v[i])
}

#[verifier::spinoff_prover]
#[verifier::rlimit(40)]
fn push_month_fixed(v: &mut Vec<DemoStep>, m: i64)
    requires
        1 <= m <= 3,
        all_ok(old(v)@),
    ensures
        final(v)@ == old(v)@ + month_fixed(m as int),
        all_ok(final(v)@),
{
    let s = 30 * (m - 1);
    v.push(DemoStep { slot: CHECKING, days_ago: s + 1, amount: 425_000, merchant: "Acme Corp — Payroll", reviewed: true });
    v.push(DemoStep { slot: CHECKING, days_ago: s + 15, amount: 425_000, merchant: "Acme Corp — Payroll", reviewed: true });
    let ghost after_income = v@;
    if m == 3 {
        v.push(DemoStep { slot: CHECKING, days_ago: s + 9, amount: 120_000, merchant: "Consulting Invoice #204", reviewed: true });
    }
    let ghost after_windfall = v@;
    v.push(DemoStep { slot: CHECKING, days_ago: s + 1, amount: -165_000, merchant: "Skyline Apartments — Rent", reviewed: true });
    v.push(DemoStep { slot: CHECKING, days_ago: s + 18, amount: -38_500, merchant: "Auto Loan Payment", reviewed: true });
    v.push(DemoStep { slot: CAR_LOAN, days_ago: s + 18, amount: 38_500, merchant: "Payment posted", reviewed: true });
    v.push(DemoStep { slot: CHECKING, days_ago: s + 22, amount: -11_200, merchant: "Volt Energy — Electric", reviewed: true });
    v.push(DemoStep { slot: CHECKING, days_ago: s + 22, amount: -6_500, merchant: "Fiberline Internet", reviewed: true });
    v.push(DemoStep { slot: CARD, days_ago: s + 3, amount: -1_299, merchant: "Streamly", reviewed: true });
    v.push(DemoStep { slot: CARD, days_ago: s + 7, amount: -2_999, merchant: "GymLife Membership", reviewed: true });
    v.push(DemoStep { slot: CARD, days_ago: s + 12, amount: -299, merchant: "CloudVault Storage", reviewed: true });
    v.push(DemoStep { slot: CARD, days_ago: s + 14, amount: -1_099, merchant: "Streamly Music", reviewed: true });
    v.push(DemoStep { slot: CHECKING, days_ago: s + 20, amount: -60_000, merchant: "Sapphire Card Payment", reviewed: true });
    v.push(DemoStep { slot: CARD, days_ago: s + 20, amount: 60_000, merchant: "Payment received", reviewed: true });
    v.push(DemoStep { slot: CHECKING, days_ago: s + 2, amount: -50_000, merchant: "Transfer to Savings", reviewed: true });
    v.push(DemoStep { slot: SAVINGS, days_ago: s + 2, amount: 50_000, merchant: "Auto-save", reviewed: true });
    v.push(DemoStep { slot: SAVINGS, days_ago: s + 28, amount: 3_120, merchant: "Interest earned", reviewed: true });
    v.push(DemoStep { slot: BROKERAGE, days_ago: s + 5, amount: -100_000, merchant: "VTI — Buy 2 shares", reviewed: true });
    let ghost after_bills = v@;
    if m % 2 == 0 {
        v.push(DemoStep { slot: BROKERAGE, days_ago: s + 25, amount: 4_530, merchant: "Dividend — VTI", reviewed: true });
    }
    proof {
        let t = 30 * (m - 1);
        let income = seq![
            step(CHECKING, t + 1, 425_000, "Acme Corp — Payroll", true),
            step(CHECKING, t + 15, 425_000, "Acme Corp — Payroll", true),
        ];
        assert(after_income =~= old(v)@ + income);
        let bills = seq![
            step(CHECKING, t + 1, -165_000, "Skyline Apartments — Rent", true),
            step(CHECKING, t + 18, -38_500, "Auto Loan Payment", true),
            step(CAR_LOAN, t + 18, 38_500, "Payment posted", true),
            step(CHECKING, t + 22, -11_200, "Volt Energy — Electric", true),
            step(CHECKING, t + 22, -6_500, "Fiberline Internet", true),
            step(CARD, t + 3, -1_299, "Streamly", true),
            step(CARD, t + 7, -2_999, "GymLife Membership", true),
            step(CARD, t + 12, -299, "CloudVault Storage", true),
            step(CARD, t + 14, -1_099, "Streamly Music", true),
            step(CHECKING, t + 20, -60_000, "Sapphire Card Payment", true),
            step(CARD, t + 20, 60_000, "Payment received", true),
            step(CHECKING, t + 2, -50_000, "Transfer to Savings", true),
            step(SAVINGS, t + 2, 50_000, "Auto-save", true),
            step(SAVINGS, t + 28, 3_120, "Interest earned", true),
            step(BROKERAGE, t + 5, -100_000, "VTI — Buy 2 shares", true),
        ];
        assert(after_bills =~= after_windfall + bills);
        assert(v@ =~= old(v)@ + month_fixed(m as int));
    }
}

fn push_week(v: &mut Vec<DemoStep>, m: i64, week: i64)
    requires
        1 <= m <= 3,
        0 <= week < 4,
        all_ok(old(v)@),
    ensures
        final(v)@ == old(v)@ + week_spend(m as int, week as int),
        all_ok(final(v)@),
{
    let w = 30 * (m - 1) + 7 * week;
    v.push(DemoStep { slot: CARD, days_ago: w + 2, amount: -8_500 - (week * 1_250) % 4_000, merchant: "Grocery Mart", reviewed: m > 1 });
    v.push(DemoStep { slot: CARD, days_ago: w + 3, amount: -450 - (week * 90) % 300, merchant: "Coffee Bar", reviewed: m > 1 });
    v.push(DemoStep { slot: CARD, days_ago: w + 5, amount: -3_200 - (week * 2_100) % 5_000, merchant: "Trattoria Roma", reviewed: m > 1 });
    v.push(DemoStep { slot: CHECKING, days_ago: w + 4, amount: -4_100 - (week * 700) % 1_500, merchant: "Gas N Go", reviewed: m > 1 });
    assert(v@ =~= old(v)@ + week_spend(m as int, week as int));
}

/// The demo history as data, in the order it is recorded.
fn demo_history() -> (v: Vec<DemoStep>)
    ensures
        v@ == demo_plan(),
        all_ok(v@),
{
    let mut v: Vec<DemoStep> = Vec::new();
    let mut m: i64 = 3;
    while m >= 1
        invariant
            0 <= m <= 3,
            v@ == first_months((3 - m) as nat),
            all_ok(v@),
        decreases m,
    {
        let ghost start = v@;
        push_month_fixed(&mut v, m);
        let mut week: i64 = 0;
        while week < 4
            invariant
                1 <= m <= 3,
                0 <= week <= 4,
                v@ == start + month_fixed(m as int) + month_weeks(m as int, week as nat),
                all_ok(v@),
            decreases 4 - week,
        {
            push_week(&mut v, m, week);
            proof {
                assert(month_weeks(m as int, (week + 1) as nat) == month_weeks(m as int, week as nat)
                    + week_spend(m as int, week as int));
                assert(v@ =~= start + month_fixed(m as int) + month_weeks(m as int, (week + 1) as nat));
            }
            week = week + 1;
        }
        proof {
            assert(first_months((3 - m + 1) as nat) == first_months((3 - m) as nat) + month_history(m as int));
            assert(v@ =~= first_months((3 - m + 1) as nat));
        }
        m = m - 1;
    }
    v.push(DemoStep { slot: CARD, days_ago: 1, amount: -6_789, merchant: "MegaMart Electronics", reviewed: false });
    v.push(DemoStep { slot: CARD, days_ago: 0, amount: -4_999, merchant: "Streamly", reviewed: false });
    v.push(DemoStep { slot: CHECKING, days_ago: 0, amount: -2_375, merchant: "Coffee Bar", reviewed: false });
    assert(v@ =~= demo_plan());
    v
}

impl Seeder {
    /// Opens the manual, household-wide account `id`.
    fn account(&self, store: &mut MemoryStore, id: u128, name: &str, ty: AccountType, balance: i64)
        requires
            old(store).wf(),
            old(store)@.households.contains_key(self.household),
        ensures
            final(store).wf(),
            final(store)@ == (StoreView {
                accounts: old(store)@.accounts.insert(
                    id,
                    demo_account(
                        self.household,
                        self.owner,
                        id,
                        name@,
                        ty,
                        balance,
                        final(store)@.accounts[id].created_at,
                    ),
                ),
                ..old(store)@
            }),
    {
        let acct = Account {
            id,
            household_id: self.household,
            connection_id: None,
            external_id: None,
            created_by: self.owner,
            account_type: ty,
            name: name.to_owned(),
            currency: "USD".to_owned(),
            current_balance_minor: balance,
            visibility: Visibility::AllMembers,
            created_at: now_nanos(),
        };
        let _ = store.insert_account(acct);
    }

    /// Records the manual transaction `id` posted on `posted_on`.
    fn tx(
        &self,
        store: &mut MemoryStore,
        account: u128,
        id: u128,
        posted_on: Date,
        amount: i64,
        merchant: &str,
        reviewed: bool,
    )
        requires
            old(store).wf(),
            old(store)@.shift_fits(account, amount as int),
        ensures
            final(store).wf(),
            final(store)@ == old(store)@.with_transaction(
                demo_txn(
                    self.household,
                    self.owner,
                    account,
                    posted_on,
                    amount,
                    merchant@,
                    reviewed,
                    id,
                    final(store)@.txns[id].created_at,
                ),
            ),
    {
        let txn = Transaction {
            id,
            household_id: self.household,
            account_id: account,
            external_id: None,
            posted_on,
            amount_minor: amount,
            merchant_raw: Some(merchant.to_owned()),
            description: None,
            notes: None,
            review_state: if reviewed {
                ReviewState::Reviewed
            } else {
                ReviewState::Unreviewed
            },
            source: TxSource::Manual,
            created_by: self.owner,
            created_at: now_nanos(),
        };
        let _ = store.create_transaction(txn);
    }
}

/// The demo accounts added to `accounts`: under `ids[k]`, created at
/// `created[k]`, the five accounts with their names, types and opening
/// balances.
pub open spec fn open_accounts(
    accounts: Map<u128, AccountView>,
    household: u128,
    owner: u128,
    ids: Seq<u128>,
    created: Seq<Timestamp>,
) -> Map<u128, AccountView> {
    accounts.insert(
        ids[0],
        demo_account(household, owner, ids[0], "Everyday Checking"@, AccountType::Checking, 240_000, created[0]),
    ).insert(
        ids[1],
        demo_account(household, owner, ids[1], "High-Yield Savings"@, AccountType::Savings, 1_850_000, created[1]),
    ).insert(
        ids[2],
        demo_account(household, owner, ids[2], "Sapphire Credit Card"@, AccountType::CreditCard, -84_216i64, created[2]),
    ).insert(
        ids[3],
        demo_account(household, owner, ids[3], "Brokerage"@, AccountType::Brokerage, 2_412_055, created[3]),
    ).insert(
        ids[4],
        demo_account(household, owner, ids[4], "Car Loan"@, AccountType::Loan, -1_148_000i64, created[4]),
    )
}

/// The transaction that step `st` becomes, posted `st.days_ago` days before
/// `today` to the account in its slot.
pub open spec fn step_txn(
    household: u128,
    owner: u128,
    today: Date,
    accounts: Seq<u128>,
    st: DemoStep,
    id: u128,
    created_at: Timestamp,
) -> TransactionView {
    demo_txn(
        household,
        owner,
        accounts[st.slot as int],
        day_of(date_minus_days(today.year, today.month, today.day, st.days_ago)->0),
        st.amount,
        st.merchant@,
        st.reviewed,
        id,
        created_at,
    )
}

/// The store after recording the steps of `plan` in order, step `i` under
/// id `ids[i]` created at `stamps[i]`.
pub open spec fn apply_history(
    s: StoreView,
    household: u128,
    owner: u128,
    today: Date,
    accounts: Seq<u128>,
    plan: Seq<DemoStep>,
    ids: Seq<u128>,
    stamps: Seq<Timestamp>,
) -> StoreView
    decreases plan.len(),
{
    if plan.len() == 0 {
        s
    } else {
        apply_history(
            s,
            household,
            owner,
            today,
            accounts,
            plan.drop_last(),
            ids.drop_last(),
            stamps.drop_last(),
        ).with_transaction(step_txn(household, owner, today, accounts, plan.last(), ids.last(), stamps.last()))
    }
}

/// `after` is `before` with the demo data seeded: the demo user `user`
/// (demo email, the given password hash), the demo household `household` that the
/// user owns, its five accounts (ids `accounts`, created at `created`) and
/// the whole demo history recorded on them as of `today` (transaction ids
/// `ids`, created at `stamps`). Nothing else changes.
pub open spec fn demo_seeded(
    before: StoreView,
    after: StoreView,
    user: u128,
    household: u128,
    today: Date,
    accounts: Seq<u128>,
    created: Seq<Timestamp>,
    ids: Seq<u128>,
    stamps: Seq<Timestamp>,
    password_hash: Seq<char>,
) -> bool {
    &&& after.users == before.users.insert(user, after.users[user])
    &&& after.users[user].user.id == user
    &&& after.users[user].user.email == normalized_email(DEMO_EMAIL@)
    &&& after.users[user].user.display_name == "Demo Blake"@
    &&& after.users[user].password_hash == password_hash
    &&& after.households == before.households.insert(household, after.households[household])
    &&& after.households[household].name == "Demo Household"@
    &&& after.households[household].currency == "USD"@
    &&& after.members == before.members.insert((household, user), after.members[(household, user)])
    &&& after.is_owner(household, user)
    &&& valid_date(today.year, today.month, today.day)
    &&& accounts.len() == 5 && created.len() == 5
    &&& ids.len() == demo_plan().len() && stamps.len() == demo_plan().len()
    &&& after == apply_history(
        StoreView {
            accounts: open_accounts(before.accounts, household, user, accounts, created),
            users: after.users,
            households: after.households,
            members: after.members,
            ..before
        },
        household,
        user,
        today,
        accounts,
        demo_plan(),
        ids,
        stamps,
    )
}

/// Some day of the demo history, counted back from `today`, falls before
/// the first date the calendar holds.
pub open spec fn history_leaves_calendar(today: Date) -> bool {
    exists|i: int|
        0 <= i < demo_plan().len() && #[trigger] date_minus_days(
            today.year,
            today.month,
            today.day,
            demo_plan()[i].days_ago,
        ) is None
}

/// The ids the demo data is stored under: the user, the household, the five
/// accounts (in the order of the slots) and one per step of the history.
pub struct DemoIds {
    pub user: u128,
    pub household: u128,
    pub accounts: Vec<u128>,
    pub txns: Vec<u128>,
}

/// Seeds the demo data as of `today` under the given ids and password hash,
/// unless the demo user exists (then nothing changes). Every day of the
/// history is checked against the calendar before anything is written: the
/// seeding fails, changing nothing, exactly when one falls off it.
pub fn seed_as_of(store: &mut MemoryStore, today: Date, password_hash: String, ids: DemoIds) -> (r: Result<(), ApiError>)
    requires
        old(store).wf(),
        valid_date(today.year, today.month, today.day),
        ids.accounts@.len() == 5,
        ids.txns@.len() == demo_plan().len(),
    ensures
        final(store).wf(),
        old(store)@.email_taken(normalized_email(DEMO_EMAIL@)) ==> r is Ok && final(store)@ == old(store)@,
        !old(store)@.email_taken(normalized_email(DEMO_EMAIL@)) ==> (r is Err <==> history_leaves_calendar(today)),
        r is Err ==> final(store)@ == old(store)@,
        r matches Err(e) ==> e@ == ApiErrorView::Internal,
        r is Ok ==> final(store)@.email_taken(normalized_email(DEMO_EMAIL@)),
        r is Ok && !old(store)@.email_taken(normalized_email(DEMO_EMAIL@)) ==> exists|
            created: Seq<Timestamp>,
            stamps: Seq<Timestamp>,
        |
            #[trigger] demo_seeded(
                old(store)@,
                final(store)@,
                ids.user,
                ids.household,
                today,
                ids.accounts@,
                created,
                ids.txns@,
                stamps,
                password_hash@,
            ),
{
    if store.user_by_email(DEMO_EMAIL).is_some() {
        return Ok(());
    }
    let plan = demo_history();
    proof {
        lemma_demo_plan_len();
    }
    let mut dates: Vec<Date> = Vec::new();
    let mut k: usize = 0;
    while k < plan.len()
        invariant
            store.wf(),
            store@ == old(store)@,
            !old(store)@.email_taken(normalized_email(DEMO_EMAIL@)),
            plan@ == demo_plan(),
            all_ok(plan@),
            k <= plan@.len(),
            dates@.len() == k,
            valid_date(today.year, today.month, today.day),
            forall|j: int|
                0 <= j < k ==> #[trigger] date_minus_days(today.year, today.month, today.day, demo_plan()[j].days_ago)
                    == Some((dates@[j].year, dates@[j].month, dates@[j].day)),
        decreases plan@.len() - k,
    {
        proof {
            assert(step_ok(plan@[k as int]));
        }
        match days_before(today, plan[k].days_ago) {
            Some(d) => dates.push(d),
            None => {
                proof {
                    assert(date_minus_days(today.year, today.month, today.day, demo_plan()[k as int].days_ago) is None);
                    assert(history_leaves_calendar(today));
                }
                return Err(ApiError::Internal);
            },
        }
        k = k + 1;
    }
    proof {
        assert forall|i: int| 0 <= i < demo_plan().len() implies #[trigger] date_minus_days(
            today.year,
            today.month,
            today.day,
            demo_plan()[i].days_ago,
        ) is Some by {}
        assert(!history_leaves_calendar(today));
    }
    let user = match store.insert_user(ids.user, now_nanos(), DEMO_EMAIL, password_hash, "Demo Blake".to_owned()) {
        Ok(u) => u,
        Err(e) => return Err(ApiError::from_store(e)),
    };
    let ghost users = store@.users;
    let now = now_nanos();
    let hh = store.insert_household(ids.household, now, now, "Demo Household".to_owned(), "USD", ids.user);
    let ghost households = store@.households;
    let ghost members = store@.members;
    let ghost before_accounts = store@;
    let b = Seeder { household: ids.household, owner: ids.user };

    b.account(store, ids.accounts[0], "Everyday Checking", AccountType::Checking, 240_000);
    let ghost c0 = store@.accounts[ids.accounts@[0]].created_at;
    b.account(store, ids.accounts[1], "High-Yield Savings", AccountType::Savings, 1_850_000);
    let ghost c1 = store@.accounts[ids.accounts@[1]].created_at;
    b.account(store, ids.accounts[2], "Sapphire Credit Card", AccountType::CreditCard, -84_216);
    let ghost c2 = store@.accounts[ids.accounts@[2]].created_at;
    b.account(store, ids.accounts[3], "Brokerage", AccountType::Brokerage, 2_412_055);
    let ghost c3 = store@.accounts[ids.accounts@[3]].created_at;
    b.account(store, ids.accounts[4], "Car Loan", AccountType::Loan, -1_148_000);
    let ghost c4 = store@.accounts[ids.accounts@[4]].created_at;
    let ghost created: Seq<Timestamp> = seq![c0, c1, c2, c3, c4];
    let ghost base = store@;
    proof {
        assert(base == StoreView {
            accounts: open_accounts(before_accounts.accounts, ids.household, ids.user, ids.accounts@, created),
            ..before_accounts
        });
    }

    let ghost mut stamps: Seq<Timestamp> = Seq::empty();
    let mut i: usize = 0;
    while i < plan.len()
        invariant
            store.wf(),
            plan@ == demo_plan(),
            all_ok(plan@),
            plan@.len() == 104,
            ids.accounts@.len() == 5,
            ids.txns@.len() == plan@.len(),
            dates@.len() == plan@.len(),
            forall|j: int|
                0 <= j < plan@.len() ==> #[trigger] date_minus_days(today.year, today.month, today.day, demo_plan()[j].days_ago)
                    == Some((dates@[j].year, dates@[j].month, dates@[j].day)),
            i <= plan@.len(),
            stamps.len() == i,
            b.household == ids.household && b.owner == ids.user,
            store@ == apply_history(
                base,
                ids.household,
                ids.user,
                today,
                ids.accounts@,
                plan@.take(i as int),
                ids.txns@.take(i as int),
                stamps,
            ),
            store@.users == base.users,
            store@.households == base.households,
            store@.members == base.members,
            forall|k: int|
                #![trigger ids.accounts@[k]]
                0 <= k < 5 ==> {
                    &&& store@.accounts.contains_key(ids.accounts@[k])
                    &&& store@.accounts[ids.accounts@[k]].connection_id is None
                    &&& -3_000_000 - 500_000 * i <= store@.accounts[ids.accounts@[k]].current_balance_minor
                        <= 3_000_000 + 500_000 * i
                },
        decreases plan@.len() - i,
    {
        let st = plan[i];
        proof {
            assert(step_ok(plan@[i as int]));
        }
        let account = ids.accounts[st.slot];
        proof {
            let k = st.slot as int;
            assert(ids.accounts@[k] == account);
            assert(store@.shift_fits(account, st.amount as int));
        }
        let ghost prev = store@;
        b.tx(store, account, ids.txns[i], dates[i], st.amount, st.merchant, st.reviewed);
        proof {
            let stamps2 = stamps.push(store@.txns[ids.txns@[i as int]].created_at);
            assert(plan@.take(i + 1).drop_last() =~= plan@.take(i as int));
            assert(ids.txns@.take(i + 1).drop_last() =~= ids.txns@.take(i as int));
            assert(stamps2.drop_last() =~= stamps);
            assert(date_minus_days(today.year, today.month, today.day, demo_plan()[i as int].days_ago)
                == Some((dates@[i as int].year, dates@[i as int].month, dates@[i as int].day)));
            assert(day_of(date_minus_days(today.year, today.month, today.day, st.days_ago)->0) == dates@[i as int]);
            stamps = stamps2;
        }
        i = i + 1;
    }
    proof {
        assert(plan@.take(plan@.len() as int) =~= plan@);
        assert(ids.txns@.take(plan@.len() as int) =~= ids.txns@);
        assert(store@.users.contains_key(ids.user));
        assert(store@.is_owner(ids.household, ids.user));
        assert(demo_seeded(
            old(store)@,
            store@,
            ids.user,
            ids.household,
            today,
            ids.accounts@,
            created,
            ids.txns@,
            stamps,
            password_hash@,
        ));
    }
    Ok(())
}

/// Seeds the demo data unless the demo user exists: it hashes the demo
/// password, reads today's date, draws the ids, and seeds as of today (see
/// `seed_as_of`). Seeding again changes nothing. Where hashing, the random
/// source or the calendar fails, it fails and nothing is written.
pub fn run(store: &mut MemoryStore) -> (r: Result<(), ApiError>)
    requires
        old(store).wf(),
    ensures
        final(store).wf(),
        old(store)@.email_taken(normalized_email(DEMO_EMAIL@)) ==> r is Ok && final(store)@ == old(store)@,
        r is Err ==> final(store)@ == old(store)@,
        r matches Err(e) ==> e@ == ApiErrorView::Internal,
        r is Ok ==> final(store)@.email_taken(normalized_email(DEMO_EMAIL@)),
        r is Ok && !old(store)@.email_taken(normalized_email(DEMO_EMAIL@)) ==> exists|
            user: u128,
            household: u128,
            today: Date,
            accounts: Seq<u128>,
            created: Seq<Timestamp>,
            ids: Seq<u128>,
            stamps: Seq<Timestamp>,
            hash: Seq<char>,
        |
            #[trigger] demo_seeded(old(store)@, final(store)@, user, household, today, accounts, created, ids, stamps, hash)
                && argon2_accepts(DEMO_PASSWORD@, hash),
{
    if store.user_by_email(DEMO_EMAIL).is_some() {
        return Ok(());
    }
    let hash = match hash_password(DEMO_PASSWORD) {
        Ok(h) => h,
        Err(e) => return Err(e),
    };
    let ghost hv = hash@;
    let user = match fresh_id() {
        Some(id) => id,
        None => return Err(ApiError::Internal),
    };
    let household = match fresh_id() {
        Some(id) => id,
        None => return Err(ApiError::Internal),
    };
    let accounts = match fresh_ids(5) {
        Some(v) => v,
        None => return Err(ApiError::Internal),
    };
    proof {
        lemma_demo_plan_len();
    }
    let txns = match fresh_ids(104) {
        Some(v) => v,
        None => return Err(ApiError::Internal),
    };
    let today = today_utc();
    let ghost accts = accounts@;
    let ghost tids = txns@;
    let r = seed_as_of(store, today, hash, DemoIds { user, household, accounts, txns });
    proof {
        if r is Ok && !old(store)@.email_taken(normalized_email(DEMO_EMAIL@)) {
            let (created, stamps) = choose|created: Seq<Timestamp>, stamps: Seq<Timestamp>|
                #[trigger] demo_seeded(old(store)@, store@, user, household, today, accts, created, tids, stamps, hv);
            assert(demo_seeded(old(store)@, store@, user, household, today, accts, created, tids, stamps, hv)
                && argon2_accepts(DEMO_PASSWORD@, hv));
        }
    }
    r
}

} // verus!
