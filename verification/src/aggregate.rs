//! Bank aggregation: provider-normalized snapshots, the provider registry,
//! the deterministic mock institution and the sync pipeline's decisions.
//!
//! Balance semantics: synced accounts are *provider-authoritative*: after a
//! sync, `current_balance_minor` equals what the institution reports, and
//! transaction inserts on synced accounts never adjust balances locally.

use vstd::prelude::*;
use crate::dates::{lemma_iso_text, parse_date, parse_date_spec, valid_date};
use crate::error::{ApiError, ApiErrorView};
use crate::ids::{uuid_text, uuid_to_string};
use crate::models::{clone_opt_string, opt_chars, AccountType, Connection, ConnectionStatus, Date};
use crate::store::StoreError;
use crate::text::{dec_text, lemma_dec_text_reads_back, parse_usize, parse_usize_spec, push_all, str_eq, usize_to_string};

verus! {

/// Provider-normalized account snapshot from a sync.
#[derive(Debug)]
pub struct ExtAccount {
    pub external_id: String,
    pub name: String,
    pub account_type: AccountType,
    pub currency: String,
    pub current_balance_minor: i64,
}

pub struct ExtAccountView {
    pub external_id: Seq<char>,
    pub name: Seq<char>,
    pub account_type: AccountType,
    pub currency: Seq<char>,
    pub current_balance_minor: i64,
}

impl View for ExtAccount {
    type V = ExtAccountView;

    open spec fn view(&self) -> ExtAccountView {
        ExtAccountView {
            external_id: self.external_id@,
            name: self.name@,
            account_type: self.account_type,
            currency: self.currency@,
            current_balance_minor: self.current_balance_minor,
        }
    }
}

impl ExtAccount {
    pub fn duplicate(&self) -> (r: ExtAccount)
        ensures
            r@ == self@,
    {
        ExtAccount {
            external_id: self.external_id.clone(),
            name: self.name.clone(),
            account_type: self.account_type,
            currency: self.currency.clone(),
            current_balance_minor: self.current_balance_minor,
        }
    }
}

/// Provider-normalized transaction from a sync.
#[derive(Debug)]
pub struct ExtTxn {
    pub external_id: String,
    /// Provider-side account id within this connection.
    pub account_external_id: String,
    pub posted_on: Date,
    /// Signed cents: income positive, expense negative.
    pub amount_minor: i64,
    pub merchant_raw: Option<String>,
    pub description: Option<String>,
}

pub struct ExtTxnView {
    pub external_id: Seq<char>,
    pub account_external_id: Seq<char>,
    pub posted_on: Date,
    pub amount_minor: i64,
    pub merchant_raw: Option<Seq<char>>,
    pub description: Option<Seq<char>>,
}

impl View for ExtTxn {
    type V = ExtTxnView;

    open spec fn view(&self) -> ExtTxnView {
        ExtTxnView {
            external_id: self.external_id@,
            account_external_id: self.account_external_id@,
            posted_on: self.posted_on,
            amount_minor: self.amount_minor,
            merchant_raw: opt_chars(self.merchant_raw),
            description: opt_chars(self.description),
        }
    }
}

impl ExtTxn {
    pub fn duplicate(&self) -> (r: ExtTxn)
        ensures
            r@ == self@,
    {
        ExtTxn {
            external_id: self.external_id.clone(),
            account_external_id: self.account_external_id.clone(),
            posted_on: self.posted_on,
            amount_minor: self.amount_minor,
            merchant_raw: clone_opt_string(&self.merchant_raw),
            description: clone_opt_string(&self.description),
        }
    }
}

/// One page of a provider's transaction feed.
#[derive(Debug)]
pub struct SyncPage {
    pub txns: Vec<ExtTxn>,
    pub next_cursor: String,
    pub has_more: bool,
}


pub struct SyncPageView {
    pub txns: Seq<ExtTxnView>,
    pub next_cursor: Seq<char>,
    pub has_more: bool,
}

impl View for SyncPage {
    type V = SyncPageView;

    open spec fn view(&self) -> SyncPageView {
        SyncPageView {
            txns: self.txns@.map_values(|t: ExtTxn| t@),
            next_cursor: self.next_cursor@,
            has_more: self.has_more,
        }
    }
}

/// `reqwest::Error`, carried through unchanged.
#[verifier::external_type_specification]
#[verifier::external_body]
pub struct ExReqwestError(reqwest::Error);

/// Why a provider call or a sync failed.
#[derive(Debug)]
pub enum AggregatorError {
    /// The provider is known but has no credentials on this server.
    NotConfigured,
    /// The operation does not exist for this provider.
    Unsupported(&'static str),
    /// The provider rejected the request.
    Provider(String),
    /// The request never got an answer.
    Network(reqwest::Error),
    /// Persisting the result failed.
    Store(StoreError),
}

/// Aggregator failures as API errors: missing configuration and provider
/// rejections are conflicts, unsupported operations are validation errors,
/// network failures are internal, store failures map as store errors do.
pub fn agg_err(e: AggregatorError) -> (r: ApiError)
    ensures
        e is NotConfigured ==> r@ == ApiErrorView::Conflict("provider not configured on this server"@),
        e matches AggregatorError::Unsupported(m) ==> r@ == ApiErrorView::Validation(m@),
        e matches AggregatorError::Provider(m) ==> r@ == ApiErrorView::Conflict(
            "provider error: "@ + m@,
        ),
        e is Network ==> r@ == ApiErrorView::Internal,
        e matches AggregatorError::Store(StoreError::EmailTaken) ==> r@ == ApiErrorView::Conflict(
            "email already registered"@,
        ),
        e matches AggregatorError::Store(StoreError::NotFound(_)) ==> r@ == ApiErrorView::NotFound,
        e matches AggregatorError::Store(StoreError::NoRandomness) ==> r@ == ApiErrorView::Internal,
{
    match e {
        AggregatorError::NotConfigured => ApiError::conflict("provider not configured on this server"),
        AggregatorError::Unsupported(m) => ApiError::validation(m),
        AggregatorError::Provider(m) => {
            let mut msg = String::new();
            push_all(&mut msg, "provider error: ");
            push_all(&mut msg, m.as_str());
            proof {
                assert(Seq::<char>::empty() + "provider error: "@ =~= "provider error: "@);
            }
            ApiError::Conflict(msg)
        },
        AggregatorError::Network(_) => ApiError::Internal,
        AggregatorError::Store(se) => ApiError::from_store(se),
    }
}

/// The deterministic fake institution: same contract as a real provider,
/// no network.
#[derive(Clone, Copy)]
pub struct MockAggregator;

/// Transactions per mock page.
pub const PAGE_SIZE: usize = 3;

/// A provider, with the real one's client type left to the caller.
pub enum Provider<P> {
    Plaid(P),
    Mock(MockAggregator),
}

/// The name a provider is registered under.
pub open spec fn provider_name<P>(p: Provider<P>) -> Seq<char> {
    match p {
        Provider::Plaid(_) => "plaid"@,
        Provider::Mock(_) => "mock"@,
    }
}

impl<P> Provider<P> {
    pub fn name(&self) -> (r: &'static str)
        ensures
            r@ == provider_name(*self),
    {
        match self {
            Provider::Plaid(_) => "plaid",
            Provider::Mock(_) => "mock",
        }
    }
}

/// The providers this server can use: the mock always, the real one when
/// it was configured.
pub struct Registry<P> {
    pub plaid: Option<P>,
}

impl<P> Registry<P> {
    /// Whether `name` resolves to a usable provider.
    pub open spec fn has_spec(&self, name: Seq<char>) -> bool {
        name == "mock"@ || (name == "plaid"@ && self.plaid is Some)
    }
}

impl<P: Clone> Registry<P> {
    /// The provider registered under `name`.
    pub fn get(&self, name: &str) -> (r: Result<Provider<P>, AggregatorError>)
        ensures
            name@ == "mock"@ ==> r matches Ok(Provider::Mock(_)),
            name@ == "plaid"@ && self.plaid is Some ==> (r matches Ok(Provider::Plaid(p)) && cloned(
                self.plaid->0,
                p,
            )),
            name@ == "plaid"@ && self.plaid is None ==> r matches Err(AggregatorError::NotConfigured),
            name@ != "mock"@ && name@ != "plaid"@ ==> (r matches Err(AggregatorError::Unsupported(m))
                && m@ == "unknown provider"@),
    {
        proof {
            reveal_strlit("mock");
            reveal_strlit("plaid");
        }
        proof {
            assert("plaid"@.len() != "mock"@.len());
        }
        if str_eq(name, "mock") {
            Ok(Provider::Mock(MockAggregator))
        } else if str_eq(name, "plaid") {
            match &self.plaid {
                Some(p) => Ok(Provider::Plaid(p.clone())),
                None => Err(AggregatorError::NotConfigured),
            }
        } else {
            Err(AggregatorError::Unsupported("unknown provider"))
        }
    }

    /// Whether `name` resolves to a usable provider.
    pub fn has(&self, name: &str) -> (b: bool)
        ensures
            b == self.has_spec(name@),
    {
        self.get(name).is_ok()
    }
}

/// The mock institution's accounts.
pub open spec fn mock_accounts() -> Seq<ExtAccountView> {
    seq![
        ExtAccountView {
            external_id: "mock-checking"@,
            name: "Mock Everyday Checking"@,
            account_type: AccountType::Checking,
            currency: "USD"@,
            current_balance_minor: 152_340,
        },
        ExtAccountView {
            external_id: "mock-savings"@,
            name: "Mock High-Yield Savings"@,
            account_type: AccountType::Savings,
            currency: "USD"@,
            current_balance_minor: 250_000_000,
        },
    ]
}

/// One canned transaction: provider account, provider id, bank day, signed
/// cents, merchant.
pub type CannedRow = (&'static str, &'static str, &'static str, i64, Option<&'static str>);

pub open spec fn row_view(r: CannedRow) -> (Seq<char>, Seq<char>, Seq<char>, i64, Option<Seq<char>>) {
    (
        r.0@,
        r.1@,
        r.2@,
        r.3,
        match r.4 {
            Some(m) => Some(m@),
            None => None,
        },
    )
}

/// The mock institution's nine canned transactions, newest first.
pub open spec fn canned_rows() -> Seq<(Seq<char>, Seq<char>, Seq<char>, i64, Option<Seq<char>>)> {
    seq![
        ("mock-checking"@, "mc-1"@, "2026-08-25"@, -4_250i64, Some("Coffee Bar"@)),
        ("mock-checking"@, "mc-2"@, "2026-08-24"@, -89_500i64, Some("Grocery Mart"@)),
        ("mock-savings"@, "ms-1"@, "2026-08-24"@, 10_000_000i64, Some("Transfer from Checking"@)),
        ("mock-checking"@, "mc-3"@, "2026-08-23"@, -1_299i64, Some("Streamly"@)),
        ("mock-checking"@, "mc-4"@, "2026-08-22"@, -45_000i64, Some("Gas N Go"@)),
        ("mock-checking"@, "mc-5"@, "2026-08-22"@, -23_750i64, Some("Pharmacy Plus"@)),
        ("mock-checking"@, "mc-6"@, "2026-08-21"@, 25_000_000i64, None),
        ("mock-savings"@, "ms-2"@, "2026-08-20"@, -50_000_000i64, Some("Vanguard Buy"@)),
        ("mock-checking"@, "mc-7"@, "2026-08-20"@, -1_299i64, Some("Streamly"@)),
    ]
}

/// The canned rows.
pub fn canned() -> (r: Vec<CannedRow>)
    ensures
        r@.len() == canned_rows().len(),
        forall|i: int| 0 <= i < r@.len() ==> row_view(#[trigger] r@[i]) == canned_rows()[i],
{
    let r: Vec<CannedRow> = vec![
        ("mock-checking", "mc-1", "2026-08-25", -4_250, Some("Coffee Bar")),
        ("mock-checking", "mc-2", "2026-08-24", -89_500, Some("Grocery Mart")),
        ("mock-savings", "ms-1", "2026-08-24", 10_000_000, Some("Transfer from Checking")),
        ("mock-checking", "mc-3", "2026-08-23", -1_299, Some("Streamly")),
        ("mock-checking", "mc-4", "2026-08-22", -45_000, Some("Gas N Go")),
        ("mock-checking", "mc-5", "2026-08-22", -23_750, Some("Pharmacy Plus")),
        ("mock-checking", "mc-6", "2026-08-21", 25_000_000, None),
        ("mock-savings", "ms-2", "2026-08-20", -50_000_000, Some("Vanguard Buy")),
        ("mock-checking", "mc-7", "2026-08-20", -1_299, Some("Streamly")),
    ];
    proof {
        assert forall|i: int| 0 <= i < r@.len() implies row_view(#[trigger] r@[i]) == canned_rows()[i] by {
            if i == 0 {} else if i == 1 {} else if i == 2 {} else if i == 3 {} else if i == 4 {}
            else if i == 5 {} else if i == 6 {} else if i == 7 {} else {}
        }
    }
    r
}

/// A mock connection's status is always healthy.
pub fn default_status() -> (s: ConnectionStatus)
    ensures
        s == ConnectionStatus::Connected,
{
    ConnectionStatus::Connected
}


/// The description a canned transaction carries: `"{merchant} purchase"`.
pub open spec fn purchase_note(m: Option<Seq<char>>) -> Option<Seq<char>> {
    match m {
        Some(t) => Some(t + " purchase"@),
        None => None,
    }
}

/// A canned row as the feed of connection `conn_id` reports it: the
/// provider id is prefixed with the connection's id.
pub open spec fn canned_txn(
    conn_id: u128,
    row: (Seq<char>, Seq<char>, Seq<char>, i64, Option<Seq<char>>),
) -> ExtTxnView {
    ExtTxnView {
        external_id: uuid_text(conn_id) + seq!['-'] + row.1,
        account_external_id: row.0,
        posted_on: parse_date_spec(row.2)->0,
        amount_minor: row.3,
        merchant_raw: row.4,
        description: purchase_note(row.4),
    }
}

/// The mock feed of connection `conn_id`, in canned order.
pub open spec fn canned_feed(conn_id: u128) -> Seq<ExtTxnView> {
    canned_rows().map_values(|row| canned_txn(conn_id, row))
}

/// Every canned bank day is a `YYYY-MM-DD` calendar date.
proof fn lemma_canned_days_parse()
    ensures
        forall|i: int| 0 <= i < canned_rows().len() ==> (#[trigger] parse_date_spec(canned_rows()[i].2)) is Some,
{
    reveal_strlit("2026-08-25");
    reveal_strlit("2026-08-24");
    reveal_strlit("2026-08-23");
    reveal_strlit("2026-08-22");
    reveal_strlit("2026-08-21");
    reveal_strlit("2026-08-20");
    lemma_iso_text("2026-08-25"@);
    lemma_iso_text("2026-08-24"@);
    lemma_iso_text("2026-08-23"@);
    lemma_iso_text("2026-08-22"@);
    lemma_iso_text("2026-08-21"@);
    lemma_iso_text("2026-08-20"@);
    assert(valid_date(2026, 8, 25));
    assert(valid_date(2026, 8, 24));
    assert(valid_date(2026, 8, 23));
    assert(valid_date(2026, 8, 22));
    assert(valid_date(2026, 8, 21));
    assert(valid_date(2026, 8, 20));
}

/// The canned rows as connection `conn_id`'s transaction feed.
pub fn canned_transactions(conn_id: u128) -> (r: Vec<ExtTxn>)
    ensures
        r@.map_values(|t: ExtTxn| t@) == canned_feed(conn_id),
{
    let rows = canned();
    let id_text = uuid_to_string(conn_id);
    proof {
        lemma_canned_days_parse();
    }
    let mut out: Vec<ExtTxn> = Vec::new();
    let mut i: usize = 0;
    while i < rows.len()
        invariant
            rows@.len() == canned_rows().len(),
            forall|k: int| 0 <= k < rows@.len() ==> row_view(#[trigger] rows@[k]) == canned_rows()[k],
            forall|k: int| 0 <= k < canned_rows().len() ==> (#[trigger] parse_date_spec(canned_rows()[k].2)) is Some,
            id_text@ == uuid_text(conn_id),
            i <= rows@.len(),
            out@.len() == i,
            forall|k: int| 0 <= k < i ==> (#[trigger] out@[k])@ == canned_txn(conn_id, canned_rows()[k]),
        decreases rows@.len() - i,
    {
        let (acct, ext, day, amt, merch) = rows[i];
        proof {
            assert(row_view(rows@[i as int]) == canned_rows()[i as int]);
            assert(parse_date_spec(canned_rows()[i as int].2) is Some);
        }
        let mut external_id = id_text.clone();
        external_id.push('-');
        push_all(&mut external_id, ext);
        let posted_on = parse_date(day).unwrap();
        let (merchant_raw, description) = match merch {
            Some(m) => {
                let mut d = m.to_owned();
                push_all(&mut d, " purchase");
                (Some(m.to_owned()), Some(d))
            },
            None => (None, None),
        };
        let t = ExtTxn {
            external_id,
            account_external_id: acct.to_owned(),
            posted_on,
            amount_minor: amt,
            merchant_raw,
            description,
        };
        proof {
            assert(t@.external_id =~= uuid_text(conn_id) + seq!['-'] + canned_rows()[i as int].1);
        }
        out.push(t);
        i = i + 1;
    }
    proof {
        assert(out@.map_values(|t: ExtTxn| t@) =~= canned_feed(conn_id));
    }
    out
}

/// The page of a feed of `len` items that starts at `offset`: where it
/// ends, capped at the feed's end.
pub open spec fn page_end(offset: int, len: int) -> int {
    if offset + PAGE_SIZE < len { offset + PAGE_SIZE } else { len }
}

/// The offset a mock cursor stands for: its decimal value, zero for no
/// cursor or one that does not parse.
pub open spec fn cursor_offset(cursor: Option<Seq<char>>) -> int {
    match cursor {
        Some(c) => match parse_usize_spec(c) {
            Some(n) => n as int,
            None => 0,
        },
        None => 0,
    }
}

/// The mock feed's page at `cursor`.
pub open spec fn mock_page(conn_id: u128, cursor: Option<Seq<char>>) -> SyncPageView {
    let all = canned_feed(conn_id);
    let offset = cursor_offset(cursor);
    let end = page_end(offset, all.len() as int);
    SyncPageView {
        txns: if offset <= end { all.subrange(offset, end) } else { Seq::empty() },
        next_cursor: dec_text(end as nat),
        has_more: end < all.len(),
    }
}

pub open spec fn opt_str_view(o: Option<&str>) -> Option<Seq<char>> {
    match o {
        Some(s) => Some(s@),
        None => None,
    }
}

/// The mock feed's cursor resumes exactly where the page it came with
/// ended, so that walking the pages visits the feed once, in order.
pub proof fn law_mock_cursor_resumes(conn_id: u128, cursor: Option<Seq<char>>)
    ensures
        ({
            let all = canned_feed(conn_id);
            let offset = cursor_offset(cursor);
            let next = cursor_offset(Some(mock_page(conn_id, cursor).next_cursor));
            &&& next == page_end(offset, all.len() as int)
            &&& offset <= next ==> all.subrange(0, next) == all.subrange(0, offset)
                + mock_page(conn_id, cursor).txns
        }),
{
    let all = canned_feed(conn_id);
    let offset = cursor_offset(cursor);
    let end = page_end(offset, all.len() as int);
    lemma_dec_text_reads_back(end as nat);
    if offset <= end {
        assert(all.subrange(0, end) =~= all.subrange(0, offset) + all.subrange(offset, end));
    }
}

impl MockAggregator {
    /// The mock institution's two accounts, whatever the connection.
    pub fn accounts(&self, conn: &Connection) -> (r: Result<Vec<ExtAccount>, AggregatorError>)
        ensures
            r matches Ok(v) && v@.map_values(|a: ExtAccount| a@) == mock_accounts(),
    {
        let v = vec![
            ExtAccount {
                external_id: "mock-checking".to_owned(),
                name: "Mock Everyday Checking".to_owned(),
                account_type: AccountType::Checking,
                currency: "USD".to_owned(),
                current_balance_minor: 152_340,
            },
            ExtAccount {
                external_id: "mock-savings".to_owned(),
                name: "Mock High-Yield Savings".to_owned(),
                account_type: AccountType::Savings,
                currency: "USD".to_owned(),
                current_balance_minor: 250_000_000,
            },
        ];
        proof {
            assert(v@.map_values(|a: ExtAccount| a@) =~= mock_accounts());
        }
        Ok(v)
    }

    /// The canned feed paged by an integer offset cursor, `PAGE_SIZE` at a
    /// time, so that repeated syncs see the same transactions.
    pub fn transactions(&self, conn: &Connection, cursor: Option<&str>) -> (r: Result<
        SyncPage,
        AggregatorError,
    >)
        ensures
            r matches Ok(p) && p@ == mock_page(conn.id, opt_str_view(cursor)),
    {
        let offset: usize = match cursor {
            Some(c) => match parse_usize(c) {
                Some(n) => n,
                None => 0,
            },
            None => 0,
        };
        let all = canned_transactions(conn.id);
        proof {
            assert(all@.len() == canned_feed(conn.id).len());
        }
        let end: usize = if offset < all.len() && all.len() - offset > PAGE_SIZE {
            offset + PAGE_SIZE
        } else {
            all.len()
        };
        let mut txns: Vec<ExtTxn> = Vec::new();
        if offset <= end {
            let mut i = offset;
            while i < end
                invariant
                    offset <= i <= end <= all@.len(),
                    txns@.len() == i - offset,
                    forall|k: int| 0 <= k < i - offset ==> (#[trigger] txns@[k])@ == all@[offset + k]@,
                decreases end - i,
            {
                txns.push(all[i].duplicate());
                i = i + 1;
            }
        }
        let page = SyncPage { txns, next_cursor: usize_to_string(end), has_more: end < all.len() };
        proof {
            let feed = canned_feed(conn.id);
            assert(all@.map_values(|t: ExtTxn| t@) == feed);
            assert(cursor_offset(opt_str_view(cursor)) == offset);
            assert(page_end(offset as int, feed.len() as int) == end);
            if offset <= end {
                assert(page@.txns =~= feed.subrange(offset as int, end as int)) by {
                    assert forall|k: int| 0 <= k < end - offset implies page@.txns[k] == feed.subrange(
                        offset as int,
                        end as int,
                    )[k] by {
                        assert(all@.map_values(|t: ExtTxn| t@)[offset + k] == all@[offset + k]@);
                    }
                }
            } else {
                assert(page@.txns =~= Seq::<ExtTxnView>::empty());
            }
        }
        Ok(page)
    }
}


/// The account type of a provider `(type, subtype)` pair.
pub open spec fn plaid_account_type(t: Seq<char>, sub: Option<Seq<char>>) -> AccountType {
    if t == "depository"@ && sub == Some("checking"@) {
        AccountType::Checking
    } else if t == "depository"@ && (sub == Some("savings"@) || sub == Some("cd"@) || sub == Some("hsa"@)
        || sub == Some("money market"@)) {
        AccountType::Savings
    } else if t == "credit"@ {
        AccountType::CreditCard
    } else if t == "investment"@ && (sub == Some("529"@) || sub == Some("retirement"@)) {
        AccountType::Retirement
    } else if t == "investment"@ {
        AccountType::Brokerage
    } else if t == "loan"@ && sub == Some("mortgage"@) {
        AccountType::Mortgage
    } else if t == "loan"@ {
        AccountType::Loan
    } else {
        AccountType::Other
    }
}

fn opt_is(o: Option<&str>, lit: &str) -> (b: bool)
    ensures
        b == (opt_str_view(o) == Some(lit@)),
{
    match o {
        Some(s) => str_eq(s, lit),
        None => false,
    }
}

/// Maps a provider's `(type, subtype)` onto the account taxonomy.
pub fn map_type(plaid_type: &str, subtype: Option<&str>) -> (r: AccountType)
    ensures
        r == plaid_account_type(plaid_type@, opt_str_view(subtype)),
{
    if str_eq(plaid_type, "depository") && opt_is(subtype, "checking") {
        AccountType::Checking
    } else if str_eq(plaid_type, "depository") && (opt_is(subtype, "savings") || opt_is(subtype, "cd")
        || opt_is(subtype, "hsa") || opt_is(subtype, "money market")) {
        AccountType::Savings
    } else if str_eq(plaid_type, "credit") {
        AccountType::CreditCard
    } else if str_eq(plaid_type, "investment") && (opt_is(subtype, "529") || opt_is(subtype, "retirement")) {
        AccountType::Retirement
    } else if str_eq(plaid_type, "investment") {
        AccountType::Brokerage
    } else if str_eq(plaid_type, "loan") && opt_is(subtype, "mortgage") {
        AccountType::Mortgage
    } else if str_eq(plaid_type, "loan") {
        AccountType::Loan
    } else {
        AccountType::Other
    }
}

/// A provider balance in the library's sign convention: liabilities are held
/// negative, and Plaid reports what is owed on a liability as a positive
/// `current` balance, so a liability's sign is flipped (`i64::MIN`, which has
/// no negation, saturates to `i64::MAX`).
pub open spec fn signed_balance(ty: AccountType, current: i64) -> i64 {
    if !ty.spec_is_liability() {
        current
    } else if current == i64::MIN {
        i64::MAX
    } else {
        -current as i64
    }
}

/// A Plaid account row as the aggregator hands it on: the type mapped from
/// Plaid's type and subtype, the currency defaulting to US dollars, and the
/// balance (in cents) in the library's sign convention.
pub fn plaid_account(
    account_id: String,
    name: String,
    plaid_type: &str,
    subtype: Option<&str>,
    iso_currency_code: Option<String>,
    current_minor: i64,
) -> (a: ExtAccount)
    ensures
        a@ == (ExtAccountView {
            external_id: account_id@,
            name: name@,
            account_type: plaid_account_type(plaid_type@, opt_str_view(subtype)),
            currency: match iso_currency_code {
                Some(c) => c@,
                None => "USD"@,
            },
            current_balance_minor: signed_balance(
                plaid_account_type(plaid_type@, opt_str_view(subtype)),
                current_minor,
            ),
        }),
{
    let account_type = map_type(plaid_type, subtype);
    let current_balance_minor = if !account_type.is_liability() {
        current_minor
    } else if current_minor == i64::MIN {
        i64::MAX
    } else {
        -current_minor
    };
    let currency = match iso_currency_code {
        Some(c) => c,
        None => "USD".to_owned(),
    };
    ExtAccount { external_id: account_id, name, account_type, currency, current_balance_minor }
}

/// A Plaid transaction row as the aggregator hands it on. Plaid counts an
/// outflow as positive and the library as negative, so the amount's sign is
/// flipped; the merchant is Plaid's merchant name, or else the transaction's
/// name, which is also its description. `None` where the date is not a
/// `YYYY-MM-DD` calendar date or the amount has no negation.
pub fn plaid_txn(
    transaction_id: String,
    account_id: String,
    date: &str,
    amount_minor: i64,
    name: Option<String>,
    merchant_name: Option<String>,
) -> (r: Option<ExtTxn>)
    ensures
        r is Some <==> parse_date_spec(date@) is Some && amount_minor != i64::MIN,
        r matches Some(t) ==> t@ == (ExtTxnView {
            external_id: transaction_id@,
            account_external_id: account_id@,
            posted_on: parse_date_spec(date@)->0,
            amount_minor: -amount_minor as i64,
            merchant_raw: match merchant_name {
                Some(m) => Some(m@),
                None => opt_chars(name),
            },
            description: opt_chars(name),
        }),
{
    let posted_on = match parse_date(date) {
        Some(d) => d,
        None => return None,
    };
    if amount_minor == i64::MIN {
        return None;
    }
    let merchant_raw = match merchant_name {
        Some(m) => Some(m),
        None => clone_opt_string(&name),
    };
    Some(ExtTxn {
        external_id: transaction_id,
        account_external_id: account_id,
        posted_on,
        amount_minor: -amount_minor,
        merchant_raw,
        description: name,
    })
}

} // verus!
