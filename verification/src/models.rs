//! Domain models. All money values are integer minor units (cents), signed:
//! income positive, expenses negative; liability balances carry a minus sign.
//!
//! Identifiers are 128-bit values (the integer form of a UUID) and instants
//! are nanoseconds since the Unix epoch, UTC, so that ordering an identifier
//! or an instant is ordering an integer.

use vstd::prelude::*;
use crate::table::{KeyOf, Record};

verus! {

/// Nanoseconds since the Unix epoch, UTC.
pub type Timestamp = i128;

/// The string content of an optional string.
pub open spec fn opt_chars(o: Option<String>) -> Option<Seq<char>> {
    match o {
        Some(s) => Some(s@),
        None => None,
    }
}

/// Copies an optional string, keeping its content.
pub fn clone_opt_string(o: &Option<String>) -> (r: Option<String>)
    ensures
        opt_chars(r) == opt_chars(*o),
{
    match o {
        Some(s) => Some(s.clone()),
        None => None,
    }
}

/// A bank day (proleptic Gregorian calendar).
#[derive(Clone, Copy, Debug, PartialEq, Eq, Structural)]
pub struct Date {
    pub year: i32,
    pub month: u8,
    pub day: u8,
}

impl Date {
    pub fn new(year: i32, month: u8, day: u8) -> (d: Date)
        ensures
            d == (Date { year, month, day }),
    {
        Date { year, month, day }
    }

    /// Chronological order: by year, then month, then day.
    pub open spec fn before(self, other: Date) -> bool {
        ||| self.year < other.year
        ||| self.year == other.year && self.month < other.month
        ||| self.year == other.year && self.month == other.month && self.day < other.day
    }

    pub fn is_before(&self, other: &Date) -> (b: bool)
        ensures
            b == self.before(*other),
    {
        self.year < other.year || (self.year == other.year && self.month < other.month) || (
        self.year == other.year && self.month == other.month && self.day < other.day)
    }
}

#[derive(Debug)]
pub struct User {
    pub id: u128,
    pub email: String,
    pub display_name: String,
    pub created_at: Timestamp,
}

pub struct UserView {
    pub id: u128,
    pub email: Seq<char>,
    pub display_name: Seq<char>,
    pub created_at: Timestamp,
}

impl View for User {
    type V = UserView;

    open spec fn view(&self) -> UserView {
        UserView {
            id: self.id,
            email: self.email@,
            display_name: self.display_name@,
            created_at: self.created_at,
        }
    }
}

impl User {
    pub fn duplicate(&self) -> (r: User)
        ensures
            r@ == self@,
    {
        User {
            id: self.id,
            email: self.email.clone(),
            display_name: self.display_name.clone(),
            created_at: self.created_at,
        }
    }
}

#[derive(Debug)]
pub struct StoredUser {
    pub user: User,
    pub password_hash: String,
}

pub struct StoredUserView {
    pub user: UserView,
    pub password_hash: Seq<char>,
}

impl View for StoredUser {
    type V = StoredUserView;

    open spec fn view(&self) -> StoredUserView {
        StoredUserView { user: self.user@, password_hash: self.password_hash@ }
    }
}

impl StoredUser {
    pub fn duplicate(&self) -> (r: StoredUser)
        ensures
            r@ == self@,
    {
        StoredUser { user: self.user.duplicate(), password_hash: self.password_hash.clone() }
    }
}

#[derive(Debug)]
pub struct Session {
    pub token: String,
    pub user_id: u128,
    pub expires_at: Timestamp,
}

pub struct SessionView {
    pub token: Seq<char>,
    pub user_id: u128,
    pub expires_at: Timestamp,
}

impl View for Session {
    type V = SessionView;

    open spec fn view(&self) -> SessionView {
        SessionView { token: self.token@, user_id: self.user_id, expires_at: self.expires_at }
    }
}

impl Session {
    pub fn duplicate(&self) -> (r: Session)
        ensures
            r@ == self@,
    {
        Session { token: self.token.clone(), user_id: self.user_id, expires_at: self.expires_at }
    }
}

#[derive(Clone, Copy, Debug, PartialEq, Eq, Structural)]
pub enum Role {
    Owner,
    Member,
    Advisor,
}

#[derive(Clone, Copy, Debug, PartialEq, Eq, Structural)]
pub enum MemberStatus {
    Active,
    Invited,
    Revoked,
}

#[derive(Clone, Copy, Debug, PartialEq, Eq, Structural)]
pub struct Membership {
    pub household_id: u128,
    pub user_id: u128,
    pub role: Role,
    pub status: MemberStatus,
    pub created_at: Timestamp,
}

#[derive(Debug)]
pub struct Household {
    pub id: u128,
    pub name: String,
    pub currency: String,
    pub created_at: Timestamp,
}

pub struct HouseholdView {
    pub id: u128,
    pub name: Seq<char>,
    pub currency: Seq<char>,
    pub created_at: Timestamp,
}

impl View for Household {
    type V = HouseholdView;

    open spec fn view(&self) -> HouseholdView {
        HouseholdView {
            id: self.id,
            name: self.name@,
            currency: self.currency@,
            created_at: self.created_at,
        }
    }
}

impl Household {
    pub fn duplicate(&self) -> (r: Household)
        ensures
            r@ == self@,
    {
        Household {
            id: self.id,
            name: self.name.clone(),
            currency: self.currency.clone(),
            created_at: self.created_at,
        }
    }
}

#[derive(Clone, Copy, Debug, PartialEq, Eq, Structural)]
pub enum ConnectionStatus {
    Pending,
    Connected,
    RequiresReauth,
    Error,
    Disconnected,
}

/// One provider linkage (Plaid Item, or a mock) for a household.
#[derive(Debug)]
pub struct Connection {
    pub id: u128,
    pub household_id: u128,
    /// Aggregator name (`plaid`, `mock`).
    pub provider: String,
    pub external_item_id: Option<String>,
    /// Provider credential.
    pub access_token: Option<String>,
    /// Opaque sync cursor for incremental transaction pulls.
    pub cursor: Option<String>,
    pub status: ConnectionStatus,
    pub institution_name: Option<String>,
    pub created_at: Timestamp,
}

pub struct ConnectionView {
    pub id: u128,
    pub household_id: u128,
    pub provider: Seq<char>,
    pub external_item_id: Option<Seq<char>>,
    pub access_token: Option<Seq<char>>,
    pub cursor: Option<Seq<char>>,
    pub status: ConnectionStatus,
    pub institution_name: Option<Seq<char>>,
    pub created_at: Timestamp,
}

impl View for Connection {
    type V = ConnectionView;

    open spec fn view(&self) -> ConnectionView {
        ConnectionView {
            id: self.id,
            household_id: self.household_id,
            provider: self.provider@,
            external_item_id: opt_chars(self.external_item_id),
            access_token: opt_chars(self.access_token),
            cursor: opt_chars(self.cursor),
            status: self.status,
            institution_name: opt_chars(self.institution_name),
            created_at: self.created_at,
        }
    }
}

impl Connection {
    pub fn duplicate(&self) -> (r: Connection)
        ensures
            r@ == self@,
    {
        Connection {
            id: self.id,
            household_id: self.household_id,
            provider: self.provider.clone(),
            external_item_id: clone_opt_string(&self.external_item_id),
            access_token: clone_opt_string(&self.access_token),
            cursor: clone_opt_string(&self.cursor),
            status: self.status,
            institution_name: clone_opt_string(&self.institution_name),
            created_at: self.created_at,
        }
    }
}

#[derive(Clone, Copy, Debug, PartialEq, Eq, Structural)]
pub enum AccountType {
    Checking,
    Savings,
    CreditCard,
    Brokerage,
    Retirement,
    Loan,
    Mortgage,
    Property,
    Vehicle,
    Cash,
    Other,
}

impl AccountType {
    pub open spec fn spec_is_liability(self) -> bool {
        self is CreditCard || self is Loan || self is Mortgage
    }

    /// Liability accounts hold negative balances.
    pub fn is_liability(self) -> (b: bool)
        ensures
            b == self.spec_is_liability(),
    {
        match self {
            AccountType::CreditCard | AccountType::Loan | AccountType::Mortgage => true,
            _ => false,
        }
    }
}

#[derive(Clone, Copy, Debug, PartialEq, Eq, Structural)]
pub enum Visibility {
    AllMembers,
    PartnerOnly,
    Private,
}

#[derive(Debug)]
pub struct Account {
    pub id: u128,
    pub household_id: u128,
    /// Set for aggregated accounts; `None` for manual ones.
    pub connection_id: Option<u128>,
    /// Provider-side account id, unique per connection.
    pub external_id: Option<String>,
    pub created_by: u128,
    pub account_type: AccountType,
    pub name: String,
    pub currency: String,
    /// Signed. Assets >= 0; credit cards / loans <= 0.
    pub current_balance_minor: i64,
    pub visibility: Visibility,
    pub created_at: Timestamp,
}

pub struct AccountView {
    pub id: u128,
    pub household_id: u128,
    pub connection_id: Option<u128>,
    pub external_id: Option<Seq<char>>,
    pub created_by: u128,
    pub account_type: AccountType,
    pub name: Seq<char>,
    pub currency: Seq<char>,
    pub current_balance_minor: i64,
    pub visibility: Visibility,
    pub created_at: Timestamp,
}

impl View for Account {
    type V = AccountView;

    open spec fn view(&self) -> AccountView {
        AccountView {
            id: self.id,
            household_id: self.household_id,
            connection_id: self.connection_id,
            external_id: opt_chars(self.external_id),
            created_by: self.created_by,
            account_type: self.account_type,
            name: self.name@,
            currency: self.currency@,
            current_balance_minor: self.current_balance_minor,
            visibility: self.visibility,
            created_at: self.created_at,
        }
    }
}

impl Account {
    pub fn duplicate(&self) -> (r: Account)
        ensures
            r@ == self@,
    {
        Account {
            id: self.id,
            household_id: self.household_id,
            connection_id: self.connection_id,
            external_id: clone_opt_string(&self.external_id),
            created_by: self.created_by,
            account_type: self.account_type,
            name: self.name.clone(),
            currency: self.currency.clone(),
            current_balance_minor: self.current_balance_minor,
            visibility: self.visibility,
            created_at: self.created_at,
        }
    }
}

#[derive(Clone, Copy, Debug, PartialEq, Eq, Structural)]
pub enum ReviewState {
    Unreviewed,
    Reviewed,
    NeedsAttention,
}

#[derive(Clone, Copy, Debug, PartialEq, Eq, Structural)]
pub enum TxSource {
    Manual,
    Import,
    Aggregate,
}

#[derive(Debug)]
pub struct Transaction {
    pub id: u128,
    pub household_id: u128,
    pub account_id: u128,
    /// Provider-side transaction id, unique per account (dedup key for sync).
    pub external_id: Option<String>,
    /// Bank day.
    pub posted_on: Date,
    /// Signed: income positive, expense negative.
    pub amount_minor: i64,
    pub merchant_raw: Option<String>,
    pub description: Option<String>,
    pub notes: Option<String>,
    pub review_state: ReviewState,
    pub source: TxSource,
    pub created_by: u128,
    pub created_at: Timestamp,
}

pub struct TransactionView {
    pub id: u128,
    pub household_id: u128,
    pub account_id: u128,
    pub external_id: Option<Seq<char>>,
    pub posted_on: Date,
    pub amount_minor: i64,
    pub merchant_raw: Option<Seq<char>>,
    pub description: Option<Seq<char>>,
    pub notes: Option<Seq<char>>,
    pub review_state: ReviewState,
    pub source: TxSource,
    pub created_by: u128,
    pub created_at: Timestamp,
}

impl View for Transaction {
    type V = TransactionView;

    open spec fn view(&self) -> TransactionView {
        TransactionView {
            id: self.id,
            household_id: self.household_id,
            account_id: self.account_id,
            external_id: opt_chars(self.external_id),
            posted_on: self.posted_on,
            amount_minor: self.amount_minor,
            merchant_raw: opt_chars(self.merchant_raw),
            description: opt_chars(self.description),
            notes: opt_chars(self.notes),
            review_state: self.review_state,
            source: self.source,
            created_by: self.created_by,
            created_at: self.created_at,
        }
    }
}

impl Transaction {
    pub fn duplicate(&self) -> (r: Transaction)
        ensures
            r@ == self@,
    {
        Transaction {
            id: self.id,
            household_id: self.household_id,
            account_id: self.account_id,
            external_id: clone_opt_string(&self.external_id),
            posted_on: self.posted_on,
            amount_minor: self.amount_minor,
            merchant_raw: clone_opt_string(&self.merchant_raw),
            description: clone_opt_string(&self.description),
            notes: clone_opt_string(&self.notes),
            review_state: self.review_state,
            source: self.source,
            created_by: self.created_by,
            created_at: self.created_at,
        }
    }
}

impl View for Membership {
    type V = Membership;

    open spec fn view(&self) -> Membership {
        *self
    }
}

impl Record for StoredUser {
    type K = u128;

    open spec fn key_of(v: StoredUserView) -> u128 {
        v.user.id
    }

    fn key(&self) -> (k: u128) {
        let k = self.user.id;
        assert(k.kv() == k);
        k
    }

    fn copy_record(&self) -> (r: Self) {
        self.duplicate()
    }
}

impl Record for Session {
    type K = String;

    open spec fn key_of(v: SessionView) -> Seq<char> {
        v.token
    }

    fn key(&self) -> (k: String) {
        let k = self.token.clone();
        assert(k.kv() == k@);
        k
    }

    fn copy_record(&self) -> (r: Self) {
        self.duplicate()
    }
}

impl Record for Household {
    type K = u128;

    open spec fn key_of(v: HouseholdView) -> u128 {
        v.id
    }

    fn key(&self) -> (k: u128) {
        self.id
    }

    fn copy_record(&self) -> (r: Self) {
        self.duplicate()
    }
}

impl Record for Membership {
    type K = (u128, u128);

    open spec fn key_of(v: Membership) -> (u128, u128) {
        (v.household_id, v.user_id)
    }

    fn key(&self) -> (k: (u128, u128)) {
        let k = (self.household_id, self.user_id);
        assert(k.kv() == k);
        k
    }

    fn copy_record(&self) -> (r: Self) {
        *self
    }
}

impl Record for Account {
    type K = u128;

    open spec fn key_of(v: AccountView) -> u128 {
        v.id
    }

    fn key(&self) -> (k: u128) {
        self.id
    }

    fn copy_record(&self) -> (r: Self) {
        self.duplicate()
    }
}

impl Record for Transaction {
    type K = u128;

    open spec fn key_of(v: TransactionView) -> u128 {
        v.id
    }

    fn key(&self) -> (k: u128) {
        self.id
    }

    fn copy_record(&self) -> (r: Self) {
        self.duplicate()
    }
}

impl Record for Connection {
    type K = u128;

    open spec fn key_of(v: ConnectionView) -> u128 {
        v.id
    }

    fn key(&self) -> (k: u128) {
        self.id
    }

    fn copy_record(&self) -> (r: Self) {
        self.duplicate()
    }
}

impl Record for String {
    type K = String;

    open spec fn key_of(v: Seq<char>) -> Seq<char> {
        v
    }

    fn key(&self) -> (k: String) {
        let k = self.clone();
        assert(k.kv() == k@);
        k
    }

    fn copy_record(&self) -> (r: Self) {
        self.clone()
    }
}

/// The liabilities are exactly credit cards, loans and mortgages: every
/// other account type holds an asset.
pub proof fn law_liability_types(t: AccountType)
    ensures
        t.spec_is_liability() <==> (t == AccountType::CreditCard || t == AccountType::Loan || t
            == AccountType::Mortgage),
        t == AccountType::Mortgage ==> t.spec_is_liability(),
        t == AccountType::Checking || t == AccountType::Savings || t == AccountType::Brokerage || t
            == AccountType::Retirement || t == AccountType::Property || t == AccountType::Vehicle || t
            == AccountType::Cash || t == AccountType::Other ==> !t.spec_is_liability(),
{
}

/// Bank days are ordered chronologically: an earlier year comes first
/// whatever the months and days; within a year an earlier month comes first
/// whatever the days; within a month the earlier day comes first. No day
/// comes before itself, and of two different days exactly one comes first.
pub proof fn law_dates_chronological(a: Date, b: Date)
    ensures
        a.year < b.year ==> a.before(b),
        a.year == b.year && a.month < b.month ==> a.before(b),
        a.year == b.year && a.month == b.month && a.day < b.day ==> a.before(b),
        !a.before(a),
        a != b ==> (a.before(b) <==> !b.before(a)),
        a.before(b) ==> a.year <= b.year,
{
}

} // verus!
