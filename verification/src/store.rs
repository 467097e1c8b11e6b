//! In-memory store: the single persistence facade. Handlers never touch
//! collections directly.
//!
//! Invariants enforced here (and only here):
//!   * unique, normalized (trimmed, ASCII-lower-case) emails
//!   * transactions adjust their manual account's running balance
//!   * deleting an account cascades its transactions

use vstd::prelude::*;
use crate::aggregate::{ExtAccount, ExtAccountView};
use crate::auth::new_token;
use crate::ids::{fresh_id, now_nanos};
use crate::models::{
    opt_chars, ConnectionStatus, Date, ReviewState, TxSource,
    Account, AccountView, Connection, ConnectionView, Household, HouseholdView, MemberStatus,
    Membership, Role, Session, SessionView, StoredUser, StoredUserView, Timestamp, Transaction,
    TransactionView, User, UserView, Visibility,
};
use crate::sorted::{collect_sorted, has_key, insert_sorted, sorted_by, Ranked};
use crate::table::{keys_match, enumerates, Record, Table};
use crate::text::{
    hex_bytes, is_token_text, lemma_hex_bytes_shape, lemma_normalized_email_idempotent, normalize_email,
    normalized_email, push_all, str_eq,
};
use vstd::string::*;

verus! {

#[derive(Debug)]
pub enum StoreError {
    EmailTaken,
    NotFound(&'static str),
    /// The system's random source failed, so no fresh id could be drawn.
    NoRandomness,
}

pub type StoreResult<T> = Result<T, StoreError>;

/// The abstract content of the store.
pub struct StoreView {
    pub users: Map<u128, StoredUserView>,
    pub sessions: Map<Seq<char>, SessionView>,
    pub households: Map<u128, HouseholdView>,
    pub members: Map<(u128, u128), Membership>,
    pub accounts: Map<u128, AccountView>,
    pub txns: Map<u128, TransactionView>,
    pub connections: Map<u128, ConnectionView>,
    /// Claimed webhook event keys, `{provider}:{event_key}`.
    pub webhook_events: Set<Seq<char>>,
}

impl StoreView {
    /// Some user is registered under this (normalized) email.
    pub open spec fn email_taken(self, email: Seq<char>) -> bool {
        exists|id: u128| #[trigger] self.users.contains_key(id) && self.users[id].user.email == email
    }

    /// No two users share an email, and every stored email is normalized.
    pub open spec fn emails_ok(self) -> bool {
        &&& forall|a: u128, b: u128|
            #![trigger self.users[a], self.users[b]]
            self.users.contains_key(a) && self.users.contains_key(b) && self.users[a].user.email
                == self.users[b].user.email ==> a == b
        &&& forall|a: u128| #[trigger]
            self.users.contains_key(a) ==> normalized_email(self.users[a].user.email)
                == self.users[a].user.email
    }

    /// `user` is an active owner of `household`.
    pub open spec fn is_owner(self, household: u128, user: u128) -> bool {
        &&& self.members.contains_key((household, user))
        &&& self.members[(household, user)].role == Role::Owner
        &&& self.members[(household, user)].status == MemberStatus::Active
    }

    /// `user` holds an active membership of `household`.
    pub open spec fn is_active_member(self, household: u128, user: u128) -> bool {
        &&& self.members.contains_key((household, user))
        &&& self.members[(household, user)].status == MemberStatus::Active
    }

    /// Visibility rule: `AllMembers` is visible to every active member of the
    /// account's household; tighter scopes to the creator and household owners
    /// only.
    pub open spec fn can_view(self, a: AccountView, viewer: u128) -> bool {
        match a.visibility {
            Visibility::AllMembers => self.is_active_member(a.household_id, viewer),
            _ => a.created_by == viewer || self.is_owner(a.household_id, viewer),
        }
    }

    /// `user` is an active member of the existing household `household`.
    pub open spec fn in_household(self, household: u128, user: u128) -> bool {
        &&& self.members.contains_key((household, user))
        &&& self.members[(household, user)].status == MemberStatus::Active
        &&& self.households.contains_key(household)
    }

    /// The account exists and is manual (not synced from a provider).
    pub open spec fn is_manual(self, account: u128) -> bool {
        self.accounts.contains_key(account) && self.accounts[account].connection_id is None
    }

    /// The accounts after moving a manual account's balance by `delta`;
    /// synced and missing accounts are left alone.
    pub open spec fn shift_balance(self, account: u128, delta: int) -> Map<u128, AccountView> {
        if self.is_manual(account) {
            self.accounts.insert(
                account,
                AccountView {
                    current_balance_minor: (self.accounts[account].current_balance_minor + delta) as i64,
                    ..self.accounts[account]
                },
            )
        } else {
            self.accounts
        }
    }

    /// A transaction with provider id `ext` is already recorded on `account`.
    pub open spec fn has_external(self, account: u128, ext: Seq<char>) -> bool {
        exists|k: u128|
            #[trigger] self.txns.contains_key(k) && self.txns[k].account_id == account
                && self.txns[k].external_id == Some(ext)
    }

    /// Recording `t` would duplicate a synced transaction.
    pub open spec fn is_duplicate(self, t: TransactionView) -> bool {
        t.external_id matches Some(e) && self.has_external(t.account_id, e)
    }

    /// The store after recording `t`: its manual account's balance moves by
    /// its amount.
    pub open spec fn with_transaction(self, t: TransactionView) -> StoreView {
        StoreView {
            accounts: self.shift_balance(t.account_id, t.amount_minor as int),
            txns: self.txns.insert(t.id, t),
            ..self
        }
    }

    /// `user` is an active owner of `household`, found by scanning members.
    pub open spec fn owner_of(self, household: u128, user: u128) -> bool {
        self.is_owner(household, user)
    }

    /// Moving the balance by `delta` stays within `i64`.
    pub open spec fn shift_fits(self, account: u128, delta: int) -> bool {
        self.is_manual(account) ==> i64::MIN <= self.accounts[account].current_balance_minor + delta
            <= i64::MAX
    }
}

/// Some membership row among `rows[..i]` ties `user` to household `h`.
spec fn row_for(rows: Seq<Membership>, i: int, user: u128, h: u128) -> bool {
    exists|j: int| 0 <= j < i && #[trigger] rows[j].household_id == h && rows[j].user_id == user
}

/// Household `h` is in `list`.
spec fn listed(list: Seq<Household>, h: u128) -> bool {
    exists|m: int| 0 <= m < list.len() && #[trigger] list[m].id == h
}

/// Collected households come from earlier membership rows of `user`.
spec fn hh_from_rows(rows: Seq<Membership>, i: int, user: u128, list: Seq<Household>) -> bool {
    forall|m: int| 0 <= m < list.len() ==> row_for(rows, i, user, #[trigger] list[m].id)
}

/// Collected households are ones `user` belongs to, as stored.
spec fn hh_belongs(s: StoreView, user: u128, list: Seq<Household>) -> bool {
    forall|m: int|
        #![trigger list[m]]
        0 <= m < list.len() ==> s.in_household(list[m].id, user) && s.households[list[m].id]
            == list[m]@
}

/// Every qualifying row among `rows[..i]` has been collected.
spec fn hh_complete(s: StoreView, rows: Seq<Membership>, i: int, user: u128, list: Seq<Household>) -> bool {
    forall|j: int|
        0 <= j < i && s.in_household(rows[j].household_id, user) && rows[j].user_id == user
            ==> listed(list, #[trigger] rows[j].household_id)
}

/// While collecting the households of `user` from the membership rows
/// `rows[..i]`: every collected household is one `user` belongs to, found in
/// an earlier row, and every qualifying earlier row was collected.
spec fn hh_collect_inv(s: StoreView, rows: Seq<Membership>, i: int, user: u128, list: Seq<Household>) -> bool {
    &&& hh_from_rows(rows, i, user, list)
    &&& hh_belongs(s, user, list)
    &&& hh_complete(s, rows, i, user, list)
}

proof fn lemma_hh_comparable(
    s: StoreView,
    rows: Seq<Membership>,
    i: int,
    user: u128,
    list: Seq<Household>,
    h: Household,
)
    requires
        enumerates::<Membership>(s.members, rows),
        0 <= i < rows.len(),
        rows[i].user_id == user,
        h.id == rows[i].household_id,
        hh_from_rows(rows, i, user, list),
    ensures
        forall|k: int|
            0 <= k < list.len() ==> Household::precedes(#[trigger] list[k]@, h@)
                || Household::precedes(h@, list[k]@),
{
    assert forall|k: int| 0 <= k < list.len() implies Household::precedes(
        #[trigger] list[k]@,
        h@,
    ) || Household::precedes(h@, list[k]@) by {
        assert(row_for(rows, i, user, list[k].id));
        let j = choose|j: int|
            0 <= j < i && #[trigger] rows[j].household_id == list[k].id && rows[j].user_id == user;
        assert(Membership::key_of(rows[j]@) != Membership::key_of(rows[i]@));
    }
}

proof fn lemma_hh_skip(s: StoreView, rows: Seq<Membership>, i: int, user: u128, list: Seq<Household>)
    requires
        enumerates::<Membership>(s.members, rows),
        0 <= i < rows.len(),
        !(rows[i].user_id == user && rows[i].status == MemberStatus::Active
            && s.households.contains_key(rows[i].household_id)),
        hh_collect_inv(s, rows, i, user, list),
    ensures
        hh_collect_inv(s, rows, i + 1, user, list),
{
    assert(s.members.contains_key(Membership::key_of(rows[i]@)));
    assert(s.members[Membership::key_of(rows[i]@)] == rows[i]@);
    assert forall|m: int| 0 <= m < list.len() implies row_for(rows, i + 1, user, #[trigger] list[m].id) by {
        assert(row_for(rows, i, user, list[m].id));
        let j = choose|j: int|
            0 <= j < i && #[trigger] rows[j].household_id == list[m].id && rows[j].user_id == user;
        assert(0 <= j < i + 1);
    }
    assert forall|j: int|
        0 <= j < i + 1 && s.in_household(rows[j].household_id, user) && rows[j].user_id == user
            implies listed(list, #[trigger] rows[j].household_id) by {
        if j == i {
            assert(Membership::key_of(rows[i]@) == (rows[i].household_id, user));
            assert(s.members[(rows[i].household_id, user)] == rows[i]);
        }
    }
}

proof fn lemma_hh_insert(
    s: StoreView,
    rows: Seq<Membership>,
    i: int,
    user: u128,
    before: Seq<Household>,
    after: Seq<Household>,
    p: int,
    h: Household,
)
    requires
        enumerates::<Membership>(s.members, rows),
        keys_match::<Household>(s.households),
        0 <= i < rows.len(),
        rows[i].user_id == user,
        rows[i].status == MemberStatus::Active,
        s.households.contains_key(rows[i].household_id),
        s.households[rows[i].household_id] == h@,
        hh_collect_inv(s, rows, i, user, before),
        0 <= p <= before.len(),
        after == before.insert(p, h),
    ensures
        hh_collect_inv(s, rows, i + 1, user, after),
{
    assert(s.members.contains_key(Membership::key_of(rows[i]@)));
    assert(s.members[Membership::key_of(rows[i]@)] == rows[i]@);
    assert(h.id == rows[i].household_id);
    assert(s.in_household(h.id, user));
    assert forall|k: int| 0 <= k < after.len() implies row_for(rows, i + 1, user, #[trigger] after[k].id) by {
        if k == p {
            assert(rows[i].household_id == after[k].id);
        } else {
            let k0 = if k < p { k } else { k - 1 };
            assert(after[k] == before[k0]);
            assert(row_for(rows, i, user, before[k0].id));
            let j = choose|j: int|
                0 <= j < i && #[trigger] rows[j].household_id == before[k0].id && rows[j].user_id == user;
            assert(0 <= j < i + 1);
        }
    }
    assert forall|k: int| #![trigger after[k]] 0 <= k < after.len() implies s.in_household(
        after[k].id,
        user,
    ) && s.households[after[k].id] == after[k]@ by {
        if k < p {
            assert(after[k] == before[k]);
        } else if k > p {
            assert(after[k] == before[k - 1]);
        }
    }
    assert forall|j: int|
        0 <= j < i + 1 && s.in_household(rows[j].household_id, user) && rows[j].user_id == user
            implies listed(after, #[trigger] rows[j].household_id) by {
        if j < i {
            assert(listed(before, rows[j].household_id));
            let k = choose|k: int| 0 <= k < before.len() && #[trigger] before[k].id == rows[j].household_id;
            if k < p {
                assert(after[k] == before[k]);
            } else {
                assert(after[k + 1] == before[k]);
            }
        } else {
            assert(after[p].id == rows[j].household_id);
        }
    }
}

/// Listing order of households: by creation instant, then id.
impl Ranked for Household {
    open spec fn precedes(a: HouseholdView, b: HouseholdView) -> bool {
        a.created_at < b.created_at || (a.created_at == b.created_at && a.id < b.id)
    }

    proof fn lemma_strict_order(a: HouseholdView, b: HouseholdView, c: HouseholdView) {
    }

    fn comes_before(&self, other: &Self) -> (r: bool) {
        self.created_at < other.created_at || (self.created_at == other.created_at && self.id
            < other.id)
    }
}

/// Listing order of accounts: by creation instant, then id.
impl Ranked for Account {
    open spec fn precedes(a: AccountView, b: AccountView) -> bool {
        a.created_at < b.created_at || (a.created_at == b.created_at && a.id < b.id)
    }

    proof fn lemma_strict_order(a: AccountView, b: AccountView, c: AccountView) {
    }

    fn comes_before(&self, other: &Self) -> (r: bool) {
        self.created_at < other.created_at || (self.created_at == other.created_at && self.id
            < other.id)
    }
}

/// Listing order of connections: by creation instant, then id.
impl Ranked for Connection {
    open spec fn precedes(a: ConnectionView, b: ConnectionView) -> bool {
        a.created_at < b.created_at || (a.created_at == b.created_at && a.id < b.id)
    }

    proof fn lemma_strict_order(a: ConnectionView, b: ConnectionView, c: ConnectionView) {
    }

    fn comes_before(&self, other: &Self) -> (r: bool) {
        self.created_at < other.created_at || (self.created_at == other.created_at && self.id
            < other.id)
    }
}

/// Fields a client may change on an existing transaction.
#[derive(Debug, Default)]
pub struct TxPatch {
    pub amount_minor: Option<i64>,
    pub posted_on: Option<Date>,
    pub merchant_raw: Option<String>,
    pub description: Option<String>,
    pub notes: Option<String>,
    pub review_state: Option<ReviewState>,
}

/// A transaction with `patch` applied: every field the patch sets replaces
/// the old value.
pub open spec fn patched(t: TransactionView, patch: TxPatch) -> TransactionView {
    TransactionView {
        amount_minor: match patch.amount_minor {
            Some(a) => a,
            None => t.amount_minor,
        },
        posted_on: match patch.posted_on {
            Some(d) => d,
            None => t.posted_on,
        },
        merchant_raw: match opt_chars(patch.merchant_raw) {
            Some(m) => Some(m),
            None => t.merchant_raw,
        },
        description: match opt_chars(patch.description) {
            Some(m) => Some(m),
            None => t.description,
        },
        notes: match opt_chars(patch.notes) {
            Some(m) => Some(m),
            None => t.notes,
        },
        review_state: match patch.review_state {
            Some(r) => r,
            None => t.review_state,
        },
        ..t
    }
}

/// Full sort/cursor key of a transaction: bank day, creation instant, id.
pub type TxKey = (Date, Timestamp, u128);

pub open spec fn tx_key(t: TransactionView) -> TxKey {
    (t.posted_on, t.created_at, t.id)
}

/// Strict order on transaction keys.
pub open spec fn key_lt(a: TxKey, b: TxKey) -> bool {
    ||| a.0.before(b.0)
    ||| a.0 == b.0 && a.1 < b.1
    ||| a.0 == b.0 && a.1 == b.1 && a.2 < b.2
}

pub fn key_less(a: &TxKey, b: &TxKey) -> (r: bool)
    ensures
        r == key_lt(*a, *b),
{
    a.0.is_before(&b.0) || (a.0 == b.0 && a.1 < b.1) || (a.0 == b.0 && a.1 == b.1 && a.2 < b.2)
}

pub fn tx_key_of(t: &Transaction) -> (k: TxKey)
    ensures
        k == tx_key(t@),
{
    (t.posted_on, t.created_at, t.id)
}

/// Listing order of transactions: newest first by `(posted_on, created_at, id)`.
impl Ranked for Transaction {
    open spec fn precedes(a: TransactionView, b: TransactionView) -> bool {
        key_lt(tx_key(b), tx_key(a))
    }

    proof fn lemma_strict_order(a: TransactionView, b: TransactionView, c: TransactionView) {
    }

    fn comes_before(&self, other: &Self) -> (r: bool) {
        key_less(&tx_key_of(other), &tx_key_of(self))
    }
}

/// A transaction is on a page of `household` (optionally one account) when it
/// sorts strictly below the cursor key `before`, if any.
pub open spec fn on_page(t: TransactionView, household: u128, account: Option<u128>, before: Option<TxKey>) -> bool {
    &&& t.household_id == household
    &&& (account matches Some(a) ==> t.account_id == a)
    &&& (before matches Some(b) ==> key_lt(tx_key(t), b))
}

fn page_match(t: &Transaction, household: u128, account: Option<u128>, before: Option<TxKey>) -> (b: bool)
    ensures
        b == on_page(t@, household, account, before),
{
    let acct_ok = match account {
        Some(a) => t.account_id == a,
        None => true,
    };
    let before_ok = match before {
        Some(k) => key_less(&tx_key_of(t), &k),
        None => true,
    };
    t.household_id == household && acct_ok && before_ok
}

/// The account is synced from `connection` under the provider id `ext`.
pub open spec fn synced_as(a: AccountView, connection: u128, ext: Seq<char>) -> bool {
    a.connection_id == Some(connection) && a.external_id == Some(ext)
}

fn is_synced_as(a: &Account, connection: u128, ext: &String) -> (b: bool)
    ensures
        b == synced_as(a@, connection, ext@),
{
    match &a.external_id {
        Some(e) => a.connection_id == Some(connection) && *e == *ext,
        None => false,
    }
}

/// An existing synced account refreshed from the provider's snapshot: name,
/// type and balance are the provider's.
pub open spec fn refreshed(a: AccountView, ext: ExtAccountView) -> AccountView {
    AccountView {
        name: ext.name,
        account_type: ext.account_type,
        current_balance_minor: ext.current_balance_minor,
        ..a
    }
}

/// A newly synced account.
pub open spec fn fresh_synced(
    id: u128,
    household: u128,
    created_by: u128,
    connection: u128,
    ext: ExtAccountView,
    created_at: Timestamp,
) -> AccountView {
    AccountView {
        id,
        household_id: household,
        connection_id: Some(connection),
        external_id: Some(ext.external_id),
        created_by,
        account_type: ext.account_type,
        name: ext.name,
        currency: ext.currency,
        current_balance_minor: ext.current_balance_minor,
        visibility: Visibility::AllMembers,
        created_at,
    }
}

pub struct MemoryStore {
    users: Table<StoredUser>,
    sessions: Table<Session>,
    households: Table<Household>,
    members: Table<Membership>,
    accounts: Table<Account>,
    txns: Table<Transaction>,
    connections: Table<Connection>,
    webhook_events: Table<String>,
}

impl View for MemoryStore {
    type V = StoreView;

    closed spec fn view(&self) -> StoreView {
        StoreView {
            users: self.users@,
            sessions: self.sessions@,
            households: self.households@,
            members: self.members@,
            accounts: self.accounts@,
            txns: self.txns@,
            connections: self.connections@,
            webhook_events: self.webhook_events@.dom(),
        }
    }
}

/// `after` is `before` with the session `sess` of `user` opened at the
/// instant `now` for `ttl` nanoseconds: it expires `ttl` after `now`.
pub open spec fn session_opened(
    before: StoreView,
    after: StoreView,
    sess: SessionView,
    user: u128,
    ttl: i128,
    now: Timestamp,
) -> bool {
    &&& sess.user_id == user
    &&& sess.expires_at == now + ttl
    &&& after == (StoreView { sessions: before.sessions.insert(sess.token, sess), ..before })
}

/// The store's invariant, on its abstract content.
pub open spec fn store_ok(s: StoreView) -> bool {
    &&& keys_match::<StoredUser>(s.users)
    &&& keys_match::<Session>(s.sessions)
    &&& keys_match::<Household>(s.households)
    &&& keys_match::<Membership>(s.members)
    &&& keys_match::<Account>(s.accounts)
    &&& keys_match::<Transaction>(s.txns)
    &&& keys_match::<Connection>(s.connections)
    &&& s.emails_ok()
    &&& forall|k: Seq<char>| #[trigger] s.sessions.contains_key(k) ==> is_token_text(k)
    &&& forall|h: u128, u: u128| #[trigger]
        s.members.contains_key((h, u)) ==> s.households.contains_key(h)
}

impl MemoryStore {
    /// The store is well formed: its invariant holds.
    pub closed spec fn wf(&self) -> bool {
        &&& store_ok(self@)
        &&& forall|k: Seq<char>| #[trigger]
            self.webhook_events@.contains_key(k) ==> self.webhook_events@[k] == k
    }

    pub proof fn lemma_wf(&self)
        requires
            self.wf(),
        ensures
            store_ok(self@),
    {
    }

    pub fn new() -> (s: Self)
        ensures
            s.wf(),
            s@.users == Map::<u128, StoredUserView>::empty(),
            s@.sessions == Map::<Seq<char>, SessionView>::empty(),
            s@.households == Map::<u128, HouseholdView>::empty(),
            s@.members == Map::<(u128, u128), Membership>::empty(),
            s@.accounts == Map::<u128, AccountView>::empty(),
            s@.txns == Map::<u128, TransactionView>::empty(),
            s@.connections == Map::<u128, ConnectionView>::empty(),
            s@.webhook_events == Set::<Seq<char>>::empty(),
    {
        let s = MemoryStore {
            users: Table::new(),
            sessions: Table::new(),
            households: Table::new(),
            members: Table::new(),
            accounts: Table::new(),
            txns: Table::new(),
            connections: Table::new(),
            webhook_events: Table::new(),
        };
        proof {
            assert(s@.webhook_events =~= Set::<Seq<char>>::empty());
        }
        s
    }

    // ------------------------------------------------------------- users --

    /// Registers a user with a fresh id and the current time. Fails with
    /// `NoRandomness`, changing nothing, where no fresh id can be drawn.
    pub fn create_user(&mut self, email: &str, password_hash: String, display_name: String) -> (r:
        StoreResult<User>)
        requires
            old(self).wf(),
        ensures
            final(self).wf(),
            r is Err ==> final(self)@ == old(self)@,
            old(self)@.email_taken(normalized_email(email@)) ==> r is Err,
            r matches Err(e) ==> e is NoRandomness || (e is EmailTaken && old(self)@.email_taken(
                normalized_email(email@),
            )),
            r matches Ok(u) ==> final(self)@ == (StoreView {
                users: old(self)@.users.insert(
                    u.id,
                    StoredUserView {
                        user: UserView {
                            id: u.id,
                            email: normalized_email(email@),
                            display_name: display_name@,
                            created_at: u.created_at,
                        },
                        password_hash: password_hash@,
                    },
                ),
                ..old(self)@
            }) && u@ == final(self)@.users[u.id].user,
    {
        let id = match fresh_id() {
            Some(id) => id,
            None => return Err(StoreError::NoRandomness),
        };
        let now = now_nanos();
        self.insert_user(id, now, email, password_hash, display_name)
    }

    /// Registers a user under `id`, created at `created_at`. The email is
    /// stored normalized; it must not belong to another user.
    pub fn insert_user(
        &mut self,
        id: u128,
        created_at: Timestamp,
        email: &str,
        password_hash: String,
        display_name: String,
    ) -> (r: StoreResult<User>)
        requires
            old(self).wf(),
        ensures
            final(self).wf(),
            old(self)@.email_taken(normalized_email(email@)) ==> (r matches Err(
                StoreError::EmailTaken,
            ) && final(self)@ == old(self)@),
            !old(self)@.email_taken(normalized_email(email@)) ==> r is Ok,
            r matches Ok(u) ==> u@ == (UserView {
                id,
                email: normalized_email(email@),
                display_name: display_name@,
                created_at,
            }) && final(self)@ == (StoreView {
                users: old(self)@.users.insert(
                    id,
                    StoredUserView { user: u@, password_hash: password_hash@ },
                ),
                ..old(self)@
            }),
    {
        let ghost raw = email@;
        let email = normalize_email(email);
        if self.email_taken(&email) {
            return Err(StoreError::EmailTaken);
        }
        let user = User { id, email, display_name, created_at };
        let out = user.duplicate();
        let ghost old_users = self.users@;
        self.users.insert(StoredUser { user, password_hash });
        proof {
            let s = self@;
            lemma_normalized_email_idempotent(raw);
            assert forall|a: u128, b: u128|
                #![trigger s.users[a], s.users[b]]
                s.users.contains_key(a) && s.users.contains_key(b) && s.users[a].user.email
                    == s.users[b].user.email implies a == b by {
                if a != id && b != id {
                    assert(old_users.contains_key(a) && old_users.contains_key(b));
                } else if a == id && b != id {
                    assert(old_users.contains_key(b) && old_users[b].user.email == out.email@);
                } else if a != id && b == id {
                    assert(old_users.contains_key(a) && old_users[a].user.email == out.email@);
                }
            }
            assert forall|a: u128| #[trigger]
                s.users.contains_key(a) implies normalized_email(s.users[a].user.email)
                    == s.users[a].user.email by {
                if a != id {
                    assert(old_users.contains_key(a));
                }
            }
            assert(s.emails_ok());
        }
        Ok(out)
    }

    fn email_taken(&self, email: &String) -> (b: bool)
        requires
            self.wf(),
        ensures
            b == self@.email_taken(email@),
    {
        let rows = self.users.rows();
        let mut i: usize = 0;
        while i < rows.len()
            invariant
                enumerates::<StoredUser>(self.users@, rows@),
                i <= rows@.len(),
                forall|j: int| 0 <= j < i ==> (#[trigger] rows@[j]).user.email@ != email@,
            decreases rows@.len() - i,
        {
            if rows[i].user.email == *email {
                proof {
                    let k = rows@[i as int].user.id;
                    assert(self@.users.contains_key(k) && self@.users[k] == rows@[i as int]@);
                }
                return true;
            }
            i = i + 1;
        }
        proof {
            if self@.email_taken(email@) {
                let k = choose|k: u128|
                    #[trigger] self@.users.contains_key(k) && self@.users[k].user.email == email@;
                let j = choose|j: int| 0 <= j < rows@.len() && StoredUser::key_of(rows@[j]@) == k;
                assert(self@.users[StoredUser::key_of(rows@[j]@)] == rows@[j]@);
            }
        }
        false
    }

    /// The user registered under this email (normalized before lookup).
    pub fn user_by_email(&self, email: &str) -> (r: Option<StoredUser>)
        requires
            self.wf(),
        ensures
            match r {
                Some(u) => self@.users.contains_key(u.user.id) && self@.users[u.user.id] == u@
                    && u.user.email@ == normalized_email(email@),
                None => !self@.email_taken(normalized_email(email@)),
            },
    {
        let wanted = normalize_email(email);
        let rows = self.users.rows();
        let mut i: usize = 0;
        while i < rows.len()
            invariant
                enumerates::<StoredUser>(self.users@, rows@),
                wanted@ == normalized_email(email@),
                i <= rows@.len(),
                forall|j: int| 0 <= j < i ==> (#[trigger] rows@[j]).user.email@ != wanted@,
            decreases rows@.len() - i,
        {
            if rows[i].user.email == wanted {
                proof {
                    assert(self@.users.contains_key(StoredUser::key_of(rows@[i as int]@)));
                }
                let u = rows[i].copy_record();
                proof {
                    assert(u@ == rows@[i as int]@);
                    assert(u.user.id == StoredUser::key_of(rows@[i as int]@));
                    assert(self@.users.contains_key(u.user.id));
                    assert(self@.users[u.user.id] == u@);
                    assert(u.user.email@ == wanted@);
                    assert(wanted@ == normalized_email(email@));
                }
                return Some(u);
            }
            i = i + 1;
        }
        proof {
            if self@.email_taken(wanted@) {
                let k = choose|k: u128|
                    #[trigger] self@.users.contains_key(k) && self@.users[k].user.email == wanted@;
                let j = choose|j: int| 0 <= j < rows@.len() && StoredUser::key_of(rows@[j]@) == k;
                assert(self@.users[StoredUser::key_of(rows@[j]@)] == rows@[j]@);
            }
        }
        None
    }

    // ---------------------------------------------------------- sessions --

    /// Opens a session for `user_id` with a fresh random token, expiring
    /// `ttl_nanos` from now (the clock's current reading, which is all that is
    /// known of it); `None` where the system RNG fails.
    pub fn create_session(&mut self, user_id: u128, ttl_nanos: i128) -> (r: Option<Session>)
        requires
            old(self).wf(),
            0 <= ttl_nanos <= i128::MAX - 400_000_000_000_000_000_000,
        ensures
            final(self).wf(),
            r is None ==> final(self)@ == old(self)@,
            r matches Some(sess) ==> sess.user_id == user_id && final(self)@ == (StoreView {
                sessions: old(self)@.sessions.insert(sess.token@, sess@),
                ..old(self)@
            }),
            r matches Some(sess) ==> exists|b: Seq<u8>| b.len() == 32 && sess.token@ == hex_bytes(b),
            r matches Some(sess) ==> -400_000_000_000_000_000_000 <= sess.expires_at - ttl_nanos
                <= 400_000_000_000_000_000_000,
    {
        let now = now_nanos();
        self.create_session_at(user_id, ttl_nanos, now)
    }

    /// Opens a session for `user_id` at the instant `now` with a fresh random
    /// token: it expires `ttl_nanos` after `now`. `None`, changing nothing,
    /// where the system RNG fails.
    pub fn create_session_at(&mut self, user_id: u128, ttl_nanos: i128, now: Timestamp) -> (r: Option<Session>)
        requires
            old(self).wf(),
            0 <= ttl_nanos,
            now + ttl_nanos <= i128::MAX,
        ensures
            final(self).wf(),
            r is None ==> final(self)@ == old(self)@,
            r matches Some(sess) ==> session_opened(old(self)@, final(self)@, sess@, user_id, ttl_nanos, now),
            r matches Some(sess) ==> exists|b: Seq<u8>| b.len() == 32 && sess.token@ == hex_bytes(b),
    {
        let token = match new_token() {
            Some(t) => t,
            None => return None,
        };
        proof {
            let b = choose|b: Seq<u8>| b.len() == 32 && token@ == hex_bytes(b);
            lemma_hex_bytes_shape(b);
        }
        Some(self.insert_session(token, user_id, now + ttl_nanos))
    }

    /// Stores a session under `token`, which has the shape of a session token.
    pub fn insert_session(&mut self, token: String, user_id: u128, expires_at: Timestamp) -> (r:
        Session)
        requires
            old(self).wf(),
            is_token_text(token@),
        ensures
            final(self).wf(),
            r@ == (SessionView { token: token@, user_id, expires_at }),
            final(self)@ == (StoreView {
                sessions: old(self)@.sessions.insert(token@, r@),
                ..old(self)@
            }),
    {
        let session = Session { token, user_id, expires_at };
        let out = session.duplicate();
        self.sessions.insert(session);
        out
    }

    /// Resolves a live session to its user; lazily drops an expired one.
    pub fn resolve_session(&mut self, token: &str) -> (r: Option<User>)
        requires
            old(self).wf(),
        ensures
            final(self).wf(),
            !old(self)@.sessions.contains_key(token@) ==> r is None && final(self)@ == old(self)@,
            old(self)@.sessions.contains_key(token@) ==> {
                let sess = old(self)@.sessions[token@];
                ||| r is None && final(self)@ == (StoreView {
                    sessions: old(self)@.sessions.remove(token@),
                    ..old(self)@
                })
                ||| final(self)@ == old(self)@ && match r {
                    Some(u) => old(self)@.users.contains_key(sess.user_id) && u@ == old(
                        self,
                    )@.users[sess.user_id].user,
                    None => !old(self)@.users.contains_key(sess.user_id),
                }
            },
    {
        let now = now_nanos();
        self.resolve_session_at(token, now)
    }

    /// Resolves `token` as of the instant `now`: an unknown token resolves to
    /// nothing; an expired one (`now >= expires_at`) is dropped and resolves
    /// to nothing; a live one resolves to its user, if that user exists.
    pub fn resolve_session_at(&mut self, token: &str, now: Timestamp) -> (r: Option<User>)
        requires
            old(self).wf(),
        ensures
            final(self).wf(),
            !old(self)@.sessions.contains_key(token@) ==> r is None && final(self)@ == old(self)@,
            old(self)@.sessions.contains_key(token@) && now >= old(self)@.sessions[token@].expires_at
                ==> r is None && final(self)@ == (StoreView {
                sessions: old(self)@.sessions.remove(token@),
                ..old(self)@
            }),
            old(self)@.sessions.contains_key(token@) && now < old(self)@.sessions[token@].expires_at
                ==> final(self)@ == old(self)@ && match r {
                Some(u) => old(self)@.users.contains_key(old(self)@.sessions[token@].user_id) && u@
                    == old(self)@.users[old(self)@.sessions[token@].user_id].user,
                None => !old(self)@.users.contains_key(old(self)@.sessions[token@].user_id),
            },
    {
        let key = token.to_owned();
        let (user_id, expires_at) = match self.sessions.get(&key) {
            Some(s) => (s.user_id, s.expires_at),
            None => return None,
        };
        if now >= expires_at {
            self.sessions.remove(&key);
            return None;
        }
        match self.users.get(&user_id) {
            Some(u) => Some(u.user.duplicate()),
            None => None,
        }
    }

    /// Ends the session under `token`; true when there was one.
    pub fn delete_session(&mut self, token: &str) -> (r: bool)
        requires
            old(self).wf(),
        ensures
            final(self).wf(),
            r == old(self)@.sessions.contains_key(token@),
            final(self)@ == (StoreView {
                sessions: old(self)@.sessions.remove(token@),
                ..old(self)@
            }),
    {
        let key = token.to_owned();
        self.sessions.remove(&key).is_some()
    }

    // -------------------------------------------------------- households --

    /// Creates a household with a fresh id and makes `owner` its active owner;
    /// `None`, changing nothing, where no fresh id can be drawn.
    pub fn create_household(&mut self, name: String, currency: &str, owner: u128) -> (r: Option<Household>)
        requires
            old(self).wf(),
        ensures
            final(self).wf(),
            r is None ==> final(self)@ == old(self)@,
            r matches Some(h) ==> h.name@ == name@ && h.currency@ == currency@ && final(self)@ == (StoreView {
                households: old(self)@.households.insert(h.id, h@),
                members: old(self)@.members.insert(
                    (h.id, owner),
                    Membership {
                        household_id: h.id,
                        user_id: owner,
                        role: Role::Owner,
                        status: MemberStatus::Active,
                        created_at: final(self)@.members[(h.id, owner)].created_at,
                    },
                ),
                ..old(self)@
            }),
    {
        let id = match fresh_id() {
            Some(id) => id,
            None => return None,
        };
        let created_at = now_nanos();
        let member_since = now_nanos();
        Some(self.insert_household(id, created_at, member_since, name, currency, owner))
    }

    /// Stores household `id` and an active `Owner` membership for `owner`.
    pub fn insert_household(
        &mut self,
        id: u128,
        created_at: Timestamp,
        member_since: Timestamp,
        name: String,
        currency: &str,
        owner: u128,
    ) -> (r: Household)
        requires
            old(self).wf(),
        ensures
            final(self).wf(),
            r@ == (HouseholdView { id, name: name@, currency: currency@, created_at }),
            final(self)@ == (StoreView {
                households: old(self)@.households.insert(id, r@),
                members: old(self)@.members.insert(
                    (id, owner),
                    Membership {
                        household_id: id,
                        user_id: owner,
                        role: Role::Owner,
                        status: MemberStatus::Active,
                        created_at: member_since,
                    },
                ),
                ..old(self)@
            }),
    {
        let hh = Household { id, name, currency: currency.to_owned(), created_at };
        let out = hh.duplicate();
        self.households.insert(hh);
        self.members.insert(
            Membership {
                household_id: id,
                user_id: owner,
                role: Role::Owner,
                status: MemberStatus::Active,
                created_at: member_since,
            },
        );
        out
    }

    pub fn membership(&self, household: u128, user: u128) -> (r: Option<Membership>)
        requires
            self.wf(),
        ensures
            r == self@.members.get((household, user)),
    {
        match self.members.get(&(household, user)) {
            Some(m) => Some(*m),
            None => None,
        }
    }

    /// The households `user` actively belongs to, with the role held in each,
    /// oldest household first.
    pub fn households_for_user(&self, user: u128) -> (r: Vec<(Household, Role)>)
        requires
            self.wf(),
        ensures
            forall|i: int|
                #![trigger r@[i]]
                0 <= i < r@.len() ==> {
                    let hh = r@[i].0@;
                    &&& self@.in_household(hh.id, user)
                    &&& self@.households[hh.id] == hh
                    &&& r@[i].1 == self@.members[(hh.id, user)].role
                },
            forall|h: u128|
                #![trigger self@.in_household(h, user)]
                self@.in_household(h, user) ==> exists|i: int| 0 <= i < r@.len() && r@[i].0.id == h,
            forall|i: int, j: int|
                #![trigger r@[i], r@[j]]
                0 <= i < j < r@.len() ==> r@[i].0.id != r@[j].0.id && r@[i].0.created_at
                    <= r@[j].0.created_at,
    {
        let rows = self.members.rows();
        let mut list: Vec<Household> = Vec::new();
        let mut i: usize = 0;
        while i < rows.len()
            invariant
                enumerates::<Membership>(self@.members, rows@),
                keys_match::<Household>(self@.households),
                i <= rows@.len(),
                sorted_by(list@),
                hh_collect_inv(self@, rows@, i as int, user, list@),
            decreases rows@.len() - i,
        {
            let m = rows[i];
            let ghost before = list@;
            if m.user_id == user && m.status == MemberStatus::Active {
                match self.households.get(&m.household_id) {
                    Some(h) => {
                        let h = h.copy_record();
                        proof {
                            lemma_hh_comparable(self@, rows@, i as int, user, list@, h);
                        }
                        insert_sorted(&mut list, h);
                        proof {
                            let p = choose|p: int|
                                0 <= p <= before.len() && list@ == before.insert(p, h);
                            lemma_hh_insert(self@, rows@, i as int, user, before, list@, p, h);
                        }
                    },
                    None => {
                        proof {
                            lemma_hh_skip(self@, rows@, i as int, user, list@);
                        }
                    },
                }
            } else {
                proof {
                    lemma_hh_skip(self@, rows@, i as int, user, list@);
                }
            }
            i = i + 1;
        }
        let mut out: Vec<(Household, Role)> = Vec::new();
        let mut k: usize = 0;
        while k < list.len()
            invariant
                keys_match::<Membership>(self@.members),
                sorted_by(list@),
                k <= list@.len(),
                out@.len() == k,
                forall|m: int|
                    #![trigger list@[m]]
                    0 <= m < list@.len() ==> self@.in_household(list@[m].id, user)
                        && self@.households[list@[m].id] == list@[m]@,
                forall|m: int|
                    #![trigger out@[m]]
                    0 <= m < k ==> out@[m].0@ == list@[m]@ && out@[m].1 == self@.members[(
                        list@[m].id,
                        user,
                    )].role,
            decreases list@.len() - k,
        {
            let h = list[k].copy_record();
            let role = match self.members.get(&(h.id, user)) {
                Some(m) => m.role,
                None => Role::Owner,
            };
            out.push((h, role));
            k = k + 1;
        }
        proof {
            assert forall|i: int, j: int|
                #![trigger out@[i], out@[j]]
                0 <= i < j < out@.len() implies out@[i].0.id != out@[j].0.id && out@[i].0.created_at
                    <= out@[j].0.created_at by {
                assert(Household::precedes(list@[i]@, list@[j]@));
            }
            assert forall|h: u128|
                #![trigger self@.in_household(h, user)]
                self@.in_household(h, user) implies exists|i: int| 0 <= i < out@.len() && out@[i].0.id == h by {
                let j = choose|j: int| 0 <= j < rows@.len() && Membership::key_of(rows@[j]@) == (h, user);
                assert(rows@[j].household_id == h && rows@[j].user_id == user);
                assert(listed(list@, rows@[j].household_id));
                let m = choose|m: int| 0 <= m < list@.len() && #[trigger] list@[m].id == rows@[j].household_id;
                assert(out@[m].0@ == list@[m]@);
            }
            assert forall|i: int| #![trigger out@[i]] 0 <= i < out@.len() implies {
                let hh = out@[i].0@;
                &&& self@.in_household(hh.id, user)
                &&& self@.households[hh.id] == hh
                &&& out@[i].1 == self@.members[(hh.id, user)].role
            } by {
                assert(out@[i].0@ == list@[i]@);
            }
        }
        out
    }

    // ----------------------------------------------------------- accounts --

    /// Stores an account of an existing household.
    pub fn insert_account(&mut self, account: Account) -> (r: StoreResult<Account>)
        requires
            old(self).wf(),
        ensures
            final(self).wf(),
            !old(self)@.households.contains_key(account.household_id) ==> (r matches Err(
                StoreError::NotFound(m),
            ) && m@ == "household"@ && final(self)@ == old(self)@),
            old(self)@.households.contains_key(account.household_id) ==> (r matches Ok(a) && a@
                == account@ && final(self)@ == (StoreView {
                accounts: old(self)@.accounts.insert(account.id, account@),
                ..old(self)@
            })),
    {
        if !self.households.contains(&account.household_id) {
            return Err(StoreError::NotFound("household"));
        }
        let out = account.duplicate();
        self.accounts.insert(account);
        Ok(out)
    }

    fn is_owner(&self, household: u128, user: u128) -> (b: bool)
        requires
            self.wf(),
        ensures
            b == self@.is_owner(household, user),
    {
        match self.members.get(&(household, user)) {
            Some(m) => m.role == Role::Owner && m.status == MemberStatus::Active,
            None => false,
        }
    }

    fn is_active_member(&self, household: u128, user: u128) -> (b: bool)
        requires
            self.wf(),
        ensures
            b == self@.is_active_member(household, user),
    {
        match self.members.get(&(household, user)) {
            Some(m) => m.status == MemberStatus::Active,
            None => false,
        }
    }

    /// Visibility rule: `AllMembers` → every active member; tighter scopes are
    /// visible to the creator and household owners only.
    pub fn can_view_account(&self, account: &Account, viewer: u128) -> (b: bool)
        requires
            self.wf(),
        ensures
            b == self@.can_view(account@, viewer),
    {
        match account.visibility {
            Visibility::AllMembers => self.is_active_member(account.household_id, viewer),
            _ => account.created_by == viewer || self.is_owner(account.household_id, viewer),
        }
    }

    pub fn get_account(&self, id: u128) -> (r: Option<Account>)
        requires
            self.wf(),
        ensures
            match r {
                Some(a) => self@.accounts.contains_key(id) && self@.accounts[id] == a@,
                None => !self@.accounts.contains_key(id),
            },
    {
        match self.accounts.get(&id) {
            Some(a) => Some(a.duplicate()),
            None => None,
        }
    }

    /// The accounts of `household` that `viewer` may see, oldest first (ties
    /// broken by id).
    pub fn accounts_for_household(&self, household: u128, viewer: u128) -> (r: Vec<Account>)
        requires
            self.wf(),
        ensures
            sorted_by(r@),
            forall|i: int|
                #![trigger r@[i]]
                0 <= i < r@.len() ==> self@.accounts.contains_key(r@[i].id) && self@.accounts[r@[i].id]
                    == r@[i]@ && r@[i].household_id == household && self@.can_view(r@[i]@, viewer),
            forall|k: u128|
                #[trigger] self@.accounts.contains_key(k) && self@.accounts[k].household_id
                    == household && self@.can_view(self@.accounts[k], viewer) ==> has_key(r@, k),
    {
        let owner = self.is_owner(household, viewer);
        let member = self.is_active_member(household, viewer);
        let ghost s = self@;
        let rows = self.accounts.rows();
        let keep = (|a: &Account| -> (b: bool)
            ensures
                b == listed_for(a@, household, viewer, member, owner),
            { account_listed(a, household, viewer, member, owner) });
        collect_sorted(
            rows,
            keep,
            Ghost(self@.accounts),
            Ghost(|v: AccountView| v.household_id == household && s.can_view(v, viewer)),
        )
    }

    /// Renames and/or re-scopes an account.
    pub fn update_account(&mut self, id: u128, name: Option<String>, visibility: Option<Visibility>) -> (r:
        StoreResult<Account>)
        requires
            old(self).wf(),
        ensures
            final(self).wf(),
            !old(self)@.accounts.contains_key(id) ==> (r matches Err(StoreError::NotFound(m))
                && m@ == "account"@ && final(self)@ == old(self)@),
            old(self)@.accounts.contains_key(id) ==> (r matches Ok(a) && a@ == (AccountView {
                name: match opt_chars(name) {
                    Some(n) => n,
                    None => old(self)@.accounts[id].name,
                },
                visibility: match visibility {
                    Some(v) => v,
                    None => old(self)@.accounts[id].visibility,
                },
                ..old(self)@.accounts[id]
            }) && final(self)@ == (StoreView {
                accounts: old(self)@.accounts.insert(id, a@),
                ..old(self)@
            })),
    {
        let mut a = match self.accounts.remove(&id) {
            Some(a) => a,
            None => {
                proof {
                    assert(self@.accounts =~= old(self)@.accounts);
                    assert(self@ =~= old(self)@);
                }
                return Err(StoreError::NotFound("account"));
            },
        };
        if let Some(n) = name {
            a.name = n;
        }
        if let Some(v) = visibility {
            a.visibility = v;
        }
        let out = a.duplicate();
        self.accounts.insert(a);
        proof {
            assert(self@.accounts =~= old(self)@.accounts.insert(id, out@));
        }
        Ok(out)
    }

    /// Deletes an account and, with it, every transaction posted to it.
    pub fn delete_account(&mut self, id: u128) -> (r: StoreResult<()>)
        requires
            old(self).wf(),
        ensures
            final(self).wf(),
            !old(self)@.accounts.contains_key(id) ==> (r matches Err(StoreError::NotFound(m))
                && m@ == "account"@ && final(self)@ == old(self)@),
            old(self)@.accounts.contains_key(id) ==> (r is Ok && final(self)@ == (StoreView {
                accounts: old(self)@.accounts.remove(id),
                txns: without_account(old(self)@.txns, id),
                ..old(self)@
            })),
    {
        if self.accounts.remove(&id).is_none() {
            proof {
                assert(self@.accounts =~= old(self)@.accounts);
                assert(self@ =~= old(self)@);
            }
            return Err(StoreError::NotFound("account"));
        }
        let ghost mid = self@;
        let ghost mid_events = self.webhook_events@;
        let rows = self.txns.rows();
        let mut doomed: Vec<u128> = Vec::new();
        let mut i: usize = 0;
        while i < rows.len()
            invariant
                enumerates::<Transaction>(self@.txns, rows@),
                i <= rows@.len(),
                forall|k: int|
                    #![trigger doomed@[k]]
                    0 <= k < doomed@.len() ==> self@.txns.contains_key(doomed@[k])
                        && self@.txns[doomed@[k]].account_id == id,
                forall|j: int|
                    0 <= j < i && (#[trigger] rows@[j]).account_id == id ==> doomed@.contains(
                        rows@[j].id,
                    ),
            decreases rows@.len() - i,
        {
            if rows[i].account_id == id {
                proof {
                    assert(self@.txns.contains_key(Transaction::key_of(rows@[i as int]@)));
                }
                let ghost before = doomed@;
                doomed.push(rows[i].id);
                proof {
                    assert forall|j: int|
                        0 <= j < i + 1 && (#[trigger] rows@[j]).account_id == id implies doomed@.contains(
                            rows@[j].id,
                        ) by {
                        if j < i {
                            assert(before.contains(rows@[j].id));
                            let x = choose|x: int| 0 <= x < before.len() && before[x] == rows@[j].id;
                            assert(doomed@[x] == rows@[j].id);
                        } else {
                            assert(doomed@[doomed@.len() - 1] == rows@[j].id);
                        }
                    }
                }
            }
            i = i + 1;
        }
        let ghost full = self@.txns;
        assert(full == mid.txns);
        proof {
            assert forall|k: u128| #[trigger] full.contains_key(k) && full[k].account_id == id implies doomed@.contains(k) by {
                let j = choose|j: int| 0 <= j < rows@.len() && Transaction::key_of(rows@[j]@) == k;
                assert(full[Transaction::key_of(rows@[j]@)] == rows@[j]@);
            }
        }
        let mut k: usize = 0;
        let ghost mut removed: Set<u128> = Set::empty();
        proof {
            assert(self@.txns =~= full.remove_keys(removed));
        }
        while k < doomed.len()
            invariant
                keys_match::<Transaction>(full),
                k <= doomed@.len(),
                forall|x: int|
                    #![trigger doomed@[x]]
                    0 <= x < doomed@.len() ==> full.contains_key(doomed@[x]) && full[doomed@[x]].account_id == id,
                forall|q: u128| #[trigger] full.contains_key(q) && full[q].account_id == id ==> doomed@.contains(q),
                forall|x: int| 0 <= x < k ==> removed.contains(#[trigger] doomed@[x]),
                forall|q: u128| #[trigger] removed.contains(q) ==> full.contains_key(q) && full[q].account_id == id,
                self@.txns == full.remove_keys(removed),
                keys_match::<Transaction>(self@.txns),
                self@ == (StoreView { txns: self@.txns, ..mid }),
                self.webhook_events@ == mid_events,
                mid.txns == full,
            decreases doomed@.len() - k,
        {
            self.txns.remove(&doomed[k]);
            proof {
                removed = removed.insert(doomed@[k as int]);
                assert(self@.txns =~= full.remove_keys(removed));
            }
            k = k + 1;
        }
        proof {
            assert forall|q: u128| #[trigger] self@.txns.contains_key(q) == without_account(full, id).contains_key(q) by {
                if full.contains_key(q) && full[q].account_id == id {
                    let x = choose|x: int| 0 <= x < doomed@.len() && doomed@[x] == q;
                    assert(removed.contains(doomed@[x]));
                }
            }
            assert(self@.txns =~= without_account(full, id));
        }
        Ok(())
    }

    // ------------------------------------------------------- transactions --

    /// Records a transaction; a manual account's running balance moves by its
    /// amount. Synced accounts are provider-authoritative, so their balances
    /// never move locally: the ledger row is still recorded.
    pub fn create_transaction(&mut self, txn: Transaction) -> (r: StoreResult<Transaction>)
        requires
            old(self).wf(),
            old(self)@.shift_fits(txn.account_id, txn.amount_minor as int),
        ensures
            final(self).wf(),
            r matches Ok(t) && t@ == txn@,
            final(self)@ == old(self)@.with_transaction(txn@),
    {
        self.apply_to_balance(txn.account_id, txn.amount_minor);
        let out = txn.duplicate();
        self.txns.insert(txn);
        Ok(out)
    }

    /// Moves a manual account's balance by `delta`.
    fn apply_to_balance(&mut self, account: u128, delta: i64)
        requires
            old(self).wf(),
            old(self)@.shift_fits(account, delta as int),
        ensures
            final(self).wf(),
            final(self)@ == (StoreView {
                accounts: old(self)@.shift_balance(account, delta as int),
                ..old(self)@
            }),
    {
        match self.accounts.remove(&account) {
            Some(mut a) => {
                if a.connection_id.is_none() {
                    a.current_balance_minor = a.current_balance_minor + delta;
                }
                let ghost av = a@;
                self.accounts.insert(a);
                proof {
                    assert(self@.accounts =~= old(self)@.shift_balance(account, delta as int));
                }
            },
            None => {
                proof {
                    assert(self@.accounts =~= old(self)@.accounts);
                }
            },
        }
    }

    pub fn get_transaction(&self, id: u128) -> (r: Option<Transaction>)
        requires
            self.wf(),
        ensures
            match r {
                Some(t) => self@.txns.contains_key(id) && self@.txns[id] == t@,
                None => !self@.txns.contains_key(id),
            },
    {
        match self.txns.get(&id) {
            Some(t) => Some(t.duplicate()),
            None => None,
        }
    }

    /// Patches fields; an amount change moves a manual account's balance by
    /// the delta (synced accounts defer to the provider).
    pub fn update_transaction(&mut self, id: u128, patch: TxPatch) -> (r: StoreResult<Transaction>)
        requires
            old(self).wf(),
            old(self)@.txns.contains_key(id) ==> {
                let t = old(self)@.txns[id];
                let delta = patched(t, patch).amount_minor - t.amount_minor;
                &&& i64::MIN <= delta <= i64::MAX
                &&& old(self)@.shift_fits(t.account_id, delta)
            },
        ensures
            final(self).wf(),
            !old(self)@.txns.contains_key(id) ==> (r matches Err(StoreError::NotFound(m))
                && m@ == "transaction"@ && final(self)@ == old(self)@),
            old(self)@.txns.contains_key(id) ==> {
                let t = old(self)@.txns[id];
                let u = patched(t, patch);
                &&& r matches Ok(x) && x@ == u
                &&& final(self)@ == (StoreView {
                    accounts: old(self)@.shift_balance(t.account_id, u.amount_minor - t.amount_minor),
                    txns: old(self)@.txns.insert(id, u),
                    ..old(self)@
                })
            },
    {
        let mut t = match self.txns.remove(&id) {
            Some(t) => t,
            None => {
                proof {
                    assert(self@.txns =~= old(self)@.txns);
                    assert(self@ =~= old(self)@);
                }
                return Err(StoreError::NotFound("transaction"));
            },
        };
        let old_amount = t.amount_minor;
        if let Some(a) = patch.amount_minor {
            t.amount_minor = a;
        }
        if let Some(v) = patch.posted_on {
            t.posted_on = v;
        }
        if let Some(v) = patch.merchant_raw {
            t.merchant_raw = Some(v);
        }
        if let Some(v) = patch.description {
            t.description = Some(v);
        }
        if let Some(v) = patch.notes {
            t.notes = Some(v);
        }
        if let Some(v) = patch.review_state {
            t.review_state = v;
        }
        let delta = t.amount_minor - old_amount;
        let account = t.account_id;
        let out = t.duplicate();
        self.txns.insert(t);
        proof {
            assert(self@.txns =~= old(self)@.txns.insert(id, out@));
        }
        if delta != 0 {
            self.apply_to_balance(account, delta);
        } else {
            proof {
                assert(self@.accounts =~= old(self)@.shift_balance(account, 0));
            }
        }
        Ok(out)
    }

    /// Removes a transaction and reverses its effect on a manual account's
    /// balance (synced balances belong to the provider).
    pub fn delete_transaction(&mut self, id: u128) -> (r: StoreResult<()>)
        requires
            old(self).wf(),
            old(self)@.txns.contains_key(id) ==> old(self)@.shift_fits(
                old(self)@.txns[id].account_id,
                -old(self)@.txns[id].amount_minor,
            ),
        ensures
            final(self).wf(),
            !old(self)@.txns.contains_key(id) ==> (r matches Err(StoreError::NotFound(m))
                && m@ == "transaction"@ && final(self)@ == old(self)@),
            old(self)@.txns.contains_key(id) ==> {
                let t = old(self)@.txns[id];
                &&& r is Ok
                &&& final(self)@ == (StoreView {
                    accounts: old(self)@.shift_balance(t.account_id, -t.amount_minor),
                    txns: old(self)@.txns.remove(id),
                    ..old(self)@
                })
            },
    {
        let t = match self.txns.remove(&id) {
            Some(t) => t,
            None => {
                proof {
                    assert(self@.txns =~= old(self)@.txns);
                    assert(self@ =~= old(self)@);
                }
                return Err(StoreError::NotFound("transaction"));
            },
        };
        match self.accounts.remove(&t.account_id) {
            Some(mut a) => {
                if a.connection_id.is_none() {
                    a.current_balance_minor = a.current_balance_minor - t.amount_minor;
                }
                self.accounts.insert(a);
                proof {
                    assert(self@.accounts =~= old(self)@.shift_balance(t.account_id, -t.amount_minor));
                }
            },
            None => {
                proof {
                    assert(self@.accounts =~= old(self)@.accounts);
                }
            },
        }
        Ok(())
    }

    /// Insert-if-new by `(account_id, external_id)`; true when inserted. The
    /// balance moves for manual accounts only.
    pub fn upsert_synced_transaction(&mut self, txn: Transaction) -> (r: bool)
        requires
            old(self).wf(),
            !old(self)@.is_duplicate(txn@) ==> old(self)@.shift_fits(txn.account_id, txn.amount_minor as int),
        ensures
            final(self).wf(),
            r == !old(self)@.is_duplicate(txn@),
            r ==> final(self)@ == old(self)@.with_transaction(txn@),
            !r ==> final(self)@ == old(self)@,
    {
        let dup = match &txn.external_id {
            Some(ext) => self.has_external(txn.account_id, ext),
            None => false,
        };
        if dup {
            return false;
        }
        let _ = self.create_transaction(txn);
        true
    }

    fn has_external(&self, account: u128, ext: &String) -> (b: bool)
        requires
            self.wf(),
        ensures
            b == self@.has_external(account, ext@),
    {
        let rows = self.txns.rows();
        let mut i: usize = 0;
        while i < rows.len()
            invariant
                enumerates::<Transaction>(self@.txns, rows@),
                i <= rows@.len(),
                forall|j: int|
                    0 <= j < i ==> !((#[trigger] rows@[j]).account_id == account
                        && opt_chars(rows@[j].external_id) == Some(ext@)),
            decreases rows@.len() - i,
        {
            let t = &rows[i];
            let hit = match &t.external_id {
                Some(e) => t.account_id == account && *e == *ext,
                None => false,
            };
            if hit {
                proof {
                    assert(self@.txns.contains_key(Transaction::key_of(rows@[i as int]@)));
                }
                return true;
            }
            i = i + 1;
        }
        proof {
            if self@.has_external(account, ext@) {
                let k = choose|k: u128|
                    #[trigger] self@.txns.contains_key(k) && self@.txns[k].account_id == account
                        && self@.txns[k].external_id == Some(ext@);
                let j = choose|j: int| 0 <= j < rows@.len() && Transaction::key_of(rows@[j]@) == k;
                assert(self@.txns[Transaction::key_of(rows@[j]@)] == rows@[j]@);
            }
        }
        false
    }

    /// Newest-first page of `household`'s transactions (optionally one
    /// account's), ordered by `(posted_on, created_at, id)`; `before` is the
    /// previous page's final key, for strict continuation.
    pub fn transactions_page(
        &self,
        household: u128,
        account: Option<u128>,
        before: Option<TxKey>,
        limit: usize,
    ) -> (r: Vec<Transaction>)
        requires
            self.wf(),
        ensures
            sorted_by(r@),
            r@.len() <= limit,
            forall|i: int|
                #![trigger r@[i]]
                0 <= i < r@.len() ==> self@.txns.contains_key(r@[i].id) && self@.txns[r@[i].id]
                    == r@[i]@ && on_page(r@[i]@, household, account, before),
            forall|k: u128|
                #[trigger] self@.txns.contains_key(k) && on_page(self@.txns[k], household, account, before)
                    && !has_key(r@, k) ==> r@.len() == limit && (limit > 0
                    ==> Transaction::precedes(r@.last()@, self@.txns[k])),
    {
        let rows = self.txns.rows();
        let keep = (|t: &Transaction| -> (b: bool)
            ensures
                b == on_page(t@, household, account, before),
            { page_match(t, household, account, before) });
        let mut all = collect_sorted(
            rows,
            keep,
            Ghost(self@.txns),
            Ghost(|v: TransactionView| on_page(v, household, account, before)),
        );
        let ghost full = all@;
        all.truncate(limit);
        proof {
            assert forall|k: u128|
                #[trigger] self@.txns.contains_key(k) && on_page(self@.txns[k], household, account, before)
                    && !has_key(all@, k) implies all@.len() == limit && (limit > 0
                    ==> Transaction::precedes(all@.last()@, self@.txns[k])) by {
                assert(has_key(full, k));
                let x = choose|x: int| 0 <= x < full.len() && Transaction::key_of(#[trigger] full[x]@) == k;
                if limit >= full.len() {
                    assert(all@ =~= full);
                    assert(Transaction::key_of(all@[x]@) == k);
                } else {
                    assert(all@ =~= full.subrange(0, limit as int));
                    if x < limit {
                        assert(all@[x] == full[x]);
                        assert(Transaction::key_of(all@[x]@) == k);
                    } else if limit > 0 {
                        assert(full[x]@ == self@.txns[k]);
                        assert(all@.last() == full[limit - 1]);
                        assert(Transaction::precedes(full[limit - 1]@, full[x]@));
                    }
                }
            }
        }
        all
    }
}

/// `a` belongs to `household` and its scope admits `viewer`, who is an active
/// member of the household exactly when `member` holds and an owner of it
/// exactly when `owner` holds.
pub open spec fn listed_for(a: AccountView, household: u128, viewer: u128, member: bool, owner: bool) -> bool {
    a.household_id == household && (if a.visibility == Visibility::AllMembers {
        member
    } else {
        a.created_by == viewer || owner
    })
}

fn account_listed(a: &Account, household: u128, viewer: u128, member: bool, owner: bool) -> (b: bool)
    ensures
        b == listed_for(a@, household, viewer, member, owner),
{
    a.household_id == household && (if a.visibility == Visibility::AllMembers {
        member
    } else {
        a.created_by == viewer || owner
    })
}

/// The transactions not posted to `account`.
pub open spec fn without_account(txns: Map<u128, TransactionView>, account: u128) -> Map<u128, TransactionView> {
    txns.restrict(txns.dom().filter(|k: u128| txns[k].account_id != account))
}

/// The connection is `provider`'s item `item_id`.
pub open spec fn is_item(c: ConnectionView, provider: Seq<char>, item_id: Seq<char>) -> bool {
    c.provider == provider && c.external_item_id == Some(item_id)
}

fn connection_is_item(c: &Connection, provider: &str, item_id: &str) -> (b: bool)
    ensures
        b == is_item(c@, provider@, item_id@),
{
    match &c.external_item_id {
        Some(e) => str_eq(c.provider.as_str(), provider) && str_eq(e.as_str(), item_id),
        None => false,
    }
}

/// The webhook ledger key of an event: `{provider}:{event_key}`.
pub open spec fn ledger_key(provider: Seq<char>, event_key: Seq<char>) -> Seq<char> {
    provider + seq![':'] + event_key
}

fn make_ledger_key(provider: &str, event_key: &str) -> (k: String)
    ensures
        k@ == ledger_key(provider@, event_key@),
{
    let mut k = String::new();
    push_all(&mut k, provider);
    k.push(':');
    push_all(&mut k, event_key);
    proof {
        assert(Seq::<char>::empty() + provider@ =~= provider@);
        assert(provider@.push(':') =~= provider@ + seq![':']);
    }
    k
}

impl MemoryStore {
    // -------------------------------------------------------- connections --

    /// Stores a connection, replacing any under the same id.
    pub fn insert_connection(&mut self, conn: Connection) -> (r: Connection)
        requires
            old(self).wf(),
        ensures
            final(self).wf(),
            r@ == conn@,
            final(self)@ == (StoreView {
                connections: old(self)@.connections.insert(conn.id, conn@),
                ..old(self)@
            }),
    {
        let out = conn.duplicate();
        self.connections.insert(conn);
        out
    }

    pub fn get_connection(&self, id: u128) -> (r: Option<Connection>)
        requires
            self.wf(),
        ensures
            match r {
                Some(c) => self@.connections.contains_key(id) && self@.connections[id] == c@,
                None => !self@.connections.contains_key(id),
            },
    {
        match self.connections.get(&id) {
            Some(c) => Some(c.duplicate()),
            None => None,
        }
    }

    /// A connection of `provider` for the provider's item `item_id`.
    pub fn connection_by_item(&self, provider: &str, item_id: &str) -> (r: Option<Connection>)
        requires
            self.wf(),
        ensures
            match r {
                Some(c) => self@.connections.contains_key(c.id) && self@.connections[c.id] == c@
                    && is_item(c@, provider@, item_id@),
                None => forall|k: u128| #[trigger]
                    self@.connections.contains_key(k) ==> !is_item(
                        self@.connections[k],
                        provider@,
                        item_id@,
                    ),
            },
    {
        let rows = self.connections.rows();
        let mut i: usize = 0;
        while i < rows.len()
            invariant
                enumerates::<Connection>(self@.connections, rows@),
                i <= rows@.len(),
                forall|j: int| 0 <= j < i ==> !is_item((#[trigger] rows@[j])@, provider@, item_id@),
            decreases rows@.len() - i,
        {
            if connection_is_item(&rows[i], provider, item_id) {
                proof {
                    assert(self@.connections.contains_key(Connection::key_of(rows@[i as int]@)));
                }
                return Some(rows[i].duplicate());
            }
            i = i + 1;
        }
        proof {
            assert forall|k: u128| #[trigger] self@.connections.contains_key(k) implies !is_item(
                self@.connections[k],
                provider@,
                item_id@,
            ) by {
                let j = choose|j: int| 0 <= j < rows@.len() && Connection::key_of(rows@[j]@) == k;
                assert(self@.connections[Connection::key_of(rows@[j]@)] == rows@[j]@);
            }
        }
        None
    }

    /// The connections of `household`, oldest first (ties broken by id).
    pub fn connections_for_household(&self, household: u128) -> (r: Vec<Connection>)
        requires
            self.wf(),
        ensures
            sorted_by(r@),
            forall|i: int|
                #![trigger r@[i]]
                0 <= i < r@.len() ==> self@.connections.contains_key(r@[i].id)
                    && self@.connections[r@[i].id] == r@[i]@ && r@[i].household_id == household,
            forall|k: u128|
                #[trigger] self@.connections.contains_key(k) && self@.connections[k].household_id
                    == household ==> has_key(r@, k),
    {
        let rows = self.connections.rows();
        let keep = (|c: &Connection| -> (b: bool)
            ensures
                b == (c.household_id == household),
            { c.household_id == household });
        collect_sorted(
            rows,
            keep,
            Ghost(self@.connections),
            Ghost(|v: ConnectionView| v.household_id == household),
        )
    }

    /// An active owner of `household`, if it has one.
    pub fn household_owner(&self, household: u128) -> (r: Option<u128>)
        requires
            self.wf(),
        ensures
            match r {
                Some(u) => self@.is_owner(household, u),
                None => forall|u: u128| !#[trigger] self@.is_owner(household, u),
            },
    {
        let rows = self.members.rows();
        let mut i: usize = 0;
        while i < rows.len()
            invariant
                enumerates::<Membership>(self@.members, rows@),
                i <= rows@.len(),
                forall|j: int|
                    0 <= j < i ==> !((#[trigger] rows@[j]).household_id == household && rows@[j].role
                        == Role::Owner && rows@[j].status == MemberStatus::Active),
            decreases rows@.len() - i,
        {
            let m = rows[i];
            if m.household_id == household && m.role == Role::Owner && m.status == MemberStatus::Active {
                proof {
                    assert(self@.members.contains_key(Membership::key_of(rows@[i as int]@)));
                }
                return Some(m.user_id);
            }
            i = i + 1;
        }
        proof {
            assert forall|u: u128| !#[trigger] self@.is_owner(household, u) by {
                if self@.members.contains_key((household, u)) {
                    let j = choose|j: int|
                        0 <= j < rows@.len() && Membership::key_of(rows@[j]@) == (household, u);
                    assert(self@.members[Membership::key_of(rows@[j]@)] == rows@[j]@);
                }
            }
        }
        None
    }

    /// The accounts synced through `connection`, oldest first (ties broken by
    /// id). A system-context lookup: member visibility does not apply.
    pub fn accounts_for_connection(&self, connection: u128) -> (r: Vec<Account>)
        requires
            self.wf(),
        ensures
            sorted_by(r@),
            forall|i: int|
                #![trigger r@[i]]
                0 <= i < r@.len() ==> self@.accounts.contains_key(r@[i].id) && self@.accounts[r@[i].id]
                    == r@[i]@ && r@[i].connection_id == Some(connection),
            forall|k: u128|
                #[trigger] self@.accounts.contains_key(k) && self@.accounts[k].connection_id == Some(
                    connection,
                ) ==> has_key(r@, k),
    {
        let rows = self.accounts.rows();
        let keep = (|a: &Account| -> (b: bool)
            ensures
                b == (a.connection_id == Some(connection)),
            {
                match a.connection_id {
                    Some(c) => c == connection,
                    None => false,
                }
            });
        collect_sorted(
            rows,
            keep,
            Ghost(self@.accounts),
            Ghost(|v: AccountView| v.connection_id == Some(connection)),
        )
    }

    /// Sets a connection's status and, when given, its sync cursor.
    pub fn update_connection_status(
        &mut self,
        id: u128,
        status: ConnectionStatus,
        cursor: Option<String>,
    ) -> (r: StoreResult<Connection>)
        requires
            old(self).wf(),
        ensures
            final(self).wf(),
            !old(self)@.connections.contains_key(id) ==> (r matches Err(StoreError::NotFound(m))
                && m@ == "connection"@ && final(self)@ == old(self)@),
            old(self)@.connections.contains_key(id) ==> (r matches Ok(c) && c@ == (ConnectionView {
                status,
                cursor: match opt_chars(cursor) {
                    Some(k) => Some(k),
                    None => old(self)@.connections[id].cursor,
                },
                ..old(self)@.connections[id]
            }) && final(self)@ == (StoreView {
                connections: old(self)@.connections.insert(id, c@),
                ..old(self)@
            })),
    {
        let mut c = match self.connections.remove(&id) {
            Some(c) => c,
            None => {
                proof {
                    assert(self@.connections =~= old(self)@.connections);
                    assert(self@ =~= old(self)@);
                }
                return Err(StoreError::NotFound("connection"));
            },
        };
        c.status = status;
        if let Some(k) = cursor {
            c.cursor = Some(k);
        }
        let out = c.duplicate();
        self.connections.insert(c);
        proof {
            assert(self@.connections =~= old(self)@.connections.insert(id, out@));
        }
        Ok(out)
    }

    /// Records a webhook event key; true only the first time it is seen, so
    /// that a provider's retries are inert.
    pub fn claim_webhook_event(&mut self, provider: &str, event_key: &str) -> (r: bool)
        requires
            old(self).wf(),
        ensures
            final(self).wf(),
            r == !old(self)@.webhook_events.contains(ledger_key(provider@, event_key@)),
            final(self)@ == (StoreView {
                webhook_events: old(self)@.webhook_events.insert(ledger_key(provider@, event_key@)),
                ..old(self)@
            }),
    {
        let key = make_ledger_key(provider, event_key);
        let ghost kv = key@;
        let fresh = !self.webhook_events.contains(&key);
        self.webhook_events.insert(key);
        proof {
            assert(self@.webhook_events =~= old(self)@.webhook_events.insert(kv));
        }
        fresh
    }
}

impl StoreView {
    /// Some account is synced from `connection` under the provider id `ext`.
    pub open spec fn has_synced(self, connection: u128, ext: Seq<char>) -> bool {
        exists|k: u128| #[trigger] self.accounts.contains_key(k) && synced_as(self.accounts[k], connection, ext)
    }
}

/// A manual transaction as handlers build it: unreviewed, with no provider
/// id and no notes.
pub open spec fn manual_transaction(
    id: u128,
    household: u128,
    account: u128,
    created_by: u128,
    posted_on: Date,
    amount_minor: i64,
    merchant_raw: Option<Seq<char>>,
    description: Option<Seq<char>>,
    created_at: Timestamp,
) -> TransactionView {
    TransactionView {
        id,
        household_id: household,
        account_id: account,
        external_id: None,
        posted_on,
        amount_minor,
        merchant_raw,
        description,
        notes: None,
        review_state: ReviewState::Unreviewed,
        source: TxSource::Manual,
        created_by,
        created_at,
    }
}

/// Builds a manual transaction with a fresh id, created now; `None` where no
/// fresh id can be drawn.
pub fn new_transaction(
    household: u128,
    account: u128,
    created_by: u128,
    posted_on: Date,
    amount_minor: i64,
    merchant_raw: Option<String>,
    description: Option<String>,
) -> (r: Option<Transaction>)
    ensures
        r matches Some(t) ==> t@ == manual_transaction(
            t.id,
            household,
            account,
            created_by,
            posted_on,
            amount_minor,
            opt_chars(merchant_raw),
            opt_chars(description),
            t.created_at,
        ),
{
    let id = match fresh_id() {
        Some(id) => id,
        None => return None,
    };
    Some(Transaction {
        id,
        household_id: household,
        account_id: account,
        external_id: None,
        posted_on,
        amount_minor,
        merchant_raw,
        description,
        notes: None,
        review_state: ReviewState::Unreviewed,
        source: TxSource::Manual,
        created_by,
        created_at: now_nanos(),
    })
}

impl MemoryStore {
    fn find_synced(&self, connection: u128, ext: &String) -> (r: Option<u128>)
        requires
            self.wf(),
        ensures
            match r {
                Some(k) => self@.accounts.contains_key(k) && synced_as(self@.accounts[k], connection, ext@),
                None => !self@.has_synced(connection, ext@),
            },
    {
        let rows = self.accounts.rows();
        let mut i: usize = 0;
        while i < rows.len()
            invariant
                enumerates::<Account>(self@.accounts, rows@),
                i <= rows@.len(),
                forall|j: int| 0 <= j < i ==> !synced_as((#[trigger] rows@[j])@, connection, ext@),
            decreases rows@.len() - i,
        {
            if is_synced_as(&rows[i], connection, ext) {
                proof {
                    assert(self@.accounts.contains_key(Account::key_of(rows@[i as int]@)));
                }
                return Some(rows[i].id);
            }
            i = i + 1;
        }
        proof {
            if self@.has_synced(connection, ext@) {
                let k = choose|k: u128|
                    #[trigger] self@.accounts.contains_key(k) && synced_as(self@.accounts[k], connection, ext@);
                let j = choose|j: int| 0 <= j < rows@.len() && Account::key_of(rows@[j]@) == k;
                assert(self@.accounts[Account::key_of(rows@[j]@)] == rows@[j]@);
            }
        }
        None
    }

    /// Upsert by `(connection, external_id)` with a fresh id for a new
    /// account. Synced accounts are balance-authoritative: the provider's
    /// number always wins. `None`, changing nothing, where no fresh id can be
    /// drawn.
    pub fn upsert_synced_account(
        &mut self,
        household: u128,
        created_by: u128,
        connection: u128,
        ext: ExtAccount,
    ) -> (r: Option<Account>)
        requires
            old(self).wf(),
        ensures
            final(self).wf(),
            r is None ==> final(self)@ == old(self)@,
            r matches Some(a) ==> old(self)@.has_synced(connection, ext@.external_id) ==> {
                &&& old(self)@.accounts.contains_key(a.id)
                &&& synced_as(old(self)@.accounts[a.id], connection, ext@.external_id)
                &&& a@ == refreshed(old(self)@.accounts[a.id], ext@)
            },
            r matches Some(a) ==> !old(self)@.has_synced(connection, ext@.external_id) ==> a@ == fresh_synced(
                a.id,
                household,
                created_by,
                connection,
                ext@,
                a.created_at,
            ),
            r matches Some(a) ==> final(self)@ == (StoreView { accounts: old(self)@.accounts.insert(a.id, a@), ..old(self)@ }),
    {
        let id = match fresh_id() {
            Some(id) => id,
            None => return None,
        };
        let now = now_nanos();
        Some(self.upsert_synced_account_with(id, now, household, created_by, connection, ext))
    }

    /// Upsert by `(connection, external_id)`: an existing synced account takes
    /// the provider's name, type and balance; otherwise a new household-wide
    /// account `id`, created at `created_at`, is stored.
    pub fn upsert_synced_account_with(
        &mut self,
        id: u128,
        created_at: Timestamp,
        household: u128,
        created_by: u128,
        connection: u128,
        ext: ExtAccount,
    ) -> (r: Account)
        requires
            old(self).wf(),
        ensures
            final(self).wf(),
            old(self)@.has_synced(connection, ext@.external_id) ==> {
                &&& old(self)@.accounts.contains_key(r.id)
                &&& synced_as(old(self)@.accounts[r.id], connection, ext@.external_id)
                &&& r@ == refreshed(old(self)@.accounts[r.id], ext@)
            },
            !old(self)@.has_synced(connection, ext@.external_id) ==> r@ == fresh_synced(
                id,
                household,
                created_by,
                connection,
                ext@,
                created_at,
            ),
            final(self)@ == (StoreView { accounts: old(self)@.accounts.insert(r.id, r@), ..old(self)@ }),
    {
        let found = match self.find_synced(connection, &ext.external_id) {
            Some(k) => self.accounts.remove(&k),
            None => None,
        };
        match found {
            Some(mut a) => {
                a.name = ext.name;
                a.account_type = ext.account_type;
                a.current_balance_minor = ext.current_balance_minor;
                let out = a.duplicate();
                self.accounts.insert(a);
                proof {
                    assert(self@.accounts =~= old(self)@.accounts.insert(out.id, out@));
                }
                out
            },
            None => {
                let account = Account {
                    id,
                    household_id: household,
                    connection_id: Some(connection),
                    external_id: Some(ext.external_id),
                    created_by,
                    account_type: ext.account_type,
                    name: ext.name,
                    currency: ext.currency,
                    current_balance_minor: ext.current_balance_minor,
                    visibility: Visibility::AllMembers,
                    created_at,
                };
                let out = account.duplicate();
                self.accounts.insert(account);
                out
            },
        }
    }
}
} // verus!
