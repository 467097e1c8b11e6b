//! The sync pipeline's decisions. A sync pulls a connection's account
//! snapshots and then its transaction feed page by page; the provider calls
//! happen outside, and each answer is handed to the run, which persists it
//! and says what to fetch next.
//!
//! Synced accounts are provider-authoritative: their balances are what the
//! institution reports, and feed transactions are deduplicated by their
//! provider ids.

use vstd::prelude::*;
use crate::aggregate::{AggregatorError, ExtAccount, ExtAccountView, ExtTxn, ExtTxnView, Provider, Registry, SyncPage};
use crate::ids::{fresh_ids, now_nanos};
use crate::models::{
    opt_chars, clone_opt_string, Account, AccountView, Connection, ConnectionStatus, ReviewState,
    Timestamp, Transaction, TransactionView, TxSource,
};
use crate::sorted::{has_key, sorted_by, Ranked};
use crate::store::{fresh_synced, refreshed, synced_as, MemoryStore, StoreError, StoreView};
use crate::table::Record;

verus! {

/// Pages fetched beyond the first, at most, in one sync.
pub const MAX_EXTRA_PAGES: usize = 10;

/// A sync in progress for one connection.
pub struct SyncRun {
    pub connection_id: u128,
    pub household_id: u128,
    /// Who synced rows are attributed to: an active owner of the household,
    /// or the household itself where it has none.
    pub owner: u128,
    /// Where the feed resumes.
    pub cursor: Option<String>,
    /// Pages fetched beyond the first so far.
    pub pages: usize,
    /// Transactions newly recorded so far.
    pub inserted: usize,
}

pub struct SyncRunView {
    pub connection_id: u128,
    pub household_id: u128,
    pub owner: u128,
    pub cursor: Option<Seq<char>>,
    pub pages: usize,
    pub inserted: usize,
}

impl View for SyncRun {
    type V = SyncRunView;

    open spec fn view(&self) -> SyncRunView {
        SyncRunView {
            connection_id: self.connection_id,
            household_id: self.household_id,
            owner: self.owner,
            cursor: opt_chars(self.cursor),
            pages: self.pages,
            inserted: self.inserted,
        }
    }
}

/// Account `k` is the connection's earliest-created account (ties broken by
/// id) that the provider knows as `ext`.
pub open spec fn first_synced(s: StoreView, connection: u128, ext: Seq<char>, k: u128) -> bool {
    &&& s.accounts.contains_key(k)
    &&& synced_as(s.accounts[k], connection, ext)
    &&& forall|k2: u128|
        #![trigger s.accounts[k2]]
        s.accounts.contains_key(k2) && synced_as(s.accounts[k2], connection, ext) && k2 != k
            ==> Account::precedes(s.accounts[k], s.accounts[k2])
}

/// The ledger row a feed transaction becomes on account `account`.
pub open spec fn synced_txn(
    run: SyncRunView,
    account: u128,
    t: ExtTxnView,
    id: u128,
    created_at: Timestamp,
) -> TransactionView {
    TransactionView {
        id,
        household_id: run.household_id,
        account_id: account,
        external_id: Some(t.external_id),
        posted_on: t.posted_on,
        amount_minor: t.amount_minor,
        merchant_raw: t.merchant_raw,
        description: t.description,
        notes: None,
        review_state: ReviewState::Unreviewed,
        source: TxSource::Aggregate,
        created_by: run.owner,
        created_at,
    }
}

/// One feed transaction recorded: skipped when no account of the connection
/// carries its provider account id; otherwise inserted on the first such
/// account unless it is already there.
pub open spec fn txn_step(before: StoreView, after: StoreView, run: SyncRunView, t: ExtTxnView, inserted: bool) -> bool {
    ||| (forall|k: u128| !#[trigger] first_synced(before, run.connection_id, t.account_external_id, k))
        && after == before && !inserted
    ||| exists|k: u128, tv: TransactionView|
        #![trigger first_synced(before, run.connection_id, t.account_external_id, k), before.is_duplicate(tv)]
        first_synced(before, run.connection_id, t.account_external_id, k)
            && tv == synced_txn(run, k, t, tv.id, tv.created_at)
            && inserted == !before.is_duplicate(tv)
            && after == (if inserted { before.with_transaction(tv) } else { before })
}

proof fn lemma_txn_step_hit(
    before: StoreView,
    after: StoreView,
    run: SyncRunView,
    t: ExtTxnView,
    inserted: bool,
    k: u128,
    tv: TransactionView,
)
    requires
        first_synced(before, run.connection_id, t.account_external_id, k),
        tv == synced_txn(run, k, t, tv.id, tv.created_at),
        inserted == !before.is_duplicate(tv),
        after == (if inserted { before.with_transaction(tv) } else { before }),
    ensures
        txn_step(before, after, run, t, inserted),
{
}

/// A step depends on the run only through its connection, household and
/// owner.
proof fn lemma_txn_step_same_run(
    before: StoreView,
    after: StoreView,
    r1: SyncRunView,
    r2: SyncRunView,
    t: ExtTxnView,
    inserted: bool,
)
    requires
        txn_step(before, after, r1, t, inserted),
        r1.connection_id == r2.connection_id,
        r1.household_id == r2.household_id,
        r1.owner == r2.owner,
    ensures
        txn_step(before, after, r2, t, inserted),
{
    if !(forall|k: u128| !#[trigger] first_synced(before, r1.connection_id, t.account_external_id, k)) {
        let (k, tv) = choose|k: u128, tv: TransactionView|
            #![trigger first_synced(before, r1.connection_id, t.account_external_id, k), before.is_duplicate(tv)]
            first_synced(before, r1.connection_id, t.account_external_id, k)
                && tv == synced_txn(r1, k, t, tv.id, tv.created_at)
                && inserted == !before.is_duplicate(tv)
                && after == (if inserted { before.with_transaction(tv) } else { before });
        lemma_txn_step_hit(before, after, r2, t, inserted, k, tv);
    }
}

/// One account snapshot recorded: an account already synced under its
/// provider id takes the provider's name, type and balance; otherwise a new
/// household-wide account is stored.
pub open spec fn account_step(
    before: StoreView,
    after: StoreView,
    run: SyncRunView,
    ext: ExtAccountView,
) -> bool {
    exists|a: AccountView|
        #![trigger before.accounts.insert(a.id, a)]
        after == (StoreView { accounts: before.accounts.insert(a.id, a), ..before })
            && (before.has_synced(run.connection_id, ext.external_id) ==> before.accounts.contains_key(a.id)
            && synced_as(before.accounts[a.id], run.connection_id, ext.external_id) && a == refreshed(
            before.accounts[a.id],
            ext,
        )) && (!before.has_synced(run.connection_id, ext.external_id) ==> a == fresh_synced(
            a.id,
            run.household_id,
            run.owner,
            run.connection_id,
            ext,
            a.created_at,
        ))
}

/// The number of `true` flags.
pub open spec fn count_true(flags: Seq<bool>) -> nat
    decreases flags.len(),
{
    if flags.len() == 0 {
        0
    } else {
        count_true(flags.drop_last()) + if flags.last() { 1nat } else { 0nat }
    }
}

proof fn lemma_count_true_bound(flags: Seq<bool>)
    ensures
        count_true(flags) <= flags.len(),
    decreases flags.len(),
{
    if flags.len() > 0 {
        lemma_count_true_bound(flags.drop_last());
    }
}

/// The list is exactly the connection's accounts, sorted.
spec fn lists_connection(accounts: Map<u128, AccountView>, connection: u128, list: Seq<Account>) -> bool {
    &&& sorted_by(list)
    &&& forall|i: int|
        #![trigger list[i]]
        0 <= i < list.len() ==> accounts.contains_key(list[i].id) && accounts[list[i].id]
            == list[i]@ && list[i].connection_id == Some(connection)
    &&& forall|k: u128|
        #[trigger] accounts.contains_key(k) && accounts[k].connection_id == Some(connection)
            ==> has_key(list, k)
}

fn external_is(a: &Account, ext: &String) -> (b: bool)
    ensures
        b == (a@.external_id == Some(ext@)),
{
    match &a.external_id {
        Some(e) => *e == *ext,
        None => false,
    }
}

impl SyncRun {
    /// Opens a sync of `conn`: its provider must be registered and usable,
    /// and it must hold a credential.
    pub fn start<P: Clone>(registry: &Registry<P>, store: &MemoryStore, conn: &Connection) -> (r:
        Result<(Provider<P>, SyncRun), AggregatorError>)
        requires
            store.wf(),
        ensures
            conn.provider@ == "plaid"@ && registry.plaid is None ==> (r matches Err(
                AggregatorError::NotConfigured,
            )),
            conn.provider@ != "plaid"@ && conn.provider@ != "mock"@ ==> (r matches Err(
                AggregatorError::Unsupported(m),
            ) && m@ == "unknown provider"@),
            registry.has_spec(conn.provider@) && conn.access_token is None ==> (r matches Err(
                AggregatorError::Provider(m),
            ) && m@ == "connection missing credential"@),
            registry.has_spec(conn.provider@) && conn.access_token is Some ==> (r matches Ok((p, run))
                && run@ == (SyncRunView {
                connection_id: conn.id,
                household_id: conn.household_id,
                owner: run.owner,
                cursor: opt_chars(conn.cursor),
                pages: 0,
                inserted: 0,
            }) && (store@.is_owner(conn.household_id, run.owner) || (run.owner == conn.household_id
                && forall|u: u128| !#[trigger] store@.is_owner(conn.household_id, u)))),
    {
        let provider = match registry.get(conn.provider.as_str()) {
            Ok(p) => p,
            Err(e) => return Err(e),
        };
        if conn.access_token.is_none() {
            return Err(AggregatorError::Provider("connection missing credential".to_owned()));
        }
        let owner = match store.household_owner(conn.household_id) {
            Some(u) => u,
            None => conn.household_id,
        };
        let run = SyncRun {
            connection_id: conn.id,
            household_id: conn.household_id,
            owner,
            cursor: clone_opt_string(&conn.cursor),
            pages: 0,
            inserted: 0,
        };
        Ok((provider, run))
    }

    /// Records the provider's account snapshots, in order. The ids for new
    /// accounts are drawn first: where the random source fails, nothing is
    /// recorded.
    pub fn record_accounts(&self, store: &mut MemoryStore, accounts: Vec<ExtAccount>) -> (r: Result<
        (),
        AggregatorError,
    >)
        requires
            old(store).wf(),
        ensures
            final(store).wf(),
            r is Err ==> (r matches Err(AggregatorError::Store(StoreError::NoRandomness))) && final(store)@ == old(
                store,
            )@,
            r is Ok ==> exists|trace: Seq<StoreView>|
                trace.len() == accounts@.len() + 1 && trace[0] == old(store)@ && trace.last()
                    == final(store)@ && forall|i: int|
                    0 <= i < accounts@.len() ==> #[trigger] account_step(
                        trace[i],
                        trace[i + 1],
                        self@,
                        accounts@[i]@,
                    ),
    {
        let ids = match fresh_ids(accounts.len()) {
            Some(v) => v,
            None => return Err(AggregatorError::Store(StoreError::NoRandomness)),
        };
        let ghost mut trace: Seq<StoreView> = seq![store@];
        let mut i: usize = 0;
        while i < accounts.len()
            invariant
                store.wf(),
                ids@.len() == accounts@.len(),
                i <= accounts@.len(),
                trace.len() == i + 1,
                trace[0] == old(store)@,
                trace.last() == store@,
                forall|j: int| 0 <= j < i ==> #[trigger] account_step(trace[j], trace[j + 1], self@, accounts@[j]@),
            decreases accounts@.len() - i,
        {
            let ghost before = store@;
            let a = accounts[i].duplicate();
            let now = now_nanos();
            let saved = store.upsert_synced_account_with(ids[i], now, self.household_id, self.owner, self.connection_id, a);
            proof {
                assert(before.accounts.insert(saved@.id, saved@) == before.accounts.insert(saved.id, saved@));
                assert(account_step(before, store@, self@, accounts@[i as int]@));
                trace = trace.push(store@);
                assert forall|j: int| 0 <= j < i + 1 implies #[trigger] account_step(
                    trace[j],
                    trace[j + 1],
                    self@,
                    accounts@[j]@,
                ) by {
                    if j < i {
                        assert(trace[j] == trace.drop_last()[j]);
                        assert(trace[j + 1] == trace.drop_last()[j + 1]);
                    }
                }
            }
            i = i + 1;
        }
        Ok(())
    }

    /// Records one feed transaction on the first of the connection's
    /// `accounts` that the provider knows it by.
    fn record_txn(&self, store: &mut MemoryStore, accounts: &Vec<Account>, t: &ExtTxn, id: u128) -> (inserted: bool)
        requires
            old(store).wf(),
            lists_connection(old(store)@.accounts, self.connection_id, accounts@),
        ensures
            final(store).wf(),
            txn_step(old(store)@, final(store)@, self@, t@, inserted),
    {
        let ghost s = store@;
        let mut j: usize = 0;
        while j < accounts.len()
            invariant
                j <= accounts@.len(),
                forall|x: int| 0 <= x < j ==> (#[trigger] accounts@[x])@.external_id != Some(t@.account_external_id),
            ensures
                j <= accounts@.len(),
                forall|x: int| 0 <= x < j ==> (#[trigger] accounts@[x])@.external_id != Some(t@.account_external_id),
                j < accounts@.len() ==> accounts@[j as int]@.external_id == Some(t@.account_external_id),
            decreases accounts@.len() - j,
        {
            if external_is(&accounts[j], &t.account_external_id) {
                break;
            }
            j = j + 1;
        }
        if j == accounts.len() {
            proof {
                assert forall|k: u128| !#[trigger] first_synced(s, self.connection_id, t@.account_external_id, k) by {
                    if first_synced(s, self.connection_id, t@.account_external_id, k) {
                        assert(has_key(accounts@, k));
                        let x = choose|x: int| 0 <= x < accounts@.len() && Account::key_of(#[trigger] accounts@[x]@) == k;
                        assert(accounts@[x]@ == s.accounts[k]);
                    }
                }
            }
            assert(txn_step(s, store@, self@, t@, false));
            return false;
        }
        let acct = accounts[j].id;
        proof {
            assert(first_synced(s, self.connection_id, t@.account_external_id, acct)) by {
                assert forall|k2: u128|
                    #![trigger s.accounts[k2]]
                    s.accounts.contains_key(k2) && synced_as(s.accounts[k2], self.connection_id, t@.account_external_id)
                        && k2 != acct implies Account::precedes(s.accounts[acct], s.accounts[k2]) by {
                    assert(has_key(accounts@, k2));
                    let x = choose|x: int| 0 <= x < accounts@.len() && Account::key_of(#[trigger] accounts@[x]@) == k2;
                    assert(accounts@[x]@ == s.accounts[k2]);
                    assert(x != j);
                    if x < j {
                        assert(accounts@[x]@.external_id != Some(t@.account_external_id));
                    } else {
                        assert(Account::precedes(accounts@[j as int]@, accounts@[x]@));
                    }
                }
            }
        }
        let txn = Transaction {
            id,
            household_id: self.household_id,
            account_id: acct,
            external_id: Some(t.external_id.clone()),
            posted_on: t.posted_on,
            amount_minor: t.amount_minor,
            merchant_raw: clone_opt_string(&t.merchant_raw),
            description: clone_opt_string(&t.description),
            notes: None,
            review_state: ReviewState::Unreviewed,
            source: TxSource::Aggregate,
            created_by: self.owner,
            created_at: now_nanos(),
        };
        let ghost tv = txn@;
        let inserted = store.upsert_synced_transaction(txn);
        proof {
            assert(tv == synced_txn(self@, acct, t@, tv.id, tv.created_at));
            assert(first_synced(s, self.connection_id, t@.account_external_id, acct));
            assert(inserted == !s.is_duplicate(tv));
            assert(store@ == (if inserted { s.with_transaction(tv) } else { s }));
            lemma_txn_step_hit(s, store@, self@, t@, inserted, acct, tv);
        }
        inserted
    }

    /// Records one page of the feed and says whether to fetch another: only
    /// while the provider has more and at most `MAX_EXTRA_PAGES` pages beyond
    /// the first, so that a request stays short. The ids for new transactions
    /// are drawn first: where the random source fails, nothing is recorded
    /// and the run is left as it was.
    pub fn record_page(&mut self, store: &mut MemoryStore, page: SyncPage) -> (r: Result<bool, AggregatorError>)
        requires
            old(store).wf(),
            old(self).inserted + page.txns@.len() <= usize::MAX,
        ensures
            final(store).wf(),
            r is Err ==> (r matches Err(AggregatorError::Store(StoreError::NoRandomness))) && final(store)@ == old(
                store,
            )@ && final(self)@ == old(self)@,
            r is Ok ==> exists|trace: Seq<StoreView>, flags: Seq<bool>|
                trace.len() == page.txns@.len() + 1 && flags.len() == page.txns@.len() && trace[0]
                    == old(store)@ && trace.last() == final(store)@ && (forall|i: int|
                    0 <= i < page.txns@.len() ==> #[trigger] txn_step(
                        trace[i],
                        trace[i + 1],
                        old(self)@,
                        page.txns@[i]@,
                        flags[i],
                    )) && final(self).inserted == old(self).inserted + count_true(flags),
            r is Ok ==> final(self)@.cursor == Some(page.next_cursor@),
            r matches Ok(more) ==> more == (page.has_more && old(self).pages < MAX_EXTRA_PAGES),
            r matches Ok(more) ==> final(self).pages == (if more { old(self).pages + 1 } else { old(self).pages as int }),
            final(self).connection_id == old(self).connection_id,
            final(self).household_id == old(self).household_id,
            final(self).owner == old(self).owner,
    {
        let ids = match fresh_ids(page.txns.len()) {
            Some(v) => v,
            None => return Err(AggregatorError::Store(StoreError::NoRandomness)),
        };
        let accounts = store.accounts_for_connection(self.connection_id);
        let ghost run = self@;
        let ghost mut trace: Seq<StoreView> = seq![store@];
        let ghost mut flags: Seq<bool> = Seq::empty();
        let mut i: usize = 0;
        while i < page.txns.len()
            invariant
                store.wf(),
                ids@.len() == page.txns@.len(),
                self@ == (SyncRunView { inserted: self.inserted, ..run }),
                run.inserted + page.txns@.len() <= usize::MAX,
                i <= page.txns@.len(),
                trace.len() == i + 1,
                flags.len() == i,
                trace[0] == old(store)@,
                trace.last() == store@,
                store@.accounts == old(store)@.accounts,
                lists_connection(old(store)@.accounts, run.connection_id, accounts@),
                forall|j: int| 0 <= j < i ==> #[trigger] txn_step(trace[j], trace[j + 1], run, page.txns@[j]@, flags[j]),
                self.inserted == run.inserted + count_true(flags),
                count_true(flags) <= i,
            decreases page.txns@.len() - i,
        {
            let ghost before = store@;
            let hit = self.record_txn(store, &accounts, &page.txns[i], ids[i]);
            proof {
                lemma_txn_step_same_run(before, store@, self@, run, page.txns@[i as int]@, hit);
            }
            if hit {
                self.inserted = self.inserted + 1;
            }
            proof {
                let old_flags = flags;
                flags = flags.push(hit);
                assert(flags.drop_last() =~= old_flags);
                trace = trace.push(store@);
                assert forall|j: int| 0 <= j < i + 1 implies #[trigger] txn_step(
                    trace[j],
                    trace[j + 1],
                    run,
                    page.txns@[j]@,
                    flags[j],
                ) by {
                    if j < i {
                        assert(trace[j] == trace.drop_last()[j]);
                        assert(trace[j + 1] == trace.drop_last()[j + 1]);
                        assert(flags[j] == old_flags[j]);
                    }
                }
                assert(store@.accounts == old(store)@.accounts);
            }
            i = i + 1;
        }
        self.cursor = Some(page.next_cursor);
        let more = page.has_more && self.pages < MAX_EXTRA_PAGES;
        if more {
            self.pages = self.pages + 1;
        }
        Ok(more)
    }

    /// Ends the sync: the connection is marked connected and keeps the
    /// cursor where the feed stopped. Returns how many transactions were new.
    pub fn finish(self, store: &mut MemoryStore) -> (r: Result<usize, AggregatorError>)
        requires
            old(store).wf(),
        ensures
            final(store).wf(),
            !old(store)@.connections.contains_key(self.connection_id) ==> (r matches Err(
                AggregatorError::Store(StoreError::NotFound(_)),
            ) && final(store)@ == old(store)@),
            old(store)@.connections.contains_key(self.connection_id) ==> r == Ok::<usize, AggregatorError>(self.inserted)
                && final(store)@ == (StoreView {
                connections: old(store)@.connections.insert(
                    self.connection_id,
                    crate::models::ConnectionView {
                        status: ConnectionStatus::Connected,
                        cursor: match self@.cursor {
                            Some(c) => Some(c),
                            None => old(store)@.connections[self.connection_id].cursor,
                        },
                        ..old(store)@.connections[self.connection_id]
                    },
                ),
                ..old(store)@
            }),
    {
        match store.update_connection_status(self.connection_id, ConnectionStatus::Connected, self.cursor) {
            Ok(_) => Ok(self.inserted),
            Err(e) => Err(AggregatorError::Store(e)),
        }
    }
}

/// Recording a feed transaction never moves a balance: synced accounts are
/// provider-authoritative.
pub proof fn law_feed_leaves_balances(before: StoreView, after: StoreView, run: SyncRunView, t: ExtTxnView, inserted: bool)
    requires
        txn_step(before, after, run, t, inserted),
    ensures
        after.accounts == before.accounts,
{
    if !(forall|k: u128| !#[trigger] first_synced(before, run.connection_id, t.account_external_id, k)) {
        let (k, tv) = choose|k: u128, tv: TransactionView|
            #![trigger first_synced(before, run.connection_id, t.account_external_id, k), before.is_duplicate(tv)]
            first_synced(before, run.connection_id, t.account_external_id, k)
                && tv == synced_txn(run, k, t, tv.id, tv.created_at)
                && inserted == !before.is_duplicate(tv)
                && after == (if inserted { before.with_transaction(tv) } else { before });
        assert(!before.is_manual(k));
    }
}

/// Syncing is idempotent: a feed transaction recorded once is refused the
/// second time and leaves the store as it was.
pub proof fn law_feed_idempotent(
    s0: StoreView,
    s1: StoreView,
    s2: StoreView,
    run: SyncRunView,
    t: ExtTxnView,
    first: bool,
    second: bool,
)
    requires
        txn_step(s0, s1, run, t, first),
        txn_step(s1, s2, run, t, second),
    ensures
        !second,
        s2 == s1,
{
    law_feed_leaves_balances(s0, s1, run, t, first);
    if !(forall|k: u128| !#[trigger] first_synced(s0, run.connection_id, t.account_external_id, k)) {
        let (k, tv) = choose|k: u128, tv: TransactionView|
            #![trigger first_synced(s0, run.connection_id, t.account_external_id, k), s0.is_duplicate(tv)]
            first_synced(s0, run.connection_id, t.account_external_id, k)
                && tv == synced_txn(run, k, t, tv.id, tv.created_at)
                && first == !s0.is_duplicate(tv)
                && s1 == (if first { s0.with_transaction(tv) } else { s0 });
        assert(first_synced(s1, run.connection_id, t.account_external_id, k));
        if !(forall|k2: u128| !#[trigger] first_synced(s1, run.connection_id, t.account_external_id, k2)) {
            let (k2, tv2) = choose|k2: u128, tv2: TransactionView|
                #![trigger first_synced(s1, run.connection_id, t.account_external_id, k2), s1.is_duplicate(tv2)]
                first_synced(s1, run.connection_id, t.account_external_id, k2)
                    && tv2 == synced_txn(run, k2, t, tv2.id, tv2.created_at)
                    && second == !s1.is_duplicate(tv2)
                    && s2 == (if second { s1.with_transaction(tv2) } else { s1 });
            if k2 != k {
                Account::lemma_strict_order(s1.accounts[k], s1.accounts[k2], s1.accounts[k]);
            }
            if first {
                assert(s1.txns.contains_key(tv.id) && s1.txns[tv.id].account_id == k
                    && s1.txns[tv.id].external_id == Some(t.external_id));
            } else {
                let w = choose|w: u128|
                    #[trigger] s0.txns.contains_key(w) && s0.txns[w].account_id == k
                        && s0.txns[w].external_id == Some(t.external_id);
                assert(s1.txns.contains_key(w) && s1.txns[w].account_id == k
                    && s1.txns[w].external_id == Some(t.external_id));
            }
            assert(s1.is_duplicate(tv2));
        }
    }
}

/// A recorded account snapshot is authoritative: afterwards an account of
/// the connection carries the provider's id, name, type and balance.
pub proof fn law_snapshot_is_authoritative(before: StoreView, after: StoreView, run: SyncRunView, ext: ExtAccountView)
    requires
        account_step(before, after, run, ext),
    ensures
        exists|k: u128|
            #[trigger] after.accounts.contains_key(k) && synced_as(after.accounts[k], run.connection_id, ext.external_id)
                && after.accounts[k].name == ext.name && after.accounts[k].account_type == ext.account_type
                && after.accounts[k].current_balance_minor == ext.current_balance_minor,
{
    let a = choose|a: AccountView|
        #![trigger before.accounts.insert(a.id, a)]
        after == (StoreView { accounts: before.accounts.insert(a.id, a), ..before })
            && (before.has_synced(run.connection_id, ext.external_id) ==> before.accounts.contains_key(a.id)
            && synced_as(before.accounts[a.id], run.connection_id, ext.external_id) && a == refreshed(
            before.accounts[a.id],
            ext,
        )) && (!before.has_synced(run.connection_id, ext.external_id) ==> a == fresh_synced(
            a.id,
            run.household_id,
            run.owner,
            run.connection_id,
            ext,
            a.created_at,
        ));
    assert(after.accounts.contains_key(a.id));
}

/// A whole feed, recorded step by step (one page after another), leaves the
/// accounts as they were, keeps every transaction that was already there,
/// and grows the ledger by exactly the number of transactions the run counts
/// as new, provided each counted insertion added a row (a fresh id that
/// collides with a stored transaction's id replaces that row instead).
pub proof fn law_feed_run(trace: Seq<StoreView>, flags: Seq<bool>, run: SyncRunView, feed: Seq<ExtTxnView>)
    requires
        trace.len() == feed.len() + 1,
        flags.len() == feed.len(),
        forall|i: int| 0 <= i < feed.len() ==> #[trigger] txn_step(trace[i], trace[i + 1], run, feed[i], flags[i]),
        forall|i: int| 0 <= i < feed.len() && #[trigger] flags[i] ==> trace[i + 1].txns.dom() != trace[i].txns.dom(),
        trace[0].txns.dom().finite(),
    ensures
        trace.last().accounts == trace[0].accounts,
        forall|k: u128| #[trigger]
            trace[0].txns.contains_key(k) ==> trace.last().txns.contains_key(k) && trace.last().txns[k]
                == trace[0].txns[k],
        trace.last().txns.dom().finite(),
        trace.last().txns.dom().len() == trace[0].txns.dom().len() + count_true(flags),
    decreases feed.len(),
{
    if feed.len() > 0 {
        let n = feed.len() - 1;
        let front = trace.drop_last();
        assert forall|i: int| 0 <= i < n implies #[trigger] txn_step(front[i], front[i + 1], run, feed.drop_last()[i], flags.drop_last()[i]) by {
            assert(txn_step(trace[i], trace[i + 1], run, feed[i], flags[i]));
        }
        assert forall|i: int| 0 <= i < n && #[trigger] flags.drop_last()[i] implies front[i + 1].txns.dom() != front[i].txns.dom() by {
            assert(flags[i]);
        }
        law_feed_run(front, flags.drop_last(), run, feed.drop_last());
        let before = trace[n];
        let after = trace[n + 1];
        assert(front.last() == before);
        assert(txn_step(before, after, run, feed[n], flags[n]));
        law_feed_leaves_balances(before, after, run, feed[n], flags[n]);
        if !(forall|k: u128| !#[trigger] first_synced(before, run.connection_id, feed[n].account_external_id, k)) {
            let (k, tv) = choose|k: u128, tv: TransactionView|
                #![trigger first_synced(before, run.connection_id, feed[n].account_external_id, k), before.is_duplicate(tv)]
                first_synced(before, run.connection_id, feed[n].account_external_id, k)
                    && tv == synced_txn(run, k, feed[n], tv.id, tv.created_at)
                    && flags[n] == !before.is_duplicate(tv)
                    && after == (if flags[n] { before.with_transaction(tv) } else { before });
            if flags[n] {
                assert(after.txns == before.txns.insert(tv.id, tv));
                if before.txns.contains_key(tv.id) {
                    assert(after.txns.dom() =~= before.txns.dom());
                }
                assert(after.txns.dom() =~= before.txns.dom().insert(tv.id));
            }
        }
        assert(flags.drop_last() =~= flags.subrange(0, n));
    }
}

} // verus!
