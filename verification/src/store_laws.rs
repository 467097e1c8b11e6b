//! Properties of the ledger that span several store operations, stated over
//! the abstract store that each operation's contract speaks of.

use vstd::prelude::*;
use crate::models::{Transaction, TransactionView};
use crate::sorted::{has_key, sorted_by, Ranked};
use crate::models::{opt_chars, Timestamp};
use crate::store::{
    key_lt, ledger_key, on_page, patched, session_opened, store_ok, tx_key, without_account, StoreView, TxKey,
    TxPatch,
};
use crate::text::is_token_text;

verus! {

/// Recording a transaction and then deleting it gives back the accounts and
/// the ledger exactly as they were: a delete reverses its create to the cent.
pub proof fn law_delete_undoes_create(s: StoreView, t: TransactionView)
    requires
        !s.txns.contains_key(t.id),
        s.shift_fits(t.account_id, t.amount_minor as int),
    ensures
        ({
            let after = s.with_transaction(t);
            &&& StoreView { accounts: after.shift_balance(t.account_id, -t.amount_minor), ..after }.accounts
                == s.accounts
            &&& after.txns.remove(t.id) == s.txns
        }),
{
    let after = s.with_transaction(t);
    if s.is_manual(t.account_id) {
        assert(after.shift_balance(t.account_id, -t.amount_minor) =~= s.accounts);
    } else {
        assert(after.shift_balance(t.account_id, -t.amount_minor) =~= s.accounts);
    }
    assert(after.txns.remove(t.id) =~= s.txns);
}

/// Two balance moves on one account add up: moving by `x` and then by `y`
/// is moving by `x + y`. An edit that changes an amount therefore leaves the
/// balance where a ledger holding only the new amount would put it.
pub proof fn law_balance_moves_add(s: StoreView, account: u128, x: int, y: int)
    requires
        s.shift_fits(account, x),
        (StoreView { accounts: s.shift_balance(account, x), ..s }).shift_fits(account, y),
    ensures
        (StoreView { accounts: s.shift_balance(account, x), ..s }).shift_balance(account, y)
            == s.shift_balance(account, x + y),
{
    let mid = StoreView { accounts: s.shift_balance(account, x), ..s };
    assert(mid.shift_balance(account, y) =~= s.shift_balance(account, x + y));
}

/// Synced accounts are provider-authoritative: recording a transaction on an
/// account that is not manual leaves every balance untouched.
pub proof fn law_synced_balance_untouched(s: StoreView, t: TransactionView)
    requires
        !s.is_manual(t.account_id),
    ensures
        s.with_transaction(t).accounts == s.accounts,
{
}

/// Synced inserts are idempotent: once a transaction with a provider id is
/// recorded, the same transaction is a duplicate and a second insert is inert.
pub proof fn law_synced_insert_idempotent(s: StoreView, t: TransactionView)
    requires
        t.external_id is Some,
    ensures
        s.with_transaction(t).is_duplicate(t),
{
    let after = s.with_transaction(t);
    assert(after.txns.contains_key(t.id) && after.txns[t.id].account_id == t.account_id
        && after.txns[t.id].external_id == Some(t.external_id->0));
}

/// A webhook event is claimed at most once: after a claim its ledger key is
/// recorded, so every retry of the same event is refused.
pub proof fn law_webhook_claimed_once(s: StoreView, provider: Seq<char>, event_key: Seq<char>)
    ensures
        s.webhook_events.insert(ledger_key(provider, event_key)).contains(
            ledger_key(provider, event_key),
        ),
{
}

/// Only text shaped like a session token (64 lower-case hexadecimal digits)
/// can name a session, so any other text resolves to nothing.
pub proof fn law_malformed_tokens_name_no_session(s: StoreView, token: Seq<char>)
    requires
        store_ok(s),
        !is_token_text(token),
    ensures
        !s.sessions.contains_key(token),
{
}

/// Deleting an account cascades: no transaction of it survives, and every
/// transaction of another account does.
pub proof fn law_delete_cascades(txns: Map<u128, TransactionView>, account: u128)
    ensures
        forall|k: u128| #[trigger]
            without_account(txns, account).contains_key(k) ==> without_account(txns, account)[k].account_id
                != account,
        forall|k: u128| #[trigger]
            txns.contains_key(k) && txns[k].account_id != account ==> without_account(
                txns,
                account,
            ).contains_key(k) && without_account(txns, account)[k] == txns[k],
{
}

/// Cursor pages neither overlap nor skip: with `last` the final key of a
/// page, a transaction sorting strictly below it belongs to the next page's
/// range, and one at or above it does not.
pub proof fn law_pages_partition(
    t: TransactionView,
    household: u128,
    account: Option<u128>,
    last: TxKey,
)
    requires
        t.household_id == household,
        account matches Some(a) ==> t.account_id == a,
    ensures
        on_page(t, household, account, Some(last)) <==> key_lt(tx_key(t), last),
        key_lt(tx_key(t), last) ==> !key_lt(last, tx_key(t)) && tx_key(t) != last,
{
}

/// Following the cursor of a full page walks on without gaps or repeats:
/// where `page` is what `transactions_page` answers for a cursor `before`
/// and is full, every transaction of that range missing from it lies on the
/// next page (the one whose cursor is the key of the page's last
/// transaction), and no transaction of the page lies there.
pub proof fn law_pages_chain(
    s: StoreView,
    page: Seq<Transaction>,
    household: u128,
    account: Option<u128>,
    before: Option<TxKey>,
    limit: nat,
)
    requires
        sorted_by(page),
        page.len() <= limit,
        forall|i: int|
            #![trigger page[i]]
            0 <= i < page.len() ==> s.txns.contains_key(page[i].id) && s.txns[page[i].id] == page[i]@
                && on_page(page[i]@, household, account, before),
        forall|k: u128|
            #[trigger] s.txns.contains_key(k) && on_page(s.txns[k], household, account, before) && !has_key(
                page,
                k,
            ) ==> page.len() == limit && (limit > 0 ==> Transaction::precedes(page.last()@, s.txns[k])),
        page.len() == limit,
        limit > 0,
    ensures
        forall|k: u128|
            #[trigger] s.txns.contains_key(k) && on_page(s.txns[k], household, account, before) && !has_key(
                page,
                k,
            ) ==> on_page(s.txns[k], household, account, Some(tx_key(page.last()@))),
        forall|i: int|
            #![trigger page[i]]
            0 <= i < page.len() ==> !on_page(page[i]@, household, account, Some(tx_key(page.last()@))),
{
    assert forall|i: int| #![trigger page[i]] 0 <= i < page.len() implies !on_page(
        page[i]@,
        household,
        account,
        Some(tx_key(page.last()@)),
    ) by {
        if i < page.len() - 1 {
            assert(Transaction::precedes(page[i]@, page[page.len() - 1]@));
        }
    }
}

/// A session lives exactly its time to live: opened at `now` for `ttl`
/// nanoseconds, it is stored for its user, and at an instant `t` it is still
/// live (a request then resolves it) exactly when less than `ttl` has passed
/// since it was opened.
pub proof fn law_session_lives_for_ttl(
    before: StoreView,
    after: StoreView,
    sess: crate::models::SessionView,
    user: u128,
    ttl: i128,
    now: Timestamp,
    t: Timestamp,
)
    requires
        session_opened(before, after, sess, user, ttl, now),
    ensures
        after.sessions.contains_key(sess.token),
        after.sessions[sess.token].user_id == user,
        t < after.sessions[sess.token].expires_at <==> t - now < ttl,
        ttl > 0 ==> now < after.sessions[sess.token].expires_at,
{
}

/// Editing a transaction sets exactly what the patch sets: each field the
/// patch gives takes the given value, each it leaves out keeps its old one,
/// and what the transaction is (its id, account, household, provider id,
/// source and creation) never changes.
pub proof fn law_patch_sets_fields(t: TransactionView, patch: TxPatch)
    ensures
        ({
            let u = patched(t, patch);
            &&& patch.posted_on matches Some(d) ==> u.posted_on == d
            &&& patch.posted_on is None ==> u.posted_on == t.posted_on
            &&& patch.amount_minor matches Some(a) ==> u.amount_minor == a
            &&& patch.amount_minor is None ==> u.amount_minor == t.amount_minor
            &&& patch.review_state matches Some(r) ==> u.review_state == r
            &&& patch.review_state is None ==> u.review_state == t.review_state
            &&& opt_chars(patch.merchant_raw) matches Some(m) ==> u.merchant_raw == Some(m)
            &&& patch.merchant_raw is None ==> u.merchant_raw == t.merchant_raw
            &&& opt_chars(patch.description) matches Some(m) ==> u.description == Some(m)
            &&& patch.description is None ==> u.description == t.description
            &&& opt_chars(patch.notes) matches Some(m) ==> u.notes == Some(m)
            &&& patch.notes is None ==> u.notes == t.notes
            &&& u.id == t.id && u.account_id == t.account_id && u.household_id == t.household_id
            &&& u.external_id == t.external_id && u.source == t.source
            &&& u.created_by == t.created_by && u.created_at == t.created_at
        }),
{
}

} // verus!
