//! The API's request handling: who may do what to which household, what
//! counts as valid input, and what each request does to the ledger. The HTTP
//! layer decodes requests into the plain values taken here and encodes what
//! comes back.

use std::collections::hash_map::DefaultHasher;
use std::hash::Hasher;
use vstd::prelude::*;
use vstd::std_specs::hash::DefaultHasherAdditionalSpecFns;
use vstd::string::StringSliceAdditionalSpecFns;
use vstd::utf8::encode_utf8;
use crate::aggregate::{agg_err, Provider, Registry};
use crate::auth::{argon2_accepts, hash_password, verify_password};
use crate::error::{ApiError, ApiErrorView};
use crate::ids::{fresh_id, now_nanos, uuid_text, uuid_to_string};
use crate::models::{
    opt_chars, Account, AccountType, AccountView, Connection, ConnectionStatus, ConnectionView, Date,
    Household, MemberStatus, Membership, Role, Session, Transaction, User, UserView, Visibility,
};
use crate::sorted::{has_key, sorted_by, Ranked};
use crate::store::{
    is_item, ledger_key, manual_transaction, new_transaction, on_page, patched, tx_key, tx_key_of,
    store_ok, without_account, MemoryStore, StoreView, TxKey, TxPatch,
};
use crate::table::Record;
use crate::text::{
    chars_of, email_has_valid_shape, email_shape_ok, first_word_or_all, first_word_or_all_of, hex_fixed,
    normalized_email, push_all, push_hex_fixed, str_eq, string_of, trim, trimmed,
};

verus! {

/// Largest magnitude of an amount or opening balance: one trillion dollars,
/// in cents.
pub const MAX_ABS_AMOUNT_MINOR: i64 = 100_000_000_000_000;

/// Page size of a transaction listing when the client names none.
pub const DEFAULT_PAGE: usize = 50;

/// Largest page size of a transaction listing.
pub const MAX_PAGE: usize = 100;

/// Session lifetime: thirty days, in nanoseconds.
pub const SESSION_TTL_NANOS: i128 = 2_592_000_000_000_000;

/// Length of a text in UTF-8 bytes (what `str::len` counts).
pub open spec fn byte_len(s: Seq<char>) -> nat {
    encode_utf8(s).len()
}

/// The UTF-8 length of `s`.
pub fn byte_length(s: &str) -> (n: usize)
    ensures
        n == byte_len(s@),
{
    s.as_bytes().len()
}

/// The request failed with exactly this error.
pub open spec fn fails_with<T>(r: Result<T, ApiError>, e: ApiErrorView) -> bool {
    r matches Err(x) && x@ == e
}

/// Membership guard result for household-scoped requests.
pub struct HouseholdAccess {
    pub role: Role,
}

/// `user` may act in `household` with this role: an active membership.
pub open spec fn access_role(s: StoreView, household: u128, user: u128) -> Option<Role> {
    if s.members.contains_key((household, user)) && s.members[(household, user)].status
        == MemberStatus::Active {
        Some(s.members[(household, user)].role)
    } else {
        None
    }
}

/// `user` may change `household`'s data: an active member that is not an
/// advisor.
pub open spec fn can_write(s: StoreView, household: u128, user: u128) -> bool {
    access_role(s, household, user) matches Some(r) && r != Role::Advisor
}

/// Only active members get in. A missing household and someone else's
/// household are both forbidden, so that no existence leaks.
pub fn require_member(store: &MemoryStore, user: &User, household: u128) -> (r: Result<HouseholdAccess, ApiError>)
    requires
        store.wf(),
    ensures
        match access_role(store@, household, user.id) {
            Some(role) => (r matches Ok(a) && a.role == role),
            None => fails_with(r, ApiErrorView::Forbidden),
        },
{
    match store.membership(household, user.id) {
        Some(m) => {
            if m.status == MemberStatus::Active {
                Ok(HouseholdAccess { role: m.role })
            } else {
                Err(ApiError::Forbidden)
            }
        },
        None => Err(ApiError::Forbidden),
    }
}

/// Writers must be owners or members; advisors are read-only.
pub fn require_writer(access: &HouseholdAccess) -> (r: Result<(), ApiError>)
    ensures
        access.role == Role::Advisor ==> fails_with(r, ApiErrorView::Forbidden),
        access.role != Role::Advisor ==> r is Ok,
{
    if access.role == Role::Advisor {
        Err(ApiError::Forbidden)
    } else {
        Ok(())
    }
}

/// Emails must look like `name@domain.tld`.
pub fn validate_email(email: &str) -> (r: Result<(), ApiError>)
    ensures
        email_shape_ok(email@) ==> r is Ok,
        !email_shape_ok(email@) ==> fails_with(r, ApiErrorView::Validation("email must be name@domain.tld"@)),
{
    if email_has_valid_shape(email) {
        Ok(())
    } else {
        Err(ApiError::validation("email must be name@domain.tld"))
    }
}

/// A currency code: three upper-case ASCII letters.
pub open spec fn currency_ok(s: Seq<char>) -> bool {
    byte_len(s) == 3 && forall|i: int| 0 <= i < s.len() ==> 'A' <= #[trigger] s[i] <= 'Z'
}

pub fn validate_currency(cur: &str) -> (r: Result<(), ApiError>)
    ensures
        currency_ok(cur@) ==> r is Ok,
        !currency_ok(cur@) ==> fails_with(r, ApiErrorView::Validation("currency must be 3 uppercase letters"@)),
{
    let mut ok = byte_length(cur) == 3;
    if ok {
        let n = cur.unicode_len();
        let mut i: usize = 0;
        while i < n
            invariant
                n == cur@.len(),
                i <= n,
                ok == forall|j: int| 0 <= j < i ==> 'A' <= #[trigger] cur@[j] <= 'Z',
            decreases n - i,
        {
            let c = cur.get_char(i);
            ok = ok && 'A' <= c && c <= 'Z';
            i = i + 1;
        }
    }
    if ok {
        Ok(())
    } else {
        Err(ApiError::validation("currency must be 3 uppercase letters"))
    }
}

/// A usable amount: non-zero and at most `MAX_ABS_AMOUNT_MINOR` either way.
pub open spec fn amount_ok(amount: i64) -> bool {
    amount != 0 && -MAX_ABS_AMOUNT_MINOR <= amount <= MAX_ABS_AMOUNT_MINOR
}

/// Amounts are signed (income positive, expense negative), never zero, and
/// bounded by the guard rail.
pub fn validate_amount(amount: i64) -> (r: Result<(), ApiError>)
    ensures
        amount == 0 ==> fails_with(r, ApiErrorView::Validation("amountMinor must be non-zero (income positive, expense negative)"@)),
        amount != 0 && !amount_ok(amount) ==> fails_with(r, ApiErrorView::Validation("amount out of range"@)),
        amount_ok(amount) ==> r is Ok,
{
    if amount == 0 {
        Err(ApiError::validation("amountMinor must be non-zero (income positive, expense negative)"))
    } else if amount < -MAX_ABS_AMOUNT_MINOR || amount > MAX_ABS_AMOUNT_MINOR {
        Err(ApiError::validation("amount out of range"))
    } else {
        Ok(())
    }
}

/// A display or account name: 1 to 120 bytes once trimmed.
pub open spec fn name_ok(s: Seq<char>) -> bool {
    trimmed(s).len() > 0 && byte_len(trimmed(s)) <= 120
}

/// The trimmed name, where it is 1 to 120 bytes long.
fn checked_name(name: &str) -> (r: Option<String>)
    ensures
        name_ok(name@) ==> (r matches Some(t) && t@ == trimmed(name@)),
        !name_ok(name@) ==> r is None,
{
    let t = trim(name);
    if byte_length(t.as_str()) == 0 || byte_length(t.as_str()) > 120 {
        proof {
            if t@.len() > 0 {
                vstd::utf8::encode_utf8_first_scalar(t@);
            }
        }
        None
    } else {
        proof {
            if t@.len() == 0 {
                assert(encode_utf8(t@) =~= Seq::<u8>::empty()) by {
                    reveal_with_fuel(encode_utf8, 1);
                }
            }
        }
        Some(t)
    }
}

/// A signup request.
pub struct SignupReq {
    pub email: String,
    pub password: String,
    pub display_name: String,
}

/// Checks a signup: the email's shape, a password of at least 8 bytes, a
/// display name of 1 to 120 bytes once trimmed; the first failure is reported.
pub fn validate_signup(req: &SignupReq) -> (r: Result<(), ApiError>)
    ensures
        !email_shape_ok(req.email@) ==> fails_with(r, ApiErrorView::Validation("email must be name@domain.tld"@)),
        email_shape_ok(req.email@) && byte_len(req.password@) < 8 ==> fails_with(r, ApiErrorView::Validation("password must be at least 8 characters"@)),
        email_shape_ok(req.email@) && byte_len(req.password@) >= 8 && !name_ok(req.display_name@)
            ==> fails_with(r, ApiErrorView::Validation("displayName must be 1–120 characters"@)),
        email_shape_ok(req.email@) && byte_len(req.password@) >= 8 && name_ok(req.display_name@)
            ==> r is Ok,
{
    match validate_email(req.email.as_str()) {
        Ok(()) => {},
        Err(e) => return Err(e),
    }
    if byte_length(req.password.as_str()) < 8 {
        return Err(ApiError::validation("password must be at least 8 characters"));
    }
    match checked_name(req.display_name.as_str()) {
        Some(_) => Ok(()),
        None => Err(ApiError::validation("displayName must be 1–120 characters")),
    }
}


/// The token of an `Authorization` header value `Bearer <token>`.
pub open spec fn bearer_of(h: Seq<char>) -> Option<Seq<char>> {
    if h.len() >= 7 && h.take(7) == "Bearer "@ {
        Some(h.skip(7))
    } else {
        None
    }
}

/// The token of an `Authorization` header value, if it is a bearer one.
pub fn bearer_token(header: &str) -> (r: Option<String>)
    ensures
        opt_chars(r) == bearer_of(header@),
{
    let v = chars_of(header);
    proof {
        reveal_strlit("Bearer ");
    }
    if v.len() < 7 {
        return None;
    }
    let prefix = string_of(&v, 0, 7);
    let expected = "Bearer ".to_owned();
    proof {
        assert(v@.subrange(0, 7) =~= header@.take(7));
    }
    if prefix == expected {
        let rest = string_of(&v, 7, v.len());
        proof {
            assert(v@.subrange(7, v@.len() as int) =~= header@.skip(7));
        }
        Some(rest)
    } else {
        None
    }
}

/// Who is calling: the user of the live session named by the header's
/// bearer token (surrounding whitespace ignored). An expired session is
/// dropped on the way; anything else leaves the store alone.
pub fn authenticate(store: &mut MemoryStore, header: Option<&str>) -> (r: Result<User, ApiError>)
    requires
        old(store).wf(),
    ensures
        final(store).wf(),
        r is Err ==> fails_with(r, ApiErrorView::Unauthorized),
        match header {
            None => r is Err && final(store)@ == old(store)@,
            Some(h) => match bearer_of(h@) {
                None => r is Err && final(store)@ == old(store)@,
                Some(tok) => {
                    let key = trimmed(tok);
                    &&& !old(store)@.sessions.contains_key(key) ==> r is Err && final(store)@ == old(store)@
                    &&& old(store)@.sessions.contains_key(key) ==> {
                        let sess = old(store)@.sessions[key];
                        ||| r is Err && final(store)@ == (StoreView {
                            sessions: old(store)@.sessions.remove(key),
                            ..old(store)@
                        })
                        ||| final(store)@ == old(store)@ && match r {
                            Ok(u) => old(store)@.users.contains_key(sess.user_id) && u@ == old(
                                store,
                            )@.users[sess.user_id].user,
                            Err(_) => !old(store)@.users.contains_key(sess.user_id),
                        }
                    }
                },
            },
        },
{
    let h = match header {
        Some(h) => h,
        None => return Err(ApiError::Unauthorized),
    };
    let tok = match bearer_token(h) {
        Some(t) => t,
        None => return Err(ApiError::Unauthorized),
    };
    let key = trim(tok.as_str());
    match store.resolve_session(key.as_str()) {
        Some(u) => Ok(u),
        None => Err(ApiError::Unauthorized),
    }
}

/// What a successful signup hands back.
pub struct SignupOk {
    pub session: Session,
    pub user: User,
    pub household: Household,
}

/// The first failing check of a signup, as its error.
pub open spec fn signup_problem(email: Seq<char>, password: Seq<char>, display_name: Seq<char>) -> Option<
    ApiErrorView,
> {
    if !email_shape_ok(email) {
        Some(ApiErrorView::Validation("email must be name@domain.tld"@))
    } else if byte_len(password) < 8 {
        Some(ApiErrorView::Validation("password must be at least 8 characters"@))
    } else if !name_ok(display_name) {
        Some(ApiErrorView::Validation("displayName must be 1–120 characters"@))
    } else {
        None
    }
}

/// The starter household's name: `"{first word of the name}'s Household"`.
pub open spec fn starter_household_name(display_name: Seq<char>) -> Seq<char> {
    first_word_or_all(display_name) + "'s Household"@
}

/// Registers a user (email normalized, display name trimmed), creates their
/// starter household with them as owner, and opens a session.
pub fn signup(store: &mut MemoryStore, req: SignupReq) -> (r: Result<SignupOk, ApiError>)
    requires
        old(store).wf(),
    ensures
        final(store).wf(),
        signup_problem(req.email@, req.password@, req.display_name@) matches Some(e) ==> fails_with(r, e)
            && final(store)@ == old(store)@,
        signup_problem(req.email@, req.password@, req.display_name@) is None && byte_len(req.password@)
            > 0xFFFF_FFFF ==> fails_with(r, ApiErrorView::Internal) && final(store)@ == old(store)@,
        signup_problem(req.email@, req.password@, req.display_name@) is None && old(store)@.email_taken(
            normalized_email(req.email@),
        ) ==> (fails_with(r, ApiErrorView::Conflict("email already registered"@)) || fails_with(
            r,
            ApiErrorView::Internal,
        )) && final(store)@ == old(store)@,
        signup_problem(req.email@, req.password@, req.display_name@) is None && byte_len(req.password@)
            <= 0xFFFF_FFFF && !old(store)@.email_taken(normalized_email(req.email@)) ==> r is Ok
            || fails_with(r, ApiErrorView::Internal),
        r matches Ok(ok) ==> {
            let name = trimmed(req.display_name@);
            let hh = ok.household@;
            &&& signup_problem(req.email@, req.password@, req.display_name@) is None
            &&& !old(store)@.email_taken(normalized_email(req.email@))
            &&& ok.user@ == (UserView {
                id: ok.user.id,
                email: normalized_email(req.email@),
                display_name: name,
                created_at: ok.user.created_at,
            })
            &&& hh.name == starter_household_name(name) && hh.currency == "USD"@
            &&& ok.session.user_id == ok.user.id
            &&& final(store)@.users.contains_key(ok.user.id)
            &&& final(store)@.users[ok.user.id].user == ok.user@
            &&& argon2_accepts(req.password@, final(store)@.users[ok.user.id].password_hash)
            &&& final(store)@.households.contains_key(hh.id) && final(store)@.households[hh.id] == hh
            &&& final(store)@.is_owner(hh.id, ok.user.id)
            &&& final(store)@.sessions.contains_key(ok.session.token@)
            &&& final(store)@.sessions[ok.session.token@] == ok.session@
        },
{
    match validate_signup(&req) {
        Ok(()) => {},
        Err(e) => return Err(e),
    }
    let hash = match hash_password(req.password.as_str()) {
        Ok(h) => h,
        Err(e) => return Err(e),
    };
    let ghost hv = hash@;
    let display_name = trim(req.display_name.as_str());
    let user = match store.create_user(req.email.as_str(), hash, display_name.clone()) {
        Ok(u) => u,
        Err(e) => return Err(ApiError::from_store(e)),
    };
    let ghost after_user = store@;
    let mut household_name = first_word_or_all_of(display_name.as_str());
    push_all(&mut household_name, "'s Household");
    let household = match store.create_household(household_name, "USD", user.id) {
        Some(h) => h,
        None => return Err(ApiError::Internal),
    };
    let ghost after_household = store@;
    let session = match store.create_session(user.id, SESSION_TTL_NANOS) {
        Some(s) => s,
        None => return Err(ApiError::Internal),
    };
    proof {
        assert(after_user.users[user.id].password_hash == hv);
        assert(store@.users == after_user.users);
        assert(store@.households == after_household.households);
        assert(store@.members == after_household.members);
    }
    Ok(SignupOk { session, user, household })
}

/// A login request.
pub struct LoginReq {
    pub email: String,
    pub password: String,
}

/// The user registered under an email (emails are unique).
pub open spec fn user_with_email(s: StoreView, email: Seq<char>) -> u128 {
    choose|id: u128| #[trigger] s.users.contains_key(id) && s.users[id].user.email == email
}

/// Signs in: the password must verify against the stored hash of the user
/// registered under the (normalized) email; a fresh session is opened.
pub fn login(store: &mut MemoryStore, req: LoginReq) -> (r: Result<(Session, User), ApiError>)
    requires
        old(store).wf(),
    ensures
        final(store).wf(),
        ({
            let email = normalized_email(req.email@);
            let k = user_with_email(old(store)@, email);
            let ok = old(store)@.email_taken(email) && argon2_accepts(
                req.password@,
                old(store)@.users[k].password_hash,
            );
            &&& !ok ==> fails_with(r, ApiErrorView::Unauthorized) && final(store)@ == old(store)@
            &&& ok ==> fails_with(r, ApiErrorView::Internal) && final(store)@ == old(store)@
                || r is Ok
            &&& r matches Ok((sess, u)) ==> ok && u@ == old(store)@.users[k].user && sess.user_id == k
                && final(store)@ == (StoreView {
                sessions: old(store)@.sessions.insert(sess.token@, sess@),
                ..old(store)@
            })
        }),
{
    let ghost email = normalized_email(req.email@);
    proof {
        old(store).lemma_wf();
    }
    let stored = store.user_by_email(req.email.as_str());
    let valid = match &stored {
        Some(su) => verify_password(req.password.as_str(), su.password_hash.as_str()),
        None => {
            let _ = hash_password(req.password.as_str());
            false
        },
    };
    proof {
        if stored is Some {
            let su = stored->0;
            let k = user_with_email(store@, email);
            assert(store@.users.contains_key(su.user.id) && store@.users[su.user.id].user.email == email);
            assert(store@.users.contains_key(k) && store@.users[k].user.email == email);
            assert(k == su.user.id);
        }
    }
    if !valid {
        return Err(ApiError::Unauthorized);
    }
    let su = stored.unwrap();
    match store.create_session(su.user.id, SESSION_TTL_NANOS) {
        Some(sess) => Ok((sess, su.user)),
        None => Err(ApiError::Internal),
    }
}

/// Signs out: the caller must be authenticated; the session named by the
/// header's bearer token is ended.
pub fn logout(store: &mut MemoryStore, header: Option<&str>) -> (r: Result<(), ApiError>)
    requires
        old(store).wf(),
    ensures
        final(store).wf(),
        r is Err ==> fails_with(r, ApiErrorView::Unauthorized),
        r is Ok ==> (header matches Some(h) && bearer_of(h@) matches Some(tok) && final(store)@ == (
        StoreView { sessions: old(store)@.sessions.remove(tok), ..old(store)@ })),
{
    let ghost s0 = store@;
    match authenticate(store, header) {
        Ok(_) => {},
        Err(e) => return Err(e),
    }
    let h = header.unwrap();
    let tok = bearer_token(h).unwrap();
    store.delete_session(tok.as_str());
    Ok(())
}

/// A request to create a household.
pub struct CreateHouseholdReq {
    pub name: String,
}

/// Creates a household owned by the caller; its name must be 1 to 120
/// bytes once trimmed.
pub fn create_household(store: &mut MemoryStore, user: &User, req: &CreateHouseholdReq) -> (r: Result<
    Household,
    ApiError,
>)
    requires
        old(store).wf(),
    ensures
        final(store).wf(),
        !name_ok(req.name@) ==> fails_with(r, ApiErrorView::Validation("name must be 1–120 characters"@))
            && final(store)@ == old(store)@,
        name_ok(req.name@) ==> (fails_with(r, ApiErrorView::Internal) && final(store)@ == old(store)@) || (r matches Ok(hh) && hh.name@ == trimmed(req.name@) && hh.currency@ == "USD"@
            && final(store)@ == (StoreView {
            households: old(store)@.households.insert(hh.id, hh@),
            members: old(store)@.members.insert(
                (hh.id, user.id),
                Membership {
                    household_id: hh.id,
                    user_id: user.id,
                    role: Role::Owner,
                    status: MemberStatus::Active,
                    created_at: final(store)@.members[(hh.id, user.id)].created_at,
                },
            ),
            ..old(store)@
        })),
{
    match checked_name(req.name.as_str()) {
        Some(t) => match store.create_household(t, "USD", user.id) {
            Some(h) => Ok(h),
            None => Err(ApiError::Internal),
        },
        None => Err(ApiError::validation("name must be 1–120 characters")),
    }
}


/// A request to open a manual account.
pub struct CreateAccountReq {
    pub household_id: u128,
    pub account_type: AccountType,
    pub name: String,
    pub currency: Option<String>,
    pub current_balance_minor: Option<i64>,
    pub visibility: Option<Visibility>,
}

/// The currency an account request asks for, `USD` by default.
pub open spec fn requested_currency(c: Option<String>) -> Seq<char> {
    match c {
        Some(s) => s@,
        None => "USD"@,
    }
}

/// The opening balance an account request asks for, zero by default.
pub open spec fn requested_balance(b: Option<i64>) -> i64 {
    match b {
        Some(v) => v,
        None => 0,
    }
}

/// The first failing check of an account request, as its error.
pub open spec fn create_account_problem(s: StoreView, user: u128, req: CreateAccountReq) -> Option<ApiErrorView> {
    let balance = requested_balance(req.current_balance_minor);
    if access_role(s, req.household_id, user) is None {
        Some(ApiErrorView::Forbidden)
    } else if access_role(s, req.household_id, user) == Some(Role::Advisor) {
        Some(ApiErrorView::Forbidden)
    } else if !name_ok(req.name@) {
        Some(ApiErrorView::Validation("name must be 1–120 characters"@))
    } else if !currency_ok(requested_currency(req.currency)) {
        Some(ApiErrorView::Validation("currency must be 3 uppercase letters"@))
    } else if balance < -MAX_ABS_AMOUNT_MINOR || balance > MAX_ABS_AMOUNT_MINOR {
        Some(ApiErrorView::Validation("balance out of range"@))
    } else if req.account_type.spec_is_liability() && balance > 0 {
        Some(
            ApiErrorView::Validation(
                "liability balances must be zero or negative (you owe less than the limit)"@,
            ),
        )
    } else if !s.households.contains_key(req.household_id) {
        Some(ApiErrorView::NotFound)
    } else {
        None
    }
}

/// Opens a manual account in a household the caller may write to. Names are
/// trimmed; debt accounts cannot open with a positive balance.
pub fn create_account(store: &mut MemoryStore, user: &User, req: CreateAccountReq) -> (r: Result<Account, ApiError>)
    requires
        old(store).wf(),
    ensures
        final(store).wf(),
        create_account_problem(old(store)@, user.id, req) matches Some(e) ==> fails_with(r, e)
            && final(store)@ == old(store)@,
        create_account_problem(old(store)@, user.id, req) is None ==> (fails_with(r, ApiErrorView::Internal)
            && final(store)@ == old(store)@) || (r matches Ok(a) && a@ == (AccountView {
            id: a.id,
            household_id: req.household_id,
            connection_id: None,
            external_id: None,
            created_by: user.id,
            account_type: req.account_type,
            name: trimmed(req.name@),
            currency: requested_currency(req.currency),
            current_balance_minor: requested_balance(req.current_balance_minor),
            visibility: match req.visibility {
                Some(v) => v,
                None => Visibility::AllMembers,
            },
            created_at: a.created_at,
        }) && final(store)@ == (StoreView { accounts: old(store)@.accounts.insert(a.id, a@), ..old(store)@ })),
{
    let access = match require_member(store, user, req.household_id) {
        Ok(a) => a,
        Err(e) => return Err(e),
    };
    match require_writer(&access) {
        Ok(()) => {},
        Err(e) => return Err(e),
    }
    let name = match checked_name(req.name.as_str()) {
        Some(t) => t,
        None => return Err(ApiError::validation("name must be 1–120 characters")),
    };
    let currency = match req.currency {
        Some(c) => c,
        None => "USD".to_owned(),
    };
    match validate_currency(currency.as_str()) {
        Ok(()) => {},
        Err(e) => return Err(e),
    }
    let balance = match req.current_balance_minor {
        Some(b) => b,
        None => 0,
    };
    if balance < -MAX_ABS_AMOUNT_MINOR || balance > MAX_ABS_AMOUNT_MINOR {
        return Err(ApiError::validation("balance out of range"));
    }
    if req.account_type.is_liability() && balance > 0 {
        return Err(ApiError::validation(
            "liability balances must be zero or negative (you owe less than the limit)",
        ));
    }
    proof {
        store.lemma_wf();
        if access_role(store@, req.household_id, user.id) is Some {
            assert(store@.members.contains_key((req.household_id, user.id)));
            assert(store@.households.contains_key(req.household_id));
        }
    }
    let id = match fresh_id() {
        Some(id) => id,
        None => return Err(ApiError::Internal),
    };
    let account = Account {
        id,
        household_id: req.household_id,
        connection_id: None,
        external_id: None,
        created_by: user.id,
        account_type: req.account_type,
        name,
        currency,
        current_balance_minor: balance,
        visibility: match req.visibility {
            Some(v) => v,
            None => Visibility::AllMembers,
        },
        created_at: now_nanos(),
    };
    match store.insert_account(account) {
        Ok(a) => Ok(a),
        Err(e) => Err(ApiError::from_store(e)),
    }
}

/// The accounts of a household that the caller, an active member, may see.
pub fn list_accounts(store: &MemoryStore, user: &User, household: u128) -> (r: Result<Vec<Account>, ApiError>)
    requires
        store.wf(),
    ensures
        access_role(store@, household, user.id) is None ==> fails_with(r, ApiErrorView::Forbidden),
        access_role(store@, household, user.id) is Some ==> (r matches Ok(v) && sorted_by(v@) && (forall|i: int|
            #![trigger v@[i]]
            0 <= i < v@.len() ==> store@.accounts.contains_key(v@[i].id) && store@.accounts[v@[i].id]
                == v@[i]@ && v@[i].household_id == household && store@.can_view(v@[i]@, user.id)) && (
        forall|k: u128|
            #[trigger] store@.accounts.contains_key(k) && store@.accounts[k].household_id == household
                && store@.can_view(store@.accounts[k], user.id) ==> has_key(v@, k))),
{
    match require_member(store, user, household) {
        Ok(_) => {},
        Err(e) => return Err(e),
    }
    Ok(store.accounts_for_household(household, user.id))
}

/// The first failing check of loading an account for the caller.
pub open spec fn account_problem(s: StoreView, user: u128, id: u128) -> Option<ApiErrorView> {
    if !s.accounts.contains_key(id) {
        Some(ApiErrorView::NotFound)
    } else if access_role(s, s.accounts[id].household_id, user) is None {
        Some(ApiErrorView::Forbidden)
    } else if !s.can_view(s.accounts[id], user) {
        Some(ApiErrorView::NotFound)
    } else {
        None
    }
}

/// Loads an account for the caller: they must be an active member of its
/// household, and an account they may not see looks like a missing one.
pub fn authorized_account(store: &MemoryStore, user: &User, id: u128) -> (r: Result<Account, ApiError>)
    requires
        store.wf(),
    ensures
        account_problem(store@, user.id, id) matches Some(e) ==> fails_with(r, e),
        account_problem(store@, user.id, id) is None ==> (r matches Ok(a) && a@ == store@.accounts[id]),
{
    let account = match store.get_account(id) {
        Some(a) => a,
        None => return Err(ApiError::NotFound),
    };
    match require_member(store, user, account.household_id) {
        Ok(_) => {},
        Err(e) => return Err(e),
    }
    if !store.can_view_account(&account, user.id) {
        return Err(ApiError::NotFound);
    }
    Ok(account)
}

/// Fields a client may change on an account.
pub struct PatchAccountReq {
    pub name: Option<String>,
    pub visibility: Option<Visibility>,
}

/// The first failing check of changing an account.
pub open spec fn patch_account_problem(s: StoreView, user: u128, id: u128, name: Option<String>) -> Option<
    ApiErrorView,
> {
    if account_problem(s, user, id) is Some {
        account_problem(s, user, id)
    } else if !can_write(s, s.accounts[id].household_id, user) {
        Some(ApiErrorView::Forbidden)
    } else if name matches Some(n) && !name_ok(n@) {
        Some(ApiErrorView::Validation("name must be 1–120 characters"@))
    } else {
        None
    }
}

/// Renames and/or re-scopes an account the caller may see and write to.
pub fn patch_account(store: &mut MemoryStore, user: &User, id: u128, req: PatchAccountReq) -> (r: Result<
    Account,
    ApiError,
>)
    requires
        old(store).wf(),
    ensures
        final(store).wf(),
        patch_account_problem(old(store)@, user.id, id, req.name) matches Some(e) ==> fails_with(r, e)
            && final(store)@ == old(store)@,
        patch_account_problem(old(store)@, user.id, id, req.name) is None ==> (r matches Ok(a) && a@ == (
        AccountView {
            name: match opt_chars(req.name) {
                Some(n) => n,
                None => old(store)@.accounts[id].name,
            },
            visibility: match req.visibility {
                Some(v) => v,
                None => old(store)@.accounts[id].visibility,
            },
            ..old(store)@.accounts[id]
        }) && final(store)@ == (StoreView { accounts: old(store)@.accounts.insert(id, a@), ..old(store)@ })),
{
    let existing = match authorized_account(store, user, id) {
        Ok(a) => a,
        Err(e) => return Err(e),
    };
    let access = match require_member(store, user, existing.household_id) {
        Ok(a) => a,
        Err(e) => return Err(e),
    };
    match require_writer(&access) {
        Ok(()) => {},
        Err(e) => return Err(e),
    }
    match &req.name {
        Some(n) => {
            if checked_name(n.as_str()).is_none() {
                return Err(ApiError::validation("name must be 1–120 characters"));
            }
        },
        None => {},
    }
    match store.update_account(id, req.name, req.visibility) {
        Ok(a) => Ok(a),
        Err(e) => Err(ApiError::from_store(e)),
    }
}

/// Deletes an account the caller may see and write to, with every
/// transaction posted to it.
pub fn delete_account(store: &mut MemoryStore, user: &User, id: u128) -> (r: Result<(), ApiError>)
    requires
        old(store).wf(),
    ensures
        final(store).wf(),
        patch_account_problem(old(store)@, user.id, id, None) matches Some(e) ==> fails_with(r, e)
            && final(store)@ == old(store)@,
        patch_account_problem(old(store)@, user.id, id, None) is None ==> r is Ok && final(store)@ == (
        StoreView {
            accounts: old(store)@.accounts.remove(id),
            txns: without_account(old(store)@.txns, id),
            ..old(store)@
        }),
{
    let existing = match authorized_account(store, user, id) {
        Ok(a) => a,
        Err(e) => return Err(e),
    };
    let access = match require_member(store, user, existing.household_id) {
        Ok(a) => a,
        Err(e) => return Err(e),
    };
    match require_writer(&access) {
        Ok(()) => {},
        Err(e) => return Err(e),
    }
    match store.delete_account(id) {
        Ok(()) => Ok(()),
        Err(e) => Err(ApiError::from_store(e)),
    }
}


/// A request to record a manual transaction.
pub struct CreateTransactionReq {
    pub account_id: u128,
    pub posted_on: Date,
    pub amount_minor: i64,
    pub merchant_raw: Option<String>,
    pub description: Option<String>,
}

/// The first failing check of recording a transaction.
pub open spec fn create_transaction_problem(s: StoreView, user: u128, account: u128, amount: i64) -> Option<
    ApiErrorView,
> {
    if amount == 0 {
        Some(ApiErrorView::Validation("amountMinor must be non-zero (income positive, expense negative)"@))
    } else if !amount_ok(amount) {
        Some(ApiErrorView::Validation("amount out of range"@))
    } else {
        patch_account_problem(s, user, account, None)
    }
}

/// Records a manual transaction on an account the caller may see and write
/// to; a manual account's balance moves by the amount.
pub fn create_transaction(store: &mut MemoryStore, user: &User, req: CreateTransactionReq) -> (r: Result<
    Transaction,
    ApiError,
>)
    requires
        old(store).wf(),
        create_transaction_problem(old(store)@, user.id, req.account_id, req.amount_minor) is None
            ==> old(store)@.shift_fits(req.account_id, req.amount_minor as int),
    ensures
        final(store).wf(),
        create_transaction_problem(old(store)@, user.id, req.account_id, req.amount_minor) matches Some(e)
            ==> fails_with(r, e) && final(store)@ == old(store)@,
        create_transaction_problem(old(store)@, user.id, req.account_id, req.amount_minor) is None ==> (
        fails_with(r, ApiErrorView::Internal) && final(store)@ == old(store)@) || (
        r matches Ok(t) && t@ == manual_transaction(
            t.id,
            old(store)@.accounts[req.account_id].household_id,
            req.account_id,
            user.id,
            req.posted_on,
            req.amount_minor,
            opt_chars(req.merchant_raw),
            opt_chars(req.description),
            t.created_at,
        ) && final(store)@ == old(store)@.with_transaction(t@)),
{
    match validate_amount(req.amount_minor) {
        Ok(()) => {},
        Err(e) => return Err(e),
    }
    let account = match authorized_account(store, user, req.account_id) {
        Ok(a) => a,
        Err(e) => return Err(e),
    };
    let access = match require_member(store, user, account.household_id) {
        Ok(a) => a,
        Err(e) => return Err(e),
    };
    match require_writer(&access) {
        Ok(()) => {},
        Err(e) => return Err(e),
    }
    proof {
        store.lemma_wf();
        assert(account.id == req.account_id);
    }
    let txn = new_transaction(
        account.household_id,
        account.id,
        user.id,
        req.posted_on,
        req.amount_minor,
        req.merchant_raw,
        req.description,
    );
    let txn = match txn {
        Some(t) => t,
        None => return Err(ApiError::Internal),
    };
    match store.create_transaction(txn) {
        Ok(t) => Ok(t),
        Err(e) => Err(ApiError::from_store(e)),
    }
}

/// A listing request: one household, optionally one account, resuming
/// strictly after the cursor key `before`.
pub struct ListTxQuery {
    pub household_id: u128,
    pub account_id: Option<u128>,
    pub before: Option<TxKey>,
    pub limit: Option<usize>,
}

/// A page of transactions and, when the page is full, the key to resume
/// after.
pub struct TxPage {
    pub transactions: Vec<Transaction>,
    pub next_before: Option<TxKey>,
}

/// The page size a listing gets: 50 by default, clamped to 1..=100.
pub open spec fn page_limit(limit: Option<usize>) -> usize {
    let l = match limit {
        Some(l) => l,
        None => DEFAULT_PAGE,
    };
    if l < 1 { 1 } else if l > MAX_PAGE { MAX_PAGE } else { l }
}

/// The first failing check of a listing.
pub open spec fn list_problem(s: StoreView, user: u128, q: ListTxQuery) -> Option<ApiErrorView> {
    if access_role(s, q.household_id, user) is None {
        Some(ApiErrorView::Forbidden)
    } else if q.account_id matches Some(a) && account_problem(s, user, a) is Some {
        account_problem(s, user, q.account_id->0)
    } else {
        None
    }
}

/// A newest-first page of a household's transactions (optionally one
/// account's, which the caller must be able to see). A full page carries the
/// key of its last transaction, for strict continuation.
pub fn list_transactions(store: &MemoryStore, user: &User, q: ListTxQuery) -> (r: Result<TxPage, ApiError>)
    requires
        store.wf(),
    ensures
        list_problem(store@, user.id, q) matches Some(e) ==> fails_with(r, e),
        list_problem(store@, user.id, q) is None ==> (r matches Ok(p) && {
            let txns = p.transactions@;
            let limit = page_limit(q.limit);
            &&& sorted_by(txns)
            &&& txns.len() <= limit
            &&& forall|i: int|
                #![trigger txns[i]]
                0 <= i < txns.len() ==> store@.txns.contains_key(txns[i].id) && store@.txns[txns[i].id]
                    == txns[i]@ && on_page(txns[i]@, q.household_id, q.account_id, q.before)
            &&& forall|k: u128|
                #[trigger] store@.txns.contains_key(k) && on_page(
                    store@.txns[k],
                    q.household_id,
                    q.account_id,
                    q.before,
                ) && !has_key(txns, k) ==> txns.len() == limit && Transaction::precedes(
                    txns.last()@,
                    store@.txns[k],
                )
            &&& p.next_before == (if txns.len() == limit { Some(tx_key(txns.last()@)) } else { None })
        }),
{
    match require_member(store, user, q.household_id) {
        Ok(_) => {},
        Err(e) => return Err(e),
    }
    match q.account_id {
        Some(a) => match authorized_account(store, user, a) {
            Ok(_) => {},
            Err(e) => return Err(e),
        },
        None => {},
    }
    let requested = match q.limit {
        Some(l) => l,
        None => DEFAULT_PAGE,
    };
    let limit = if requested < 1 {
        1
    } else if requested > MAX_PAGE {
        MAX_PAGE
    } else {
        requested
    };
    let txns = store.transactions_page(q.household_id, q.account_id, q.before, limit);
    let next_before = if txns.len() == limit {
        Some(tx_key_of(&txns[txns.len() - 1]))
    } else {
        None
    };
    Ok(TxPage { transactions: txns, next_before })
}

/// The first failing check of loading a transaction for the caller.
pub open spec fn txn_problem(s: StoreView, user: u128, id: u128) -> Option<ApiErrorView> {
    if !s.txns.contains_key(id) {
        Some(ApiErrorView::NotFound)
    } else if access_role(s, s.txns[id].household_id, user) is None {
        Some(ApiErrorView::Forbidden)
    } else {
        None
    }
}

/// Loads a transaction for an active member of its household.
pub fn authorized_transaction(store: &MemoryStore, user: &User, id: u128) -> (r: Result<Transaction, ApiError>)
    requires
        store.wf(),
    ensures
        txn_problem(store@, user.id, id) matches Some(e) ==> fails_with(r, e),
        txn_problem(store@, user.id, id) is None ==> (r matches Ok(t) && t@ == store@.txns[id]),
{
    let txn = match store.get_transaction(id) {
        Some(t) => t,
        None => return Err(ApiError::NotFound),
    };
    match require_member(store, user, txn.household_id) {
        Ok(_) => {},
        Err(e) => return Err(e),
    }
    Ok(txn)
}

/// The first failing check of changing a transaction.
pub open spec fn patch_txn_problem(s: StoreView, user: u128, id: u128, amount: Option<i64>) -> Option<
    ApiErrorView,
> {
    if txn_problem(s, user, id) is Some {
        txn_problem(s, user, id)
    } else if !can_write(s, s.txns[id].household_id, user) {
        Some(ApiErrorView::Forbidden)
    } else if amount matches Some(a) && a == 0 {
        Some(ApiErrorView::Validation("amountMinor must be non-zero (income positive, expense negative)"@))
    } else if amount matches Some(a) && !amount_ok(a) {
        Some(ApiErrorView::Validation("amount out of range"@))
    } else {
        None
    }
}

/// Patches a transaction the caller may write to; an amount change moves a
/// manual account's balance by the difference.
pub fn patch_transaction(store: &mut MemoryStore, user: &User, id: u128, patch: TxPatch) -> (r: Result<
    Transaction,
    ApiError,
>)
    requires
        old(store).wf(),
        patch_txn_problem(old(store)@, user.id, id, patch.amount_minor) is None ==> {
            let t = old(store)@.txns[id];
            let delta = patched(t, patch).amount_minor - t.amount_minor;
            &&& i64::MIN <= delta <= i64::MAX
            &&& old(store)@.shift_fits(t.account_id, delta)
        },
    ensures
        final(store).wf(),
        patch_txn_problem(old(store)@, user.id, id, patch.amount_minor) matches Some(e) ==> fails_with(r, e)
            && final(store)@ == old(store)@,
        patch_txn_problem(old(store)@, user.id, id, patch.amount_minor) is None ==> {
            let t = old(store)@.txns[id];
            let u = patched(t, patch);
            &&& r matches Ok(x) && x@ == u
            &&& final(store)@ == (StoreView {
                accounts: old(store)@.shift_balance(t.account_id, u.amount_minor - t.amount_minor),
                txns: old(store)@.txns.insert(id, u),
                ..old(store)@
            })
        },
{
    let existing = match authorized_transaction(store, user, id) {
        Ok(t) => t,
        Err(e) => return Err(e),
    };
    let access = match require_member(store, user, existing.household_id) {
        Ok(a) => a,
        Err(e) => return Err(e),
    };
    match require_writer(&access) {
        Ok(()) => {},
        Err(e) => return Err(e),
    }
    match patch.amount_minor {
        Some(a) => match validate_amount(a) {
            Ok(()) => {},
            Err(e) => return Err(e),
        },
        None => {},
    }
    match store.update_transaction(id, patch) {
        Ok(t) => Ok(t),
        Err(e) => Err(ApiError::from_store(e)),
    }
}

/// Deletes a transaction the caller may write to, reversing its effect on a
/// manual account's balance.
pub fn delete_transaction(store: &mut MemoryStore, user: &User, id: u128) -> (r: Result<(), ApiError>)
    requires
        old(store).wf(),
        patch_txn_problem(old(store)@, user.id, id, None) is None ==> old(store)@.shift_fits(
            old(store)@.txns[id].account_id,
            -old(store)@.txns[id].amount_minor,
        ),
    ensures
        final(store).wf(),
        patch_txn_problem(old(store)@, user.id, id, None) matches Some(e) ==> fails_with(r, e)
            && final(store)@ == old(store)@,
        patch_txn_problem(old(store)@, user.id, id, None) is None ==> {
            let t = old(store)@.txns[id];
            &&& r is Ok
            &&& final(store)@ == (StoreView {
                accounts: old(store)@.shift_balance(t.account_id, -t.amount_minor),
                txns: old(store)@.txns.remove(id),
                ..old(store)@
            })
        },
{
    let existing = match authorized_transaction(store, user, id) {
        Ok(t) => t,
        Err(e) => return Err(e),
    };
    let access = match require_member(store, user, existing.household_id) {
        Ok(a) => a,
        Err(e) => return Err(e),
    };
    match require_writer(&access) {
        Ok(()) => {},
        Err(e) => return Err(e),
    }
    match store.delete_transaction(id) {
        Ok(()) => Ok(()),
        Err(e) => Err(ApiError::from_store(e)),
    }
}


/// A connection as first created: pending, with no credential, item,
/// cursor or institution yet.
pub open spec fn pending_connection(id: u128, household: u128, provider: Seq<char>, created_at: i128) -> ConnectionView {
    ConnectionView {
        id,
        household_id: household,
        provider,
        external_item_id: None,
        access_token: None,
        cursor: None,
        status: ConnectionStatus::Pending,
        institution_name: None,
        created_at,
    }
}

/// A new pending connection of `household` to `provider`, with a fresh id;
/// `None` where no fresh id can be drawn.
pub fn new_connection(household: u128, provider: &str) -> (r: Option<Connection>)
    ensures
        r matches Some(c) ==> c@ == pending_connection(c.id, household, provider@, c.created_at),
{
    let id = match fresh_id() {
        Some(id) => id,
        None => return None,
    };
    Some(Connection {
        id,
        household_id: household,
        provider: provider.to_owned(),
        external_item_id: None,
        access_token: None,
        cursor: None,
        status: ConnectionStatus::Pending,
        institution_name: None,
        created_at: now_nanos(),
    })
}

/// The first failing check of acting on a connection: it must exist and the
/// caller must be able to write to its household.
pub open spec fn connection_problem(s: StoreView, user: u128, id: u128) -> Option<ApiErrorView> {
    if !s.connections.contains_key(id) {
        Some(ApiErrorView::NotFound)
    } else if access_role(s, s.connections[id].household_id, user) is None {
        Some(ApiErrorView::Forbidden)
    } else if !can_write(s, s.connections[id].household_id, user) {
        Some(ApiErrorView::Forbidden)
    } else {
        None
    }
}

/// Loads a connection the caller may act on.
pub fn authorize_connection(store: &MemoryStore, user: &User, id: u128) -> (r: Result<Connection, ApiError>)
    requires
        store.wf(),
    ensures
        connection_problem(store@, user.id, id) matches Some(e) ==> fails_with(r, e),
        connection_problem(store@, user.id, id) is None ==> (r matches Ok(c) && c@ == store@.connections[id]),
{
    let conn = match store.get_connection(id) {
        Some(c) => c,
        None => return Err(ApiError::NotFound),
    };
    let access = match require_member(store, user, conn.household_id) {
        Ok(a) => a,
        Err(e) => return Err(e),
    };
    match require_writer(&access) {
        Ok(()) => {},
        Err(e) => return Err(e),
    }
    Ok(conn)
}

/// The connections of a household of which the caller is an active member.
pub fn list_connections(store: &MemoryStore, user: &User, household: u128) -> (r: Result<Vec<Connection>, ApiError>)
    requires
        store.wf(),
    ensures
        access_role(store@, household, user.id) is None ==> fails_with(r, ApiErrorView::Forbidden),
        access_role(store@, household, user.id) is Some ==> (r matches Ok(v) && sorted_by(v@) && (forall|i: int|
            #![trigger v@[i]]
            0 <= i < v@.len() ==> store@.connections.contains_key(v@[i].id) && store@.connections[v@[i].id]
                == v@[i]@ && v@[i].household_id == household) && (forall|k: u128|
            #[trigger] store@.connections.contains_key(k) && store@.connections[k].household_id == household
                ==> has_key(v@, k))),
{
    match require_member(store, user, household) {
        Ok(_) => {},
        Err(e) => return Err(e),
    }
    Ok(store.connections_for_household(household))
}

/// The first failing check of a write to `household`: an active member that
/// is not an advisor.
pub open spec fn write_problem(s: StoreView, user: u128, household: u128) -> Option<ApiErrorView> {
    if access_role(s, household, user) is None {
        Some(ApiErrorView::Forbidden)
    } else if !can_write(s, household, user) {
        Some(ApiErrorView::Forbidden)
    } else {
        None
    }
}

fn require_household_writer(store: &MemoryStore, user: &User, household: u128) -> (r: Result<(), ApiError>)
    requires
        store.wf(),
    ensures
        write_problem(store@, user.id, household) matches Some(e) ==> fails_with(r, e),
        write_problem(store@, user.id, household) is None ==> r is Ok,
{
    let access = match require_member(store, user, household) {
        Ok(a) => a,
        Err(e) => return Err(e),
    };
    require_writer(&access)
}

/// Connects a household to the mock institution (development only: in
/// production the route does not exist). The connection is stored live,
/// ready to sync.
pub fn mock_connect(store: &mut MemoryStore, user: &User, household: u128, production: bool) -> (r: Result<
    Connection,
    ApiError,
>)
    requires
        old(store).wf(),
    ensures
        final(store).wf(),
        production ==> fails_with(r, ApiErrorView::NotFound) && final(store)@ == old(store)@,
        !production && write_problem(old(store)@, user.id, household) is Some ==> fails_with(
            r,
            write_problem(old(store)@, user.id, household)->0,
        ) && final(store)@ == old(store)@,
        !production && write_problem(old(store)@, user.id, household) is None ==> (fails_with(
            r,
            ApiErrorView::Internal,
        ) && final(store)@ == old(store)@) || (r matches Ok(c) && {
            &&& c.access_token is Some
            &&& c@ == (ConnectionView {
                access_token: c@.access_token,
                external_item_id: Some("mock-item-"@ + uuid_text(c.id)),
                institution_name: Some("Mock Bank"@),
                status: ConnectionStatus::Connected,
                ..pending_connection(c.id, household, "mock"@, c.created_at)
            })
            &&& final(store)@ == (StoreView { connections: old(store)@.connections.insert(c.id, c@), ..old(store)@ })
        }),
{
    if production {
        return Err(ApiError::NotFound);
    }
    match require_household_writer(store, user, household) {
        Ok(()) => {},
        Err(e) => return Err(e),
    }
    let mut conn = match new_connection(household, "mock") {
        Some(c) => c,
        None => return Err(ApiError::Internal),
    };
    let token = match fresh_id() {
        Some(t) => t,
        None => return Err(ApiError::Internal),
    };
    conn.access_token = Some(uuid_to_string(token));
    let mut item = "mock-item-".to_owned();
    let id_text = uuid_to_string(conn.id);
    push_all(&mut item, id_text.as_str());
    conn.external_item_id = Some(item);
    conn.institution_name = Some("Mock Bank".to_owned());
    conn.status = ConnectionStatus::Connected;
    Ok(store.insert_connection(conn))
}

/// The real provider for a household's link flow: the caller must be an
/// active member (and a writer when `write`), and the provider must be
/// configured.
pub fn plaid_for_household<P: Clone>(
    store: &MemoryStore,
    registry: &Registry<P>,
    user: &User,
    household: u128,
    write: bool,
) -> (r: Result<Provider<P>, ApiError>)
    requires
        store.wf(),
    ensures
        access_role(store@, household, user.id) is None ==> fails_with(r, ApiErrorView::Forbidden),
        access_role(store@, household, user.id) is Some && write && !can_write(store@, household, user.id)
            ==> fails_with(r, ApiErrorView::Forbidden),
        access_role(store@, household, user.id) is Some && (!write || can_write(store@, household, user.id))
            ==> match registry.plaid {
            Some(_) => r matches Ok(Provider::Plaid(_)),
            None => fails_with(r, ApiErrorView::Conflict("provider not configured on this server"@)),
        },
{
    let access = match require_member(store, user, household) {
        Ok(a) => a,
        Err(e) => return Err(e),
    };
    if write {
        match require_writer(&access) {
            Ok(()) => {},
            Err(e) => return Err(e),
        }
    }
    proof {
        reveal_strlit("plaid");
        reveal_strlit("mock");
        assert("plaid"@.len() != "mock"@.len());
    }
    match registry.get("plaid") {
        Ok(p) => Ok(p),
        Err(e) => Err(agg_err(e)),
    }
}

/// Stores the connection a provider exchange produced: live, holding the
/// provider's credential and item id. `None`, changing nothing, where no
/// fresh id can be drawn.
pub fn record_plaid_connection(store: &mut MemoryStore, household: u128, access_token: String, item_id: String) -> (r:
    Option<Connection>)
    requires
        old(store).wf(),
    ensures
        final(store).wf(),
        r is None ==> final(store)@ == old(store)@,
        r matches Some(c) ==> c@ == (ConnectionView {
            access_token: Some(access_token@),
            external_item_id: Some(item_id@),
            status: ConnectionStatus::Connected,
            ..pending_connection(c.id, household, "plaid"@, c.created_at)
        }) && final(store)@ == (StoreView { connections: old(store)@.connections.insert(c.id, c@), ..old(store)@ }),
{
    let mut conn = match new_connection(household, "plaid") {
        Some(c) => c,
        None => return None,
    };
    conn.access_token = Some(access_token);
    conn.external_item_id = Some(item_id);
    conn.status = ConnectionStatus::Connected;
    Some(store.insert_connection(conn))
}

/// The dedup key of a webhook body: `DefaultHasher` over the body as a
/// `str` hashes it (its bytes, then `0xff`), as 16 lower-case hex digits.
pub open spec fn webhook_event_key(body: Seq<u8>) -> Seq<char> {
    hex_fixed(DefaultHasher::spec_finish(seq![body, seq![0xffu8]]) as nat, 16)
}

/// The dedup key of a webhook body's text.
pub fn event_key_of(body: &str) -> (k: String)
    ensures
        k@ == webhook_event_key(body.spec_bytes()),
{
    let mut h = DefaultHasher::new();
    let bytes = body.as_bytes();
    h.write(bytes);
    let tail: Vec<u8> = vec![0xffu8];
    let t = tail.as_slice();
    h.write(t);
    proof {
        assert(t@ =~= seq![0xffu8]);
        assert(h@ =~= seq![body.spec_bytes(), seq![0xffu8]]);
    }
    let v = h.finish();
    let mut k = String::new();
    push_hex_fixed(&mut k, v as u128, 16);
    proof {
        assert(Seq::<char>::empty() + hex_fixed(v as nat, 16) =~= hex_fixed(v as nat, 16));
    }
    k
}

/// What an aggregator webhook leads to.
pub enum WebhookOutcome {
    /// The same event was already received: nothing happens.
    Duplicate,
    /// No connection has the event's item: nothing happens.
    Unmatched,
    /// The connection has new data: pull it.
    Sync(Connection),
    /// Received and noted; nothing to pull.
    Noted,
}

/// Webhook codes that announce new transactions.
pub open spec fn pulls_data(code: Seq<char>) -> bool {
    code == "SYNC_UPDATES_RECEIVED"@ || code == "INITIAL_UPDATE"@ || code == "HISTORICAL_UPDATE"@
}

/// Handles a provider webhook: idempotent by body hash (only the first
/// delivery of a body may trigger work), and never trusting the payload for
/// state: a known item with a data code is a hint to pull.
pub fn plaid_webhook(store: &mut MemoryStore, body: &str, item_id: &str, code: &str) -> (r: WebhookOutcome)
    requires
        old(store).wf(),
    ensures
        final(store).wf(),
        ({
            let key = ledger_key("plaid"@, webhook_event_key(body.spec_bytes()));
            &&& final(store)@ == (StoreView {
                webhook_events: old(store)@.webhook_events.insert(key),
                ..old(store)@
            })
            &&& old(store)@.webhook_events.contains(key) ==> r is Duplicate
            &&& !old(store)@.webhook_events.contains(key) ==> match r {
                WebhookOutcome::Duplicate => false,
                WebhookOutcome::Unmatched => forall|k: u128| #[trigger]
                    old(store)@.connections.contains_key(k) ==> !is_item(
                        old(store)@.connections[k],
                        "plaid"@,
                        item_id@,
                    ),
                WebhookOutcome::Sync(c) => old(store)@.connections.contains_key(c.id)
                    && old(store)@.connections[c.id] == c@ && is_item(c@, "plaid"@, item_id@) && pulls_data(
                    code@,
                ),
                WebhookOutcome::Noted => (exists|k: u128| #[trigger]
                    old(store)@.connections.contains_key(k) && is_item(
                        old(store)@.connections[k],
                        "plaid"@,
                        item_id@,
                    )) && !pulls_data(code@),
            }
        }),
{
    let event_key = event_key_of(body);
    if !store.claim_webhook_event("plaid", event_key.as_str()) {
        return WebhookOutcome::Duplicate;
    }
    let conn = match store.connection_by_item("plaid", item_id) {
        Some(c) => c,
        None => {
            proof {
                assert(store@.connections == old(store)@.connections);
            }
            return WebhookOutcome::Unmatched;
        },
    };
    proof {
        assert(store@.connections == old(store)@.connections);
        assert(old(store)@.connections.contains_key(conn.id));
        assert(is_item(old(store)@.connections[conn.id], "plaid"@, item_id@));
    }
    if str_eq(code, "SYNC_UPDATES_RECEIVED") || str_eq(code, "INITIAL_UPDATE") || str_eq(code, "HISTORICAL_UPDATE") {
        WebhookOutcome::Sync(conn)
    } else {
        WebhookOutcome::Noted
    }
}


/// Households are isolated: someone who is not an active member of a
/// household can neither open an account in it, nor reach one of its
/// accounts, transactions or connections; each is refused as forbidden.
pub proof fn law_household_isolation(s: StoreView, user: u128, req: CreateAccountReq, account: u128, txn: u128, conn: u128)
    requires
        access_role(s, req.household_id, user) is None,
        s.accounts.contains_key(account) && access_role(s, s.accounts[account].household_id, user) is None,
        s.txns.contains_key(txn) && access_role(s, s.txns[txn].household_id, user) is None,
        s.connections.contains_key(conn) && access_role(s, s.connections[conn].household_id, user) is None,
    ensures
        create_account_problem(s, user, req) == Some(ApiErrorView::Forbidden),
        write_problem(s, user, req.household_id) == Some(ApiErrorView::Forbidden),
        account_problem(s, user, account) == Some(ApiErrorView::Forbidden),
        patch_account_problem(s, user, account, None) == Some(ApiErrorView::Forbidden),
        txn_problem(s, user, txn) == Some(ApiErrorView::Forbidden),
        patch_txn_problem(s, user, txn, None) == Some(ApiErrorView::Forbidden),
        connection_problem(s, user, conn) == Some(ApiErrorView::Forbidden),
{
}

/// Advisors are read-only: an advisor may read what members read but every
/// change is refused as forbidden.
pub proof fn law_advisors_read_only(s: StoreView, user: u128, account: u128, txn: u128, household: u128)
    requires
        access_role(s, household, user) == Some(Role::Advisor),
        s.accounts.contains_key(account) && s.accounts[account].household_id == household
            && s.can_view(s.accounts[account], user),
        s.txns.contains_key(txn) && s.txns[txn].household_id == household,
    ensures
        account_problem(s, user, account) is None,
        txn_problem(s, user, txn) is None,
        write_problem(s, user, household) == Some(ApiErrorView::Forbidden),
        patch_account_problem(s, user, account, None) == Some(ApiErrorView::Forbidden),
        patch_txn_problem(s, user, txn, None) == Some(ApiErrorView::Forbidden),
{
}

/// An account the caller may not see looks exactly like a missing one.
pub proof fn law_hidden_accounts_look_missing(s: StoreView, user: u128, account: u128, missing: u128)
    requires
        s.accounts.contains_key(account),
        access_role(s, s.accounts[account].household_id, user) is Some,
        !s.can_view(s.accounts[account], user),
        !s.accounts.contains_key(missing),
    ensures
        account_problem(s, user, account) == account_problem(s, user, missing),
        account_problem(s, user, account) == Some(ApiErrorView::NotFound),
{
}

/// A debt account cannot open with money in it: where a writer's request is
/// otherwise valid, a credit card, loan or mortgage with a positive opening
/// balance is refused with the liability error, and an asset account with
/// the same balance is not refused at all.
pub proof fn law_liabilities_open_at_or_below_zero(s: StoreView, user: u128, req: CreateAccountReq)
    requires
        store_ok(s),
        can_write(s, req.household_id, user),
        name_ok(req.name@),
        currency_ok(requested_currency(req.currency)),
        0 < requested_balance(req.current_balance_minor) <= MAX_ABS_AMOUNT_MINOR,
    ensures
        req.account_type == AccountType::CreditCard || req.account_type == AccountType::Loan
            || req.account_type == AccountType::Mortgage ==> create_account_problem(s, user, req) == Some(
            ApiErrorView::Validation(
                "liability balances must be zero or negative (you owe less than the limit)"@,
            ),
        ),
        !(req.account_type == AccountType::CreditCard || req.account_type == AccountType::Loan
            || req.account_type == AccountType::Mortgage) ==> create_account_problem(s, user, req) is None,
{
    assert(s.members.contains_key((req.household_id, user)));
}

/// Exactly three webhook codes announce data to pull: new transactions
/// (`SYNC_UPDATES_RECEIVED`), the first pull after linking
/// (`INITIAL_UPDATE`) and the backfill of history (`HISTORICAL_UPDATE`);
/// every other code is only noted.
pub proof fn law_webhook_sync_codes(code: Seq<char>)
    ensures
        pulls_data(code) <==> (code == "SYNC_UPDATES_RECEIVED"@ || code == "INITIAL_UPDATE"@ || code
            == "HISTORICAL_UPDATE"@),
        pulls_data("HISTORICAL_UPDATE"@) && pulls_data("INITIAL_UPDATE"@) && pulls_data(
            "SYNC_UPDATES_RECEIVED"@,
        ),
{
}

} // verus!
