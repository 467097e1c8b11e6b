//! Loan amortization with exact cent-level accounting.
//!
//! The monthly interest on a balance is computed by the caller (it involves
//! the loan's rate); everything else, the month-by-month schedule, the final
//! payment that closes the loan at exactly zero, and the totals, is here.

use vstd::prelude::*;

verus! {

/// One month of an amortization schedule.
#[derive(Clone, Copy, Debug, PartialEq, Eq, Structural)]
pub struct AmortRow {
    /// 1-based payment number.
    pub month: u32,
    /// Total paid this month (interest + principal), cents.
    pub payment_cents: i64,
    pub interest_cents: i64,
    pub principal_cents: i64,
    /// Remaining balance *after* this payment, cents.
    pub balance_cents: i64,
}

/// Side-by-side refi/extra-payment comparison.
#[derive(Clone, Copy, Debug)]
pub struct Comparison {
    pub months_to_payoff: u32,
    pub total_interest_cents: i64,
}

/// Why a schedule could not be drawn up.
#[derive(Clone, Copy, Debug, PartialEq, Eq, Structural)]
pub enum ScheduleError {
    /// Some month's payment does not cover that month's interest (the loan
    /// would grow).
    PaymentBelowInterest,
    /// An amount left the range of `i64`.
    Overflow,
}

/// Sum of the interest paid over `rows`.
pub open spec fn interest_sum(rows: Seq<AmortRow>) -> int
    decreases rows.len(),
{
    if rows.len() == 0 {
        0
    } else {
        interest_sum(rows.drop_last()) + rows.last().interest_cents
    }
}

/// Sum of the principal repaid over `rows`.
pub open spec fn principal_sum(rows: Seq<AmortRow>) -> int
    decreases rows.len(),
{
    if rows.len() == 0 {
        0
    } else {
        principal_sum(rows.drop_last()) + rows.last().principal_cents
    }
}

/// Every running total of interest fits in `i64`.
pub open spec fn interest_sums_fit(rows: Seq<AmortRow>) -> bool {
    forall|n: int| 0 <= n <= rows.len() ==> i64::MIN <= #[trigger] interest_sum(rows.take(n)) <= i64::MAX
}

/// Total interest is additive: the interest of two runs of months put end
/// to end is the sum of their interests, and no months cost nothing.
pub proof fn law_interest_sum_concat(a: Seq<AmortRow>, b: Seq<AmortRow>)
    ensures
        interest_sum(Seq::<AmortRow>::empty()) == 0,
        interest_sum(a + b) == interest_sum(a) + interest_sum(b),
    decreases b.len(),
{
    if b.len() == 0 {
        assert(a + b =~= a);
    } else {
        law_interest_sum_concat(a, b.drop_last());
        assert((a + b).drop_last() =~= a + b.drop_last());
    }
}

/// Total interest over a schedule.
pub fn total_interest(rows: &[AmortRow]) -> (t: i64)
    requires
        interest_sums_fit(rows@),
    ensures
        t == interest_sum(rows@),
{
    let mut t: i64 = 0;
    let mut i: usize = 0;
    proof {
        assert(rows@.take(0) =~= Seq::<AmortRow>::empty());
    }
    while i < rows.len()
        invariant
            i <= rows@.len(),
            interest_sums_fit(rows@),
            t == interest_sum(rows@.take(i as int)),
        decreases rows@.len() - i,
    {
        proof {
            assert(rows@.take(i + 1).drop_last() =~= rows@.take(i as int));
            assert(i64::MIN <= interest_sum(rows@.take(i + 1)) <= i64::MAX);
        }
        t = t + rows[i].interest_cents;
        i = i + 1;
    }
    proof {
        assert(rows@.take(rows@.len() as int) =~= rows@);
    }
    t
}

/// The balance before month `i + 1` of a schedule of `principal`.
pub open spec fn balance_before(rows: Seq<AmortRow>, principal: i64, i: int) -> int {
    if i == 0 {
        principal as int
    } else {
        rows[i - 1].balance_cents as int
    }
}

/// The principal repaid in month `k` of `months` on a balance `balance` with
/// this month's interest `interest`: the payment less interest (plus the
/// extra), never more than the balance; the last month pays off the balance.
pub open spec fn principal_due(balance: int, interest: int, k: int, months: int, base: i64, extra: i64) -> int {
    if k == months {
        balance
    } else if base - interest + extra < balance {
        base - interest + extra
    } else {
        balance
    }
}

/// Month `i + 1` of a schedule: the interest is what `interest_on` gave for
/// the balance before it, the principal is the one due, and the balance goes
/// down by it.
pub open spec fn row_follows<F: Fn(i64) -> i64>(
    rows: Seq<AmortRow>,
    i: int,
    principal: i64,
    months: u32,
    base: i64,
    extra: i64,
    interest_on: F,
) -> bool {
    let b = balance_before(rows, principal, i);
    let r = rows[i];
    &&& r.month == i + 1
    &&& interest_on.ensures((b as i64,), r.interest_cents)
    &&& r.principal_cents == principal_due(b, r.interest_cents as int, i + 1, months as int, base, extra)
    &&& r.principal_cents > 0
    &&& r.payment_cents == r.interest_cents + r.principal_cents
    &&& r.balance_cents == b - r.principal_cents
}

/// The month after `pre` cannot be computed in `i64` with this interest:
/// the payment less interest, plus the extra, or the month's payment,
/// overflows.
pub open spec fn month_overflows(
    pre: Seq<AmortRow>,
    interest: i64,
    principal: i64,
    months: u32,
    base: i64,
    extra: i64,
) -> bool {
    let b = balance_before(pre, principal, pre.len() as int);
    let due = principal_due(b, interest as int, pre.len() + 1int, months as int, base, extra);
    ||| !(i64::MIN <= base - interest <= i64::MAX)
    ||| !(i64::MIN <= base - interest + extra <= i64::MAX)
    ||| due > 0 && !(i64::MIN <= interest + due <= i64::MAX)
}

/// `rows` are the first months of the schedule, each with a balance left.
pub open spec fn schedule_prefix<F: Fn(i64) -> i64>(
    rows: Seq<AmortRow>,
    principal: i64,
    months: u32,
    base: i64,
    extra: i64,
    interest_on: F,
) -> bool {
    &&& rows.len() <= months
    &&& forall|i: int|
        0 <= i < rows.len() ==> #[trigger] row_follows(rows, i, principal, months, base, extra, interest_on)
    &&& forall|i: int| 0 <= i < rows.len() - 1 ==> (#[trigger] rows[i]).balance_cents > 0
}

proof fn lemma_principal_sum_push(rows: Seq<AmortRow>, r: AmortRow)
    ensures
        principal_sum(rows.push(r)) == principal_sum(rows) + r.principal_cents,
        interest_sum(rows.push(r)) == interest_sum(rows) + r.interest_cents,
{
    assert(rows.push(r).drop_last() =~= rows);
}

/// The full schedule of a loan of `principal` cents over `months` months
/// with a base monthly payment and an extra principal payment each month;
/// `interest_on` gives the interest due on a balance.
///
/// The schedule ends as soon as the balance reaches zero, and the final
/// month pays off whatever is left, so the loan closes at exactly zero: the
/// principal repaid sums to the principal, to the cent.
///
/// A month whose payment does not cover the interest due makes no progress
/// and can never close the loan; such a schedule is refused with
/// `Err(ScheduleError::PaymentBelowInterest)` in place of a panic, and the
/// error states the month at which it happened. A balance or payment that
/// leaves `i64` is refused with `Err(ScheduleError::Overflow)`.
pub fn amortization_schedule<F: Fn(i64) -> i64>(
    principal: i64,
    months: u32,
    base_payment: i64,
    extra_monthly_cents: i64,
    interest_on: F,
) -> (r: Result<Vec<AmortRow>, ScheduleError>)
    requires
        principal > 0,
        months > 0,
        forall|b: i64| #[trigger] interest_on.requires((b,)),
    ensures
        r matches Ok(rows) ==> {
            &&& schedule_prefix(rows@, principal, months, base_payment, extra_monthly_cents, interest_on)
            &&& rows@.len() > 0
            &&& rows@.last().balance_cents == 0
            &&& principal_sum(rows@) == principal
        },
        r matches Err(ScheduleError::PaymentBelowInterest) ==> exists|pre: Seq<AmortRow>, interest: i64|
            #![trigger schedule_prefix(pre, principal, months, base_payment, extra_monthly_cents, interest_on), interest_on.ensures((balance_before(pre, principal, pre.len() as int) as i64,), interest)]
            schedule_prefix(pre, principal, months, base_payment, extra_monthly_cents, interest_on)
                && pre.len() < months && (pre.len() == 0 || pre.last().balance_cents > 0)
                && interest_on.ensures((balance_before(pre, principal, pre.len() as int) as i64,), interest)
                && principal_due(
                balance_before(pre, principal, pre.len() as int),
                interest as int,
                pre.len() + 1int,
                months as int,
                base_payment,
                extra_monthly_cents,
            ) <= 0,
        r matches Err(ScheduleError::Overflow) ==> exists|pre: Seq<AmortRow>, interest: i64|
            #![trigger schedule_prefix(pre, principal, months, base_payment, extra_monthly_cents, interest_on), interest_on.ensures((balance_before(pre, principal, pre.len() as int) as i64,), interest)]
            schedule_prefix(pre, principal, months, base_payment, extra_monthly_cents, interest_on)
                && pre.len() < months && (pre.len() == 0 || pre.last().balance_cents > 0)
                && interest_on.ensures((balance_before(pre, principal, pre.len() as int) as i64,), interest)
                && month_overflows(pre, interest, principal, months, base_payment, extra_monthly_cents),
{
    let mut balance: i64 = principal;
    let mut rows: Vec<AmortRow> = Vec::new();
    let mut month: u32 = 1;
    loop
        invariant
            1 <= month <= months,
            rows@.len() == month - 1,
            forall|b: i64| #[trigger] interest_on.requires((b,)),
            schedule_prefix(rows@, principal, months, base_payment, extra_monthly_cents, interest_on),
            balance == balance_before(rows@, principal, rows@.len() as int),
            balance > 0,
            0 < principal,
            principal_sum(rows@) + balance == principal,
        decreases months - month,
    {
        let interest = interest_on(balance);
        let ghost pre = rows@;
        proof {
            assert(balance_before(pre, principal, pre.len() as int) as i64 == balance);
            assert(interest_on.ensures((balance_before(pre, principal, pre.len() as int) as i64,), interest));
            assert(pre.len() == 0 || pre.last().balance_cents > 0);
            assert(schedule_prefix(pre, principal, months, base_payment, extra_monthly_cents, interest_on));
        }
        let room = match base_payment.checked_sub(interest) {
            Some(x) => match x.checked_add(extra_monthly_cents) {
                Some(y) => y,
                None => return Err(ScheduleError::Overflow),
            },
            None => return Err(ScheduleError::Overflow),
        };
        let principal_paid = if month == months {
            balance
        } else if room < balance {
            room
        } else {
            balance
        };
        if principal_paid <= 0 {
            proof {
                assert(principal_due(balance as int, interest as int, rows@.len() + 1int, months as int, base_payment, extra_monthly_cents) <= 0);
            }
            return Err(ScheduleError::PaymentBelowInterest);
        }
        let payment = match interest.checked_add(principal_paid) {
            Some(p) => p,
            None => return Err(ScheduleError::Overflow),
        };
        balance = balance - principal_paid;
        let row = AmortRow {
            month,
            payment_cents: payment,
            interest_cents: interest,
            principal_cents: principal_paid,
            balance_cents: balance,
        };
        let ghost before = rows@;
        rows.push(row);
        proof {
            lemma_principal_sum_push(before, row);
            assert forall|i: int| 0 <= i < rows@.len() implies #[trigger] row_follows(
                rows@,
                i,
                principal,
                months,
                base_payment,
                extra_monthly_cents,
                interest_on,
            ) by {
                if i < before.len() {
                    assert(rows@[i] == before[i]);
                    assert(row_follows(before, i, principal, months, base_payment, extra_monthly_cents, interest_on));
                    if i > 0 {
                        assert(rows@[i - 1] == before[i - 1]);
                    }
                }
            }
        }
        if balance == 0 {
            return Ok(rows);
        }
        if month == months {
            proof {
                assert(false);
            }
            return Ok(rows);
        }
        month = month + 1;
    }
}

/// The comparison figures of a schedule: months to payoff and total interest.
pub fn compare<F: Fn(i64) -> i64>(
    principal: i64,
    months: u32,
    base_payment: i64,
    extra_monthly_cents: i64,
    interest_on: F,
) -> (r: Result<Comparison, ScheduleError>)
    requires
        principal > 0,
        months > 0,
        forall|b: i64| #[trigger] interest_on.requires((b,)),
    ensures
        r matches Ok(c) ==> exists|rows: Seq<AmortRow>|
            #![trigger schedule_prefix(rows, principal, months, base_payment, extra_monthly_cents, interest_on)]
            schedule_prefix(rows, principal, months, base_payment, extra_monthly_cents, interest_on)
                && rows.len() > 0 && rows.last().balance_cents == 0 && c.months_to_payoff == rows.len()
                && c.total_interest_cents == interest_sum(rows),
        r matches Err(ScheduleError::Overflow) ==> (exists|pre: Seq<AmortRow>, interest: i64|
            #![trigger schedule_prefix(pre, principal, months, base_payment, extra_monthly_cents, interest_on), interest_on.ensures((balance_before(pre, principal, pre.len() as int) as i64,), interest)]
            schedule_prefix(pre, principal, months, base_payment, extra_monthly_cents, interest_on)
                && pre.len() < months && (pre.len() == 0 || pre.last().balance_cents > 0)
                && interest_on.ensures((balance_before(pre, principal, pre.len() as int) as i64,), interest)
                && month_overflows(pre, interest, principal, months, base_payment, extra_monthly_cents))
            || (exists|rows: Seq<AmortRow>|
            #![trigger schedule_prefix(rows, principal, months, base_payment, extra_monthly_cents, interest_on)]
            schedule_prefix(rows, principal, months, base_payment, extra_monthly_cents, interest_on)
                && rows.len() > 0 && rows.last().balance_cents == 0 && !interest_sums_fit(rows)),
        r matches Err(ScheduleError::PaymentBelowInterest) ==> exists|pre: Seq<AmortRow>, interest: i64|
            #![trigger schedule_prefix(pre, principal, months, base_payment, extra_monthly_cents, interest_on), interest_on.ensures((balance_before(pre, principal, pre.len() as int) as i64,), interest)]
            schedule_prefix(pre, principal, months, base_payment, extra_monthly_cents, interest_on)
                && pre.len() < months && (pre.len() == 0 || pre.last().balance_cents > 0)
                && interest_on.ensures((balance_before(pre, principal, pre.len() as int) as i64,), interest)
                && principal_due(
                balance_before(pre, principal, pre.len() as int),
                interest as int,
                pre.len() + 1int,
                months as int,
                base_payment,
                extra_monthly_cents,
            ) <= 0,
{
    let rows = match amortization_schedule(principal, months, base_payment, extra_monthly_cents, interest_on) {
        Ok(rows) => rows,
        Err(e) => return Err(e),
    };
    proof {
        assert(schedule_prefix(rows@, principal, months, base_payment, extra_monthly_cents, interest_on));
    }
    let mut t: i64 = 0;
    let mut i: usize = 0;
    proof {
        assert(rows@.take(0) =~= Seq::<AmortRow>::empty());
    }
    while i < rows.len()
        invariant
            i <= rows@.len(),
            t == interest_sum(rows@.take(i as int)),
            forall|n: int| 0 <= n <= i ==> i64::MIN <= #[trigger] interest_sum(rows@.take(n)) <= i64::MAX,
            schedule_prefix(rows@, principal, months, base_payment, extra_monthly_cents, interest_on),
            rows@.len() > 0 && rows@.last().balance_cents == 0,
        decreases rows@.len() - i,
    {
        proof {
            assert(rows@.take(i + 1).drop_last() =~= rows@.take(i as int));
        }
        t = match t.checked_add(rows[i].interest_cents) {
            Some(x) => x,
            None => {
                proof {
                    assert(!(i64::MIN <= interest_sum(rows@.take(i + 1)) <= i64::MAX));
                    assert(!interest_sums_fit(rows@));
                    assert(schedule_prefix(rows@, principal, months, base_payment, extra_monthly_cents, interest_on)
                        && rows@.len() > 0 && rows@.last().balance_cents == 0 && !interest_sums_fit(rows@));
                }
                return Err(ScheduleError::Overflow);
            },
        };
        i = i + 1;
    }
    proof {
        assert(rows@.take(rows@.len() as int) =~= rows@);
    }
    Ok(Comparison { months_to_payoff: rows.len() as u32, total_interest_cents: t })
}

/// `interest_on` behaves as interest at a non-negative rate does: never
/// negative on a positive balance, and never smaller on a larger balance
/// (so it gives one answer per balance).
pub open spec fn interest_like<F: Fn(i64) -> i64>(interest_on: F) -> bool {
    &&& forall|b: i64, x: i64| #[trigger] interest_on.ensures((b,), x) && b > 0 ==> x >= 0
    &&& forall|b1: i64, b2: i64, x1: i64, x2: i64|
        #![trigger interest_on.ensures((b1,), x1), interest_on.ensures((b2,), x2)]
        interest_on.ensures((b1,), x1) && interest_on.ensures((b2,), x2) && b1 <= b2 ==> x1 <= x2
}

/// In a schedule every balance is non-negative, and every balance before a
/// month of it is positive.
proof fn lemma_balances_nonneg<F: Fn(i64) -> i64>(
    rows: Seq<AmortRow>,
    principal: i64,
    months: u32,
    base: i64,
    extra: i64,
    interest_on: F,
    i: int,
)
    requires
        principal > 0,
        schedule_prefix(rows, principal, months, base, extra, interest_on),
        0 <= i < rows.len(),
    ensures
        rows[i].balance_cents >= 0,
        balance_before(rows, principal, i) > 0,
{
    assert(row_follows(rows, i, principal, months, base, extra, interest_on));
    if i > 0 {
        assert(rows[i - 1].balance_cents > 0);
    }
}

/// With at least as large an extra payment, the balance before each month is
/// no larger.
proof fn lemma_extra_lowers_balances<F: Fn(i64) -> i64>(
    principal: i64,
    months: u32,
    base: i64,
    e1: i64,
    e2: i64,
    interest_on: F,
    rows1: Seq<AmortRow>,
    rows2: Seq<AmortRow>,
    i: int,
)
    requires
        principal > 0,
        e1 <= e2,
        interest_like(interest_on),
        schedule_prefix(rows1, principal, months, base, e1, interest_on),
        schedule_prefix(rows2, principal, months, base, e2, interest_on),
        0 <= i <= rows1.len(),
        i <= rows2.len(),
    ensures
        balance_before(rows2, principal, i) <= balance_before(rows1, principal, i),
    decreases i,
{
    if i > 0 {
        lemma_extra_lowers_balances(principal, months, base, e1, e2, interest_on, rows1, rows2, i - 1);
        assert(row_follows(rows1, i - 1, principal, months, base, e1, interest_on));
        assert(row_follows(rows2, i - 1, principal, months, base, e2, interest_on));
        lemma_balances_nonneg(rows1, principal, months, base, e1, interest_on, i - 1);
        lemma_balances_nonneg(rows2, principal, months, base, e2, interest_on, i - 1);
        let b1 = balance_before(rows1, principal, i - 1);
        let b2 = balance_before(rows2, principal, i - 1);
        assert(b1 as i64 == b1 && b2 as i64 == b2);
        assert(interest_on.ensures((b2 as i64,), rows2[i - 1].interest_cents));
        assert(interest_on.ensures((b1 as i64,), rows1[i - 1].interest_cents));
        assert(rows2[i - 1].interest_cents <= rows1[i - 1].interest_cents);
    }
}

/// The interest of the first `n` months.
proof fn lemma_interest_take(rows: Seq<AmortRow>, n: int)
    requires
        0 <= n < rows.len(),
    ensures
        interest_sum(rows.take(n + 1)) == interest_sum(rows.take(n)) + rows[n].interest_cents,
{
    assert(rows.take(n + 1).drop_last() =~= rows.take(n));
}

/// A larger extra payment costs no more interest over the first `n` months.
proof fn lemma_extra_lowers_interest<F: Fn(i64) -> i64>(
    principal: i64,
    months: u32,
    base: i64,
    e1: i64,
    e2: i64,
    interest_on: F,
    rows1: Seq<AmortRow>,
    rows2: Seq<AmortRow>,
    n: int,
)
    requires
        principal > 0,
        e1 <= e2,
        interest_like(interest_on),
        schedule_prefix(rows1, principal, months, base, e1, interest_on),
        schedule_prefix(rows2, principal, months, base, e2, interest_on),
        0 <= n <= rows1.len(),
        n <= rows2.len(),
    ensures
        interest_sum(rows2.take(n)) <= interest_sum(rows1.take(n)),
    decreases n,
{
    if n == 0 {
        assert(rows1.take(0) =~= Seq::<AmortRow>::empty());
        assert(rows2.take(0) =~= Seq::<AmortRow>::empty());
    } else {
        lemma_extra_lowers_interest(principal, months, base, e1, e2, interest_on, rows1, rows2, n - 1);
        lemma_interest_take(rows1, n - 1);
        lemma_interest_take(rows2, n - 1);
        lemma_extra_lowers_balances(principal, months, base, e1, e2, interest_on, rows1, rows2, n - 1);
        assert(row_follows(rows1, n - 1, principal, months, base, e1, interest_on));
        assert(row_follows(rows2, n - 1, principal, months, base, e2, interest_on));
        lemma_balances_nonneg(rows1, principal, months, base, e1, interest_on, n - 1);
        lemma_balances_nonneg(rows2, principal, months, base, e2, interest_on, n - 1);
        let b1 = balance_before(rows1, principal, n - 1);
        let b2 = balance_before(rows2, principal, n - 1);
        assert(b1 as i64 == b1 && b2 as i64 == b2);
        assert(interest_on.ensures((b2 as i64,), rows2[n - 1].interest_cents));
        assert(interest_on.ensures((b1 as i64,), rows1[n - 1].interest_cents));
    }
}

/// Interest is never negative, so a schedule costs at least what its first
/// `n` months cost.
proof fn lemma_interest_grows<F: Fn(i64) -> i64>(
    rows: Seq<AmortRow>,
    principal: i64,
    months: u32,
    base: i64,
    extra: i64,
    interest_on: F,
    n: int,
)
    requires
        principal > 0,
        interest_like(interest_on),
        schedule_prefix(rows, principal, months, base, extra, interest_on),
        0 <= n <= rows.len(),
    ensures
        interest_sum(rows.take(n)) <= interest_sum(rows),
    decreases rows.len() - n,
{
    if n < rows.len() {
        lemma_interest_grows(rows, principal, months, base, extra, interest_on, n + 1);
        lemma_interest_take(rows, n);
        assert(row_follows(rows, n, principal, months, base, extra, interest_on));
        lemma_balances_nonneg(rows, principal, months, base, extra, interest_on, n);
        let b = balance_before(rows, principal, n);
        assert(b as i64 == b);
        assert(interest_on.ensures((b as i64,), rows[n].interest_cents));
    } else {
        assert(rows.take(n) =~= rows);
    }
}

/// Paying more each month never hurts: where interest behaves as interest at
/// a non-negative rate does, the complete schedule with the larger extra
/// payment is no longer and costs no more interest than the one with the
/// smaller extra payment (these are the figures `compare` reports).
pub proof fn law_extra_payment_never_hurts<F: Fn(i64) -> i64>(
    principal: i64,
    months: u32,
    base: i64,
    e1: i64,
    e2: i64,
    interest_on: F,
    rows1: Seq<AmortRow>,
    rows2: Seq<AmortRow>,
)
    requires
        principal > 0,
        0 <= e1 <= e2,
        interest_like(interest_on),
        schedule_prefix(rows1, principal, months, base, e1, interest_on),
        rows1.len() > 0 && rows1.last().balance_cents == 0,
        schedule_prefix(rows2, principal, months, base, e2, interest_on),
        rows2.len() > 0 && rows2.last().balance_cents == 0,
    ensures
        rows2.len() <= rows1.len(),
        interest_sum(rows2) <= interest_sum(rows1),
{
    let l1 = rows1.len() as int;
    if rows2.len() > l1 {
        lemma_extra_lowers_balances(principal, months, base, e1, e2, interest_on, rows1, rows2, l1);
        lemma_balances_nonneg(rows2, principal, months, base, e2, interest_on, l1 - 1);
        assert(rows2[l1 - 1].balance_cents > 0);
    }
    let l2 = rows2.len() as int;
    lemma_extra_lowers_interest(principal, months, base, e1, e2, interest_on, rows1, rows2, l2);
    lemma_interest_grows(rows1, principal, months, base, e1, interest_on, l2);
    assert(rows2.take(l2) =~= rows2);
}

} // verus!
