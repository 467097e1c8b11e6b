//! Calendar dates: validity in the proleptic Gregorian calendar and the
//! `YYYY-MM-DD` text that providers send.

use vstd::prelude::*;
use crate::models::Date;
use crate::text::{chars_of, digits_value, parse_usize, string_of};

verus! {

/// Leap years of the proleptic Gregorian calendar.
pub open spec fn is_leap(y: int) -> bool {
    y % 4 == 0 && (y % 100 != 0 || y % 400 == 0)
}

/// Number of days in month `m` (1-based) of year `y`.
pub open spec fn days_in_month(y: int, m: int) -> int {
    if m == 2 {
        if is_leap(y) { 29 } else { 28 }
    } else if m == 4 || m == 6 || m == 9 || m == 11 {
        30
    } else {
        31
    }
}

/// A calendar date as `time::Date::from_calendar_date` accepts it: years
/// -9999 to 9999, months 1 to 12, and a day that exists in that month.
pub open spec fn valid_date(y: i32, m: u8, d: u8) -> bool {
    &&& -9999 <= y <= 9999
    &&& 1 <= m <= 12
    &&& 1 <= d <= days_in_month(y as int, m as int)
}

/// Whether `(y, m, d)` is a calendar date.
pub fn is_valid_date(y: i32, m: u8, d: u8) -> (b: bool)
    ensures
        b == valid_date(y, m, d),
{
    if y < -9999 || y > 9999 || m < 1 || m > 12 || d < 1 {
        return false;
    }
    let leap = y % 4 == 0 && (y % 100 != 0 || y % 400 == 0);
    proof {
        assert(leap == is_leap(y as int)) by {
            lemma_rust_rem_zero(y as int, 4);
            lemma_rust_rem_zero(y as int, 100);
            lemma_rust_rem_zero(y as int, 400);
        }
    }
    let days: u8 = if m == 2 {
        if leap { 29 } else { 28 }
    } else if m == 4 || m == 6 || m == 9 || m == 11 {
        30
    } else {
        31
    };
    d <= days
}

/// Truncating remainder is zero exactly when the Euclidean one is.
proof fn lemma_rust_rem_zero(y: int, k: int)
    requires
        k > 0,
        -10000 < y < 10000,
    ensures
        (y % k == 0) == ((if y >= 0 { y % k } else { -((-y) % k) }) == 0),
{
    if y < 0 {
        assert(((-y) % k == 0) == (y % k == 0)) by (nonlinear_arith)
            requires
                k > 0,
                y < 0,
        {
            if (-y) % k == 0 {
                let q = (-y) / k;
                assert(-y == k * q);
                assert(y == k * (-q));
                vstd::arithmetic::div_mod::lemma_mod_multiples_basic(-q, k);
            }
            if y % k == 0 {
                let q = y / k;
                assert(y == k * q);
                assert(-y == k * (-q));
                vstd::arithmetic::div_mod::lemma_mod_multiples_basic(-q, k);
            }
        }
    }
}


/// The pieces of `s` between `-` separators, as `str::split('-')` yields
/// them (an empty text is one empty piece).
pub open spec fn dash_pieces(s: Seq<char>) -> Seq<Seq<char>>
    decreases s.len(),
{
    if s.len() == 0 {
        seq![Seq::empty()]
    } else {
        let rest = dash_pieces(s.drop_last());
        if s.last() == '-' {
            rest.push(Seq::empty())
        } else {
            rest.update(rest.len() - 1, rest.last().push(s.last()))
        }
    }
}

/// What `str::parse::<i32>` gives for a text without `-`: an optional `+`
/// and a non-empty run of decimal digits whose value fits in `i32`.
pub open spec fn piece_value(p: Seq<char>) -> Option<i32> {
    let digits = if p.len() > 0 && p[0] == '+' {
        p.drop_first()
    } else {
        p
    };
    match digits_value(digits) {
        Some(v) => if v <= i32::MAX {
            Some(v as i32)
        } else {
            None
        },
        None => None,
    }
}

/// A `YYYY-MM-DD` text read the way the providers' dates are read: split on
/// `-`, every piece parsed as an `i32`, the first three taken as year, month
/// and day (month and day truncated to a byte), and the result checked to be
/// a calendar date.
pub open spec fn parse_date_spec(s: Seq<char>) -> Option<Date> {
    let ps = dash_pieces(s);
    if ps.len() >= 3 && forall|i: int| 0 <= i < ps.len() ==> (#[trigger] piece_value(ps[i])) is Some {
        let y = piece_value(ps[0])->0;
        let m = (piece_value(ps[1])->0 % 256) as u8;
        let d = (piece_value(ps[2])->0 % 256) as u8;
        if valid_date(y, m, d) {
            Some(Date { year: y, month: m, day: d })
        } else {
            None
        }
    } else {
        None
    }
}

proof fn lemma_pieces_nonempty(s: Seq<char>)
    ensures
        dash_pieces(s).len() >= 1,
    decreases s.len(),
{
    if s.len() > 0 {
        lemma_pieces_nonempty(s.drop_last());
    }
}

/// Splitting a longer prefix only extends the last piece or adds pieces:
/// every piece of `s[..i]` but the last is a piece of `s[..j]`.
proof fn lemma_pieces_prefix(s: Seq<char>, i: int, j: int)
    requires
        0 <= i <= j <= s.len(),
    ensures
        dash_pieces(s.take(j)).len() >= dash_pieces(s.take(i)).len(),
        forall|k: int|
            0 <= k < dash_pieces(s.take(i)).len() - 1 ==> #[trigger] dash_pieces(s.take(j))[k]
                == dash_pieces(s.take(i))[k],
    decreases j - i,
{
    if i < j {
        lemma_pieces_prefix(s, i, j - 1);
        assert(s.take(j).drop_last() =~= s.take(j - 1));
        lemma_pieces_nonempty(s.take(j - 1));
    }
}

/// The piece of `-`-free text `v[start..i]` as an `i32`.
fn piece_to_i32(v: &Vec<char>, start: usize, i: usize) -> (r: Option<i32>)
    requires
        start <= i <= v@.len(),
        forall|k: int| start <= k < i ==> v@[k] != '-',
    ensures
        r == piece_value(v@.subrange(start as int, i as int)),
{
    let p = string_of(v, start, i);
    match parse_usize(p.as_str()) {
        Some(n) => {
            if n <= 2147483647 {
                Some(n as i32)
            } else {
                None
            }
        },
        None => None,
    }
}

/// Reads a `YYYY-MM-DD` date.
pub fn parse_date(s: &str) -> (r: Option<Date>)
    ensures
        r == parse_date_spec(s@),
{
    let v = chars_of(s);
    let n = v.len();
    let mut values: Vec<i32> = Vec::new();
    let ghost mut done: Seq<Seq<char>> = Seq::empty();
    let mut start: usize = 0;
    let mut i: usize = 0;
    proof {
        assert(s@.take(0) =~= Seq::<char>::empty());
        assert(dash_pieces(s@.take(0)) =~= done.push(v@.subrange(0, 0)));
    }
    while i < n
        invariant
            v@ == s@,
            n == v@.len(),
            start <= i <= n,
            dash_pieces(s@.take(i as int)) == done.push(v@.subrange(start as int, i as int)),
            forall|k: int| start <= k < i ==> v@[k] != '-',
            values@.len() == done.len(),
            forall|k: int| 0 <= k < done.len() ==> piece_value(#[trigger] done[k]) == Some(values@[k]),
        decreases n - i,
    {
        let ghost before = dash_pieces(s@.take(i as int));
        proof {
            assert(s@.take(i + 1).drop_last() =~= s@.take(i as int));
            assert(s@.take(i + 1).last() == v@[i as int]);
        }
        if v[i] == '-' {
            let piece = piece_to_i32(&v, start, i);
            match piece {
                Some(x) => {
                    values.push(x);
                    proof {
                        done = done.push(v@.subrange(start as int, i as int));
                        assert(v@.subrange(i + 1, i + 1) =~= Seq::<char>::empty());
                        assert(dash_pieces(s@.take(i + 1)) =~= done.push(v@.subrange(i + 1, i + 1)));
                    }
                    start = i + 1;
                },
                None => {
                    proof {
                        lemma_pieces_prefix(s@, i + 1, s@.len() as int);
                        assert(s@.take(s@.len() as int) =~= s@);
                        let k = done.len() as int;
                        assert(dash_pieces(s@.take(i + 1))[k] == v@.subrange(start as int, i as int));
                        assert(dash_pieces(s@)[k] == v@.subrange(start as int, i as int));
                        assert(piece_value(dash_pieces(s@)[k]) is None);
                    }
                    return None;
                },
            }
        } else {
            proof {
                assert(v@.subrange(start as int, i as int).push(v@[i as int]) =~= v@.subrange(
                    start as int,
                    i + 1,
                ));
                assert(dash_pieces(s@.take(i + 1)) =~= done.push(v@.subrange(start as int, i + 1)));
            }
        }
        i = i + 1;
    }
    proof {
        assert(s@.take(n as int) =~= s@);
    }
    let last = piece_to_i32(&v, start, n);
    let ghost ps = dash_pieces(s@);
    match last {
        None => {
            proof {
                assert(ps[done.len() as int] == v@.subrange(start as int, n as int));
            }
            None
        },
        Some(x) => {
            values.push(x);
            proof {
                assert forall|k: int| 0 <= k < ps.len() implies (#[trigger] piece_value(ps[k])) is Some by {
                    if k < done.len() {
                        assert(ps[k] == done[k]);
                    }
                }
            }
            if values.len() < 3 {
                return None;
            }
            proof {
                assert(ps[0] == done.push(v@.subrange(start as int, n as int))[0]);
                assert(piece_value(ps[0]) == Some(values@[0]));
                assert(piece_value(ps[1]) == Some(values@[1]));
                assert(piece_value(ps[2]) == Some(values@[2]));
            }
            let y = values[0];
            let m = (values[1] % 256) as u8;
            let d = (values[2] % 256) as u8;
            if is_valid_date(y, m, d) {
                Some(Date { year: y, month: m, day: d })
            } else {
                None
            }
        },
    }
}

/// The calendar date `days` days before the calendar date
/// `(year, month, day)`, counting back one day at a time; `None` where that
/// falls before 1 January of the year -9999, the first date the `time`
/// crate holds.
pub open spec fn date_minus_days(year: i32, month: u8, day: u8, days: i64) -> Option<(i32, u8, u8)>
    decreases days,
{
    if days <= 0 {
        Some((year, month, day))
    } else if year <= -9999 && month == 1 && day == 1 {
        None
    } else if day > 1 {
        date_minus_days(year, month, (day - 1) as u8, (days - 1) as i64)
    } else if month > 1 {
        date_minus_days(year, (month - 1) as u8, days_in_month(year as int, month - 1) as u8, (days - 1) as i64)
    } else {
        date_minus_days((year - 1) as i32, 12, 31, (days - 1) as i64)
    }
}

/// Counting back at least one day from a calendar date lands on a calendar
/// date that sorts strictly before it.
pub proof fn law_earlier_days_sort_first(year: i32, month: u8, day: u8, days: i64)
    requires
        valid_date(year, month, day),
        days >= 1,
    ensures
        date_minus_days(year, month, day, days) matches Some(p) ==> valid_date(p.0, p.1, p.2) && (Date {
            year: p.0,
            month: p.1,
            day: p.2,
        }).before(Date { year, month, day }),
    decreases days,
{
    if year <= -9999 && month == 1 && day == 1 {
    } else if day > 1 {
        if days > 1 {
            law_earlier_days_sort_first(year, month, (day - 1) as u8, (days - 1) as i64);
        } else {
            assert(date_minus_days(year, month, (day - 1) as u8, 0) == Some((year, month, (day - 1) as u8)));
        }
    } else if month > 1 {
        let pm = (month - 1) as u8;
        let pd = days_in_month(year as int, month - 1) as u8;
        assert(valid_date(year, pm, pd));
        if days > 1 {
            law_earlier_days_sort_first(year, pm, pd, (days - 1) as i64);
        } else {
            assert(date_minus_days(year, pm, pd, 0) == Some((year, pm, pd)));
        }
    } else {
        let py = (year - 1) as i32;
        assert(valid_date(py, 12, 31));
        if days > 1 {
            law_earlier_days_sort_first(py, 12, 31, (days - 1) as i64);
        } else {
            assert(date_minus_days(py, 12, 31, 0) == Some((py, 12u8, 31u8)));
        }
    }
}

/// `time::Date::checked_sub(Duration::days(days))` on the given calendar
/// date. Claimed: the result is the calendar date `days` days earlier, or
/// `None` where that is before the crate's first date, and a `time::Date` is
/// always a calendar date. `Duration::days` panics where `days` seconds
/// overflow, which the bound on `days` rules out.
#[verifier::external_body]
pub fn days_before(d: Date, days: i64) -> (r: Option<Date>)
    requires
        valid_date(d.year, d.month, d.day),
        0 <= days <= 1_000_000,
    ensures
        match r {
            Some(x) => date_minus_days(d.year, d.month, d.day, days) == Some((x.year, x.month, x.day))
                && valid_date(x.year, x.month, x.day),
            None => date_minus_days(d.year, d.month, d.day, days) is None,
        },
{
    let month = match time::Month::try_from(d.month) {
        Ok(m) => m,
        Err(_) => return None,
    };
    let date = match time::Date::from_calendar_date(d.year, month, d.day) {
        Ok(x) => x,
        Err(_) => return None,
    };
    match date.checked_sub(time::Duration::days(days)) {
        Some(out) => Some(Date { year: out.year(), month: u8::from(out.month()), day: out.day() }),
        None => None,
    }
}

/// `time::OffsetDateTime::now_utc().date()`: today in UTC. It depends on the
/// clock, so only that it is a calendar date is claimed.
#[verifier::external_body]
pub fn today_utc() -> (d: Date)
    ensures
        valid_date(d.year, d.month, d.day),
{
    let t = time::OffsetDateTime::now_utc().date();
    Date { year: t.year(), month: u8::from(t.month()), day: t.day() }
}

} // verus!
verus! {

/// The value of a decimal digit.
pub open spec fn digit(c: char) -> int {
    c as u32 - '0' as u32
}

/// A `DDDD-DD-DD` text of ASCII digits reads as that year, month and day,
/// where they form a calendar date.
pub proof fn lemma_iso_text(s: Seq<char>)
    requires
        s.len() == 10,
        s[4] == '-',
        s[7] == '-',
        forall|k: int| 0 <= k < 10 && k != 4 && k != 7 ==> '0' <= #[trigger] s[k] <= '9',
    ensures
        ({
            let y = digit(s[0]) * 1000 + digit(s[1]) * 100 + digit(s[2]) * 10 + digit(s[3]);
            let m = digit(s[5]) * 10 + digit(s[6]);
            let d = digit(s[8]) * 10 + digit(s[9]);
            valid_date(y as i32, m as u8, d as u8) ==> parse_date_spec(s) == Some(
                Date { year: y as i32, month: m as u8, day: d as u8 },
            )
        }),
{
    reveal_with_fuel(dash_pieces, 11);
    reveal_with_fuel(digits_value, 5);
    let ps = dash_pieces(s);
    assert(ps.len() == 3);
    assert(ps[0] =~= s.take(4));
    assert(ps[1] =~= s.subrange(5, 7));
    assert(ps[2] =~= s.subrange(8, 10));
    assert(s.take(4).drop_last() =~= s.take(3));
    assert(s.take(3).drop_last() =~= s.take(2));
    assert(s.take(2).drop_last() =~= s.take(1));
    assert(s.subrange(5, 7).drop_last() =~= s.subrange(5, 6));
    assert(s.subrange(8, 10).drop_last() =~= s.subrange(8, 9));
    assert(piece_value(ps[0]) is Some);
    assert(piece_value(ps[1]) is Some);
    assert(piece_value(ps[2]) is Some);
    assert forall|i: int| 0 <= i < ps.len() implies (#[trigger] piece_value(ps[i])) is Some by {
    }
}

} // verus!
