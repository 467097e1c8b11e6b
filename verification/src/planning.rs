//! Retirement planning decisions that rest on simulated outcomes: the
//! required-savings solver and the percentile summary of simulated paths.
//! The simulation itself (random market returns) is the caller's; here it is
//! a predicate "this annual contribution meets the target".

use vstd::prelude::*;

verus! {

/// Savings the solver never goes beyond: a year's spending, and at least
/// $10,000 (in cents).
pub open spec fn savings_cap(spending: i64) -> i64 {
    if spending > 1_000_000 { spending } else { 1_000_000 }
}

/// The bisection the solver runs on `[lo, hi]` for a fixed predicate: it
/// halves the interval, keeping `hi` meeting the target and `lo` not, until
/// the interval is at most $1 (100 cents) wide, and answers `hi`.
pub open spec fn bisect(meets: spec_fn(i64) -> bool, lo: i64, hi: i64) -> i64
    decreases hi - lo,
{
    if hi - lo <= 100 {
        hi
    } else {
        let mid = (lo + (hi - lo) / 2) as i64;
        if meets(mid) {
            bisect(meets, lo, mid)
        } else {
            bisect(meets, mid, hi)
        }
    }
}

/// The required annual savings for a fixed predicate: zero where no saving
/// is needed, the cap where even the cap falls short, and otherwise the
/// bisection's answer.
pub open spec fn required_savings(meets: spec_fn(i64) -> bool, spending: i64) -> i64 {
    if meets(0) {
        0
    } else if !meets(savings_cap(spending)) {
        savings_cap(spending)
    } else {
        bisect(meets, 0, savings_cap(spending))
    }
}

/// `f` answers as the predicate `p` does.
pub open spec fn answers_as<F: Fn(i64) -> bool>(f: F, p: spec_fn(i64) -> bool) -> bool {
    forall|c: i64, b: bool| #[trigger] f.ensures((c,), b) ==> b == p(c)
}

/// Solves "what annual savings meet the target?" by bisection over
/// `[0, cap]`, `meets` telling whether a contribution does. Where `meets` is
/// a function of the contribution (as a seeded simulation is), the answer is
/// exactly `required_savings` of it; whatever `meets` does, a positive answer
/// below the cap was seen to meet the target and a contribution at most $1
/// less was seen not to.
pub fn required_annual_savings<F: Fn(i64) -> bool>(spending: i64, meets: F) -> (r: i64)
    requires
        forall|c: i64| #[trigger] meets.requires((c,)),
    ensures
        0 <= r <= savings_cap(spending),
        forall|p: spec_fn(i64) -> bool| #[trigger] answers_as(meets, p) ==> r == required_savings(p, spending),
        r == 0 ==> meets.ensures((0,), true),
        0 < r < savings_cap(spending) ==> meets.ensures((r,), true) && exists|lo: i64|
            #[trigger] meets.ensures((lo,), false) && r - 100 <= lo < r,
{
    let cap: i64 = if spending > 1_000_000 { spending } else { 1_000_000 };
    if meets(0) {
        return 0;
    }
    if !meets(cap) {
        return cap;
    }
    let mut lo: i64 = 0;
    let mut hi: i64 = cap;
    while hi - lo > 100
        invariant
            0 <= lo < hi <= cap,
            cap == savings_cap(spending),
            forall|c: i64| #[trigger] meets.requires((c,)),
            meets.ensures((lo,), false),
            meets.ensures((hi,), true),
            forall|p: spec_fn(i64) -> bool| #[trigger] answers_as(meets, p) ==> bisect(p, lo, hi)
                == required_savings(p, spending),
        decreases hi - lo,
    {
        let mid = lo + (hi - lo) / 2;
        let m = meets(mid);
        proof {
            assert forall|p: spec_fn(i64) -> bool| #[trigger] answers_as(meets, p) implies (if m {
                bisect(p, lo, mid)
            } else {
                bisect(p, mid, hi)
            }) == required_savings(p, spending) by {
                assert(p(mid) == m);
                assert(bisect(p, lo, hi) == if p(mid) {
                    bisect(p, lo, mid)
                } else {
                    bisect(p, mid, hi)
                });
            }
        }
        if m {
            hi = mid;
        } else {
            lo = mid;
        }
    }
    proof {
        assert forall|p: spec_fn(i64) -> bool| #[trigger] answers_as(meets, p) implies hi == required_savings(
            p,
            spending,
        ) by {
            assert(bisect(p, lo, hi) == hi);
        }
    }
    hi
}


/// One simulated lifetime: whether the money ran out, the portfolio at
/// retirement, and the portfolio at the end (zero for a depleted path).
#[derive(Clone, Copy, Debug)]
pub struct PathOutcome {
    pub depleted: bool,
    pub nest_egg_cents: i64,
    pub terminal_cents: i64,
}

/// The integer part of a simulation's outcome: how many paths there were,
/// how many never ran out, and the percentiles of the terminal portfolio and
/// of the portfolio at retirement.
#[derive(Clone, Copy, Debug)]
pub struct PathSummary {
    pub paths: usize,
    pub successes: usize,
    pub terminal_p05_cents: i64,
    pub terminal_p50_cents: i64,
    pub terminal_p95_cents: i64,
    pub nest_egg_p50_cents: i64,
}

/// Number of paths that never ran out of money.
pub open spec fn success_count(paths: Seq<PathOutcome>) -> nat
    decreases paths.len(),
{
    if paths.len() == 0 {
        0
    } else {
        success_count(paths.drop_last()) + if paths.last().depleted { 0nat } else { 1nat }
    }
}

/// The terminal values of the paths, in order.
pub open spec fn terminals_of(paths: Seq<PathOutcome>) -> Seq<i64> {
    paths.map_values(|p: PathOutcome| p.terminal_cents)
}

/// The portfolios at retirement of the paths, in order.
pub open spec fn nest_eggs_of(paths: Seq<PathOutcome>) -> Seq<i64> {
    paths.map_values(|p: PathOutcome| p.nest_egg_cents)
}

/// Index of the `pct`-th percentile among `n` sorted values: `(n - 1) · pct
/// / 100`, rounded half up.
pub open spec fn percentile_index(n: int, pct: int) -> int {
    ((n - 1) * pct + 50) / 100
}

/// `s` is `values` sorted ascending.
pub open spec fn sorted_of(s: Seq<i64>, values: Seq<i64>) -> bool {
    &&& s.to_multiset() == values.to_multiset()
    &&& forall|i: int, j: int| 0 <= i <= j < s.len() ==> s[i] <= s[j]
}

/// `<[i64]>::sort_unstable`. std documents that it sorts the slice in
/// ascending order; the result is a reordering of the input.
#[verifier::external_body]
fn sort_ascending(v: &mut Vec<i64>)
    ensures
        sorted_of(final(v)@, old(v)@),
{
    v.as_mut_slice().sort_unstable();
}

/// The index of the `pct`-th percentile of `n` sorted values.
pub fn percentile_at(n: usize, pct: usize) -> (i: usize)
    requires
        n > 0,
        pct <= 100,
    ensures
        i == percentile_index(n as int, pct as int),
        i < n,
{
    proof {
        assert((n - 1) * pct <= (n - 1) * 100) by (nonlinear_arith)
            requires
                n >= 1,
                pct <= 100,
        ;
        assert(((n - 1) * pct + 50) / 100 <= n - 1) by (nonlinear_arith)
            requires
                (n - 1) * pct <= (n - 1) * 100,
                n >= 1,
        ;
    }
    let m: u128 = (n as u128 - 1) * (pct as u128) + 50;
    (m / 100) as usize
}

proof fn lemma_percentiles_ordered(n: int)
    requires
        n >= 1,
    ensures
        percentile_index(n, 5) <= percentile_index(n, 50) <= percentile_index(n, 95),
{
    assert((n - 1) * 5 <= (n - 1) * 50 <= (n - 1) * 95) by (nonlinear_arith)
        requires
            n >= 1,
    ;
    assert(((n - 1) * 5 + 50) / 100 <= ((n - 1) * 50 + 50) / 100) by (nonlinear_arith)
        requires
            (n - 1) * 5 <= (n - 1) * 50,
    ;
    assert(((n - 1) * 50 + 50) / 100 <= ((n - 1) * 95 + 50) / 100) by (nonlinear_arith)
        requires
            (n - 1) * 50 <= (n - 1) * 95,
    ;
}

/// Summarizes simulated paths: the success count and the 5th, 50th and 95th
/// percentiles of the terminal values and the median nest egg.
pub fn summarize_paths(paths: &Vec<PathOutcome>) -> (s: PathSummary)
    requires
        paths@.len() > 0,
    ensures
        s.paths == paths@.len(),
        s.successes == success_count(paths@),
        s.successes <= s.paths,
        s.terminal_p05_cents <= s.terminal_p50_cents <= s.terminal_p95_cents,
        exists|t: Seq<i64>, e: Seq<i64>|
            #![trigger sorted_of(t, terminals_of(paths@)), sorted_of(e, nest_eggs_of(paths@))]
            sorted_of(t, terminals_of(paths@)) && sorted_of(e, nest_eggs_of(paths@))
                && s.terminal_p05_cents == t[percentile_index(paths@.len() as int, 5)]
                && s.terminal_p50_cents == t[percentile_index(paths@.len() as int, 50)]
                && s.terminal_p95_cents == t[percentile_index(paths@.len() as int, 95)]
                && s.nest_egg_p50_cents == e[percentile_index(paths@.len() as int, 50)],
{
    let n = paths.len();
    let mut terminals: Vec<i64> = Vec::new();
    let mut nest_eggs: Vec<i64> = Vec::new();
    let mut successes: usize = 0;
    let mut i: usize = 0;
    proof {
        assert(paths@.take(0) =~= Seq::<PathOutcome>::empty());
    }
    while i < n
        invariant
            n == paths@.len(),
            i <= n,
            terminals@ == paths@.take(i as int).map_values(|p: PathOutcome| p.terminal_cents),
            nest_eggs@ == paths@.take(i as int).map_values(|p: PathOutcome| p.nest_egg_cents),
            successes == success_count(paths@.take(i as int)),
            successes <= i,
        decreases n - i,
    {
        let p = paths[i];
        terminals.push(p.terminal_cents);
        nest_eggs.push(p.nest_egg_cents);
        proof {
            assert(paths@.take(i + 1).drop_last() =~= paths@.take(i as int));
            assert(terminals@ =~= paths@.take(i + 1).map_values(|p: PathOutcome| p.terminal_cents));
            assert(nest_eggs@ =~= paths@.take(i + 1).map_values(|p: PathOutcome| p.nest_egg_cents));
        }
        if !p.depleted {
            successes = successes + 1;
        }
        i = i + 1;
    }
    proof {
        assert(paths@.take(n as int) =~= paths@);
    }
    let ghost tv = terminals@;
    let ghost ev = nest_eggs@;
    sort_ascending(&mut terminals);
    sort_ascending(&mut nest_eggs);
    proof {
        vstd::seq_lib::to_multiset_len(terminals@);
        vstd::seq_lib::to_multiset_len(tv);
        vstd::seq_lib::to_multiset_len(nest_eggs@);
        vstd::seq_lib::to_multiset_len(ev);
        assert(terminals@.len() == n);
        assert(nest_eggs@.len() == n);
    }
    proof {
        assert(tv == terminals_of(paths@));
        assert(ev == nest_eggs_of(paths@));
        lemma_percentiles_ordered(n as int);
    }
    let s = PathSummary {
        paths: n,
        successes,
        terminal_p05_cents: terminals[percentile_at(n, 5)],
        terminal_p50_cents: terminals[percentile_at(n, 50)],
        terminal_p95_cents: terminals[percentile_at(n, 95)],
        nest_egg_p50_cents: nest_eggs[percentile_at(n, 50)],
    };
    s
}

} // verus!
