//! Solve records, the history that holds them, and the statistics over it.

use itertools::Itertools;
use vstd::prelude::*;

verus! {

/// One logged solve: when it ended, how long it took, and its scramble text.
#[derive(Clone)]
pub struct Solve {
    pub timestamp: u64,
    pub solvetime: u64,
    pub shuffle: String,
}

impl Solve {
    pub fn new(timestamp: u64, solvetime: u64, shuffle: String) -> (r: Self)
        ensures
            r.timestamp == timestamp,
            r.solvetime == solvetime,
            r.shuffle@ == shuffle@,
    {
        Self { timestamp, solvetime, shuffle }
    }
}

/// The solves in the order they were logged, oldest first.
pub struct History {
    pub history: Vec<Solve>,
}

impl View for History {
    type V = Seq<Solve>;

    open spec fn view(&self) -> Seq<Solve> {
        self.history@
    }
}

impl History {
    pub fn new() -> (r: Self)
        ensures
            r@.len() == 0,
    {
        Self { history: Vec::new() }
    }
}

/// The solve times of `h`, in order.
pub open spec fn solve_times(h: Seq<Solve>) -> Seq<u64> {
    h.map_values(|s: Solve| s.solvetime)
}

pub open spec fn sum_of(s: Seq<u64>) -> int
    decreases s.len(),
{
    if s.len() == 0 {
        0
    } else {
        sum_of(s.drop_last()) + s.last()
    }
}

/// The least value of `s`; zero for an empty sequence.
pub open spec fn least(s: Seq<u64>) -> int
    decreases s.len(),
{
    if s.len() == 0 {
        0
    } else if s.len() == 1 {
        s[0] as int
    } else {
        let m = least(s.drop_last());
        if s.last() < m {
            s.last() as int
        } else {
            m
        }
    }
}

/// The greatest value of `s`; zero for an empty sequence.
pub open spec fn greatest(s: Seq<u64>) -> int
    decreases s.len(),
{
    if s.len() == 0 {
        0
    } else if s.len() == 1 {
        s[0] as int
    } else {
        let m = greatest(s.drop_last());
        if s.last() > m {
            s.last() as int
        } else {
            m
        }
    }
}

/// The fastest solve time; zero when there is no solve.
pub open spec fn personal_best(h: Seq<Solve>) -> int {
    if h.len() == 0 {
        0
    } else {
        least(solve_times(h))
    }
}

/// The mean of all solve times, rounded down; zero when there is no solve.
pub open spec fn all_time_average(h: Seq<Solve>) -> int {
    if h.len() == 0 {
        0
    } else {
        sum_of(solve_times(h)) / (h.len() as int)
    }
}

/// The times of the `n` most recent solves.
pub open spec fn recent(h: Seq<Solve>, n: int) -> Seq<u64> {
    solve_times(h).subrange(h.len() - n, h.len() as int)
}

/// The mean of `w` without one least and one greatest value, rounded down.
pub open spec fn trimmed_mean(w: Seq<u64>) -> int {
    (sum_of(w) - least(w) - greatest(w)) / (w.len() - 2)
}

/// The trimmed mean of the `n` most recent solves; zero when fewer than `n`
/// solves exist or `n` is under three.
pub open spec fn average_of_n(h: Seq<Solve>, n: int) -> int {
    if n < 3 || h.len() < n {
        0
    } else {
        trimmed_mean(recent(h, n))
    }
}

/// The five most recent solves without the best and the worst, averaged;
/// zero when fewer than five solves exist.
pub open spec fn average_of_5(h: Seq<Solve>) -> int {
    if h.len() < 5 {
        0
    } else {
        let w = recent(h, 5);
        (sum_of(w) - least(w) - greatest(w)) / 3
    }
}

proof fn lemma_least_greatest(s: Seq<u64>)
    requires
        s.len() >= 1,
    ensures
        s.contains(least(s) as u64),
        s.contains(greatest(s) as u64),
        0 <= least(s) <= u64::MAX,
        0 <= greatest(s) <= u64::MAX,
        forall|i: int| 0 <= i < s.len() ==> least(s) <= #[trigger] s[i] <= greatest(s),
    decreases s.len(),
{
    if s.len() > 1 {
        let t = s.drop_last();
        lemma_least_greatest(t);
        let k = choose|k: int| 0 <= k < t.len() && t[k] == least(t) as u64;
        let g = choose|g: int| 0 <= g < t.len() && t[g] == greatest(t) as u64;
        assert(s[k] == t[k]);
        assert(s[g] == t[g]);
        assert(s[s.len() - 1] == s.last());
        assert forall|i: int| 0 <= i < s.len() implies least(s) <= #[trigger] s[i] <= greatest(s) by {
            if i < t.len() {
                assert(t[i] == s[i]);
            }
        }
    } else {
        assert(s[0] == s[0]);
    }
}

/// Any value of `s` below or equal to all of them is `least(s)`, and
/// likewise for `greatest(s)`.
proof fn lemma_extremes_unique(s: Seq<u64>, lo: u64, hi: u64)
    requires
        s.len() >= 1,
        s.contains(lo),
        s.contains(hi),
        forall|i: int| 0 <= i < s.len() ==> lo <= #[trigger] s[i] <= hi,
    ensures
        lo == least(s),
        hi == greatest(s),
{
    lemma_least_greatest(s);
}

/// With one least and one greatest value left out, at most `len - 2` values
/// remain, none above `u64::MAX`.
proof fn lemma_sum_bounds(s: Seq<u64>)
    requires
        s.len() >= 2,
    ensures
        least(s) + greatest(s) <= sum_of(s),
        sum_of(s) <= least(s) + greatest(s) + (s.len() - 2) * (u64::MAX as int),
    decreases s.len(),
{
    let t = s.drop_last();
    let x = s.last() as int;
    assert(sum_of(s) == sum_of(t) + x);
    if s.len() == 2 {
        assert(t.drop_last().len() == 0);
        assert(sum_of(t.drop_last()) == 0);
        assert(sum_of(t) == t.last());
        assert(t.last() == s[0]);
    } else {
        lemma_sum_bounds(t);
        lemma_least_greatest(t);
        let m = u64::MAX as int;
        assert((s.len() - 2) * m == (t.len() - 2) * m + m);
        if x < least(t) {
            assert(least(s) == x);
            assert(greatest(s) == greatest(t));
        } else if x > greatest(t) {
            assert(least(s) == least(t));
            assert(greatest(s) == x);
        } else {
            assert(least(s) == least(t));
            assert(greatest(s) == greatest(t));
        }
    }
}

proof fn lemma_sum_le(s: Seq<u64>)
    ensures
        0 <= sum_of(s) <= s.len() * (u64::MAX as int),
    decreases s.len(),
{
    if s.len() > 0 {
        lemma_sum_le(s.drop_last());
    }
}

/// Relies on itertools' `Itertools::minmax` and `MinMaxResult::into_option`:
/// `None` for no values, else the least and the greatest value.
#[verifier::external_body]
fn min_and_max(values: &Vec<u64>) -> (r: Option<(u64, u64)>)
    ensures
        r.is_none() <==> values@.len() == 0,
        r matches Some((lo, hi)) ==> {
            &&& values@.contains(lo)
            &&& values@.contains(hi)
            &&& forall|i: int| 0 <= i < values@.len() ==> lo <= #[trigger] values@[i] <= hi
        },
{
    values.iter().copied().minmax().into_option()
}

/// The times of the `n` most recent solves of `history`.
fn recent_times(history: &History, n: usize) -> (r: Vec<u64>)
    requires
        n <= history@.len(),
    ensures
        r@ == recent(history@, n as int),
{
    let len = history.history.len();
    let mut times: Vec<u64> = Vec::new();
    let mut j: usize = len - n;
    while j < len
        invariant
            len == history@.len(),
            n <= len,
            len - n <= j <= len,
            times@ == solve_times(history@).subrange(len - n, j as int),
        decreases len - j,
    {
        times.push(history.history[j].solvetime);
        assert(times@ =~= solve_times(history@).subrange(len - n, j + 1));
        j = j + 1;
    }
    times
}

fn total(values: &Vec<u64>) -> (r: u128)
    ensures
        r == sum_of(values@),
{
    let mut sum: u128 = 0;
    let mut k: usize = 0;
    while k < values.len()
        invariant
            k <= values@.len(),
            sum == sum_of(values@.subrange(0, k as int)),
        decreases values@.len() - k,
    {
        proof {
            let p = values@.subrange(0, k + 1);
            assert(p.drop_last() =~= values@.subrange(0, k as int));
            lemma_sum_le(values@.subrange(0, k as int));
            assert(k < usize::MAX);
            assert(k * (u64::MAX as int) <= usize::MAX * (u64::MAX as int)) by (nonlinear_arith)
                requires k < usize::MAX;
            assert(usize::MAX * (u64::MAX as int) + (u64::MAX as int) <= u128::MAX) by (nonlinear_arith)
                requires usize::MAX <= u64::MAX;
        }
        sum = sum + values[k] as u128;
        k = k + 1;
    }
    assert(values@.subrange(0, k as int) =~= values@);
    sum
}

/// The trimmed mean of the `n` most recent solves, for `3 <= n <= len`.
fn trimmed_recent(history: &History, n: usize) -> (r: u64)
    requires
        3 <= n <= history@.len(),
    ensures
        r == trimmed_mean(recent(history@, n as int)),
{
    let times = recent_times(history, n);
    let sum = total(&times);
    match min_and_max(&times) {
        Some((lo, hi)) => {
            proof {
                lemma_extremes_unique(times@, lo, hi);
                lemma_sum_bounds(times@);
            }
            let rest = sum - hi as u128 - lo as u128;
            let k = (n - 2) as u128;
            let avg = rest / k;
            assert(avg <= u64::MAX) by (nonlinear_arith)
                requires
                    avg == rest / k,
                    rest <= k * (u64::MAX as int),
                    k >= 1,
            ;
            avg as u64
        },
        None => 0,
    }
}

/// Appends `solve` to the history.
pub fn save_solve(history: &mut History, solve: Solve)
    ensures
        final(history)@ == old(history)@.push(solve),
{
    history.history.push(solve);
}

/// The fastest solve time of the history; zero when it is empty.
pub fn get_pb(history: &History) -> (r: u64)
    ensures
        r == personal_best(history@),
{
    let len = history.history.len();
    if len == 0 {
        return 0;
    }
    let mut best: u64 = history.history[0].solvetime;
    let mut i: usize = 1;
    assert(solve_times(history@).subrange(0, 1) =~= seq![best]);
    while i < len
        invariant
            1 <= i <= len,
            len == history@.len(),
            best == least(solve_times(history@).subrange(0, i as int)),
        decreases len - i,
    {
        let t = history.history[i].solvetime;
        assert(solve_times(history@).subrange(0, i + 1).drop_last()
            =~= solve_times(history@).subrange(0, i as int));
        if t < best {
            best = t;
        }
        i = i + 1;
    }
    assert(solve_times(history@).subrange(0, len as int) =~= solve_times(history@));
    best
}

/// The five most recent solves without the best and the worst, averaged;
/// zero when fewer than five solves exist.
pub fn get_ao5(history: &History) -> (r: u64)
    ensures
        r == average_of_5(history@),
{
    if history.history.len() < 5 {
        return 0;
    }
    trimmed_recent(history, 5)
}

/// The mean of the `n` most recent solves without their best and worst;
/// zero when fewer than `n` solves exist or `n` is under three.
pub fn get_ao(history: &History, n: u64) -> (r: u64)
    ensures
        r == average_of_n(history@, n as int),
{
    let len = history.history.len();
    if n < 3 || (len as u64) < n {
        return 0;
    }
    trimmed_recent(history, n as usize)
}

/// The mean of all solve times, rounded down; zero when there is no solve.
pub fn get_avg(history: &History) -> (r: u64)
    ensures
        r == all_time_average(history@),
{
    let len = history.history.len();
    let times = recent_times(history, len);
    assert(times@ =~= solve_times(history@));
    let sum = total(&times);
    if len == 0 {
        return 0;
    }
    proof {
        lemma_sum_le(times@);
    }
    let avg = sum / (len as u128);
    assert(avg <= u64::MAX) by (nonlinear_arith)
        requires
            avg == sum / (len as u128),
            sum <= len * (u64::MAX as int),
            len >= 1,
    ;
    avg as u64
}

/// With fewer solves than the window asks for, the average over it is zero.
pub proof fn lemma_too_few_solves(h: Seq<Solve>, n: int)
    requires
        h.len() < n,
    ensures
        average_of_n(h, n) == 0,
        n == 5 ==> average_of_5(h) == 0,
{
}

/// A saved solve reads back as the last record with the same fields, after
/// the earlier records in their order.
pub proof fn lemma_saved_solve_reads_back(h: Seq<Solve>, s: Solve)
    ensures
        h.push(s).len() == h.len() + 1,
        h.push(s).last() == s,
        h.push(s).subrange(0, h.len() as int) == h,
{
    assert(h.push(s).subrange(0, h.len() as int) =~= h);
}

/// The average of five agrees with the average of `n` for `n` five.
pub proof fn lemma_ao5_is_ao_of_five(h: Seq<Solve>)
    ensures
        average_of_5(h) == average_of_n(h, 5),
{
}

} // verus!
