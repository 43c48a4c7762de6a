//! The sampling harness: each worker draws uniform point pairs from the
//! unit square, evaluates the solvability predicate, and tallies the
//! outcomes; the driver arithmetic splits a trial budget across workers
//! and reduces their tallies into the numerator and denominator of the
//! frequency estimate.

use vstd::prelude::*;

use rand::Rng;

use crate::kernel::COORD_LIMIT;
use crate::model::GeomError;
use crate::model::Point;
use crate::solve::has_solution;

verus! {

/// The sample grid: coordinates are drawn as integer numerators below
/// this denominator (2^53), so each is a uniform dyadic rational in
/// `[0, 1)` at the full granularity of a standard 53-bit uniform draw.
pub const SCALE_NUM: u64 = 9007199254740992;

#[verifier::external_type_specification]
#[verifier::external_body]
pub struct ExThreadRng(rand::rngs::ThreadRng);

/// Relies on `rand::thread_rng`: a handle to the calling thread's own
/// generator, so workers never share one.
#[verifier::external_body]
fn fresh_rng() -> rand::rngs::ThreadRng {
    rand::thread_rng()
}

/// Relies on `rand::Rng::gen_range` over `0..SCALE_NUM`: a draw strictly
/// below the bound of this nonempty range. Nothing more is assumed of a
/// random result.
#[verifier::external_body]
fn sample_coord(rng: &mut rand::rngs::ThreadRng) -> (r: u64)
    ensures
        r < SCALE_NUM,
{
    rng.gen_range(0..SCALE_NUM)
}

/// One worker's counters: trials that succeeded and trials that failed
/// with a per-trial error; `Ok(false)` trials count in neither.
#[derive(Clone, Copy, Debug, PartialEq, Eq, Structural)]
pub struct Tally {
    pub successes: u64,
    pub errors: u64,
}

/// Fold one trial outcome into a tally: `Ok(true)` increments the
/// success count, `Ok(false)` changes nothing, and an error increments
/// the error count.
pub fn record_outcome(t: Tally, outcome: Result<bool, GeomError>) -> (t2: Tally)
    requires
        t.successes < u64::MAX,
        t.errors < u64::MAX,
    ensures
        outcome == Result::<bool, GeomError>::Ok(true) ==> t2 == (Tally {
            successes: (t.successes + 1) as u64,
            errors: t.errors,
        }),
        outcome == Result::<bool, GeomError>::Ok(false) ==> t2 == t,
        outcome is Err ==> t2 == (Tally {
            successes: t.successes,
            errors: (t.errors + 1) as u64,
        }),
{
    match outcome {
        Ok(true) => Tally { successes: t.successes + 1, errors: t.errors },
        Ok(false) => t,
        Err(_) => Tally { successes: t.successes, errors: t.errors + 1 },
    }
}

/// A fresh uniform point of the unit square on the sample grid.
fn sample_point(rng: &mut rand::rngs::ThreadRng) -> (p: Point)
    ensures
        p@.d == SCALE_NUM as int,
        0 <= p@.x < p@.d,
        0 <= p@.y < p@.d,
{
    let x = sample_coord(rng);
    let y = sample_coord(rng);
    Point { x: x as i128, y: y as i128, d: SCALE_NUM as i128 }
}

/// One worker's share of the run: draw `trials` independent point pairs,
/// evaluate the predicate on each, and tally the outcomes. The result of
/// each draw is random, so only the counting discipline is promised:
/// together, successes and errors never exceed the trials run.
pub fn worker_tally(trials: u64) -> (t: Tally)
    ensures
        t.successes + t.errors <= trials,
{
    let mut rng = fresh_rng();
    let mut t = Tally { successes: 0, errors: 0 };
    let mut i: u64 = 0;
    while i < trials
        invariant
            i <= trials,
            t.successes + t.errors <= i,
        decreases trials - i,
    {
        let red = sample_point(&mut rng);
        let blue = sample_point(&mut rng);
        let outcome = has_solution(&blue, &red);
        t = record_outcome(t, outcome);
        i = i + 1;
    }
    t
}

/// Each worker's share of a total budget of `n` trials: the quotient by
/// the worker count; remainder trials are dropped.
pub fn per_worker(n: u64, threads: u64) -> (r: u64)
    requires
        threads >= 1,
    ensures
        r == n / threads,
{
    n / threads
}

/// The portion of the requested budget actually run: the per-worker
/// share times the worker count, never more than was requested.
pub fn effective_trials(n: u64, threads: u64) -> (r: u64)
    requires
        threads >= 1,
    ensures
        r == (n / threads) * threads,
        r <= n,
{
    proof {
        vstd::arithmetic::div_mod::lemma_fundamental_div_mod(n as int, threads as int);
        vstd::arithmetic::div_mod::lemma_mod_bound(n as int, threads as int);
        crate::arith::lemma_mul_comm(n as int / threads as int, threads as int);
    }
    (n / threads) * threads
}

/// The success counts of a sequence of tallies, summed.
pub open spec fn sum_successes(s: Seq<Tally>) -> int
    decreases s.len(),
{
    if s.len() == 0 {
        0
    } else {
        sum_successes(s.drop_last()) + s.last().successes
    }
}

/// The error counts of a sequence of tallies, summed.
pub open spec fn sum_errors(s: Seq<Tally>) -> int
    decreases s.len(),
{
    if s.len() == 0 {
        0
    } else {
        sum_errors(s.drop_last()) + s.last().errors
    }
}

/// The fan-in reduction: sum the workers' published tallies. `cap` is a
/// per-worker bound (the per-worker trial count) that makes the sums fit.
pub fn aggregate(tallies: &Vec<Tally>, cap: u64) -> (tot: Tally)
    requires
        forall|i: int|
            0 <= i < tallies@.len() ==> (#[trigger] tallies@[i]).successes + tallies@[i].errors
                <= cap,
        tallies@.len() * cap <= u64::MAX,
    ensures
        tot.successes == sum_successes(tallies@),
        tot.errors == sum_errors(tallies@),
        tot.successes + tot.errors <= tallies@.len() * cap,
{
    let mut s: u64 = 0;
    let mut er: u64 = 0;
    let mut i: usize = 0;
    while i < tallies.len()
        invariant
            i <= tallies@.len(),
            s == sum_successes(tallies@.subrange(0, i as int)),
            er == sum_errors(tallies@.subrange(0, i as int)),
            s + er <= i * cap,
            tallies@.len() * cap <= u64::MAX,
            forall|j: int|
                0 <= j < tallies@.len() ==> (#[trigger] tallies@[j]).successes
                    + tallies@[j].errors <= cap,
        decreases tallies@.len() - i,
    {
        let t = tallies[i];
        proof {
            assert(tallies@.subrange(0, i as int + 1).drop_last() =~= tallies@.subrange(
                0,
                i as int,
            ));
            assert((i as int + 1) * cap as int == i as int * cap as int + cap as int)
                by (nonlinear_arith);
            assert((i as int + 1) * cap as int <= tallies@.len() * cap as int)
                by (nonlinear_arith)
                requires
                    i as int + 1 <= tallies@.len(),
                    cap as int >= 0,
            ;
        }
        s = s + t.successes;
        er = er + t.errors;
        i = i + 1;
    }
    proof {
        assert(tallies@.subrange(0, tallies@.len() as int) =~= tallies@);
    }
    Tally { successes: s, errors: er }
}

/// The numerator and denominator of the frequency estimate: successes
/// over the effective trials, with errored trials excluded from the
/// denominator as well as the numerator. The counts come from trials
/// actually run, so the ratio they form lies in `[0, 1]`.
pub fn estimate_parts(tot: Tally, effective: u64) -> (r: (u64, u64))
    requires
        tot.successes + tot.errors <= effective,
    ensures
        r.0 == tot.successes,
        r.1 == effective - tot.errors,
        r.0 <= r.1,
{
    (tot.successes, effective - tot.errors)
}

} // verus!
