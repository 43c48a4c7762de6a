//! Tests of the sampling harness: trial-budget arithmetic, tally
//! bookkeeping, the fan-in reduction, and a full sequential run of the
//! per-worker sampling loop.

use rs::aggregate;
use rs::effective_trials;
use rs::estimate_parts;
use rs::per_worker;
use rs::record_outcome;
use rs::worker_tally;
use rs::GeomError;
use rs::Tally;

#[test]
fn trial_budget_splits_evenly() {
    assert_eq!(per_worker(10_000, 10), 1_000);
    assert_eq!(effective_trials(10_000, 10), 10_000);
}

#[test]
fn remainder_trials_are_dropped() {
    assert_eq!(per_worker(10_007, 10), 1_000);
    assert_eq!(effective_trials(10_007, 10), 10_000);
    assert_eq!(effective_trials(7, 10), 0);
}

#[test]
fn record_outcome_counts_each_case() {
    let t = Tally { successes: 3, errors: 1 };
    assert_eq!(
        record_outcome(t, Ok(true)),
        Tally { successes: 4, errors: 1 }
    );
    assert_eq!(record_outcome(t, Ok(false)), t);
    assert_eq!(
        record_outcome(t, Err(GeomError::IdenticalPoints)),
        Tally { successes: 3, errors: 2 }
    );
    assert_eq!(
        record_outcome(t, Err(GeomError::OutOfDomain)),
        Tally { successes: 3, errors: 2 }
    );
}

#[test]
fn aggregate_sums_worker_tallies() {
    let tallies = vec![
        Tally { successes: 10, errors: 0 },
        Tally { successes: 0, errors: 2 },
        Tally { successes: 7, errors: 1 },
    ];
    let tot = aggregate(&tallies, 12);
    assert_eq!(tot, Tally { successes: 17, errors: 3 });
}

#[test]
fn estimate_excludes_errors_from_denominator() {
    let tot = Tally { successes: 17, errors: 3 };
    let (num, den) = estimate_parts(tot, 30);
    assert_eq!(num, 17);
    assert_eq!(den, 27);
}

#[test]
fn full_run_of_ten_thousand_trials() {
    let n: u64 = 10_000;
    let threads: u64 = 10;
    let share = per_worker(n, threads);
    let effective = effective_trials(n, threads);
    assert_eq!(effective, 10_000);

    let mut tallies = Vec::new();
    for _ in 0..threads {
        let t = worker_tally(share);
        assert!(t.successes + t.errors <= share);
        tallies.push(t);
    }
    let tot = aggregate(&tallies, share);

    // every sampled point lies on the grid inside the unit square, and a
    // sampled pair is never identical in practice, so no trial errors
    assert_eq!(tot.errors, 0);

    let (num, den) = estimate_parts(tot, effective);
    assert_eq!(den, 10_000);
    let estimate = num as f64 / den as f64;
    assert!((0.0..=1.0).contains(&estimate));
}
