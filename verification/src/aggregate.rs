//! Aggregates over collections of workouts: total volume and the exact
//! average intensity score.
//!
//! The average is a rational number. The running sum is kept reduced by the
//! greatest common divisor so realistic collections stay within 64 bits;
//! the `average_fits` predicate states exactly the machine-width bounds the
//! computation needs.

use vstd::prelude::*;

verus! {

use crate::rational::{
    Ratio, rat_eq, reduced, ratio_add_reduced, ratio_div_count, lemma_reduced_eq,
    lemma_rat_eq_trans, lemma_rat_eq_add, lemma_rat_eq_scale_den,
};
use crate::workout::{
    Workout, WorkoutAnalyzer, volume_of, score_num, score_den, lemma_volume_nonneg,
};
use crate::seqs::{lemma_take_succ, lemma_take_all};

/// The total volume of a sequence of workouts.
pub open spec fn total_volume(ws: Seq<Workout>) -> int
    decreases ws.len(),
{
    if ws.len() == 0 {
        0
    } else {
        total_volume(ws.drop_last()) + volume_of(ws.last().exercises@)
    }
}

/// Total volumes are sums of nonnegative terms.
pub proof fn lemma_total_volume_nonneg(ws: Seq<Workout>)
    ensures
        total_volume(ws) >= 0,
    decreases ws.len(),
{
    if ws.len() > 0 {
        lemma_total_volume_nonneg(ws.drop_last());
        lemma_volume_nonneg(ws.last().exercises@);
    }
}

/// A prefix of workouts has at most the whole total volume.
pub proof fn lemma_total_volume_take_le(ws: Seq<Workout>, i: int)
    requires
        0 <= i <= ws.len(),
    ensures
        total_volume(ws.take(i)) <= total_volume(ws),
    decreases ws.len(),
{
    if i == ws.len() {
        lemma_take_all(ws);
    } else {
        assert(ws.take(i) =~= ws.drop_last().take(i));
        lemma_total_volume_take_le(ws.drop_last(), i);
        lemma_volume_nonneg(ws.last().exercises@);
    }
}

/// The numerator of the plain cross-multiplied sum of the intensity scores.
pub open spec fn scores_sum_num(ws: Seq<Workout>) -> nat
    decreases ws.len(),
{
    if ws.len() == 0 {
        0
    } else {
        scores_sum_num(ws.drop_last()) * score_den(ws.last()) + score_num(ws.last())
            * scores_sum_den(ws.drop_last())
    }
}

/// The denominator of the plain cross-multiplied sum of the intensity
/// scores: the product of the per-workout denominators.
pub open spec fn scores_sum_den(ws: Seq<Workout>) -> nat
    decreases ws.len(),
{
    if ws.len() == 0 {
        1
    } else {
        scores_sum_den(ws.drop_last()) * score_den(ws.last())
    }
}

/// The reduced running sum the computation keeps: after each addition the
/// greatest common divisor is divided out.
pub open spec fn scores_red_sum(ws: Seq<Workout>) -> (nat, nat)
    decreases ws.len(),
{
    if ws.len() == 0 {
        (0, 1)
    } else {
        let p = scores_red_sum(ws.drop_last());
        let c = score_num(ws.last());
        let d = score_den(ws.last());
        reduced(p.0 * d + c * p.1, p.1 * d)
    }
}

/// The denominator of the plain sum is positive.
pub proof fn lemma_sum_den_pos(ws: Seq<Workout>)
    ensures
        scores_sum_den(ws) > 0,
    decreases ws.len(),
{
    if ws.len() > 0 {
        lemma_sum_den_pos(ws.drop_last());
        assert(scores_sum_den(ws.drop_last()) * score_den(ws.last()) > 0) by (nonlinear_arith)
            requires
                scores_sum_den(ws.drop_last()) > 0,
                score_den(ws.last()) > 0,
        ;
    }
}

/// The reduced running sum denotes the same rational as the plain sum.
pub proof fn lemma_red_sum_eq(ws: Seq<Workout>)
    ensures
        scores_red_sum(ws).1 > 0,
        rat_eq(
            scores_red_sum(ws).0 as int,
            scores_red_sum(ws).1 as int,
            scores_sum_num(ws) as int,
            scores_sum_den(ws) as int,
        ),
    decreases ws.len(),
{
    lemma_sum_den_pos(ws);
    if ws.len() == 0 {
    } else {
        let wl = ws.drop_last();
        lemma_red_sum_eq(wl);
        lemma_sum_den_pos(wl);
        let p = scores_red_sum(wl);
        let c = score_num(ws.last());
        let d = score_den(ws.last());
        let q_num = p.0 * d + c * p.1;
        let q_den = p.1 * d;
        assert(p.1 * d > 0) by (nonlinear_arith)
            requires
                p.1 > 0,
                d > 0,
        ;
        lemma_reduced_eq(q_num, q_den);
        // The unreduced step equals the plain sum's step.
        lemma_rat_eq_add(
            p.0 as int,
            p.1 as int,
            scores_sum_num(wl) as int,
            scores_sum_den(wl) as int,
            c as int,
            d as int,
        );
        assert(scores_sum_den(ws) > 0);
        lemma_rat_eq_trans(
            scores_red_sum(ws).0 as int,
            scores_red_sum(ws).1 as int,
            q_num as int,
            q_den as int,
            scores_sum_num(ws) as int,
            scores_sum_den(ws) as int,
        );
    }
}

/// The machine-width bounds the average computation needs: every
/// per-workout score numerator, every reduced running total, each
/// cross-multiplied step, and the final reduced average fit the arithmetic
/// they pass through.
pub open spec fn average_fits(ws: Seq<Workout>) -> bool {
    &&& forall|i: int| 0 <= i < ws.len() ==> #[trigger] score_num(ws[i]) <= u64::MAX
    &&& forall|i: int|
        0 <= i <= ws.len() ==> (#[trigger] scores_red_sum(ws.take(i)).0 <= u64::MAX
            && scores_red_sum(ws.take(i)).1 <= u64::MAX)
    &&& forall|i: int|
        0 <= i < ws.len() ==> #[trigger] (scores_red_sum(ws.take(i)).0 * score_den(ws[i]))
            + score_num(ws[i]) * scores_red_sum(ws.take(i)).1 <= u128::MAX
    &&& (ws.len() > 0 ==> reduced(
        scores_red_sum(ws).0,
        scores_red_sum(ws).1 * ws.len(),
    ).0 <= u64::MAX && reduced(scores_red_sum(ws).0, scores_red_sum(ws).1 * ws.len()).1
        <= u64::MAX)
}

/// The total volume of the workouts, exactly.
pub fn total_volume_of(workouts: &Vec<Workout>) -> (v: u64)
    requires
        total_volume(workouts@) <= u64::MAX,
    ensures
        v as int == total_volume(workouts@),
{
    let ghost ws = workouts@;
    let n = workouts.len();
    let mut total: u64 = 0;
    let mut i: usize = 0;
    while i < n
        invariant
            n == ws.len(),
            ws == workouts@,
            i <= n,
            total_volume(ws) <= u64::MAX,
            total as int == total_volume(ws.take(i as int)),
        decreases n - i,
    {
        proof {
            lemma_take_succ(ws, i as int);
            lemma_total_volume_take_le(ws, i as int + 1);
            lemma_total_volume_nonneg(ws.take(i as int));
            lemma_volume_nonneg(ws[i as int].exercises@);
        }
        let wv = (&workouts[i]).calculate_volume();
        total = total + wv;
        i += 1;
    }
    proof {
        lemma_take_all(ws);
    }
    total
}

/// The mean of the per-workout intensity scores, exactly; 0 for an empty
/// collection.
pub fn average_intensity_of(workouts: &Vec<Workout>) -> (r: Ratio)
    requires
        average_fits(workouts@),
    ensures
        r.wf(),
        workouts@.len() == 0 ==> r.num == 0 && r.den == 1,
        workouts@.len() > 0 ==> rat_eq(
            r.num as int,
            r.den as int,
            scores_sum_num(workouts@) as int,
            scores_sum_den(workouts@) * workouts@.len() as int,
        ),
{
    let ghost ws = workouts@;
    let n = workouts.len();
    if n == 0 {
        return Ratio { num: 0, den: 1 };
    }
    let mut acc = Ratio { num: 0, den: 1 };
    let mut i: usize = 0;
    proof {
        assert(ws.take(0) =~= Seq::<Workout>::empty());
    }
    while i < n
        invariant
            n == ws.len(),
            ws == workouts@,
            i <= n,
            average_fits(ws),
            acc.wf(),
            acc.num as nat == scores_red_sum(ws.take(i as int)).0,
            acc.den as nat == scores_red_sum(ws.take(i as int)).1,
        decreases n - i,
    {
        proof {
            assert(score_num(ws[i as int]) <= u64::MAX);
            assert(scores_red_sum(ws.take(i as int + 1)).0 <= u64::MAX);
            lemma_take_succ(ws, i as int);
        }
        let sc = (&workouts[i]).calculate_intensity_score();
        acc = ratio_add_reduced(&acc, &sc);
        i += 1;
    }
    proof {
        lemma_take_all(ws);
        lemma_red_sum_eq(ws);
        lemma_sum_den_pos(ws);
    }
    let count = n as u64;
    let avg = ratio_div_count(&acc, count);
    proof {
        lemma_rat_eq_scale_den(
            acc.num as int,
            acc.den as int,
            scores_sum_num(ws) as int,
            scores_sum_den(ws) as int,
            n as int,
        );
        assert(scores_sum_den(ws) * ws.len() > 0) by (nonlinear_arith)
            requires
                scores_sum_den(ws) > 0,
                ws.len() > 0,
        ;
        lemma_rat_eq_trans(
            avg.num as int,
            avg.den as int,
            acc.num as int,
            acc.den * count,
            scores_sum_num(ws) as int,
            scores_sum_den(ws) * ws.len() as int,
        );
    }
    avg
}

} // verus!
