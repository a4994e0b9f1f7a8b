//! Training plans: an owned collection of workouts with a goal, and the
//! aggregate queries over it.
//!
//! Percentages in the muscle-balance analysis are exact rationals over the
//! common denominator `plan_weighted` (the grand total of sets over all
//! group mentions); their numerators therefore sum to exactly 100 times
//! that total — the percentages sum to exactly 100.

use vstd::prelude::*;
use vstd::assert_by_contradiction;

verus! {

use crate::rational::{Ratio, rat_eq, ratio_lt_int, ratio_gt_int, lemma_rat_eq_cmp_int};
use crate::distribution::{
    GroupSets, entries_map, entries_unique, entries_total, bump, lemma_entries_get,
    lemma_entries_dom, lemma_entry_le_total,
};
use crate::workout::{
    Workout, WorkoutAnalyzer, exercises_tally, groups_tally, weighted_sets_of,
    lemma_weighted_nonneg, lemma_weighted_take_le,
};
use crate::aggregate::{total_volume, average_fits, scores_sum_num, scores_sum_den,
    total_volume_of, average_intensity_of, lemma_sum_den_pos};
use crate::seqs::{lemma_take_succ, lemma_take_all};

/// What a plan is trying to achieve.
#[derive(Clone, Debug)]
pub enum TrainingGoal {
    Strength,
    Hypertrophy,
    Endurance,
    PowerLifting,
    BodyBuilding,
}

/// Why an aggregate query could not produce a value.
#[derive(Clone, Copy, Debug, PartialEq, Eq, Structural)]
pub enum AnalysisError {
    /// The plan holds no workouts.
    EmptyCollection,
    /// The plan has workouts, but no muscle group carries any sets, so
    /// percentage shares would divide zero by zero.
    DegenerateRatio,
}

/// One muscle group's share of the plan's sets, as an exact percentage.
#[derive(Clone, Debug)]
pub struct GroupShare {
    pub group: String,
    /// The group's percentage of all sets: 100 × group sets / total sets.
    pub percentage: Ratio,
}

/// A training plan: named, goal-directed, growing only by appending
/// workouts.
#[derive(Clone, Debug)]
pub struct WorkoutPlan {
    pub name: String,
    pub workouts: Vec<Workout>,
    pub goal: TrainingGoal,
}

/// The muscle-group tally over every workout of the plan, in order.
pub open spec fn plan_tally(ws: Seq<Workout>) -> Map<Seq<char>, int>
    decreases ws.len(),
{
    if ws.len() == 0 {
        Map::empty()
    } else {
        exercises_tally(plan_tally(ws.drop_last()), ws.last().exercises@)
    }
}

/// The plan-wide grand total of sets over all muscle-group mentions.
pub open spec fn plan_weighted(ws: Seq<Workout>) -> int
    decreases ws.len(),
{
    if ws.len() == 0 {
        0
    } else {
        plan_weighted(ws.drop_last()) + weighted_sets_of(ws.last().exercises@)
    }
}

/// The sum of the percentage numerators of a sequence of shares.
pub open spec fn share_sum(s: Seq<GroupShare>) -> int
    decreases s.len(),
{
    if s.len() == 0 {
        0
    } else {
        share_sum(s.drop_last()) + s.last().percentage.num
    }
}

/// Plan-wide weighted set totals are sums of nonnegative terms.
pub proof fn lemma_plan_weighted_nonneg(ws: Seq<Workout>)
    ensures
        plan_weighted(ws) >= 0,
    decreases ws.len(),
{
    if ws.len() > 0 {
        lemma_plan_weighted_nonneg(ws.drop_last());
        lemma_weighted_nonneg(ws.last().exercises@);
    }
}

/// A prefix of workouts has at most the whole weighted set total.
pub proof fn lemma_plan_weighted_take_le(ws: Seq<Workout>, i: int)
    requires
        0 <= i <= ws.len(),
    ensures
        plan_weighted(ws.take(i)) <= plan_weighted(ws),
    decreases ws.len(),
{
    if i == ws.len() {
        lemma_take_all(ws);
    } else {
        assert(ws.take(i) =~= ws.drop_last().take(i));
        lemma_plan_weighted_take_le(ws.drop_last(), i);
        lemma_weighted_nonneg(ws.last().exercises@);
    }
}

impl WorkoutPlan {
    /// An empty plan with the given name and goal.
    pub fn new(name: &str, goal: TrainingGoal) -> (p: WorkoutPlan)
        ensures
            p.name@ == name@,
            p.workouts@ == Seq::<Workout>::empty(),
            p.goal == goal,
    {
        WorkoutPlan { name: name.to_owned(), workouts: Vec::new(), goal }
    }

    /// Append a workout; nothing else changes.
    pub fn add_workout(&mut self, workout: Workout)
        ensures
            final(self).workouts@ == old(self).workouts@.push(workout),
            final(self).name == old(self).name,
            final(self).goal == old(self).goal,
    {
        self.workouts.push(workout);
    }

    /// The sum of every workout's volume; 0 for an empty plan.
    pub fn calculate_weekly_volume(&self) -> (v: u64)
        requires
            total_volume(self.workouts@) <= u64::MAX,
        ensures
            v as int == total_volume(self.workouts@),
    {
        total_volume_of(&self.workouts)
    }

    /// The mean of the workouts' intensity scores, exactly; 0 (not an
    /// error) when the plan is empty.
    pub fn get_average_intensity(&self) -> (r: Ratio)
        requires
            average_fits(self.workouts@),
        ensures
            r.wf(),
            self.workouts@.len() == 0 ==> r.num == 0 && r.den == 1,
            self.workouts@.len() > 0 ==> rat_eq(
                r.num as int,
                r.den as int,
                scores_sum_num(self.workouts@) as int,
                scores_sum_den(self.workouts@) * self.workouts@.len() as int,
            ),
    {
        average_intensity_of(&self.workouts)
    }

    /// Each muscle group's exact percentage of the plan's total sets.
    ///
    /// Fails with `EmptyCollection` on an empty plan, and with
    /// `DegenerateRatio` when a non-empty plan carries no sets at all (the
    /// shares would be 0/0). On success the shares list each tallied
    /// group once, every denominator is the grand total, and the numerators
    /// sum to 100 times the grand total: the percentages sum to exactly
    /// 100.
    pub fn analyze_muscle_balance(&self) -> (r: Result<Vec<GroupShare>, AnalysisError>)
        requires
            plan_weighted(self.workouts@) * 100 <= u64::MAX,
        ensures
            match r {
                Ok(shares) => {
                    let ws = self.workouts@;
                    let m = plan_tally(ws);
                    let t = plan_weighted(ws);
                    &&& ws.len() > 0
                    &&& t > 0
                    &&& shares@.len() > 0
                    &&& forall|i: int, j: int|
                        0 <= i < j < shares@.len() ==> shares@[i].group@ != shares@[j].group@
                    &&& forall|i: int|
                        0 <= i < shares@.len() ==> ((#[trigger] shares@[i]).percentage.den as int
                            == t && m.dom().contains(shares@[i].group@)
                            && shares@[i].percentage.num as int == 100 * m[shares@[i].group@])
                    &&& forall|g: Seq<char>|
                        #[trigger] m.dom().contains(g) ==> exists|i: int|
                            0 <= i < shares@.len() && shares@[i].group@ == g
                    &&& share_sum(shares@) == 100 * t
                    &&& rat_eq(share_sum(shares@), t, 100, 1)
                },
                Err(e) => if self.workouts@.len() == 0 {
                    e == AnalysisError::EmptyCollection
                } else {
                    plan_weighted(self.workouts@) == 0 && e == AnalysisError::DegenerateRatio
                },
            },
    {
        let ghost ws = self.workouts@;
        let n = self.workouts.len();
        if n == 0 {
            return Err(AnalysisError::EmptyCollection);
        }
        proof {
            lemma_plan_weighted_nonneg(ws);
            assert(plan_weighted(ws) <= plan_weighted(ws) * 100) by (nonlinear_arith)
                requires
                    plan_weighted(ws) >= 0,
            ;
        }
        let mut tally: Vec<GroupSets> = Vec::new();
        let mut total: u64 = 0;
        let mut i: usize = 0;
        while i < n
            invariant
                n == ws.len(),
                ws == self.workouts@,
                i <= n,
                plan_weighted(ws) <= u64::MAX,
                entries_unique(tally@),
                entries_map(tally@) == plan_tally(ws.take(i as int)),
                entries_total(tally@) == plan_weighted(ws.take(i as int)),
                total as int == entries_total(tally@),
            decreases n - i,
        {
            let w = &self.workouts[i];
            let ghost exs = w.exercises@;
            let ghost m0 = entries_map(tally@);
            let ghost t0 = entries_total(tally@);
            let e_count = w.exercises.len();
            let mut j: usize = 0;
            while j < e_count
                invariant
                    *w == ws[i as int],
                    exs == ws[i as int].exercises@,
                    e_count == exs.len(),
                    i < ws.len(),
                    ws == self.workouts@,
                    j <= e_count,
                    plan_weighted(ws) <= u64::MAX,
                    t0 == plan_weighted(ws.take(i as int)),
                    m0 == plan_tally(ws.take(i as int)),
                    entries_unique(tally@),
                    entries_map(tally@) == exercises_tally(m0, exs.take(j as int)),
                    entries_total(tally@) == t0 + weighted_sets_of(exs.take(j as int)),
                    total as int == entries_total(tally@),
                decreases e_count - j,
            {
                let e = &w.exercises[j];
                let ghost gs = e.muscle_groups@;
                let ghost m1 = entries_map(tally@);
                let ghost t1 = entries_total(tally@);
                let k = e.sets as u64;
                let g_count = e.muscle_groups.len();
                let mut l: usize = 0;
                while l < g_count
                    invariant
                        *e == ws[i as int].exercises@[j as int],
                        gs == ws[i as int].exercises@[j as int].muscle_groups@,
                        g_count == gs.len(),
                        *w == ws[i as int],
                        exs == ws[i as int].exercises@,
                        i < ws.len(),
                        j < exs.len(),
                        ws == self.workouts@,
                        l <= g_count,
                        k == ws[i as int].exercises@[j as int].sets,
                        plan_weighted(ws) <= u64::MAX,
                        t0 == plan_weighted(ws.take(i as int)),
                        m0 == plan_tally(ws.take(i as int)),
                        t1 == t0 + weighted_sets_of(exs.take(j as int)),
                        m1 == exercises_tally(m0, exs.take(j as int)),
                        entries_unique(tally@),
                        entries_map(tally@) == groups_tally(m1, gs.take(l as int), k as int),
                        entries_total(tally@) == t1 + l * k,
                        total as int == entries_total(tally@),
                    decreases g_count - l,
                {
                    proof {
                        lemma_take_succ(gs, l as int);
                        lemma_take_succ(exs, j as int);
                        lemma_take_succ(ws, i as int);
                        lemma_plan_weighted_take_le(ws, i as int + 1);
                        lemma_weighted_take_le(exs, j as int + 1);
                        lemma_weighted_nonneg(exs.take(j as int));
                        lemma_plan_weighted_nonneg(ws.take(i as int));
                        assert((l + 1) * k <= gs.len() * k) by (nonlinear_arith)
                            requires
                                0 <= l,
                                l + 1 <= gs.len(),
                                k >= 0,
                        ;
                        assert(l * k + k == (l + 1) * k) by (nonlinear_arith);
                        assert(weighted_sets_of(exs.take(j as int + 1)) == weighted_sets_of(
                            exs.take(j as int),
                        ) + exs[j as int].muscle_groups@.len() * exs[j as int].sets);
                        assert(plan_weighted(ws.take(i as int + 1)) == plan_weighted(
                            ws.take(i as int),
                        ) + weighted_sets_of(ws[i as int].exercises@));
                    }
                    bump(&mut tally, &e.muscle_groups[l], k);
                    total = total + k;
                    l += 1;
                }
                proof {
                    lemma_take_all(gs);
                    lemma_take_succ(exs, j as int);
                    assert(gs.len() * k == exs[j as int].muscle_groups@.len() * exs[
                        j as int
                    ].sets);
                }
                j += 1;
            }
            proof {
                lemma_take_all(exs);
                lemma_take_succ(ws, i as int);
            }
            i += 1;
        }
        proof {
            lemma_take_all(ws);
        }
        if total == 0 {
            return Err(AnalysisError::DegenerateRatio);
        }
        let ghost m_final = entries_map(tally@);
        let m = tally.len();
        let mut shares: Vec<GroupShare> = Vec::new();
        let mut idx: usize = 0;
        proof {
            assert(tally@.take(0) =~= Seq::<GroupSets>::empty());
        }
        while idx < m
            invariant
                m == tally@.len(),
                idx <= m,
                shares@.len() == idx,
                entries_unique(tally@),
                entries_map(tally@) == m_final,
                m_final == plan_tally(ws),
                entries_total(tally@) == plan_weighted(ws),
                total as int == plan_weighted(ws),
                total > 0,
                plan_weighted(ws) * 100 <= u64::MAX,
                forall|q: int|
                    0 <= q < idx ==> ((#[trigger] shares@[q]).group@ == tally@[q].name@
                        && shares@[q].percentage.num as int == 100 * tally@[q].sets as int
                        && shares@[q].percentage.den == total),
                share_sum(shares@) == 100 * entries_total(tally@.take(idx as int)),
            decreases m - idx,
        {
            let entry = &tally[idx];
            proof {
                lemma_entry_le_total(tally@, idx as int);
                assert(entry.sets * 100 <= plan_weighted(ws) * 100) by (nonlinear_arith)
                    requires
                        entry.sets as int <= plan_weighted(ws),
                ;
                lemma_take_succ(tally@, idx as int);
            }
            let num = entry.sets * 100;
            let share = GroupShare { group: entry.name.clone(), percentage: Ratio { num, den: total } };
            let ghost sh0 = shares@;
            shares.push(share);
            proof {
                assert(shares@.drop_last() =~= sh0);
                assert(share_sum(shares@) == share_sum(sh0) + num);
                assert(entries_total(tally@.take(idx as int + 1)) == entries_total(
                    tally@.take(idx as int),
                ) + tally@[idx as int].sets);
            }
            idx += 1;
        }
        proof {
            lemma_take_all(tally@);
            assert(tally@.len() > 0);
            assert forall|i2: int| 0 <= i2 < shares@.len() implies ((#[trigger] shares@[
                i2
            ]).percentage.den as int == plan_weighted(ws) && m_final.dom().contains(
                shares@[i2].group@,
            ) && shares@[i2].percentage.num as int == 100 * m_final[shares@[i2].group@]) by {
                assert(shares@[i2].group@ == tally@[i2].name@);
                lemma_entries_get(tally@, i2);
            }
            assert forall|g: Seq<char>| #[trigger] m_final.dom().contains(g) implies exists|
                i2: int,
            | 0 <= i2 < shares@.len() && shares@[i2].group@ == g by {
                lemma_entries_dom(tally@, g);
                let w_idx = choose|i2: int| 0 <= i2 < tally@.len() && tally@[i2].name@ == g;
                assert(shares@[w_idx].group@ == g);
            }
        }
        Ok(shares)
    }

    /// Adjustment advice for the plan, in order: a balance warning when the
    /// muscle-group percentage spread exceeds 30 points, then at most one
    /// goal-specific rule, then a fallback message if nothing else fired.
    /// Always returns at least one recommendation.
    pub fn recommend_adjustments(&self) -> (r: Vec<String>)
        requires
            plan_weighted(self.workouts@) * 100 <= u64::MAX,
            average_fits(self.workouts@),
        ensures
            strs(r@) == spec_recommendations(*self),
            r@.len() >= 1,
    {
        let ghost ws = self.workouts@;
        let mut recs: Vec<String> = Vec::new();
        match self.analyze_muscle_balance() {
            Ok(shares) => {
                let ghost m = plan_tally(ws);
                let t = shares[0].percentage.den;
                let mut maxv = shares[0].percentage.num;
                let mut minv = shares[0].percentage.num;
                let ghost mut max_at: int = 0;
                let ghost mut min_at: int = 0;
                let s_len = shares.len();
                let mut q: usize = 1;
                while q < s_len
                    invariant
                        s_len == shares@.len(),
                        1 <= q <= s_len,
                        0 <= max_at < q,
                        0 <= min_at < q,
                        maxv == shares@[max_at].percentage.num,
                        minv == shares@[min_at].percentage.num,
                        forall|z: int|
                            0 <= z < q ==> (#[trigger] shares@[z]).percentage.num <= maxv,
                        forall|z: int|
                            0 <= z < q ==> (#[trigger] shares@[z]).percentage.num >= minv,
                    decreases s_len - q,
                {
                    let v = shares[q].percentage.num;
                    if v > maxv {
                        maxv = v;
                        proof {
                            max_at = q as int;
                        }
                    }
                    if v < minv {
                        minv = v;
                        proof {
                            min_at = q as int;
                        }
                    }
                    q += 1;
                }
                proof {
                    assert(minv <= shares@[max_at].percentage.num);
                }
                if (maxv - minv) as u128 > 30u128 * (t as u128) {
                    proof {
                        let g1 = shares@[max_at].group@;
                        let g2 = shares@[min_at].group@;
                        assert(m.dom().contains(g1) && m.dom().contains(g2));
                        assert(100 * m[g1] - 100 * m[g2] > 30 * plan_weighted(ws));
                        assert(spread_exceeds(ws));
                    }
                    recs.push("Consider balancing muscle group distribution".to_owned());
                    proof {
                        assert(strs(recs@) =~= balance_part(ws));
                    }
                } else {
                    proof {
                        assert_by_contradiction!(!spread_exceeds(ws), {
                            let (g1, g2) = choose|g1: Seq<char>, g2: Seq<char>|
                                #[trigger] m.dom().contains(g1) && #[trigger] m.dom().contains(g2)
                                    && 100 * m[g1] - 100 * m[g2] > 30 * plan_weighted(ws);
                            let i1 = choose|i: int|
                                0 <= i < shares@.len() && shares@[i].group@ == g1;
                            let i2 = choose|i: int|
                                0 <= i < shares@.len() && shares@[i].group@ == g2;
                            assert(shares@[i1].percentage.num as int == 100 * m[g1]);
                            assert(shares@[i2].percentage.num as int == 100 * m[g2]);
                            assert(shares@[i1].percentage.num <= maxv);
                            assert(shares@[i2].percentage.num >= minv);
                        });
                        assert(strs(recs@) =~= balance_part(ws));
                    }
                }
            },
            Err(_) => {
                proof {
                    assert(strs(recs@) =~= balance_part(ws));
                }
            },
        }
        let ghost base1 = strs(recs@);
        let avg = self.get_average_intensity();
        proof {
            if ws.len() > 0 {
                lemma_sum_den_pos(ws);
                assert(scores_sum_den(ws) * ws.len() > 0) by (nonlinear_arith)
                    requires
                        scores_sum_den(ws) > 0,
                        ws.len() > 0,
                ;
            }
        }
        match &self.goal {
            TrainingGoal::Strength => {
                let fire = ratio_lt_int(&avg, 50);
                proof {
                    if ws.len() > 0 {
                        lemma_rat_eq_cmp_int(
                            avg.num as int,
                            avg.den as int,
                            scores_sum_num(ws) as int,
                            (scores_sum_den(ws) * ws.len()) as int,
                            50,
                        );
                    }
                    assert(fire == avg_below(ws, 50));
                }
                if fire {
                    recs.push("Increase intensity for strength gains".to_owned());
                }
                proof {
                    assert(strs(recs@) =~= base1 + goal_part(*self));
                }
            },
            TrainingGoal::Hypertrophy => {
                let fire = ratio_gt_int(&avg, 80);
                proof {
                    if ws.len() > 0 {
                        lemma_rat_eq_cmp_int(
                            avg.num as int,
                            avg.den as int,
                            scores_sum_num(ws) as int,
                            (scores_sum_den(ws) * ws.len()) as int,
                            80,
                        );
                    }
                    assert(fire == avg_above(ws, 80));
                }
                if fire {
                    recs.push("Consider reducing intensity for better recovery".to_owned());
                }
                proof {
                    assert(strs(recs@) =~= base1 + goal_part(*self));
                }
            },
            TrainingGoal::Endurance => {
                let mut found = false;
                let wn = self.workouts.len();
                let mut z: usize = 0;
                while z < wn
                    invariant
                        wn == ws.len(),
                        ws == self.workouts@,
                        z <= wn,
                        found <==> exists|y: int|
                            0 <= y < z && (#[trigger] ws[y]).duration < 30,
                    decreases wn - z,
                {
                    if self.workouts[z].duration < 30 {
                        found = true;
                        proof {
                            assert(ws[z as int].duration < 30);
                        }
                    }
                    z += 1;
                }
                if found {
                    recs.push("Increase workout duration for endurance goals".to_owned());
                }
                proof {
                    assert(strs(recs@) =~= base1 + goal_part(*self));
                }
            },
            TrainingGoal::PowerLifting => {
                proof {
                    assert(strs(recs@) =~= base1 + goal_part(*self));
                }
            },
            TrainingGoal::BodyBuilding => {
                proof {
                    assert(strs(recs@) =~= base1 + goal_part(*self));
                }
            },
        }
        if recs.len() == 0 {
            recs.push("Workout plan looks well-balanced!".to_owned());
            proof {
                assert(strs(recs@) =~= spec_recommendations(*self));
            }
        } else {
            proof {
                assert(strs(recs@) =~= spec_recommendations(*self));
            }
        }
        recs
    }
}

/// The views of a sequence of strings.
pub open spec fn strs(s: Seq<String>) -> Seq<Seq<char>> {
    s.map_values(|x: String| x@)
}

/// Whether the exact average intensity score is below the whole number `k`.
pub open spec fn avg_below(ws: Seq<Workout>, k: int) -> bool {
    if ws.len() == 0 {
        0 < k
    } else {
        (scores_sum_num(ws) as int) < k * ((scores_sum_den(ws) * ws.len()) as int)
    }
}

/// Whether the exact average intensity score is above the whole number `k`.
pub open spec fn avg_above(ws: Seq<Workout>, k: int) -> bool {
    if ws.len() == 0 {
        0 > k
    } else {
        (scores_sum_num(ws) as int) > k * ((scores_sum_den(ws) * ws.len()) as int)
    }
}

/// Whether two muscle groups' percentage shares lie more than 30 points
/// apart: the spread between the largest and smallest share exceeds 30.
pub open spec fn spread_exceeds(ws: Seq<Workout>) -> bool {
    exists|g1: Seq<char>, g2: Seq<char>|
        #[trigger] plan_tally(ws).dom().contains(g1) && #[trigger] plan_tally(ws).dom().contains(
            g2,
        ) && 100 * plan_tally(ws)[g1] - 100 * plan_tally(ws)[g2] > 30 * plan_weighted(ws)
}

/// The balance warning, when the spread rule fires.
pub open spec fn balance_part(ws: Seq<Workout>) -> Seq<Seq<char>> {
    if ws.len() > 0 && plan_weighted(ws) > 0 && spread_exceeds(ws) {
        seq!["Consider balancing muscle group distribution"@]
    } else {
        Seq::empty()
    }
}

/// The single goal-specific recommendation, if its condition holds.
pub open spec fn goal_part(p: WorkoutPlan) -> Seq<Seq<char>> {
    match p.goal {
        TrainingGoal::Strength => if avg_below(p.workouts@, 50) {
            seq!["Increase intensity for strength gains"@]
        } else {
            Seq::empty()
        },
        TrainingGoal::Hypertrophy => if avg_above(p.workouts@, 80) {
            seq!["Consider reducing intensity for better recovery"@]
        } else {
            Seq::empty()
        },
        TrainingGoal::Endurance => if exists|i: int|
            0 <= i < p.workouts@.len() && (#[trigger] p.workouts@[i]).duration < 30 {
            seq!["Increase workout duration for endurance goals"@]
        } else {
            Seq::empty()
        },
        TrainingGoal::PowerLifting => Seq::empty(),
        TrainingGoal::BodyBuilding => Seq::empty(),
    }
}

/// What `recommend_adjustments` returns: the balance warning, then the
/// goal rule's message, or the fallback when neither fired.
pub open spec fn spec_recommendations(p: WorkoutPlan) -> Seq<Seq<char>> {
    let base = balance_part(p.workouts@) + goal_part(p);
    if base.len() == 0 {
        seq!["Workout plan looks well-balanced!"@]
    } else {
        base
    }
}

} // verus!
