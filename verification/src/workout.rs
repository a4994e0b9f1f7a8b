//! Workout records and per-workout analysis.
//!
//! Weights are nonnegative integers in a caller-chosen unit, so a volume is
//! an exact integer. An intensity score is an exact rational number: the
//! qualitative intensity multipliers are halves (1/2, 1, 3/2, 2), and the
//! duration factor divides 60 by the duration.

use vstd::prelude::*;

verus! {

use crate::rational::Ratio;
use crate::distribution::{
    GroupSets, entries_map, entries_unique, entries_total, tally_add, bump,
};
use crate::seqs::{lemma_take_succ, lemma_take_all};

/// One exercise of a workout.
#[derive(Clone, Debug)]
pub struct Exercise {
    pub name: String,
    /// Muscle groups the exercise trains; duplicates count independently.
    pub muscle_groups: Vec<String>,
    pub sets: u32,
    pub reps: u32,
    /// Weight moved, in a caller-chosen integer unit.
    pub weight: u32,
    /// Rest between sets, in seconds; informational only.
    pub rest_time: u32,
}

/// How hard a workout was, as a closed scale.
#[derive(Clone, Debug, PartialEq)]
pub enum WorkoutIntensity {
    Low,
    Moderate,
    High,
    Extreme,
}

impl WorkoutIntensity {
    /// The fixed score multiplier of this intensity, counted in halves:
    /// Low is 1/2, Moderate 1, High 3/2, Extreme 2.
    pub open spec fn spec_multiplier_halves(self) -> nat {
        match self {
            WorkoutIntensity::Low => 1,
            WorkoutIntensity::Moderate => 2,
            WorkoutIntensity::High => 3,
            WorkoutIntensity::Extreme => 4,
        }
    }

    /// The multiplier in halves, as a value.
    pub fn multiplier_halves(&self) -> (m: u32)
        ensures
            m as nat == self.spec_multiplier_halves(),
            1 <= m <= 4,
    {
        match self {
            WorkoutIntensity::Low => 1,
            WorkoutIntensity::Moderate => 2,
            WorkoutIntensity::High => 3,
            WorkoutIntensity::Extreme => 4,
        }
    }

    /// The intensity's name.
    pub fn label(&self) -> (s: String)
        ensures
            s@ == match self {
                WorkoutIntensity::Low => "Low"@,
                WorkoutIntensity::Moderate => "Moderate"@,
                WorkoutIntensity::High => "High"@,
                WorkoutIntensity::Extreme => "Extreme"@,
            },
    {
        match self {
            WorkoutIntensity::Low => "Low".to_owned(),
            WorkoutIntensity::Moderate => "Moderate".to_owned(),
            WorkoutIntensity::High => "High".to_owned(),
            WorkoutIntensity::Extreme => "Extreme".to_owned(),
        }
    }
}

/// One recorded workout.
#[derive(Clone, Debug)]
pub struct Workout {
    /// Caller-assigned, opaque.
    pub id: String,
    /// Caller-formatted, opaque.
    pub date: String,
    pub exercises: Vec<Exercise>,
    /// Minutes.
    pub duration: u32,
    pub intensity: WorkoutIntensity,
}

/// sets × reps × weight of one exercise.
pub open spec fn exercise_volume(e: Exercise) -> int {
    e.sets * e.reps * e.weight
}

/// The total volume of a sequence of exercises.
pub open spec fn volume_of(exs: Seq<Exercise>) -> int
    decreases exs.len(),
{
    if exs.len() == 0 {
        0
    } else {
        volume_of(exs.drop_last()) + exercise_volume(exs.last())
    }
}

/// The numerator of a workout's intensity score:
/// exercise count × 10, times 60/duration (or 1 when the duration is 0),
/// times the intensity multiplier, written over the denominator below.
pub open spec fn score_num(w: Workout) -> nat {
    if w.duration > 0 {
        w.exercises@.len() * 300 * w.intensity.spec_multiplier_halves()
    } else {
        w.exercises@.len() * 5 * w.intensity.spec_multiplier_halves()
    }
}

/// The denominator of a workout's intensity score.
pub open spec fn score_den(w: Workout) -> nat {
    if w.duration > 0 {
        w.duration as nat
    } else {
        1
    }
}

/// Muscle groups of one tallied sequence of group names, each adding `k`
/// sets, applied left to right.
pub open spec fn groups_tally(m: Map<Seq<char>, int>, gs: Seq<String>, k: int) -> Map<
    Seq<char>,
    int,
>
    decreases gs.len(),
{
    if gs.len() == 0 {
        m
    } else {
        tally_add(groups_tally(m, gs.drop_last(), k), gs.last()@, k)
    }
}

/// The tally after processing a sequence of exercises, left to right.
pub open spec fn exercises_tally(m: Map<Seq<char>, int>, exs: Seq<Exercise>) -> Map<
    Seq<char>,
    int,
>
    decreases exs.len(),
{
    if exs.len() == 0 {
        m
    } else {
        groups_tally(
            exercises_tally(m, exs.drop_last()),
            exs.last().muscle_groups@,
            exs.last().sets as int,
        )
    }
}

/// How many sets one exercise contributes over all its group names.
pub open spec fn exercise_weighted_sets(e: Exercise) -> int {
    e.muscle_groups@.len() * e.sets
}

/// The grand total of sets contributed by a sequence of exercises.
pub open spec fn weighted_sets_of(exs: Seq<Exercise>) -> int
    decreases exs.len(),
{
    if exs.len() == 0 {
        0
    } else {
        weighted_sets_of(exs.drop_last()) + exercise_weighted_sets(exs.last())
    }
}

/// Volumes are sums of nonnegative terms.
pub proof fn lemma_volume_nonneg(exs: Seq<Exercise>)
    ensures
        volume_of(exs) >= 0,
    decreases exs.len(),
{
    if exs.len() > 0 {
        lemma_volume_nonneg(exs.drop_last());
        let e = exs.last();
        assert(exercise_volume(e) >= 0) by (nonlinear_arith);
    }
}

/// A prefix of exercises has at most the whole volume.
pub proof fn lemma_volume_take_le(exs: Seq<Exercise>, i: int)
    requires
        0 <= i <= exs.len(),
    ensures
        volume_of(exs.take(i)) <= volume_of(exs),
    decreases exs.len(),
{
    if i == exs.len() {
        lemma_take_all(exs);
    } else {
        assert(exs.take(i) =~= exs.drop_last().take(i));
        lemma_volume_take_le(exs.drop_last(), i);
        let e = exs.last();
        assert(exercise_volume(e) >= 0) by (nonlinear_arith);
    }
}

/// Weighted set totals are sums of nonnegative terms.
pub proof fn lemma_weighted_nonneg(exs: Seq<Exercise>)
    ensures
        weighted_sets_of(exs) >= 0,
    decreases exs.len(),
{
    if exs.len() > 0 {
        lemma_weighted_nonneg(exs.drop_last());
        let e = exs.last();
        assert(exercise_weighted_sets(e) >= 0) by (nonlinear_arith);
    }
}

/// A prefix of exercises has at most the whole weighted set total.
pub proof fn lemma_weighted_take_le(exs: Seq<Exercise>, i: int)
    requires
        0 <= i <= exs.len(),
    ensures
        weighted_sets_of(exs.take(i)) <= weighted_sets_of(exs),
    decreases exs.len(),
{
    if i == exs.len() {
        lemma_take_all(exs);
    } else {
        assert(exs.take(i) =~= exs.drop_last().take(i));
        lemma_weighted_take_le(exs.drop_last(), i);
        let e = exs.last();
        assert(exercise_weighted_sets(e) >= 0) by (nonlinear_arith);
    }
}

/// A workout with no exercises has volume 0: the sum over an empty
/// exercise list is empty.
pub proof fn lemma_empty_workout_volume(w: Workout)
    requires
        w.exercises@.len() == 0,
    ensures
        w.spec_volume() == 0,
{
}

/// Per-workout derived metrics.
pub trait WorkoutAnalyzer {
    /// The exact training volume.
    spec fn spec_volume(&self) -> int;

    /// Numerator of the exact intensity score.
    spec fn spec_score_num(&self) -> nat;

    /// Denominator of the exact intensity score; always positive.
    spec fn spec_score_den(&self) -> nat;

    /// The muscle-group tally: group name to total sets.
    spec fn spec_distribution(&self) -> Map<Seq<char>, int>;

    /// The grand total of sets over all group mentions.
    spec fn spec_weighted_sets(&self) -> int;

    /// The training volume: the sum over the exercises of
    /// sets × reps × weight.
    fn calculate_volume(&self) -> (v: u64)
        requires
            self.spec_volume() <= u64::MAX,
        ensures
            v as int == self.spec_volume();

    /// The intensity score, as an exact rational number.
    fn calculate_intensity_score(&self) -> (s: Ratio)
        requires
            self.spec_score_num() <= u64::MAX,
        ensures
            s.wf(),
            s.num as nat == self.spec_score_num(),
            s.den as nat == self.spec_score_den();

    /// The tally of sets per muscle group, over all exercises.
    fn get_muscle_group_distribution(&self) -> (d: Vec<GroupSets>)
        requires
            self.spec_weighted_sets() <= u64::MAX,
        ensures
            entries_unique(d@),
            entries_map(d@) == self.spec_distribution(),
            entries_total(d@) == self.spec_weighted_sets();
}

impl WorkoutAnalyzer for Workout {
    open spec fn spec_volume(&self) -> int {
        volume_of(self.exercises@)
    }

    open spec fn spec_score_num(&self) -> nat {
        score_num(*self)
    }

    open spec fn spec_score_den(&self) -> nat {
        score_den(*self)
    }

    open spec fn spec_distribution(&self) -> Map<Seq<char>, int> {
        exercises_tally(Map::empty(), self.exercises@)
    }

    open spec fn spec_weighted_sets(&self) -> int {
        weighted_sets_of(self.exercises@)
    }

    fn calculate_volume(&self) -> (v: u64) {
        let ghost exs = self.exercises@;
        let n = self.exercises.len();
        let mut total: u64 = 0;
        let mut i: usize = 0;
        while i < n
            invariant
                n == exs.len(),
                exs == self.exercises@,
                i <= n,
                volume_of(exs) <= u64::MAX,
                total as int == volume_of(exs.take(i as int)),
            decreases n - i,
        {
            let e = &self.exercises[i];
            proof {
                assert(e.sets * e.reps <= u64::MAX) by (nonlinear_arith)
                    requires
                        e.sets <= u32::MAX,
                        e.reps <= u32::MAX,
                ;
                assert(0 <= e.sets * e.reps * e.weight <= u128::MAX) by (nonlinear_arith)
                    requires
                        0 <= e.sets * e.reps <= u64::MAX,
                        e.weight <= u32::MAX,
                ;
                lemma_take_succ(exs, i as int);
                lemma_volume_take_le(exs, i as int + 1);
                lemma_volume_nonneg(exs.take(i as int));
            }
            let term: u128 = (e.sets as u128) * (e.reps as u128) * (e.weight as u128);
            total = total + (term as u64);
            i += 1;
        }
        proof {
            lemma_take_all(exs);
        }
        total
    }

    fn calculate_intensity_score(&self) -> (s: Ratio) {
        let count = self.exercises.len() as u64;
        let mh = self.intensity.multiplier_halves() as u64;
        if self.duration > 0 {
            proof {
                assert(count * (300 * mh) == count * 300 * mh) by (nonlinear_arith);
                assert(count * (300 * mh) <= u128::MAX) by (nonlinear_arith)
                    requires
                        count <= u64::MAX,
                        mh <= 4,
                ;
            }
            let num: u128 = (count as u128) * (300 * mh as u128);
            Ratio { num: num as u64, den: self.duration as u64 }
        } else {
            proof {
                assert(count * (5 * mh) == count * 5 * mh) by (nonlinear_arith);
                assert(count * (5 * mh) <= u128::MAX) by (nonlinear_arith)
                    requires
                        count <= u64::MAX,
                        mh <= 4,
                ;
            }
            let num: u128 = (count as u128) * (5 * mh as u128);
            Ratio { num: num as u64, den: 1 }
        }
    }

    fn get_muscle_group_distribution(&self) -> (d: Vec<GroupSets>) {
        let ghost exs = self.exercises@;
        let mut tally: Vec<GroupSets> = Vec::new();
        let n = self.exercises.len();
        let mut i: usize = 0;
        while i < n
            invariant
                n == exs.len(),
                exs == self.exercises@,
                i <= n,
                weighted_sets_of(exs) <= u64::MAX,
                entries_unique(tally@),
                entries_map(tally@) == exercises_tally(Map::empty(), exs.take(i as int)),
                entries_total(tally@) == weighted_sets_of(exs.take(i as int)),
            decreases n - i,
        {
            let e = &self.exercises[i];
            let ghost gs = e.muscle_groups@;
            let ghost m0 = entries_map(tally@);
            let ghost t0 = entries_total(tally@);
            let k = e.sets as u64;
            let g_count = e.muscle_groups.len();
            let mut j: usize = 0;
            while j < g_count
                invariant
                    g_count == gs.len(),
                    *e == self.exercises@[i as int],
                    gs == self.exercises@[i as int].muscle_groups@,
                    i < exs.len(),
                    exs == self.exercises@,
                    j <= g_count,
                    k == self.exercises@[i as int].sets,
                    weighted_sets_of(exs) <= u64::MAX,
                    t0 == weighted_sets_of(exs.take(i as int)),
                    m0 == exercises_tally(Map::empty(), exs.take(i as int)),
                    entries_unique(tally@),
                    entries_map(tally@) == groups_tally(m0, gs.take(j as int), k as int),
                    entries_total(tally@) == t0 + j * k,
                decreases g_count - j,
            {
                proof {
                    lemma_take_succ(gs, j as int);
                    lemma_take_succ(exs, i as int);
                    lemma_weighted_take_le(exs, i as int + 1);
                    lemma_weighted_nonneg(exs.take(i as int));
                    assert((j + 1) * k <= gs.len() * k) by (nonlinear_arith)
                        requires
                            0 <= j,
                            j + 1 <= gs.len(),
                            k >= 0,
                    ;
                    assert(j * k + k == (j + 1) * k) by (nonlinear_arith);
                    assert(weighted_sets_of(exs.take(i as int + 1)) == weighted_sets_of(
                        exs.take(i as int),
                    ) + exs[i as int].muscle_groups@.len() * exs[i as int].sets);
                }
                bump(&mut tally, &e.muscle_groups[j], k);
                j += 1;
            }
            proof {
                lemma_take_all(gs);
                lemma_take_succ(exs, i as int);
                assert(gs.len() * k == exs[i as int].muscle_groups@.len() * exs[i as int].sets);
            }
            i += 1;
        }
        proof {
            lemma_take_all(exs);
        }
        tally
    }
}

} // verus!
