//! Helpers over arbitrary workout collections, not tied to a plan:
//! volume comparison and batch summaries.

use vstd::prelude::*;

verus! {

use core::cmp::Ordering;
use crate::rational::{Ratio, rat_eq};
use crate::workout::{Workout, Exercise, WorkoutAnalyzer};
use crate::aggregate::{
    total_volume, average_fits, scores_sum_num, scores_sum_den, total_volume_of,
    average_intensity_of,
};
use crate::seqs::{lemma_take_succ, lemma_take_all};

/// Order two analyzable workouts strictly by their volume.
pub fn compare_workouts<T: WorkoutAnalyzer>(workout1: &T, workout2: &T) -> (r: Ordering)
    requires
        workout1.spec_volume() <= u64::MAX,
        workout2.spec_volume() <= u64::MAX,
    ensures
        (r == Ordering::Less <==> workout1.spec_volume() < workout2.spec_volume()),
        (r == Ordering::Greater <==> workout1.spec_volume() > workout2.spec_volume()),
        (r == Ordering::Equal <==> workout1.spec_volume() == workout2.spec_volume()),
{
    let volume1 = workout1.calculate_volume();
    let volume2 = workout2.calculate_volume();
    if volume1 < volume2 {
        Ordering::Less
    } else if volume1 > volume2 {
        Ordering::Greater
    } else {
        Ordering::Equal
    }
}

/// The distinct exercise names after a sequence of exercises, starting
/// from the names already seen.
pub open spec fn names_in_exercises(s: Set<Seq<char>>, exs: Seq<Exercise>) -> Set<Seq<char>>
    decreases exs.len(),
{
    if exs.len() == 0 {
        s
    } else {
        names_in_exercises(s, exs.drop_last()).insert(exs.last().name@)
    }
}

/// The set of distinct exercise names over all workouts of the batch.
pub open spec fn batch_names(ws: Seq<Workout>) -> Set<Seq<char>>
    decreases ws.len(),
{
    if ws.len() == 0 {
        Set::empty()
    } else {
        names_in_exercises(batch_names(ws.drop_last()), ws.last().exercises@)
    }
}

/// The set of views of a list of strings.
pub open spec fn names_of(v: Seq<String>) -> Set<Seq<char>>
    decreases v.len(),
{
    if v.len() == 0 {
        Set::empty()
    } else {
        names_of(v.drop_last()).insert(v.last()@)
    }
}

/// No string view occurs twice in the list.
pub open spec fn names_unique(v: Seq<String>) -> bool {
    forall|i: int, j: int| 0 <= i < j < v.len() ==> v[i]@ != v[j]@
}

/// A view is in the set exactly when some list element carries it.
proof fn lemma_names_of_contains(v: Seq<String>, g: Seq<char>)
    ensures
        names_of(v).contains(g) <==> exists|i: int| 0 <= i < v.len() && v[i]@ == g,
    decreases v.len(),
{
    if v.len() > 0 {
        lemma_names_of_contains(v.drop_last(), g);
        if v.last()@ == g {
            assert(v[v.len() - 1]@ == g);
        } else {
            if names_of(v).contains(g) {
                let i = choose|i: int| 0 <= i < v.drop_last().len() && v.drop_last()[i]@ == g;
                assert(v[i]@ == g);
            }
            if exists|i: int| 0 <= i < v.len() && v[i]@ == g {
                let i = choose|i: int| 0 <= i < v.len() && v[i]@ == g;
                assert(v.drop_last()[i]@ == g);
            }
        }
    }
}

/// The name sets are finite.
proof fn lemma_names_of_finite(v: Seq<String>)
    ensures
        names_of(v).finite(),
    decreases v.len(),
{
    if v.len() > 0 {
        lemma_names_of_finite(v.drop_last());
    }
}

/// A list without repeated views has as many elements as its set of views.
proof fn lemma_names_of_len(v: Seq<String>)
    requires
        names_unique(v),
    ensures
        names_of(v).finite(),
        names_of(v).len() == v.len(),
    decreases v.len(),
{
    lemma_names_of_finite(v);
    if v.len() > 0 {
        assert(names_unique(v.drop_last()));
        lemma_names_of_len(v.drop_last());
        lemma_names_of_contains(v.drop_last(), v.last()@);
        assert(!names_of(v.drop_last()).contains(v.last()@)) by {
            if exists|i: int| 0 <= i < v.drop_last().len() && v.drop_last()[i]@ == v.last()@ {
                let i = choose|i: int|
                    0 <= i < v.drop_last().len() && v.drop_last()[i]@ == v.last()@;
                assert(v[i]@ == v[v.len() - 1]@);
            }
        }
    }
}

/// Record an exercise name if it has not been seen yet.
fn note_name(seen: &mut Vec<String>, name: &String)
    requires
        names_unique(old(seen)@),
    ensures
        names_unique(final(seen)@),
        names_of(final(seen)@) == names_of(old(seen)@).insert(name@),
        final(seen)@.len() == names_of(final(seen)@).len(),
{
    proof {
        lemma_names_of_len(old(seen)@);
    }
    let n = seen.len();
    let mut i: usize = 0;
    while i < n
        invariant
            n == seen@.len(),
            seen@ == old(seen)@,
            names_unique(seen@),
            forall|j: int| 0 <= j < i ==> seen@[j]@ != name@,
        decreases n - i,
    {
        if seen[i] == *name {
            proof {
                lemma_names_of_contains(seen@, name@);
                assert(names_of(seen@).insert(name@) =~= names_of(seen@));
                lemma_names_of_len(seen@);
            }
            return ;
        }
        i += 1;
    }
    let ghost s0 = seen@;
    seen.push(name.clone());
    proof {
        assert(seen@.drop_last() =~= s0);
        assert(seen@.last()@ == name@);
        lemma_names_of_contains(s0, name@);
        assert(forall|i2: int, j2: int|
            0 <= i2 < j2 < seen@.len() ==> seen@[i2]@ != seen@[j2]@) by {
            assert(forall|i2: int| 0 <= i2 < s0.len() ==> seen@[i2] == s0[i2]);
        }
        lemma_names_of_len(seen@);
    }
}

/// Summarize a batch of workouts: the exact total volume, the exact mean
/// intensity score, and the number of distinct exercise names. The mean
/// divides by the batch size, so the batch must not be empty.
pub fn process_workout_batch(workouts: &Vec<Workout>) -> (r: (u64, Ratio, usize))
    requires
        workouts@.len() > 0,
        total_volume(workouts@) <= u64::MAX,
        average_fits(workouts@),
    ensures
        r.0 as int == total_volume(workouts@),
        r.1.wf(),
        rat_eq(
            r.1.num as int,
            r.1.den as int,
            scores_sum_num(workouts@) as int,
            (scores_sum_den(workouts@) * workouts@.len()) as int,
        ),
        r.2 as int == batch_names(workouts@).len(),
{
    let ghost ws = workouts@;
    let volume = total_volume_of(workouts);
    let avg = average_intensity_of(workouts);
    let mut seen: Vec<String> = Vec::new();
    let n = workouts.len();
    let mut i: usize = 0;
    while i < n
        invariant
            n == ws.len(),
            ws == workouts@,
            i <= n,
            names_unique(seen@),
            names_of(seen@) == batch_names(ws.take(i as int)),
            seen@.len() == names_of(seen@).len(),
        decreases n - i,
    {
        let w = &workouts[i];
        let ghost exs = w.exercises@;
        let ghost s_start = names_of(seen@);
        let e_count = w.exercises.len();
        let mut j: usize = 0;
        while j < e_count
            invariant
                *w == ws[i as int],
                exs == ws[i as int].exercises@,
                e_count == exs.len(),
                i < ws.len(),
                ws == workouts@,
                j <= e_count,
                s_start == batch_names(ws.take(i as int)),
                names_unique(seen@),
                names_of(seen@) == names_in_exercises(s_start, exs.take(j as int)),
                seen@.len() == names_of(seen@).len(),
            decreases e_count - j,
        {
            proof {
                lemma_take_succ(exs, j as int);
            }
            note_name(&mut seen, &w.exercises[j].name);
            j += 1;
        }
        proof {
            lemma_take_all(exs);
            lemma_take_succ(ws, i as int);
        }
        i += 1;
    }
    proof {
        lemma_take_all(ws);
    }
    (volume, avg, seen.len())
}

} // verus!
