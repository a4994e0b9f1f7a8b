use workout_analyzer::batch::{compare_workouts, process_workout_batch};
use workout_analyzer::distribution::lookup;
use workout_analyzer::plan::{AnalysisError, TrainingGoal, WorkoutPlan};
use workout_analyzer::workout::{Exercise, Workout, WorkoutAnalyzer, WorkoutIntensity};

fn exercise(name: &str, groups: &[&str], sets: u32, reps: u32, weight: u32, rest: u32) -> Exercise {
    Exercise {
        name: name.to_string(),
        muscle_groups: groups.iter().map(|g| g.to_string()).collect(),
        sets,
        reps,
        weight,
        rest_time: rest,
    }
}

fn workout(id: &str, exercises: Vec<Exercise>, duration: u32, intensity: WorkoutIntensity) -> Workout {
    Workout {
        id: id.to_string(),
        date: "2024-01-01".to_string(),
        exercises,
        duration,
        intensity,
    }
}

#[test]
fn test_workout_volume_calculation() {
    let ex = exercise("Bench Press", &["Chest", "Triceps"], 3, 10, 80, 120);
    let w = workout("test_workout", vec![ex], 45, WorkoutIntensity::Moderate);
    assert_eq!(w.calculate_volume(), 2400);
}

#[test]
fn test_muscle_group_distribution() {
    let e1 = exercise("Bench Press", &["Chest"], 3, 10, 80, 120);
    let e2 = exercise("Squats", &["Legs"], 4, 8, 100, 180);
    let w = workout("test_workout", vec![e1, e2], 60, WorkoutIntensity::High);
    let distribution = w.get_muscle_group_distribution();
    assert_eq!(lookup(&distribution, &"Chest".to_string()), Some(3));
    assert_eq!(lookup(&distribution, &"Legs".to_string()), Some(4));
}

#[test]
fn test_distribution_accumulates_duplicates() {
    let e1 = exercise("Bench Press", &["Chest", "Chest"], 3, 10, 80, 120);
    let e2 = exercise("Flies", &["Chest"], 2, 12, 20, 60);
    let w = workout("w", vec![e1, e2], 60, WorkoutIntensity::Low);
    let distribution = w.get_muscle_group_distribution();
    assert_eq!(lookup(&distribution, &"Chest".to_string()), Some(8));
    assert_eq!(lookup(&distribution, &"Back".to_string()), None);
}

#[test]
fn test_empty_workout_volume() {
    let w = workout("empty", vec![], 30, WorkoutIntensity::Low);
    assert_eq!(w.calculate_volume(), 0);
}

#[test]
fn test_intensity_score_formula() {
    // 2 exercises, duration 60, Moderate: base 20, duration factor 1,
    // multiplier 1, so the score is exactly 20.
    let e1 = exercise("A", &["Chest"], 1, 1, 1, 0);
    let e2 = exercise("B", &["Back"], 1, 1, 1, 0);
    let w = workout("w", vec![e1, e2], 60, WorkoutIntensity::Moderate);
    let s = w.calculate_intensity_score();
    assert_eq!(s.num, 1200);
    assert_eq!(s.den, 60);
    assert_eq!(s.num, 20 * s.den);
    assert_eq!(s.num as f64 / s.den as f64, 20.0);
}

#[test]
fn test_intensity_score_zero_duration() {
    // Zero duration uses factor 1: 1 exercise, Low: 10 * 1 * 0.5 = 5.
    let e = exercise("A", &["Chest"], 1, 1, 1, 0);
    let w = workout("w", vec![e], 0, WorkoutIntensity::Low);
    let s = w.calculate_intensity_score();
    assert_eq!(s.num, 5);
    assert_eq!(s.den, 1);
}

#[test]
fn test_intensity_multipliers() {
    let mk = |intensity| {
        let e = exercise("A", &["Chest"], 1, 1, 1, 0);
        workout("w", vec![e], 60, intensity).calculate_intensity_score()
    };
    // One exercise at duration 60: score is 10 times the multiplier.
    let low = mk(WorkoutIntensity::Low);
    assert_eq!(2 * low.num, 10 * low.den); // 5
    let moderate = mk(WorkoutIntensity::Moderate);
    assert_eq!(moderate.num, 10 * moderate.den); // 10
    let high = mk(WorkoutIntensity::High);
    assert_eq!(2 * high.num, 30 * high.den); // 15
    let extreme = mk(WorkoutIntensity::Extreme);
    assert_eq!(extreme.num, 20 * extreme.den); // 20
}

#[test]
fn test_average_intensity_empty_plan() {
    let plan = WorkoutPlan::new("empty", TrainingGoal::Strength);
    let avg = plan.get_average_intensity();
    assert_eq!(avg.num, 0);
    assert_eq!(avg.den, 1);
}

#[test]
fn test_average_intensity_two_workouts() {
    let mut plan = WorkoutPlan::new("plan", TrainingGoal::Strength);
    // Scores 10 and 20; average 15.
    let e = exercise("A", &["Chest"], 1, 1, 1, 0);
    plan.add_workout(workout("w1", vec![e.clone()], 60, WorkoutIntensity::Moderate));
    plan.add_workout(workout("w2", vec![e], 60, WorkoutIntensity::Extreme));
    let avg = plan.get_average_intensity();
    assert_eq!(avg.num, 15 * avg.den);
}

#[test]
fn test_analyze_muscle_balance_empty_plan() {
    let plan = WorkoutPlan::new("empty", TrainingGoal::Strength);
    assert_eq!(plan.analyze_muscle_balance().err(), Some(AnalysisError::EmptyCollection));
}

#[test]
fn test_analyze_muscle_balance_degenerate() {
    let mut plan = WorkoutPlan::new("plan", TrainingGoal::Strength);
    let e = exercise("Stretch", &["Back"], 0, 10, 0, 30);
    plan.add_workout(workout("w", vec![e], 30, WorkoutIntensity::Low));
    assert_eq!(plan.analyze_muscle_balance().err(), Some(AnalysisError::DegenerateRatio));
}

#[test]
fn test_percentages_sum_to_hundred() {
    let mut plan = WorkoutPlan::new("plan", TrainingGoal::Strength);
    let e1 = exercise("Bench Press", &["Chest"], 3, 10, 80, 120);
    let e2 = exercise("Squats", &["Legs"], 4, 8, 100, 180);
    plan.add_workout(workout("w", vec![e1, e2], 60, WorkoutIntensity::High));
    let shares = plan.analyze_muscle_balance().unwrap();
    assert_eq!(shares.len(), 2);
    let mut num_sum = 0u64;
    for share in &shares {
        assert_eq!(share.percentage.den, 7);
        num_sum += share.percentage.num;
    }
    assert_eq!(num_sum, 700); // the percentages sum to exactly 100
    let chest: Vec<_> = shares.iter().filter(|s| s.group == "Chest").collect();
    assert_eq!(chest[0].percentage.num, 300); // 300/7 percent
}

#[test]
fn test_recommend_fallback() {
    let plan = WorkoutPlan::new("empty", TrainingGoal::PowerLifting);
    let recs = plan.recommend_adjustments();
    assert_eq!(recs, vec!["Workout plan looks well-balanced!".to_string()]);
}

#[test]
fn test_recommend_balance() {
    let mut plan = WorkoutPlan::new("plan", TrainingGoal::PowerLifting);
    let e1 = exercise("Bench Press", &["Chest"], 8, 10, 80, 120);
    let e2 = exercise("Curls", &["Arms"], 1, 10, 20, 60);
    plan.add_workout(workout("w", vec![e1, e2], 60, WorkoutIntensity::Moderate));
    let recs = plan.recommend_adjustments();
    assert_eq!(recs, vec!["Consider balancing muscle group distribution".to_string()]);
}

#[test]
fn test_recommend_strength() {
    let mut plan = WorkoutPlan::new("plan", TrainingGoal::Strength);
    let e = exercise("Bench Press", &["Chest"], 3, 10, 80, 120);
    plan.add_workout(workout("w", vec![e], 60, WorkoutIntensity::Moderate));
    // One exercise at duration 60, Moderate: score 10, below 50.
    let recs = plan.recommend_adjustments();
    assert_eq!(recs, vec!["Increase intensity for strength gains".to_string()]);
}

#[test]
fn test_recommend_hypertrophy() {
    let mut plan = WorkoutPlan::new("plan", TrainingGoal::Hypertrophy);
    let exercises: Vec<Exercise> = (0..5)
        .map(|i| exercise(&format!("E{}", i), &["Chest"], 3, 10, 40, 60))
        .collect();
    // 5 exercises, duration 60, Extreme: score 100, above 80.
    plan.add_workout(workout("w", exercises, 60, WorkoutIntensity::Extreme));
    let recs = plan.recommend_adjustments();
    assert_eq!(recs, vec!["Consider reducing intensity for better recovery".to_string()]);
}

#[test]
fn test_recommend_endurance() {
    let mut plan = WorkoutPlan::new("plan", TrainingGoal::Endurance);
    let e = exercise("Run", &["Legs"], 1, 1, 1, 0);
    plan.add_workout(workout("w", vec![e], 20, WorkoutIntensity::Low));
    let recs = plan.recommend_adjustments();
    assert_eq!(recs, vec!["Increase workout duration for endurance goals".to_string()]);
}

#[test]
fn test_recommend_strength_empty_plan() {
    // An empty plan has average intensity 0, which is below 50, so the
    // strength rule fires even though the balance analysis fails.
    let plan = WorkoutPlan::new("empty", TrainingGoal::Strength);
    let recs = plan.recommend_adjustments();
    assert_eq!(recs, vec!["Increase intensity for strength gains".to_string()]);
}

#[test]
fn test_recommend_rules_fire_independently() {
    let mut plan = WorkoutPlan::new("plan", TrainingGoal::Strength);
    let e1 = exercise("Bench Press", &["Chest"], 8, 10, 80, 120);
    let e2 = exercise("Curls", &["Arms"], 1, 10, 20, 60);
    // Spread 800/9 - 100/9 > 30 points, and the score (2 exercises,
    // duration 60, Moderate) is 20, below 50: both rules fire, in order.
    plan.add_workout(workout("w", vec![e1, e2], 60, WorkoutIntensity::Moderate));
    let recs = plan.recommend_adjustments();
    assert_eq!(
        recs,
        vec![
            "Consider balancing muscle group distribution".to_string(),
            "Increase intensity for strength gains".to_string(),
        ]
    );
}

#[test]
fn test_compare_workouts() {
    let heavy = workout(
        "heavy",
        vec![exercise("Squats", &["Legs"], 4, 8, 100, 180)],
        60,
        WorkoutIntensity::High,
    );
    let light = workout(
        "light",
        vec![exercise("Curls", &["Arms"], 2, 10, 10, 60)],
        30,
        WorkoutIntensity::Low,
    );
    assert_eq!(compare_workouts(&heavy, &light), std::cmp::Ordering::Greater);
    assert_eq!(compare_workouts(&light, &heavy), std::cmp::Ordering::Less);
    assert_eq!(compare_workouts(&heavy, &heavy.clone()), std::cmp::Ordering::Equal);
}

#[test]
fn test_process_workout_batch() {
    let w1 = workout(
        "w1",
        vec![exercise("Squats", &["Legs"], 1, 1, 1, 0)],
        60,
        WorkoutIntensity::Moderate,
    );
    let w2 = workout(
        "w2",
        vec![exercise("Squats", &["Legs"], 2, 5, 10, 0)],
        60,
        WorkoutIntensity::Moderate,
    );
    let (volume, avg, distinct) = process_workout_batch(&vec![w1, w2]);
    assert_eq!(volume, 101);
    assert_eq!(avg.num, 10 * avg.den); // both scores are 10
    assert_eq!(distinct, 1); // one shared exercise name
}

#[test]
fn test_weekly_volume() {
    let mut plan = WorkoutPlan::new("plan", TrainingGoal::Strength);
    let e = exercise("Bench Press", &["Chest"], 3, 10, 80, 120);
    plan.add_workout(workout("w1", vec![e.clone()], 45, WorkoutIntensity::Moderate));
    plan.add_workout(workout("w2", vec![e], 45, WorkoutIntensity::Moderate));
    assert_eq!(plan.calculate_weekly_volume(), 4800);
    let empty = WorkoutPlan::new("none", TrainingGoal::Strength);
    assert_eq!(empty.calculate_weekly_volume(), 0);
}

#[test]
fn test_plan_construction() {
    let mut plan = WorkoutPlan::new("Strength Training", TrainingGoal::Strength);
    assert_eq!(plan.name, "Strength Training");
    assert_eq!(plan.workouts.len(), 0);
    plan.add_workout(workout("day1", vec![], 75, WorkoutIntensity::High));
    assert_eq!(plan.workouts.len(), 1);
    assert_eq!(plan.workouts[0].id, "day1");
}

#[test]
fn test_intensity_labels() {
    assert_eq!(WorkoutIntensity::Low.label(), "Low");
    assert_eq!(WorkoutIntensity::Moderate.label(), "Moderate");
    assert_eq!(WorkoutIntensity::High.label(), "High");
    assert_eq!(WorkoutIntensity::Extreme.label(), "Extreme");
}
