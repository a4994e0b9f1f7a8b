//! Workout analytics: training volume, intensity scores, muscle-group
//! distribution and balance recommendations over in-memory workout records.
//!
//! All quantities are exact: weights are caller-chosen integer units, and
//! every ratio (intensity scores, averages, percentages) is carried as an
//! exact rational number rather than a rounded value.

pub mod aggregate;
pub mod batch;
pub mod distribution;
pub mod plan;
pub mod rational;
pub mod seqs;
pub mod workout;
