pub mod args;
pub mod count;
pub mod cycle;
pub mod graph;
pub mod id_set;
pub mod invoke;
pub mod outcome;
pub mod schedule;
pub mod staleness;
pub mod universe;
