//! Game-library aggregation, play-habit profiling, candidate shortlisting and
//! the decision logic of a bounded local-inference session.

pub mod blocks;
pub mod candidates;
pub mod chunks;
pub mod genre;
pub mod merge;
pub mod model;
pub mod pattern;
pub mod profile;
pub mod prompt;
pub mod rank;
pub mod scan;
pub mod session;
pub mod settings;
pub mod text;
pub mod tuning;
