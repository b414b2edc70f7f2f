//! Logic of the smoke harness: what it is asked to do, in which order it does it, and what
//! counts as an answer.
pub mod settings;
pub mod plan;
pub mod answers;
pub mod stats;
pub mod laws;
