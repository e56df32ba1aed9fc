//! A yes/no confirmation prompt for shell scripts: answer classification,
//! prompt rendering and the retry state machine, with their contracts.
pub mod answer;
pub mod options;
pub mod confirm;
pub mod laws;
