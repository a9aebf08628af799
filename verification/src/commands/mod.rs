//! What the commands decide and compute between reading their input and writing their output.
pub mod args;
pub mod cached;
pub mod deploy;
pub mod import;
pub mod optimize;
pub mod pipeline;
pub mod reports;
pub mod select;
pub mod targets;
