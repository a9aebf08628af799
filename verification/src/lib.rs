pub mod commands;
pub mod compact_trace;
pub mod compile;
pub mod error;
pub mod foreign;
pub mod intern;
pub mod json;
pub mod keys;
pub mod metrics;
pub mod number;
pub mod object;
pub mod origin_cost;
pub mod policy;
pub mod policy_ir;
pub mod preset;
pub mod providers;
pub mod scenario;
pub mod scores;
pub mod text;
pub mod trace;
pub mod words;
