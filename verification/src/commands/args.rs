//! What the commands are asked to do. Paths are texts.
use vstd::prelude::*;

use crate::number::Real;

verus! {

/// Convert a CDN log to a trace.
#[derive(Debug)]
pub struct ImportArgs {
    /// CDN provider: cloudfront, cloudflare, fastly
    pub provider: String,
    /// Input log file path
    pub input: String,
    /// Output canonical trace CSV file
    pub output: String,
    /// Origin cost config TOML file (optional)
    pub cost_config: Option<String>,
}

/// Generate a synthetic trace.
#[derive(Debug)]
pub struct GenerateArgs {
    /// Output CSV file path
    pub output: String,
    /// Number of unique objects
    pub num_objects: usize,
    /// Number of requests to generate
    pub num_requests: usize,
    /// Zipf alpha parameter for popularity distribution
    pub zipf_alpha: Real,
    /// Time window in seconds
    pub time_window: u64,
    /// Random seed for reproducibility
    pub seed: u64,
}

/// Decide what to cache.
#[derive(Debug)]
pub struct OptimizeArgs {
    /// Input trace CSV file
    pub input: String,
    /// Output policy JSON file
    pub output: String,
    /// Cache capacity in bytes
    pub capacity: u64,
    /// Time window in seconds
    pub time_window: u64,
    /// Preset profile: ecommerce, media, api
    pub preset: Option<String>,
    /// TOML config file (overrides preset and CLI flags)
    pub config: Option<String>,
    /// Solver: greedy (default), ilp, sa (simulated annealing with QUBO)
    pub solver: String,
    /// Co-access window in milliseconds (for SA solver, 0 = no co-access)
    pub co_access_window_ms: i64,
    /// Max co-access pairs to consider (for SA solver)
    pub co_access_top_k: usize,
    /// Use ILP solver instead of greedy (shorthand for --solver ilp)
    pub ilp: bool,
    /// Scoring version: v1 (frequency-based) or v2 (reuse-distance-aware).
    /// Overrides scoring_version in config file when specified.
    pub scoring: Option<String>,
    /// Purge-group consistency bonus weight (for SA solver, 0 = disabled)
    pub purge_group_weight: Real,
    /// Origin-group burst shielding bonus weight (for SA solver, 0 = disabled)
    pub origin_group_weight: Real,
    /// Max pairwise interactions per group (sparsity control)
    pub group_top_k: usize,
}

/// Replay a trace through a policy.
#[derive(Debug)]
pub struct SimulateArgs {
    /// Input trace CSV file
    pub input: String,
    /// Policy JSON file (output of `qc optimize`)
    pub policy: String,
    /// Cache capacity in bytes (for capacity_utilization calculation)
    pub capacity: u64,
    /// Time window in seconds
    pub time_window: u64,
    /// Latency value ($/ms) for economic objective calculation
    pub latency_value: Real,
    /// Default stale penalty class (none, low, medium, high, very_high)
    pub stale_penalty_class: String,
    /// Output metrics JSON file
    pub output: Option<String>,
}

/// Compare baseline policies.
#[derive(Debug)]
pub struct CompareArgs {
    /// Input trace CSV file
    pub input: String,
    /// Cache capacity in bytes
    pub capacity: u64,
    /// Time window in seconds
    pub time_window: u64,
    /// Preset profile: ecommerce, media, api
    pub preset: Option<String>,
    /// TOML config file
    pub config: Option<String>,
    /// Add the ILP solver to the comparison (slow for large n)
    pub include_ilp: bool,
    /// Add the Belady oracle (optimal eviction, requires full trace pre-index)
    pub include_belady: bool,
    /// Output comparison JSON file
    pub output: Option<String>,
}

/// Fit the economic parameters.
#[derive(Debug)]
pub struct CalibrateArgs {
    /// Training trace CSV file
    pub train: String,
    /// Validation trace CSV file
    pub validation: String,
    /// Cache capacity in bytes
    pub capacity: u64,
    /// Time window in seconds
    pub time_window: u64,
    /// Number of random restarts
    pub restarts: usize,
    /// Output calibrated config TOML file
    pub output: String,
}

/// Evaluate policies against a trace.
#[derive(Debug)]
pub struct PolicyEvalArgs {
    /// Input trace CSV file
    pub input: String,
    /// PolicyIR JSON file(s). Multiple for comparison.
    pub policy: Vec<String>,
    /// Time window in seconds
    pub time_window: u64,
    /// Preset profile: ecommerce, media, api
    pub preset: Option<String>,
    /// TOML scenario config
    pub config: Option<String>,
    /// Output metrics JSON
    pub output: Option<String>,
}

/// Search for the best policy.
#[derive(Debug)]
pub struct PolicySearchArgs {
    /// Input trace CSV file
    pub input: String,
    /// Cache capacity in bytes
    pub capacity: u64,
    /// Time window in seconds
    pub time_window: u64,
    /// Preset profile: ecommerce, media, api
    pub preset: Option<String>,
    /// Max candidates to evaluate
    pub max_iterations: usize,
    /// Number of top candidates to show
    pub top_k: usize,
    /// Search method: grid, sa, qubo
    pub method: String,
    /// Output best PolicyIR as JSON
    pub output: Option<String>,
}

/// Compile a policy for a platform.
#[derive(Debug)]
pub struct CompileArgs {
    /// PolicyIR JSON file
    pub policy: String,
    /// Target platform: cloudflare, cloudfront, fastly, akamai
    pub target: String,
    /// Scores file (PolicyFile JSON from `qc optimize`) for admission gate
    pub scores: Option<String>,
    /// Output file
    pub output: String,
    /// Validate the compiled output against provider schema constraints
    pub validate: bool,
}

/// Compile a policy for every platform.
#[derive(Debug)]
pub struct CompileCompareArgs {
    /// PolicyIR JSON file
    pub policy: String,
    /// Scores file (PolicyFile JSON from `qc optimize`)
    pub scores: Option<String>,
    /// Output directory for all target configs
    pub output_dir: String,
}

/// Check a policy before it is deployed.
#[derive(Debug)]
pub struct DeployCheckArgs {
    /// Input trace CSV file
    pub input: String,
    /// PolicyIR JSON file to validate
    pub policy: String,
    /// Time window in seconds
    pub time_window: u64,
    /// Preset profile: ecommerce, media, api
    pub preset: Option<String>,
    /// Minimum hit ratio improvement over LRU (default: -0.05 = allow 5% regression)
    pub min_hit_improvement: Real,
    /// Minimum objective improvement over LRU (default: 0.0 = must not regress)
    pub min_objective_improvement: Real,
    /// Maximum stale serve rate (default: 0.20 = 20%)
    pub max_stale_rate: Real,
}

/// Run the full optimization pipeline: import → optimize → compile → deploy-check.
///
/// Made to be run periodically. Skips compile if the policy output is unchanged from the previous
/// run (diff-aware).
#[derive(Debug)]
pub struct PipelineArgs {
    /// Input log file (CDN provider logs)
    pub input: String,
    /// CDN provider: cloudfront, cloudflare, fastly
    pub provider: String,
    /// Working directory for intermediate files (trace.csv, policy.json, etc.)
    pub work_dir: String,
    /// Cache capacity in bytes
    pub capacity: u64,
    /// Time window in seconds
    pub time_window: u64,
    /// Preset profile: ecommerce, media, api
    pub preset: Option<String>,
    /// Compile target: cloudflare, cloudfront, fastly, akamai
    pub target: String,
    /// Policy search method: grid, sa, qubo
    pub search_method: String,
    /// Skip compile if policy is unchanged from previous run
    pub diff_aware: bool,
    /// Max iterations for policy search
    pub max_iterations: usize,
}

} // verus!
