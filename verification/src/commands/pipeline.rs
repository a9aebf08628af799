//! The steps of a whole run: import, optimize, search, compile, check.
use vstd::prelude::*;

use crate::commands::args::{
    CompileArgs, DeployCheckArgs, ImportArgs, OptimizeArgs, PipelineArgs, PolicySearchArgs,
};
use crate::number::Real;
use crate::text::{same, slice_option, text_option};
use crate::words::{line_if, texts, Lines};

verus! {

/// The number -0.05.
pub const MIN_HIT_IMPROVEMENT: u64 = 0xbfa9_9999_9999_999a;

/// The number 0.2.
pub const MAX_STALE_RATE: u64 = 0x3fc9_9999_9999_999a;

/// The files of a run, in its working directory.
#[derive(Debug)]
pub struct WorkFiles {
    pub trace: String,
    pub policy: String,
    pub policy_ir: String,
    pub config: String,
}

/// What each step of a run is asked to do.
#[derive(Debug)]
pub struct PipelinePlan {
    pub import: ImportArgs,
    pub optimize: OptimizeArgs,
    pub search: PolicySearchArgs,
    pub compile: CompileArgs,
    pub deploy_check: DeployCheckArgs,
}

/// The import reads the log and writes the trace.
pub open spec fn import_planned(step: ImportArgs, args: PipelineArgs, files: WorkFiles) -> bool {
    &&& step.provider@ == args.provider@
    &&& step.input@ == args.input@
    &&& step.output@ == files.trace@
    &&& step.cost_config is None
}

/// The optimizer reads the trace and writes the policy, greedily and without interactions.
pub open spec fn optimize_planned(
    step: OptimizeArgs,
    args: PipelineArgs,
    files: WorkFiles,
) -> bool {
    &&& step.input@ == files.trace@
    &&& step.output@ == files.policy@
    &&& step.capacity == args.capacity
    &&& step.time_window == args.time_window
    &&& text_option(step.preset) == text_option(args.preset)
    &&& step.config is None
    &&& step.solver@ == "greedy"@
    &&& step.co_access_window_ms == 0
    &&& step.co_access_top_k == 0
    &&& !step.ilp
    &&& step.scoring is None
    &&& step.purge_group_weight == Real::spec_zero()
    &&& step.origin_group_weight == Real::spec_zero()
    &&& step.group_top_k == 50
}

/// The search reads the trace and writes the best policy in its declarative form.
pub open spec fn search_planned(
    step: PolicySearchArgs,
    args: PipelineArgs,
    files: WorkFiles,
) -> bool {
    &&& step.input@ == files.trace@
    &&& step.capacity == args.capacity
    &&& step.time_window == args.time_window
    &&& text_option(step.preset) == text_option(args.preset)
    &&& step.max_iterations == args.max_iterations
    &&& step.top_k == 1
    &&& step.method@ == args.search_method@
    &&& text_option(step.output) == Some(files.policy_ir@)
}

/// The compiler reads the declarative form, with the scores of the optimizer, and checks what it
/// writes.
pub open spec fn compile_planned(step: CompileArgs, args: PipelineArgs, files: WorkFiles) -> bool {
    &&& step.policy@ == files.policy_ir@
    &&& step.target@ == args.target@
    &&& text_option(step.scores) == Some(files.policy@)
    &&& step.output@ == files.config@
    &&& step.validate
}

/// The deploy check replays the trace against the declarative form, with the usual thresholds.
pub open spec fn deploy_planned(
    step: DeployCheckArgs,
    args: PipelineArgs,
    files: WorkFiles,
) -> bool {
    &&& step.input@ == files.trace@
    &&& step.policy@ == files.policy_ir@
    &&& step.time_window == args.time_window
    &&& text_option(step.preset) == text_option(args.preset)
    &&& step.min_hit_improvement == (Real { bits: MIN_HIT_IMPROVEMENT })
    &&& step.min_objective_improvement == Real::spec_zero()
    &&& step.max_stale_rate == (Real { bits: MAX_STALE_RATE })
}

fn copied(s: &Option<String>) -> (r: Option<String>)
    ensures
        text_option(r) == text_option(*s),
{
    match s {
        Some(s) => Some(s.clone()),
        None => None,
    }
}

/// What each step of a run is asked to do.
pub fn plan(args: &PipelineArgs, files: &WorkFiles) -> (r: PipelinePlan)
    ensures
        import_planned(r.import, *args, *files),
        optimize_planned(r.optimize, *args, *files),
        search_planned(r.search, *args, *files),
        compile_planned(r.compile, *args, *files),
        deploy_planned(r.deploy_check, *args, *files),
{
    PipelinePlan {
        import: ImportArgs {
            provider: args.provider.clone(),
            input: args.input.clone(),
            output: files.trace.clone(),
            cost_config: None,
        },
        optimize: OptimizeArgs {
            input: files.trace.clone(),
            output: files.policy.clone(),
            capacity: args.capacity,
            time_window: args.time_window,
            preset: copied(&args.preset),
            config: None,
            solver: "greedy".to_owned(),
            co_access_window_ms: 0,
            co_access_top_k: 0,
            ilp: false,
            scoring: None,
            purge_group_weight: Real::zero(),
            origin_group_weight: Real::zero(),
            group_top_k: 50,
        },
        search: PolicySearchArgs {
            input: files.trace.clone(),
            capacity: args.capacity,
            time_window: args.time_window,
            preset: copied(&args.preset),
            max_iterations: args.max_iterations,
            top_k: 1,
            method: args.search_method.clone(),
            output: Some(files.policy_ir.clone()),
        },
        compile: CompileArgs {
            policy: files.policy_ir.clone(),
            target: args.target.clone(),
            scores: Some(files.policy.clone()),
            output: files.config.clone(),
            validate: true,
        },
        deploy_check: DeployCheckArgs {
            input: files.trace.clone(),
            policy: files.policy_ir.clone(),
            time_window: args.time_window,
            preset: copied(&args.preset),
            min_hit_improvement: Real { bits: MIN_HIT_IMPROVEMENT },
            min_objective_improvement: Real::zero(),
            max_stale_rate: Real { bits: MAX_STALE_RATE },
        },
    }
}

/// A configuration is compiled unless the run looks for differences, there are an earlier and a
/// current policy, and they are the same.
pub open spec fn compile_needed(
    diff_aware: bool,
    previous: Option<Seq<char>>,
    current: Option<Seq<char>>,
) -> bool {
    !(diff_aware && previous is Some && current is Some && previous == current)
}

/// Whether a configuration has to be compiled. `previous` and `current` are the policies of the
/// earlier run and of this one, as far as they exist.
pub fn should_compile(diff_aware: bool, previous: Option<&str>, current: Option<&str>) -> (r: bool)
    ensures
        r == compile_needed(diff_aware, slice_option(previous), slice_option(current)),
{
    if !diff_aware {
        return true;
    }
    match (previous, current) {
        (Some(a), Some(b)) => !same(a, b),
        _ => true,
    }
}

/// Where a run stands.
#[derive(Debug, Clone, Copy, PartialEq, Eq, Structural)]
pub enum Step {
    Import,
    Optimize,
    Search,
    Compile,
    SkipCompile,
    DeployCheck,
    Complete,
}

/// The step after a step that succeeded. `compile` says whether a configuration has to be compiled.
pub open spec fn step_after(step: Step, compile: bool) -> Step {
    match step {
        Step::Import => Step::Optimize,
        Step::Optimize => Step::Search,
        Step::Search => if compile {
            Step::Compile
        } else {
            Step::SkipCompile
        },
        Step::Compile => Step::DeployCheck,
        Step::SkipCompile => Step::DeployCheck,
        Step::DeployCheck => Step::Complete,
        Step::Complete => Step::Complete,
    }
}

/// The line that announces a step.
pub open spec fn announcement(step: Step, args: PipelineArgs) -> Seq<char> {
    match step {
        Step::Import => "[1/5] Importing "@ + args.provider@ + " logs..."@,
        Step::Optimize => "[2/5] Optimizing cache policy..."@,
        Step::Search => "[3/5] Searching policy space (method: "@ + args.search_method@ + ")..."@,
        Step::Compile => "[4/5] Compiling to "@ + args.target@ + " config..."@,
        Step::SkipCompile => "[4/5] Policy unchanged — skipping compile"@,
        Step::DeployCheck => "[5/5] Running deploy safety check..."@,
        Step::Complete => "=== Pipeline complete ==="@,
    }
}

impl Step {
    /// The step after this one, where it succeeded.
    pub fn next(self, compile: bool) -> (r: Step)
        ensures
            r == step_after(self, compile),
    {
        match self {
            Step::Import => Step::Optimize,
            Step::Optimize => Step::Search,
            Step::Search => {
                if compile {
                    Step::Compile
                } else {
                    Step::SkipCompile
                }
            },
            Step::Compile => Step::DeployCheck,
            Step::SkipCompile => Step::DeployCheck,
            Step::DeployCheck => Step::Complete,
            Step::Complete => Step::Complete,
        }
    }

    /// The line that announces the step.
    pub fn announce(self, args: &PipelineArgs) -> (r: String)
        ensures
            r@ == announcement(self, *args),
    {
        match self {
            Step::Import => "[1/5] Importing ".to_owned().concat(args.provider.as_str()).concat(
                " logs...",
            ),
            Step::Optimize => "[2/5] Optimizing cache policy...".to_owned(),
            Step::Search => "[3/5] Searching policy space (method: ".to_owned().concat(
                args.search_method.as_str(),
            ).concat(")..."),
            Step::Compile => "[4/5] Compiling to ".to_owned().concat(args.target.as_str()).concat(
                " config...",
            ),
            Step::SkipCompile => "[4/5] Policy unchanged — skipping compile".to_owned(),
            Step::DeployCheck => "[5/5] Running deploy safety check...".to_owned(),
            Step::Complete => "=== Pipeline complete ===".to_owned(),
        }
    }
}

/// What is told at the end of a run.
pub open spec fn closing_lines(files: WorkFiles, compiled: bool) -> Seq<Seq<char>> {
    Seq::<Seq<char>>::empty().push("  Config: "@ + files.config@).push(
        "  Policy: "@ + files.policy@,
    ) + line_if(!compiled, "  (compile skipped — no policy change)"@)
}

/// What is told at the end of a run.
pub fn closing(files: &WorkFiles, compiled: bool) -> (r: Vec<String>)
    ensures
        texts(r@) == closing_lines(*files, compiled),
{
    Lines::new().with("  Config: ".to_owned().concat(files.config.as_str())).with(
        "  Policy: ".to_owned().concat(files.policy.as_str()),
    ).note(!compiled, "  (compile skipped — no policy change)".to_owned()).done()
}

/// The step that a run has reached after `n` steps.
pub open spec fn step_reached(compile: bool, n: nat) -> Step
    decreases n,
{
    if n == 0 {
        Step::Import
    } else {
        step_after(step_reached(compile, (n - 1) as nat), compile)
    }
}

/// Every run is checked before it is complete, and it goes through the compiler exactly where that
/// is needed.
pub proof fn every_run_is_checked(compile: bool)
    ensures
        step_reached(compile, 3) == (if compile {
            Step::Compile
        } else {
            Step::SkipCompile
        }),
        step_reached(compile, 4) == Step::DeployCheck,
        step_reached(compile, 5) == Step::Complete,
{
    reveal_with_fuel(step_reached, 6);
}

/// A run that looks for differences compiles nothing where the policy is that of the earlier run.
pub proof fn unchanged_policy_is_not_compiled(policy: Seq<char>)
    ensures
        !compile_needed(true, Some(policy), Some(policy)),
        compile_needed(false, Some(policy), Some(policy)),
        compile_needed(true, None, Some(policy)),
        forall|other: Seq<char>|
            other != policy ==> #[trigger] compile_needed(true, Some(other), Some(policy)),
{
}

/// Each step reads what an earlier one wrote: the trace goes to the optimizer, the search and the
/// check, the found policy to the compiler and the check, and the scores of the optimizer to the
/// compiler. Capacity, time window and preset are the same for every step that has them.
pub proof fn steps_hand_their_files_on(plan: PipelinePlan, args: PipelineArgs, files: WorkFiles)
    requires
        import_planned(plan.import, args, files),
        optimize_planned(plan.optimize, args, files),
        search_planned(plan.search, args, files),
        compile_planned(plan.compile, args, files),
        deploy_planned(plan.deploy_check, args, files),
    ensures
        plan.import.provider@ == args.provider@,
        plan.import.input@ == args.input@,
        plan.optimize.input@ == plan.import.output@,
        plan.search.input@ == plan.import.output@,
        plan.deploy_check.input@ == plan.import.output@,
        text_option(plan.search.output) == Some(plan.compile.policy@),
        text_option(plan.search.output) == Some(plan.deploy_check.policy@),
        text_option(plan.compile.scores) == Some(plan.optimize.output@),
        plan.compile.target@ == args.target@,
        plan.compile.output@ == files.config@,
        plan.compile.validate,
        plan.search.method@ == args.search_method@,
        plan.search.max_iterations == args.max_iterations,
        plan.search.top_k == 1,
        plan.optimize.capacity == args.capacity,
        plan.search.capacity == args.capacity,
        plan.optimize.time_window == args.time_window,
        plan.search.time_window == args.time_window,
        plan.deploy_check.time_window == args.time_window,
        text_option(plan.optimize.preset) == text_option(args.preset),
        text_option(plan.search.preset) == text_option(args.preset),
        text_option(plan.deploy_check.preset) == text_option(args.preset),
        plan.import.cost_config is None,
        plan.optimize.config is None,
        plan.optimize.scoring is None,
        plan.optimize.solver@ == "greedy"@,
        !plan.optimize.ilp,
        plan.optimize.co_access_window_ms == 0,
        plan.optimize.co_access_top_k == 0,
        plan.optimize.group_top_k == 50,
        plan.optimize.purge_group_weight.bits == 0,
        plan.optimize.origin_group_weight.bits == 0,
        plan.deploy_check.min_hit_improvement.bits == 0xbfa9_9999_9999_999a,
        plan.deploy_check.min_objective_improvement.bits == 0,
        plan.deploy_check.max_stale_rate.bits == 0x3fc9_9999_9999_999a,
{
}

/// The steps come in their order, whether the compilation is skipped or not, and nothing follows
/// the end.
pub proof fn steps_come_in_order(compile: bool)
    ensures
        step_after(Step::Import, compile) == Step::Optimize,
        step_after(Step::Optimize, compile) == Step::Search,
        step_after(Step::Search, true) == Step::Compile,
        step_after(Step::Search, false) == Step::SkipCompile,
        step_after(Step::Compile, compile) == Step::DeployCheck,
        step_after(Step::SkipCompile, compile) == Step::DeployCheck,
        step_after(Step::DeployCheck, compile) == Step::Complete,
        step_after(Step::Complete, compile) == Step::Complete,
{
}

/// Compilation is skipped exactly where that was asked for and the policy is known to be the one
/// that was compiled last.
pub proof fn compilation_is_skipped_for_the_same_policy(
    diff_aware: bool,
    previous: Option<Seq<char>>,
    current: Option<Seq<char>>,
)
    ensures
        !compile_needed(diff_aware, previous, current) <==> diff_aware && previous is Some
            && current is Some && previous->Some_0 == current->Some_0,
{
}

/// Every step announces its number of five, and the words name the provider, the method and the
/// platform that were chosen.
pub proof fn steps_are_announced(args: PipelineArgs)
    ensures
        announcement(Step::Import, args) == "[1/5] Importing "@ + args.provider@ + " logs..."@,
        announcement(Step::Optimize, args) == "[2/5] Optimizing cache policy..."@,
        announcement(Step::Search, args) == "[3/5] Searching policy space (method: "@
            + args.search_method@ + ")..."@,
        announcement(Step::Compile, args) == "[4/5] Compiling to "@ + args.target@ + " config..."@,
        announcement(Step::SkipCompile, args) == "[4/5] Policy unchanged — skipping compile"@,
        announcement(Step::DeployCheck, args) == "[5/5] Running deploy safety check..."@,
        announcement(Step::Complete, args) == "=== Pipeline complete ==="@,
{
}

/// A run ends by naming its configuration and its policy, and says so where nothing was compiled.
pub proof fn runs_name_their_files(files: WorkFiles, compiled: bool)
    ensures
        closing_lines(files, compiled).len() == if compiled {
            2int
        } else {
            3
        },
        closing_lines(files, compiled)[0] == "  Config: "@ + files.config@,
        closing_lines(files, compiled)[1] == "  Policy: "@ + files.policy@,
        !compiled ==> closing_lines(files, compiled)[2]
            == "  (compile skipped — no policy change)"@,
{
}

} // verus!
