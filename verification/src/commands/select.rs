//! What the words on the command line choose.
use vstd::prelude::*;

use crate::number::{larger, Real};
use crate::object::ObjectFeatures;
use crate::preset::{preset_freshness, preset_latency_value, Preset};
use crate::scenario::{
    FreshnessModel, ScenarioConfig, ScoringVersion, StaleCostOverrides, StalePenaltyClass,
};
use crate::text::{same, slice_option};

verus! {

/// A way to decide what to cache.
#[derive(Debug, Clone, Copy, PartialEq, Eq, Structural)]
pub enum SolverKind {
    Greedy,
    Ilp,
    Annealing,
}

/// The name of the solver that is asked for: the flag goes before the word.
pub open spec fn solver_word(ilp: bool, solver: Seq<char>) -> Seq<char> {
    if ilp {
        "ilp"@
    } else {
        solver
    }
}

/// The solver behind a name. An unknown name stands for the greedy one.
pub open spec fn solver_named(word: Seq<char>) -> SolverKind {
    if word == "ilp"@ {
        SolverKind::Ilp
    } else if word == "sa"@ {
        SolverKind::Annealing
    } else {
        SolverKind::Greedy
    }
}

/// The solver that is asked for, with the name that it is reported under.
pub fn choose_solver(ilp: bool, solver: &str) -> (r: (SolverKind, String))
    ensures
        r.0 == solver_named(solver_word(ilp, solver@)),
        r.1@ == solver_word(ilp, solver@),
{
    let word = if ilp {
        "ilp"
    } else {
        solver
    };
    let kind = if same(word, "ilp") {
        SolverKind::Ilp
    } else if same(word, "sa") {
        SolverKind::Annealing
    } else {
        SolverKind::Greedy
    };
    (kind, word.to_owned())
}

/// The scoring version with a name.
pub open spec fn scoring_named(name: Seq<char>) -> Option<ScoringVersion> {
    if name == "v1"@ {
        Some(ScoringVersion::V1Frequency)
    } else if name == "v2"@ {
        Some(ScoringVersion::V2ReuseDistance)
    } else {
        None
    }
}

/// What is said of a name that no scoring version has.
pub open spec fn unknown_scoring(name: Seq<char>) -> Seq<char> {
    "unknown scoring version: "@ + name + ". Use: v1, v2"@
}

/// The scoring version that is asked for, if any.
pub fn scoring_override(name: Option<&str>) -> (r: Result<Option<ScoringVersion>, String>)
    ensures
        match name {
            None => r == Ok::<Option<ScoringVersion>, String>(None),
            Some(s) => match scoring_named(s@) {
                Some(v) => r == Ok::<Option<ScoringVersion>, String>(Some(v)),
                None => r is Err && r->Err_0@ == unknown_scoring(s@),
            },
        },
{
    match name {
        None => Ok(None),
        Some(s) => {
            if same(s, "v1") {
                Ok(Some(ScoringVersion::V1Frequency))
            } else if same(s, "v2") {
                Ok(Some(ScoringVersion::V2ReuseDistance))
            } else {
                Err("unknown scoring version: ".to_owned().concat(s).concat(". Use: v1, v2"))
            }
        },
    }
}

/// The preset with a name.
pub open spec fn preset_named(name: Seq<char>) -> Option<Preset> {
    if name == "ecommerce"@ {
        Some(Preset::Ecommerce)
    } else if name == "media"@ {
        Some(Preset::Media)
    } else if name == "api"@ {
        Some(Preset::Api)
    } else {
        None
    }
}

/// What is said of a name that no preset has.
pub open spec fn unknown_preset(name: Seq<char>) -> Seq<char> {
    "unknown preset: "@ + name + ". Use: ecommerce, media, api"@
}

/// The preset that is asked for. Without a name it is that for online shops.
pub fn choose_preset(name: Option<&str>) -> (r: Result<Preset, String>)
    ensures
        match name {
            None => r == Ok::<Preset, String>(Preset::Ecommerce),
            Some(s) => match preset_named(s@) {
                Some(p) => r == Ok::<Preset, String>(p),
                None => r is Err && r->Err_0@ == unknown_preset(s@),
            },
        },
{
    match name {
        None => Ok(Preset::Ecommerce),
        Some(s) => {
            if same(s, "ecommerce") {
                Ok(Preset::Ecommerce)
            } else if same(s, "media") {
                Ok(Preset::Media)
            } else if same(s, "api") {
                Ok(Preset::Api)
            } else {
                Err(
                    "unknown preset: ".to_owned().concat(s).concat(
                        ". Use: ecommerce, media, api",
                    ),
                )
            }
        },
    }
}

/// The scenario of a preset.
pub open spec fn preset_config(preset: Preset, capacity: u64) -> ScenarioConfig {
    ScenarioConfig {
        capacity_bytes: capacity,
        time_window_seconds: 86400,
        latency_value_per_ms: preset_latency_value(preset),
        freshness_model: preset_freshness(preset),
        scoring_version: ScoringVersion::V1Frequency,
    }
}

/// The scenario before the scoring version is applied: a configuration file goes before a preset.
pub open spec fn base_config(
    file: Option<ScenarioConfig>,
    preset: Option<Seq<char>>,
    capacity: u64,
) -> Result<ScenarioConfig, Seq<char>> {
    match file {
        Some(config) => Ok(config),
        None => match preset {
            None => Ok(preset_config(Preset::Ecommerce, capacity)),
            Some(name) => match preset_named(name) {
                Some(p) => Ok(preset_config(p, capacity)),
                None => Err(unknown_preset(name)),
            },
        },
    }
}

/// The scenario that is asked for. A scoring version on the command line goes before that of a
/// configuration file, and an unknown one before everything else.
pub open spec fn scenario_of(
    scoring: Option<Seq<char>>,
    file: Option<ScenarioConfig>,
    preset: Option<Seq<char>>,
    capacity: u64,
) -> Result<ScenarioConfig, Seq<char>> {
    if scoring is Some && scoring_named(scoring->Some_0) is None {
        Err(unknown_scoring(scoring->Some_0))
    } else {
        match base_config(file, preset, capacity) {
            Ok(config) => match scoring {
                Some(name) => Ok(
                    ScenarioConfig { scoring_version: scoring_named(name)->Some_0, ..config },
                ),
                None => Ok(config),
            },
            Err(e) => Err(e),
        }
    }
}

/// The scenario that is asked for. `file` is what a configuration file says, where one is given.
pub fn load_config(
    scoring: Option<&str>,
    file: Option<ScenarioConfig>,
    preset: Option<&str>,
    capacity: u64,
) -> (r: Result<ScenarioConfig, String>)
    ensures
        match scenario_of(slice_option(scoring), file, slice_option(preset), capacity) {
            Ok(config) => r == Ok::<ScenarioConfig, String>(config),
            Err(e) => r is Err && r->Err_0@ == e,
        },
{
    let version = match scoring_override(scoring) {
        Ok(v) => v,
        Err(e) => {
            return Err(e);
        },
    };
    let config = match file {
        Some(config) => config,
        None => match choose_preset(preset) {
            Ok(p) => p.to_config(capacity),
            Err(e) => {
                return Err(e);
            },
        },
    };
    match version {
        Some(v) => Ok(
            ScenarioConfig {
                capacity_bytes: config.capacity_bytes,
                time_window_seconds: config.time_window_seconds,
                latency_value_per_ms: config.latency_value_per_ms,
                freshness_model: config.freshness_model,
                scoring_version: v,
            },
        ),
        None => Ok(config),
    }
}

/// Whether features need reuse distances.
pub fn needs_reuse_distance(config: &ScenarioConfig) -> (r: bool)
    ensures
        r == (config.scoring_version == ScoringVersion::V2ReuseDistance),
{
    config.scoring_version == ScoringVersion::V2ReuseDistance
}

/// What stale content costs in a replay: the class of objects without one, and the overrides where
/// there can be any.
pub open spec fn replay_penalty(model: FreshnessModel) -> (
    StalePenaltyClass,
    Option<StaleCostOverrides>,
) {
    match model {
        FreshnessModel::TtlOnly { stale_penalty } => (
            stale_penalty.default_class,
            Some(stale_penalty.cost_overrides),
        ),
        FreshnessModel::InvalidationOnUpdate { .. } => (StalePenaltyClass::NoRisk, None),
    }
}

/// What stale content costs in a replay.
pub fn choose_replay_penalty(model: &FreshnessModel) -> (r: (
    StalePenaltyClass,
    Option<StaleCostOverrides>,
))
    ensures
        r == replay_penalty(*model),
{
    match model {
        FreshnessModel::TtlOnly { stale_penalty } => (
            stale_penalty.default_class,
            Some(stale_penalty.cost_overrides),
        ),
        FreshnessModel::InvalidationOnUpdate { .. } => (StalePenaltyClass::NoRisk, None),
    }
}

/// The stale penalty class with a name.
pub open spec fn stale_class_named(name: Seq<char>) -> Option<StalePenaltyClass> {
    if name == "none"@ {
        Some(StalePenaltyClass::NoRisk)
    } else if name == "low"@ {
        Some(StalePenaltyClass::Low)
    } else if name == "medium"@ {
        Some(StalePenaltyClass::Medium)
    } else if name == "high"@ {
        Some(StalePenaltyClass::High)
    } else if name == "very_high"@ {
        Some(StalePenaltyClass::VeryHigh)
    } else {
        None
    }
}

/// What is said of a name that no class has.
pub open spec fn unknown_stale_class(name: Seq<char>) -> Seq<char> {
    "unknown stale penalty class: "@ + name + ". Use: none, low, medium, high, very_high"@
}

/// The stale penalty class with a name.
pub fn parse_stale_class(s: &str) -> (r: Result<StalePenaltyClass, String>)
    ensures
        match stale_class_named(s@) {
            Some(class) => r == Ok::<StalePenaltyClass, String>(class),
            None => r is Err && r->Err_0@ == unknown_stale_class(s@),
        },
{
    if same(s, "none") {
        Ok(StalePenaltyClass::NoRisk)
    } else if same(s, "low") {
        Ok(StalePenaltyClass::Low)
    } else if same(s, "medium") {
        Ok(StalePenaltyClass::Medium)
    } else if same(s, "high") {
        Ok(StalePenaltyClass::High)
    } else if same(s, "very_high") {
        Ok(StalePenaltyClass::VeryHigh)
    } else {
        Err(
            "unknown stale penalty class: ".to_owned().concat(s).concat(
                ". Use: none, low, medium, high, very_high",
            ),
        )
    }
}

/// Which interactions between objects the annealing solver weighs.
#[derive(Debug, Clone, Copy, PartialEq, Eq, Structural)]
pub struct InteractionSources {
    pub co_access: bool,
    pub purge_groups: bool,
    pub origin_groups: bool,
}

/// Which interactions between objects the annealing solver weighs: those whose window or weight is
/// above zero.
pub fn choose_interactions(window_ms: i64, purge_weight: Real, origin_weight: Real) -> (r:
    InteractionSources)
    ensures
        r == (InteractionSources {
            co_access: window_ms > 0,
            purge_groups: larger(purge_weight, Real::spec_zero()),
            origin_groups: larger(origin_weight, Real::spec_zero()),
        }),
{
    InteractionSources {
        co_access: window_ms > 0,
        purge_groups: purge_weight.exceeds(Real::zero()),
        origin_groups: origin_weight.exceeds(Real::zero()),
    }
}

/// Some object belongs to a group.
pub open spec fn some_grouped(features: Seq<ObjectFeatures>) -> bool {
    exists|i: int|
        0 <= i < features.len() && ((#[trigger] features[i]).purge_group is Some
            || features[i].origin_group is Some)
}

/// Whether interactions within groups are asked for though no object belongs to one.
pub fn groups_are_missing(
    features: &Vec<ObjectFeatures>,
    purge_weight: Real,
    origin_weight: Real,
) -> (r: bool)
    ensures
        r == ((larger(purge_weight, Real::spec_zero()) || larger(
            origin_weight,
            Real::spec_zero(),
        )) && !some_grouped(features@)),
{
    if !purge_weight.exceeds(Real::zero()) && !origin_weight.exceeds(Real::zero()) {
        return false;
    }
    let mut i: usize = 0;
    while i < features.len()
        invariant
            i <= features@.len(),
            forall|k: int|
                0 <= k < i ==> (#[trigger] features@[k]).purge_group is None
                    && features@[k].origin_group is None,
        decreases features@.len() - i,
    {
        if features[i].purge_group.is_some() || features[i].origin_group.is_some() {
            assert(features@[i as int].purge_group is Some
                || features@[i as int].origin_group is Some);
            return false;
        }
        i = i + 1;
    }
    true
}

/// What tells the names on the command line apart.
proof fn lemma_names()
    ensures
        "ilp"@.len() == 3,
        "sa"@.len() == 2,
        "v1"@.len() == 2,
        "v1"@[1] == '1',
        "v2"@.len() == 2,
        "v2"@[1] == '2',
        "ecommerce"@.len() == 9,
        "media"@.len() == 5,
        "api"@.len() == 3,
        "none"@.len() == 4,
        "none"@[0] == 'n',
        "low"@.len() == 3,
        "medium"@.len() == 6,
        "high"@.len() == 4,
        "high"@[0] == 'h',
        "very_high"@.len() == 9,
{
    reveal_strlit("ilp");
    reveal_strlit("sa");
    reveal_strlit("v1");
    reveal_strlit("v2");
    reveal_strlit("ecommerce");
    reveal_strlit("media");
    reveal_strlit("api");
    reveal_strlit("none");
    reveal_strlit("low");
    reveal_strlit("medium");
    reveal_strlit("high");
    reveal_strlit("very_high");
}

/// A name chooses what it names and nothing else. The exact solver is chosen by its switch as well,
/// and any name that is not known as a solver chooses the greedy one.
pub proof fn names_choose_what_they_name(name: Seq<char>, ilp: bool)
    ensures
        solver_named(solver_word(ilp, name)) is Ilp <==> ilp || name == "ilp"@,
        solver_named(solver_word(ilp, name)) is Annealing <==> !ilp && name == "sa"@,
        solver_named(solver_word(ilp, name)) is Greedy <==> !ilp && name != "ilp"@ && name
            != "sa"@,
        scoring_named(name) == Some(ScoringVersion::V1Frequency) <==> name == "v1"@,
        scoring_named(name) == Some(ScoringVersion::V2ReuseDistance) <==> name == "v2"@,
        scoring_named(name) is None <==> name != "v1"@ && name != "v2"@,
        preset_named(name) == Some(Preset::Ecommerce) <==> name == "ecommerce"@,
        preset_named(name) == Some(Preset::Media) <==> name == "media"@,
        preset_named(name) == Some(Preset::Api) <==> name == "api"@,
        stale_class_named(name) == Some(StalePenaltyClass::NoRisk) <==> name == "none"@,
        stale_class_named(name) == Some(StalePenaltyClass::Low) <==> name == "low"@,
        stale_class_named(name) == Some(StalePenaltyClass::Medium) <==> name == "medium"@,
        stale_class_named(name) == Some(StalePenaltyClass::High) <==> name == "high"@,
        stale_class_named(name) == Some(StalePenaltyClass::VeryHigh) <==> name == "very_high"@,
{
    lemma_names();
}

/// A scenario from a file is taken as it is, but for a scoring version that is asked for. Without a
/// file the preset gives it, with the capacity that is asked for and a window of a day. A preset or
/// scoring version that is not known is refused.
pub proof fn scenarios_come_from_file_or_preset(
    scoring: Option<Seq<char>>,
    file: Option<ScenarioConfig>,
    preset: Option<Seq<char>>,
    capacity: u64,
)
    ensures
        scenario_of(scoring, file, preset, capacity) is Err <==> (scoring is Some && scoring_named(
            scoring->Some_0,
        ) is None) || (file is None && preset is Some && preset_named(preset->Some_0) is None),
        scenario_of(scoring, file, preset, capacity) matches Ok(config) ==> {
            &&& file is Some ==> config.capacity_bytes == file->Some_0.capacity_bytes
                && config.time_window_seconds == file->Some_0.time_window_seconds
                && config.latency_value_per_ms == file->Some_0.latency_value_per_ms
                && config.freshness_model == file->Some_0.freshness_model
            &&& file is None ==> config.capacity_bytes == capacity && config.time_window_seconds
                == 86400
            &&& file is None && preset is None ==> config.latency_value_per_ms
                == preset_latency_value(Preset::Ecommerce) && config.freshness_model
                == preset_freshness(Preset::Ecommerce)
            &&& file is None && preset is Some ==> config.latency_value_per_ms
                == preset_latency_value(preset_named(preset->Some_0)->Some_0)
                && config.freshness_model == preset_freshness(
                preset_named(preset->Some_0)->Some_0,
            )
            &&& scoring == Some("v1"@) ==> config.scoring_version is V1Frequency
            &&& scoring == Some("v2"@) ==> config.scoring_version is V2ReuseDistance
            &&& scoring is None && file is Some ==> config.scoring_version
                == file->Some_0.scoring_version
            &&& scoring is None && file is None ==> config.scoring_version is V1Frequency
        },
{
    lemma_names();
}

/// A replay charges for stale responses where they can occur: by the class and the costs of the
/// scenario, and not at all where objects are invalidated as they change.
pub proof fn replays_charge_where_responses_go_stale(model: FreshnessModel)
    ensures
        model matches FreshnessModel::TtlOnly { stale_penalty } ==> replay_penalty(model) == (
            stale_penalty.default_class,
            Some(stale_penalty.cost_overrides),
        ),
        model is InvalidationOnUpdate ==> replay_penalty(model).0 is NoRisk && replay_penalty(
            model,
        ).1 is None,
{
}

/// Objects are grouped where one of them can be purged with others or comes from an origin with
/// others.
pub proof fn one_group_is_enough(features: Seq<ObjectFeatures>, i: int)
    requires
        0 <= i < features.len(),
    ensures
        features[i].purge_group is Some ==> some_grouped(features),
        features[i].origin_group is Some ==> some_grouped(features),
        (forall|k: int|
            0 <= k < features.len() ==> (#[trigger] features[k]).purge_group is None
                && features[k].origin_group is None) ==> !some_grouped(features),
{
}

/// A name that chooses nothing is repeated, with the names that choose something.
pub proof fn unknown_names_are_repeated(name: Seq<char>)
    ensures
        unknown_scoring(name) == "unknown scoring version: "@ + name + ". Use: v1, v2"@,
        unknown_preset(name) == "unknown preset: "@ + name + ". Use: ecommerce, media, api"@,
        unknown_stale_class(name) == "unknown stale penalty class: "@ + name
            + ". Use: none, low, medium, high, very_high"@,
{
}

} // verus!
