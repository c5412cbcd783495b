use vstd::prelude::*;
use crate::config::SortConfig;
use crate::damage::{calculate_damage_done, game_damage, saturated};
use crate::game::{game_has_cpu_player, GameRecord};

verus! {

/// What the router reads of a decoded game.
#[derive(Clone, Copy, Debug, PartialEq, Eq, Structural)]
pub struct FeatureSet {
    /// Some player of the game is computer-controlled.
    pub has_cpu_participant: bool,
    /// Total damage of the game, in thousandths of a percent point.
    pub total_damage: u64,
}

/// One of the two output folders.
#[derive(Clone, Copy, Debug, PartialEq, Eq, Structural)]
pub enum OutputFolder {
    Cpu,
    Handwarmers,
}

/// Where a replay goes.
#[derive(Clone, Copy, Debug, PartialEq, Eq, Structural)]
pub enum RoutingDecision {
    NoMove,
    MoveTo(OutputFolder),
}

/// What is done with one replay file.
#[derive(Clone, Copy, Debug, PartialEq, Eq, Structural)]
pub struct FilePlan {
    /// The features of the game, where the file decoded.
    pub features: Option<FeatureSet>,
    /// Where the file goes.
    pub decision: RoutingDecision,
}

/// The features of a game.
pub open spec fn spec_features(game: GameRecord) -> FeatureSet {
    FeatureSet {
        has_cpu_participant: game.spec_has_cpu_player(),
        total_damage: saturated(game_damage(game)),
    }
}

/// The routing rules, first match wins: a game with a computer-controlled
/// player goes to the CPU folder; else one with less damage than the
/// threshold goes to the handwarmers folder; else it stays.
pub open spec fn spec_route(features: FeatureSet, min_tournament_damage: u64) -> RoutingDecision {
    if features.has_cpu_participant {
        RoutingDecision::MoveTo(OutputFolder::Cpu)
    } else if features.total_damage < min_tournament_damage {
        RoutingDecision::MoveTo(OutputFolder::Handwarmers)
    } else {
        RoutingDecision::NoMove
    }
}

/// The plan for a replay: one that did not decode stays where it is.
pub open spec fn spec_plan(decoded: Option<GameRecord>, min_tournament_damage: u64) -> FilePlan {
    match decoded {
        None => FilePlan { features: None, decision: RoutingDecision::NoMove },
        Some(game) => FilePlan {
            features: Some(spec_features(game)),
            decision: spec_route(spec_features(game), min_tournament_damage),
        },
    }
}

/// Computes the features of a decoded game.
pub fn extract_features(game: &GameRecord) -> (r: FeatureSet)
    ensures
        r == spec_features(*game),
{
    let has_cpu_participant = game_has_cpu_player(game);
    let total_damage = calculate_damage_done(game);
    FeatureSet { has_cpu_participant, total_damage }
}

/// Decides where a game with the given features goes.
pub fn route(features: &FeatureSet, config: &SortConfig) -> (r: RoutingDecision)
    ensures
        r == spec_route(*features, config.min_tournament_damage),
{
    if features.has_cpu_participant {
        RoutingDecision::MoveTo(OutputFolder::Cpu)
    } else if features.total_damage < config.min_tournament_damage {
        RoutingDecision::MoveTo(OutputFolder::Handwarmers)
    } else {
        RoutingDecision::NoMove
    }
}

/// Plans what is done with one replay, given the outcome of decoding it
/// (`None` where it did not decode).
pub fn plan_slp(decoded: &Option<GameRecord>, config: &SortConfig) -> (r: FilePlan)
    ensures
        r == spec_plan(*decoded, config.min_tournament_damage),
{
    match decoded {
        None => FilePlan { features: None, decision: RoutingDecision::NoMove },
        Some(game) => {
            let features = extract_features(game);
            let decision = route(&features, config);
            FilePlan { features: Some(features), decision }
        },
    }
}

/// A game with a computer-controlled player goes to the CPU folder, whatever
/// its damage.
pub proof fn lemma_cpu_game_goes_to_cpu_folder(game: GameRecord, min_tournament_damage: u64)
    requires
        game.spec_has_cpu_player(),
    ensures
        spec_plan(Some(game), min_tournament_damage).decision == RoutingDecision::MoveTo(
            OutputFolder::Cpu,
        ),
{
}

/// Without a computer-controlled player, a game goes to the handwarmers
/// folder exactly when its damage is strictly below the threshold, and stays
/// otherwise: a damage equal to the threshold stays.
pub proof fn lemma_handwarmer_threshold_is_strict(game: GameRecord, min_tournament_damage: u64)
    requires
        !game.spec_has_cpu_player(),
    ensures
        spec_plan(Some(game), min_tournament_damage).decision == (if saturated(game_damage(game))
            < min_tournament_damage {
            RoutingDecision::MoveTo(OutputFolder::Handwarmers)
        } else {
            RoutingDecision::NoMove
        }),
{
}

/// A replay that did not decode is never moved.
pub proof fn lemma_undecodable_stays(min_tournament_damage: u64)
    ensures
        spec_plan(None, min_tournament_damage).decision == RoutingDecision::NoMove,
{
}

} // verus!
