use vstd::prelude::*;
use crate::classify::{spec_plan, RoutingDecision};
use crate::collect::{spec_is_replay_candidate, ScanEntry};
use crate::config::SortConfig;
use crate::game::GameRecord;
use crate::relocate::spec_folder_name;

verus! {

/// A run moves this file: it is a replay to sort and its plan moves it.
pub open spec fn spec_is_moved(config: &SortConfig, file: (ScanEntry, Option<GameRecord>)) -> bool {
    spec_is_replay_candidate(&file.0, config) && spec_plan(
        file.1,
        config.min_tournament_damage,
    ).decision != RoutingDecision::NoMove
}

/// How many of the files a run moves. Each file is given by its scanned path
/// and by what decoding it gives.
pub open spec fn moved_count(config: &SortConfig, files: Seq<(ScanEntry, Option<GameRecord>)>) -> nat
    decreases files.len(),
{
    if files.len() == 0 {
        0
    } else {
        moved_count(config, files.drop_last()) + if spec_is_moved(config, files.last()) {
            1nat
        } else {
            0nat
        }
    }
}

/// What a run leaves of a file: one it moves now lies inside the output
/// folder of its plan, and any other is as it was, at the same path.
pub open spec fn spec_left_by_run(
    config: &SortConfig,
    before: (ScanEntry, Option<GameRecord>),
    after: (ScanEntry, Option<GameRecord>),
) -> bool {
    if spec_is_moved(config, before) {
        match spec_plan(before.1, config.min_tournament_damage).decision {
            RoutingDecision::MoveTo(folder) => after.0.has_component(
                spec_folder_name(config, folder),
            ),
            RoutingDecision::NoMove => after == before,
        }
    } else {
        after == before
    }
}

/// A second run over what a first run left moves no file: the moved files lie
/// inside an output folder and are no longer scanned, and every other file
/// gets the same plan as before, which did not move it.
pub proof fn lemma_second_run_moves_nothing(
    config: &SortConfig,
    first: Seq<(ScanEntry, Option<GameRecord>)>,
    second: Seq<(ScanEntry, Option<GameRecord>)>,
)
    requires
        second.len() == first.len(),
        forall|i: int|
            0 <= i < first.len() ==> spec_left_by_run(config, first[i], #[trigger] second[i]),
    ensures
        moved_count(config, second) == 0,
    decreases first.len(),
{
    if first.len() > 0 {
        let n = first.len() - 1;
        assert forall|i: int| 0 <= i < n implies spec_left_by_run(
            config,
            first.drop_last()[i],
            #[trigger] second.drop_last()[i],
        ) by {
            assert(spec_left_by_run(config, first[i], second[i]));
        }
        lemma_second_run_moves_nothing(config, first.drop_last(), second.drop_last());
        assert(spec_left_by_run(config, first[n], second[n]));
    }
}

} // verus!
