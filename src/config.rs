use vstd::prelude::*;
use vstd::string::StringSliceAdditionalSpecFns;

verus! {

/// Folder that receives games with a computer-controlled player. The leading
/// `@` sorts it to the top of a directory listing.
pub const CPU_OUTPUT_FOLDER_NAME: &'static str = "@cpu_games";

/// Folder that receives games with too little damage to be a serious match.
pub const HANDWARMERS_OUTPUT_FOLDER_NAME: &'static str = "@handwarmers";

/// File extension of a replay.
pub const REPLAY_EXTENSION: &'static str = "slp";

/// Damage is counted in thousandths of a percent point.
pub const DAMAGE_UNITS_PER_PERCENT: u64 = 1000;

/// A game with less total damage than this (100 percent points, in
/// thousandths) is taken for a handwarmer.
pub const MINIMUM_TOURNAMENT_DAMAGE: u64 = 100_000;

/// The fixed settings of a sorting run.
pub struct SortConfig {
    /// Name of the folder for games with a computer-controlled player.
    pub cpu_folder: Vec<u8>,
    /// Name of the folder for low-damage games.
    pub handwarmers_folder: Vec<u8>,
    /// Extension (without the dot) that marks a replay file.
    pub extension: Vec<u8>,
    /// Games whose total damage is strictly below this are handwarmers.
    pub min_tournament_damage: u64,
}

impl SortConfig {
    /// The settings that the sorter runs with.
    pub fn new() -> (r: SortConfig)
        ensures
            r.cpu_folder@ == CPU_OUTPUT_FOLDER_NAME.spec_bytes(),
            r.handwarmers_folder@ == HANDWARMERS_OUTPUT_FOLDER_NAME.spec_bytes(),
            r.extension@ == REPLAY_EXTENSION.spec_bytes(),
            r.min_tournament_damage == MINIMUM_TOURNAMENT_DAMAGE,
    {
        SortConfig {
            cpu_folder: vstd::slice::slice_to_vec(CPU_OUTPUT_FOLDER_NAME.as_bytes()),
            handwarmers_folder: vstd::slice::slice_to_vec(
                HANDWARMERS_OUTPUT_FOLDER_NAME.as_bytes(),
            ),
            extension: vstd::slice::slice_to_vec(REPLAY_EXTENSION.as_bytes()),
            min_tournament_damage: MINIMUM_TOURNAMENT_DAMAGE,
        }
    }
}

} // verus!
