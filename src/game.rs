use vstd::prelude::*;

verus! {

/// Who controls a player slot of a game.
#[derive(Clone, Copy, Debug, PartialEq, Eq, Structural)]
pub enum PlayerKind {
    Human,
    Cpu,
    Demo,
}

/// What the sorter reads of a decoded replay.
pub struct GameRecord {
    /// The kind of each player of the game, one entry per occupied slot.
    pub players: Vec<PlayerKind>,
    /// For each port, the damage reading of its player on every frame, in
    /// frame order, in thousandths of a percent point.
    pub percents: Vec<Vec<u32>>,
}

impl GameRecord {
    /// The damage readings of each port as sequences.
    pub open spec fn percents_view(&self) -> Seq<Seq<u32>> {
        self.percents@.map_values(|p: Vec<u32>| p@)
    }

    /// Some player of the game is computer-controlled.
    pub open spec fn spec_has_cpu_player(&self) -> bool {
        exists|i: int| 0 <= i < self.players@.len() && self.players@[i] == PlayerKind::Cpu
    }
}

/// Tells whether any player of the game is computer-controlled.
pub fn game_has_cpu_player(game: &GameRecord) -> (r: bool)
    ensures
        r == game.spec_has_cpu_player(),
{
    let n = game.players.len();
    let mut i: usize = 0;
    while i < n
        invariant
            n == game.players@.len(),
            i <= n,
            forall|j: int| 0 <= j < i ==> game.players@[j] != PlayerKind::Cpu,
        decreases n - i,
    {
        if game.players[i] == PlayerKind::Cpu {
            return true;
        }
        i = i + 1;
    }
    false
}

} // verus!
