use vstd::prelude::*;
use crate::game::GameRecord;

verus! {

/// The damage a reading step adds: the rise from `initial` to `next`, or
/// nothing where the reading stayed or fell (a stock was lost).
pub open spec fn step_gain(initial: u32, next: u32) -> nat {
    if next > initial {
        (next - initial) as nat
    } else {
        0
    }
}

/// The damage over a sequence of readings: the sum of the gains of its
/// consecutive pairs.
pub open spec fn sequence_damage(s: Seq<u32>) -> nat
    decreases s.len(),
{
    if s.len() < 2 {
        0
    } else {
        sequence_damage(s.drop_last()) + step_gain(s[s.len() - 2], s[s.len() - 1])
    }
}

/// The damage over all ports: the sum of the damage of each one.
pub open spec fn ports_damage(ports: Seq<Seq<u32>>) -> nat
    decreases ports.len(),
{
    if ports.len() == 0 {
        0
    } else {
        ports_damage(ports.drop_last()) + sequence_damage(ports.last())
    }
}

/// The total damage of a game.
pub open spec fn game_damage(game: GameRecord) -> nat {
    ports_damage(game.percents_view())
}

/// A count as a `u64`, held at `u64::MAX` where it is larger.
pub open spec fn saturated(x: nat) -> u64 {
    if x > u64::MAX {
        u64::MAX
    } else {
        x as u64
    }
}

/// Adding to a held count holds the sum.
proof fn lemma_saturated_add(a: nat, b: nat)
    ensures
        (saturated(a) + saturated(b) > u64::MAX ==> saturated(a + b) == u64::MAX),
        (saturated(a) + saturated(b) <= u64::MAX ==> saturated(a + b) == saturated(a)
            + saturated(b)),
{
}

/// The damage over one port's readings: the sum of every rise from one frame
/// to the next. Falls and unchanged readings add nothing. The sum is held at
/// `u64::MAX`, which no real game comes near.
pub fn port_damage(percents: &Vec<u32>) -> (r: u64)
    ensures
        r == saturated(sequence_damage(percents@)),
{
    let n = percents.len();
    if n < 2 {
        return 0;
    }
    let mut total: u64 = 0;
    let mut i: usize = 1;
    while i < n
        invariant
            n == percents@.len(),
            1 <= i <= n,
            total == saturated(sequence_damage(percents@.subrange(0, i as int))),
        decreases n - i,
    {
        let initial = percents[i - 1];
        let next = percents[i];
        let gain: u64 = if next > initial {
            (next - initial) as u64
        } else {
            0
        };
        proof {
            let s = percents@.subrange(0, i + 1);
            assert(s.drop_last() =~= percents@.subrange(0, i as int));
            lemma_saturated_add(
                sequence_damage(percents@.subrange(0, i as int)),
                step_gain(initial, next),
            );
        }
        total = total.saturating_add(gain);
        i = i + 1;
    }
    assert(percents@.subrange(0, n as int) =~= percents@);
    total
}

/// The total damage of a game: the damage of each port, added over all
/// ports, held at `u64::MAX`.
pub fn calculate_damage_done(game: &GameRecord) -> (r: u64)
    ensures
        r == saturated(game_damage(*game)),
{
    let n = game.percents.len();
    let mut total: u64 = 0;
    let mut i: usize = 0;
    while i < n
        invariant
            n == game.percents@.len(),
            i <= n,
            total == saturated(ports_damage(game.percents_view().subrange(0, i as int))),
        decreases n - i,
    {
        let d = port_damage(&game.percents[i]);
        proof {
            let ports = game.percents_view();
            let s = ports.subrange(0, i + 1);
            assert(s.drop_last() =~= ports.subrange(0, i as int));
            assert(s.last() == game.percents@[i as int]@);
            lemma_saturated_add(
                ports_damage(ports.subrange(0, i as int)),
                sequence_damage(game.percents@[i as int]@),
            );
        }
        total = total.saturating_add(d);
        i = i + 1;
    }
    assert(game.percents_view().subrange(0, n as int) =~= game.percents_view());
    total
}

/// The readings never fall.
pub open spec fn non_decreasing(s: Seq<u32>) -> bool {
    forall|i: int, j: int| 0 <= i <= j < s.len() ==> s[i] <= s[j]
}

/// The rise from the first reading to the last, or nothing for no reading.
pub open spec fn net_rise(s: Seq<u32>) -> int {
    if s.len() == 0 {
        0
    } else {
        s.last() - s[0]
    }
}

/// The rises from first to last reading, added over all ports.
pub open spec fn ports_net_rise(ports: Seq<Seq<u32>>) -> int
    decreases ports.len(),
{
    if ports.len() == 0 {
        0
    } else {
        ports_net_rise(ports.drop_last()) + net_rise(ports.last())
    }
}

/// Where a port's readings never fall, its damage is its last reading less
/// its first.
pub proof fn lemma_non_decreasing_damage(s: Seq<u32>)
    requires
        non_decreasing(s),
    ensures
        sequence_damage(s) == net_rise(s),
    decreases s.len(),
{
    if s.len() >= 2 {
        let t = s.drop_last();
        lemma_non_decreasing_damage(t);
        assert(s[s.len() - 2] <= s[s.len() - 1]);
    }
}

/// Where no port's readings ever fall, the total damage of a game is the last
/// reading less the first, added over the ports.
pub proof fn lemma_non_decreasing_game_damage(game: GameRecord)
    requires
        forall|p: int|
            0 <= p < game.percents@.len() ==> non_decreasing(#[trigger] game.percents@[p]@),
    ensures
        game_damage(game) == ports_net_rise(game.percents_view()),
{
    lemma_non_decreasing_ports(game.percents_view());
}

proof fn lemma_non_decreasing_ports(ports: Seq<Seq<u32>>)
    requires
        forall|p: int| 0 <= p < ports.len() ==> non_decreasing(#[trigger] ports[p]),
    ensures
        ports_damage(ports) == ports_net_rise(ports),
    decreases ports.len(),
{
    if ports.len() > 0 {
        let t = ports.drop_last();
        assert forall|p: int| 0 <= p < t.len() implies non_decreasing(#[trigger] t[p]) by {
            assert(t[p] == ports[p]);
        }
        lemma_non_decreasing_ports(t);
        lemma_non_decreasing_damage(ports.last());
    }
}

/// The damage of a sequence is the damage up to a reading plus the damage
/// from that reading on.
pub proof fn lemma_damage_split(s: Seq<u32>, m: int)
    requires
        0 <= m < s.len(),
    ensures
        sequence_damage(s) == sequence_damage(s.subrange(0, m + 1)) + sequence_damage(
            s.subrange(m, s.len() as int),
        ),
    decreases s.len(),
{
    let n = s.len() as int;
    if m == n - 1 {
        assert(s.subrange(0, m + 1) =~= s);
    } else {
        let t = s.drop_last();
        lemma_damage_split(t, m);
        assert(t.subrange(0, m + 1) =~= s.subrange(0, m + 1));
        let u = s.subrange(m, n);
        assert(u.drop_last() =~= t.subrange(m, n - 1));
        assert(u[u.len() - 2] == s[n - 2]);
        assert(u[u.len() - 1] == s[n - 1]);
    }
}

/// Where a port's readings fall once, at a lost stock, and never otherwise,
/// the fall adds nothing: the damage is the rise up to the fall plus the rise
/// after it.
pub proof fn lemma_single_reset_damage(s: Seq<u32>, k: int)
    requires
        0 <= k,
        k + 1 < s.len(),
        s[k + 1] < s[k],
        non_decreasing(s.subrange(0, k + 1)),
        non_decreasing(s.subrange(k + 1, s.len() as int)),
    ensures
        sequence_damage(s) == (s[k] - s[0]) + (s.last() - s[k + 1]),
{
    let n = s.len() as int;
    lemma_damage_split(s, k + 1);
    let head = s.subrange(0, k + 2);
    let tail = s.subrange(k + 1, n);
    assert(head.drop_last() =~= s.subrange(0, k + 1));
    lemma_non_decreasing_damage(s.subrange(0, k + 1));
    lemma_non_decreasing_damage(tail);
}

} // verus!
