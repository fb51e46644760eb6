//! The player-over-floor probe: which floor tiles a player is standing on,
//! reported as one event per overlapping (player, way) pair.

use vstd::prelude::*;
use crate::geometry::{Pos, spec_overlaps, vecs_xy_intersect};

verus! {

/// The way positions the box at `p` overlaps, in their list order.
pub open spec fn spec_overlapped_ways(p: Pos, ways: Seq<Pos>) -> Seq<Pos>
    decreases ways.len(),
{
    if ways.len() == 0 {
        Seq::empty()
    } else {
        let rest = spec_overlapped_ways(p, ways.drop_first());
        if spec_overlaps(p, ways[0]) {
            seq![ways[0]] + rest
        } else {
            rest
        }
    }
}

/// Unfolds `spec_overlapped_ways` around a processed prefix.
proof fn lemma_overlapped_ways_skip(p: Pos, ways: Seq<Pos>, j: int)
    requires
        0 <= j < ways.len(),
    ensures
        spec_overlapped_ways(p, ways.skip(j)) == if spec_overlaps(p, ways[j]) {
            seq![ways[j]] + spec_overlapped_ways(p, ways.skip(j + 1))
        } else {
            spec_overlapped_ways(p, ways.skip(j + 1))
        },
{
    assert(ways.skip(j).drop_first() =~= ways.skip(j + 1));
    assert(ways.skip(j)[0] == ways[j]);
}

/// One event per (player, way) pair whose boxes overlap, player-major.
pub open spec fn spec_player_way_events(players: Seq<Pos>, ways: Seq<Pos>) -> Seq<Pos>
    decreases players.len(),
{
    if players.len() == 0 {
        Seq::empty()
    } else {
        spec_overlapped_ways(players[0], ways) + spec_player_way_events(
            players.drop_first(),
            ways,
        )
    }
}

/// Unfolds `spec_player_way_events` around a processed prefix.
proof fn lemma_player_way_events_skip(players: Seq<Pos>, ways: Seq<Pos>, i: int)
    requires
        0 <= i < players.len(),
    ensures
        spec_player_way_events(players.skip(i), ways) == spec_overlapped_ways(players[i], ways)
            + spec_player_way_events(players.skip(i + 1), ways),
{
    assert(players.skip(i).drop_first() =~= players.skip(i + 1));
    assert(players.skip(i)[0] == players[i]);
}

/// Reports, player by player, every floor tile each player is standing on:
/// the positions of all way entities whose tile-sized box overlaps the
/// player's.
pub fn have_player_way_position(players: &Vec<Pos>, ways: &Vec<Pos>) -> (r: Vec<Pos>)
    ensures
        r@ == spec_player_way_events(players@, ways@),
{
    let ghost full = spec_player_way_events(players@, ways@);
    let mut out: Vec<Pos> = Vec::new();
    let mut i: usize = 0;
    proof {
        assert(players@.skip(0) =~= players@);
        assert(Seq::<Pos>::empty() + full =~= full);
    }
    while i < players.len()
        invariant
            0 <= i <= players@.len(),
            full == out@ + spec_player_way_events(players@.skip(i as int), ways@),
        decreases players@.len() - i,
    {
        proof {
            lemma_player_way_events_skip(players@, ways@, i as int);
        }
        let p = players[i];
        let ghost mid = out@ + spec_overlapped_ways(p, ways@);
        let mut j: usize = 0;
        proof {
            assert(ways@.skip(0) =~= ways@);
        }
        while j < ways.len()
            invariant
                0 <= j <= ways@.len(),
                p == players@[i as int],
                i < players@.len(),
                mid == out@ + spec_overlapped_ways(p, ways@.skip(j as int)),
            decreases ways@.len() - j,
        {
            proof {
                lemma_overlapped_ways_skip(p, ways@, j as int);
            }
            if vecs_xy_intersect(&p, &ways[j]) {
                out.push(ways[j]);
                proof {
                    assert(out@ + spec_overlapped_ways(p, ways@.skip(j as int + 1)) =~= mid);
                }
            }
            j = j + 1;
        }
        proof {
            assert(ways@.skip(ways@.len() as int) =~= Seq::<Pos>::empty());
            assert(out@ + Seq::<Pos>::empty() =~= out@);
            assert(out@ == mid);
        }
        i = i + 1;
    }
    proof {
        assert(players@.skip(players@.len() as int) =~= Seq::<Pos>::empty());
        assert(out@ + Seq::<Pos>::empty() =~= out@);
    }
    out
}

} // verus!
