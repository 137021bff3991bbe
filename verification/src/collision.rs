//! Collision rounds: which goblins and darts a round removes, and how the
//! score moves. Entities are named by their 64-bit ids; whether two volumes
//! touch is decided by the float geometry of the caller, which hands the
//! outcomes in as booleans.

use vstd::prelude::*;
use crate::score::GameScore;

verus! {

/// The outcomes of the dart test hold one row per goblin and, in each row, one
/// entry per dart.
pub open spec fn hits_shaped(goblin_count: nat, dart_count: nat, hits: Seq<Vec<bool>>) -> bool {
    &&& hits.len() == goblin_count
    &&& forall|g: int| 0 <= g < hits.len() ==> (#[trigger] hits[g])@.len() == dart_count
}

/// The dart with index `d` lies within the collision box of the goblin with index `g`.
pub open spec fn pair_hit(hits: Seq<Vec<bool>>, g: int, d: int) -> bool {
    &&& 0 <= g < hits.len()
    &&& 0 <= d < hits[g]@.len()
    &&& hits[g]@[d]
}

/// The pair `(g, d)` comes before `(i, j)` in the order in which the round
/// visits pairs: goblin by goblin, and within a goblin dart by dart.
pub open spec fn visited_before(g: int, d: int, i: int, j: int) -> bool {
    g < i || (g == i && d < j)
}

/// The id that a hit pair removes on one side: that of its goblin when
/// `goblin_side`, else that of its dart.
pub open spec fn side_id(ids: Seq<u64>, goblin_side: bool, g: int, d: int) -> u64 {
    if goblin_side {
        ids[g]
    } else {
        ids[d]
    }
}

/// The ids that the hit pairs visited before `(i, j)` remove on one side.
pub open spec fn removed_before(
    ids: Seq<u64>,
    goblin_side: bool,
    hits: Seq<Vec<bool>>,
    i: int,
    j: int,
) -> Set<u64> {
    Set::new(
        |id: u64|
            exists|g: int, d: int|
                #[trigger] pair_hit(hits, g, d) && visited_before(g, d, i, j) && side_id(
                    ids,
                    goblin_side,
                    g,
                    d,
                ) == id,
    )
}

/// The goblins struck by at least one dart.
pub open spec fn struck_goblins(goblins: Seq<u64>, hits: Seq<Vec<bool>>) -> Set<u64> {
    Set::new(|id: u64| exists|g: int, d: int| #[trigger] pair_hit(hits, g, d) && goblins[g] == id)
}

/// The darts that struck at least one goblin.
pub open spec fn striking_darts(darts: Seq<u64>, hits: Seq<Vec<bool>>) -> Set<u64> {
    Set::new(|id: u64| exists|g: int, d: int| #[trigger] pair_hit(hits, g, d) && darts[d] == id)
}

/// The goblins, in order, whose collision box overlaps the player's.
pub open spec fn touching_goblins(goblins: Seq<u64>, touching: Seq<bool>) -> Seq<u64>
    decreases goblins.len(),
{
    if goblins.len() == 0 {
        Seq::empty()
    } else {
        let rest = touching_goblins(goblins.drop_last(), touching);
        if touching[goblins.len() - 1] {
            rest.push(goblins.last())
        } else {
            rest
        }
    }
}

/// What a round of dart collisions removes from the arena.
pub struct DartHits {
    /// Each goblin struck by a dart, once.
    pub goblins: Vec<u64>,
    /// Each dart that struck a goblin, once.
    pub darts: Vec<u64>,
}

/// Visiting one more pair adds its id to the removed ids when it is a hit.
proof fn lemma_removed_step(ids: Seq<u64>, goblin_side: bool, hits: Seq<Vec<bool>>, i: int, j: int)
    ensures
        removed_before(ids, goblin_side, hits, i, j + 1) == (if pair_hit(hits, i, j) {
            removed_before(ids, goblin_side, hits, i, j).insert(side_id(ids, goblin_side, i, j))
        } else {
            removed_before(ids, goblin_side, hits, i, j)
        }),
{
    let after = removed_before(ids, goblin_side, hits, i, j + 1);
    let before = removed_before(ids, goblin_side, hits, i, j);
    let expected = if pair_hit(hits, i, j) {
        before.insert(side_id(ids, goblin_side, i, j))
    } else {
        before
    };
    assert forall|id: u64| after.contains(id) implies expected.contains(id) by {
        let (g, d) = choose|g: int, d: int|
            #[trigger] pair_hit(hits, g, d) && visited_before(g, d, i, j + 1) && side_id(
                ids,
                goblin_side,
                g,
                d,
            ) == id;
        if visited_before(g, d, i, j) {
            assert(before.contains(id));
        }
    }
    assert forall|id: u64| expected.contains(id) implies after.contains(id) by {
        if before.contains(id) {
            let (g, d) = choose|g: int, d: int|
                #[trigger] pair_hit(hits, g, d) && visited_before(g, d, i, j) && side_id(
                    ids,
                    goblin_side,
                    g,
                    d,
                ) == id;
            assert(visited_before(g, d, i, j + 1));
        } else {
            assert(pair_hit(hits, i, j) && visited_before(i, j, i, j + 1));
        }
    }
    assert(after =~= expected);
}

/// Once a goblin's row is done, the round moves on to the next goblin.
proof fn lemma_removed_next_row(
    ids: Seq<u64>,
    goblin_side: bool,
    hits: Seq<Vec<bool>>,
    i: int,
    row_len: int,
)
    requires
        0 <= i < hits.len(),
        hits[i]@.len() == row_len,
    ensures
        removed_before(ids, goblin_side, hits, i, row_len) == removed_before(
            ids,
            goblin_side,
            hits,
            i + 1,
            0,
        ),
{
    let a = removed_before(ids, goblin_side, hits, i, row_len);
    let b = removed_before(ids, goblin_side, hits, i + 1, 0);
    assert forall|id: u64| b.contains(id) implies a.contains(id) by {
        let (g, d) = choose|g: int, d: int|
            #[trigger] pair_hit(hits, g, d) && visited_before(g, d, i + 1, 0) && side_id(
                ids,
                goblin_side,
                g,
                d,
            ) == id;
        assert(visited_before(g, d, i, row_len));
    }
    assert forall|id: u64| a.contains(id) implies b.contains(id) by {
        let (g, d) = choose|g: int, d: int|
            #[trigger] pair_hit(hits, g, d) && visited_before(g, d, i, row_len) && side_id(
                ids,
                goblin_side,
                g,
                d,
            ) == id;
        assert(visited_before(g, d, i + 1, 0));
    }
    assert(a =~= b);
}

/// After the last goblin, the removed ids are the struck goblins and the striking darts.
proof fn lemma_removed_all(goblins: Seq<u64>, darts: Seq<u64>, hits: Seq<Vec<bool>>)
    ensures
        removed_before(goblins, true, hits, hits.len() as int, 0) == struck_goblins(goblins, hits),
        removed_before(darts, false, hits, hits.len() as int, 0) == striking_darts(darts, hits),
{
    let a = removed_before(goblins, true, hits, hits.len() as int, 0);
    let b = struck_goblins(goblins, hits);
    assert forall|id: u64| b.contains(id) implies a.contains(id) by {
        let (g, d) = choose|g: int, d: int| #[trigger] pair_hit(hits, g, d) && goblins[g] == id;
        assert(visited_before(g, d, hits.len() as int, 0));
    }
    assert(a =~= b);
    let c = removed_before(darts, false, hits, hits.len() as int, 0);
    let e = striking_darts(darts, hits);
    assert forall|id: u64| e.contains(id) implies c.contains(id) by {
        let (g, d) = choose|g: int, d: int| #[trigger] pair_hit(hits, g, d) && darts[d] == id;
        assert(visited_before(g, d, hits.len() as int, 0));
    }
    assert(c =~= e);
}

/// Adds `id` to `list` unless it is there already.
fn push_unique(list: &mut Vec<u64>, id: u64)
    requires
        old(list)@.no_duplicates(),
    ensures
        final(list)@.no_duplicates(),
        final(list)@.to_set() == old(list)@.to_set().insert(id),
{
    let mut k: usize = 0;
    while k < list.len()
        invariant
            k <= list.len(),
            list@ == old(list)@,
            list@.no_duplicates(),
            forall|m: int| 0 <= m < k ==> list@[m] != id,
        decreases list.len() - k,
    {
        if list[k] == id {
            proof {
                assert(list@.to_set().contains(id));
                assert(list@.to_set().insert(id) =~= list@.to_set());
            }
            return;
        }
        k = k + 1;
    }
    proof {
        list@.lemma_push_to_set_commute(id);
        assert(!list@.contains(id));
    }
    list.push(id);
}

/// Sorts out a round of dart collisions: the goblins to remove are those
/// struck by at least one dart, the darts to remove are those that struck at
/// least one goblin, each listed once. `hits[g][d]` tells whether dart `d`
/// lies within the collision box of goblin `g`.
pub fn resolve_dart_hits(goblins: &Vec<u64>, darts: &Vec<u64>, hits: &Vec<Vec<bool>>) -> (removed:
    DartHits)
    requires
        hits_shaped(goblins@.len(), darts@.len(), hits@),
    ensures
        removed.goblins@.no_duplicates(),
        removed.goblins@.to_set() == struck_goblins(goblins@, hits@),
        removed.darts@.no_duplicates(),
        removed.darts@.to_set() == striking_darts(darts@, hits@),
{
    let mut goblin_list: Vec<u64> = Vec::new();
    let mut dart_list: Vec<u64> = Vec::new();
    let mut i: usize = 0;
    proof {
        assert(goblin_list@.to_set() =~= removed_before(goblins@, true, hits@, 0, 0));
        assert(dart_list@.to_set() =~= removed_before(darts@, false, hits@, 0, 0));
    }
    while i < goblins.len()
        invariant
            i <= goblins@.len(),
            hits_shaped(goblins@.len(), darts@.len(), hits@),
            goblin_list@.no_duplicates(),
            dart_list@.no_duplicates(),
            goblin_list@.to_set() == removed_before(goblins@, true, hits@, i as int, 0),
            dart_list@.to_set() == removed_before(darts@, false, hits@, i as int, 0),
        decreases goblins.len() - i,
    {
        let row = &hits[i];
        let mut j: usize = 0;
        while j < darts.len()
            invariant
                i < goblins@.len(),
                j <= darts@.len(),
                hits_shaped(goblins@.len(), darts@.len(), hits@),
                row@ == hits@[i as int]@,
                goblin_list@.no_duplicates(),
                dart_list@.no_duplicates(),
                goblin_list@.to_set() == removed_before(goblins@, true, hits@, i as int, j as int),
                dart_list@.to_set() == removed_before(darts@, false, hits@, i as int, j as int),
            decreases darts.len() - j,
        {
            proof {
                lemma_removed_step(goblins@, true, hits@, i as int, j as int);
                lemma_removed_step(darts@, false, hits@, i as int, j as int);
            }
            if row[j] {
                push_unique(&mut goblin_list, goblins[i]);
                push_unique(&mut dart_list, darts[j]);
            }
            j = j + 1;
        }
        proof {
            lemma_removed_next_row(goblins@, true, hits@, i as int, darts@.len() as int);
            lemma_removed_next_row(darts@, false, hits@, i as int, darts@.len() as int);
        }
        i = i + 1;
    }
    proof {
        lemma_removed_all(goblins@, darts@, hits@);
    }
    DartHits { goblins: goblin_list, darts: dart_list }
}

/// The goblins, in order, whose collision box overlaps the player's:
/// `touching[g]` tells whether goblin `g` does.
pub fn goblins_touching_player(goblins: &Vec<u64>, touching: &Vec<bool>) -> (reached: Vec<u64>)
    requires
        touching@.len() == goblins@.len(),
    ensures
        reached@ == touching_goblins(goblins@, touching@),
{
    let mut reached: Vec<u64> = Vec::new();
    let mut i: usize = 0;
    while i < goblins.len()
        invariant
            i <= goblins@.len(),
            touching@.len() == goblins@.len(),
            reached@ == touching_goblins(goblins@.take(i as int), touching@),
        decreases goblins.len() - i,
    {
        proof {
            assert(goblins@.take(i + 1).drop_last() =~= goblins@.take(i as int));
        }
        if touching[i] {
            reached.push(goblins[i]);
        }
        i = i + 1;
    }
    proof {
        assert(goblins@.take(goblins@.len() as int) =~= goblins@);
    }
    reached
}

impl GameScore {
    /// Credits the goblins that a round of dart collisions removes, one kill each.
    pub fn record_dart_hits(&mut self, removed: &DartHits)
        requires
            old(self).goblin_kills + removed.goblins@.len() <= u32::MAX,
        ensures
            final(self).goblin_kills == old(self).goblin_kills + removed.goblins@.len(),
            final(self).player_deaths == old(self).player_deaths,
    {
        self.add_goblin_kills(removed.goblins.len());
    }
}

/// A round of dart collisions: removes each goblin struck by a dart and each
/// dart that struck one, and credits one kill per removed goblin.
pub fn check_goblin_dart_collision(
    score: &mut GameScore,
    goblins: &Vec<u64>,
    darts: &Vec<u64>,
    hits: &Vec<Vec<bool>>,
) -> (removed: DartHits)
    requires
        hits_shaped(goblins@.len(), darts@.len(), hits@),
        old(score).goblin_kills + struck_goblins(goblins@, hits@).len() <= u32::MAX,
    ensures
        removed.goblins@.no_duplicates(),
        removed.goblins@.to_set() == struck_goblins(goblins@, hits@),
        removed.darts@.no_duplicates(),
        removed.darts@.to_set() == striking_darts(darts@, hits@),
        struck_goblins(goblins@, hits@).finite(),
        final(score).goblin_kills == old(score).goblin_kills + struck_goblins(goblins@, hits@).len(),
        final(score).player_deaths == old(score).player_deaths,
{
    let removed = resolve_dart_hits(goblins, darts, hits);
    proof {
        removed.goblins@.unique_seq_to_set();
    }
    score.record_dart_hits(&removed);
    removed
}

/// A round of collisions between goblins and the player: removes each goblin
/// that reached the player and counts one death of the player for each.
pub fn check_goblin_player_collision(
    score: &mut GameScore,
    goblins: &Vec<u64>,
    touching: &Vec<bool>,
) -> (reached: Vec<u64>)
    requires
        touching@.len() == goblins@.len(),
        old(score).player_deaths + touching_goblins(goblins@, touching@).len() <= u32::MAX,
    ensures
        reached@ == touching_goblins(goblins@, touching@),
        final(score).player_deaths == old(score).player_deaths + reached@.len(),
        final(score).goblin_kills == old(score).goblin_kills,
{
    let reached = goblins_touching_player(goblins, touching);
    score.add_player_deaths(reached.len());
    reached
}

/// A player round removes no more goblins than there are, and only goblins
/// that are there.
pub proof fn law_player_round_bounded(goblins: Seq<u64>, touching: Seq<bool>)
    ensures
        touching_goblins(goblins, touching).len() <= goblins.len(),
        forall|id: u64| #[trigger]
            touching_goblins(goblins, touching).contains(id) ==> goblins.contains(id),
    decreases goblins.len(),
{
    if goblins.len() > 0 {
        law_player_round_bounded(goblins.drop_last(), touching);
        assert forall|id: u64| #[trigger]
            touching_goblins(goblins, touching).contains(id) implies goblins.contains(id) by {
            let rest = touching_goblins(goblins.drop_last(), touching);
            if rest.contains(id) {
                let k = choose|k: int| 0 <= k < goblins.drop_last().len() && goblins.drop_last()[k] == id;
                assert(goblins[k] == id);
            } else {
                assert(goblins[goblins.len() - 1] == id);
            }
        }
    }
}

/// The number of true flags.
pub open spec fn count_true(flags: Seq<bool>) -> nat
    decreases flags.len(),
{
    if flags.len() == 0 {
        0
    } else {
        count_true(flags.drop_first()) + flag_value(flags[0])
    }
}

/// One for a set flag, zero for a clear one.
pub open spec fn flag_value(flag: bool) -> nat {
    if flag {
        1
    } else {
        0
    }
}

/// The count of true flags splits over the last flag.
proof fn lemma_count_true_last(flags: Seq<bool>)
    requires
        flags.len() > 0,
    ensures
        count_true(flags) == count_true(flags.drop_last()) + flag_value(flags.last()),
    decreases flags.len(),
{
    if flags.len() > 1 {
        lemma_count_true_last(flags.drop_first());
        assert(flags.drop_first().drop_last() =~= flags.drop_last().drop_first());
        assert(flags.drop_last()[0] == flags[0]);
        assert(flags.drop_first().last() == flags.last());
        assert(count_true(flags) == count_true(flags.drop_first()) + flag_value(flags[0]));
        assert(count_true(flags.drop_last()) == count_true(flags.drop_last().drop_first()) + flag_value(flags.drop_last()[0]));
    } else {
        assert(flags.drop_first().len() == 0);
        assert(flags.drop_last().len() == 0);
        assert(flags.last() == flags[0]);
        assert(count_true(flags) == count_true(flags.drop_first()) + flag_value(flags[0]));
        assert(count_true(flags.drop_first()) == 0);
        assert(count_true(flags.drop_last()) == 0);
    }
}

/// A player round removes a goblin exactly when its own flag says it touches
/// the player: every goblin whose flag is set is removed, every removed goblin
/// had its flag set, and as many goblins are removed as there are set flags.
pub proof fn law_player_round_follows_flags(goblins: Seq<u64>, touching: Seq<bool>)
    requires
        touching.len() == goblins.len(),
    ensures
        touching_goblins(goblins, touching).len() == count_true(touching),
        forall|g: int|
            0 <= g < goblins.len() && #[trigger] touching[g] ==> touching_goblins(
                goblins,
                touching,
            ).contains(goblins[g]),
        forall|id: u64| #[trigger]
            touching_goblins(goblins, touching).contains(id) ==> exists|g: int|
                0 <= g < goblins.len() && touching[g] && goblins[g] == id,
    decreases goblins.len(),
{
    if goblins.len() == 0 {
        assert(touching =~= Seq::<bool>::empty());
    } else {
        let n = goblins.len() - 1;
        let gs = goblins.drop_last();
        let ts = touching.drop_last();
        law_player_round_follows_flags(gs, ts);
        lemma_touching_ignores_tail(gs, touching, ts);
        lemma_count_true_last(touching);
        let rest = touching_goblins(gs, touching);
        let all = touching_goblins(goblins, touching);
        assert forall|g: int| 0 <= g < goblins.len() && #[trigger] touching[g] implies all.contains(
            goblins[g],
        ) by {
            if g < n {
                assert(ts[g] == touching[g]);
                assert(rest.contains(gs[g]));
                let k = choose|k: int| 0 <= k < rest.len() && rest[k] == gs[g];
                assert(all[k] == rest[k]);
            } else {
                assert(all[all.len() - 1] == goblins[n]);
            }
        }
        assert forall|id: u64| #[trigger] all.contains(id) implies exists|g: int|
            0 <= g < goblins.len() && touching[g] && goblins[g] == id by {
            let k = choose|k: int| 0 <= k < all.len() && all[k] == id;
            if k < rest.len() {
                assert(rest.contains(id));
                let g = choose|g: int| 0 <= g < gs.len() && ts[g] && gs[g] == id;
                assert(touching[g] && goblins[g] == id);
            } else {
                assert(touching[n] && goblins[n] == id);
            }
        }
    }
}

/// Which goblins a player round removes depends only on the flags of those
/// goblins, not on flags past the end.
proof fn lemma_touching_ignores_tail(goblins: Seq<u64>, flags: Seq<bool>, prefix: Seq<bool>)
    requires
        prefix.len() == goblins.len(),
        flags.len() >= goblins.len(),
        forall|i: int| 0 <= i < prefix.len() ==> prefix[i] == flags[i],
    ensures
        touching_goblins(goblins, flags) == touching_goblins(goblins, prefix),
    decreases goblins.len(),
{
    if goblins.len() > 0 {
        lemma_touching_ignores_tail(goblins.drop_last(), flags, prefix.drop_last());
        lemma_touching_ignores_tail(goblins.drop_last(), prefix, prefix.drop_last());
    }
}

/// A dart round removes no more goblins than there are, and only goblins that
/// are there.
pub proof fn law_dart_round_bounded(goblins: Seq<u64>, hits: Seq<Vec<bool>>)
    requires
        hits.len() == goblins.len(),
    ensures
        struck_goblins(goblins, hits).subset_of(goblins.to_set()),
        struck_goblins(goblins, hits).finite(),
        struck_goblins(goblins, hits).len() <= goblins.len(),
{
    assert forall|id: u64| #[trigger] struck_goblins(goblins, hits).contains(id) implies goblins.to_set().contains(id) by {
        let (g, d) = choose|g: int, d: int| #[trigger] pair_hit(hits, g, d) && goblins[g] == id;
        assert(goblins.contains(goblins[g]));
    }
    vstd::set_lib::lemma_len_subset(struck_goblins(goblins, hits), goblins.to_set());
    goblins.lemma_cardinality_of_set();
}

} // verus!
