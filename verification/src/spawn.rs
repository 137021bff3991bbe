//! Waves of goblins: how many enter the arena, along which edge, and where
//! that edge lies.

use vstd::prelude::*;
use rand::rngs::ThreadRng;
use rand::Rng;

verus! {

/// The half width of the square arena: its edges lie at -90 and 90 on both
/// axes, and a goblin enters on an edge at an offset drawn from [-90, 90).
pub const ARENA_EDGE: i32 = 90;

/// The most goblins one wave brings.
pub const MAX_WAVE: usize = 9;

/// The four edges of the arena.
#[derive(Clone, Copy, Debug, PartialEq, Eq, Structural)]
pub enum Side {
    Top,
    Bottom,
    Left,
    Right,
}

/// An axis of the ground plane.
#[derive(Clone, Copy, Debug, PartialEq, Eq, Structural)]
pub enum Axis {
    X,
    Z,
}

/// An edge of the arena: the axis that is fixed along it and the value it is
/// fixed at. A goblin entering there gets a random offset on the other axis.
#[derive(Clone, Copy, Debug, PartialEq, Eq, Structural)]
pub struct SpawnEdge {
    pub fixed_axis: Axis,
    pub fixed_value: i32,
}

/// The edge that each side stands for: top and bottom fix z at -90 and 90,
/// left and right fix x at -90 and 90.
pub open spec fn edge_of(side: Side) -> SpawnEdge {
    match side {
        Side::Top => SpawnEdge { fixed_axis: Axis::Z, fixed_value: -90i32 },
        Side::Bottom => SpawnEdge { fixed_axis: Axis::Z, fixed_value: 90i32 },
        Side::Left => SpawnEdge { fixed_axis: Axis::X, fixed_value: -90i32 },
        Side::Right => SpawnEdge { fixed_axis: Axis::X, fixed_value: 90i32 },
    }
}

/// The sides in the order in which a draw of an index picks them.
pub open spec fn side_at(index: int) -> Side {
    if index == 0 {
        Side::Top
    } else if index == 1 {
        Side::Bottom
    } else if index == 2 {
        Side::Left
    } else {
        Side::Right
    }
}

#[verifier::external_type_specification]
#[verifier::external_body]
pub struct ExThreadRng(rand::rngs::ThreadRng);

/// `rand::thread_rng`: the random generator of the calling thread. Nothing is
/// claimed of its state.
#[verifier::external_body]
fn thread_rng() -> ThreadRng {
    rand::thread_rng()
}

/// `rand::Rng::gen_range` on the half-open range `low..high` of `usize`: rand
/// draws a value uniformly from `[low, high)` and panics on an empty range.
/// Only the bounds are claimed; which value comes out is chance.
#[verifier::external_body]
fn gen_range(rng: &mut ThreadRng, low: usize, high: usize) -> (value: usize)
    requires
        low < high,
    ensures
        low <= value < high,
{
    rng.gen_range(low..high)
}

/// The side that a draw of `index` from `0..4` picks: top, bottom, left,
/// right in that order.
pub fn side_from_index(index: usize) -> (side: Side)
    requires
        index < 4,
    ensures
        side == side_at(index as int),
{
    if index == 0 {
        Side::Top
    } else if index == 1 {
        Side::Bottom
    } else if index == 2 {
        Side::Left
    } else {
        Side::Right
    }
}

/// The edge along which a goblin of `side` enters the arena.
pub fn spawn_edge(side: Side) -> (edge: SpawnEdge)
    ensures
        edge == edge_of(side),
{
    match side {
        Side::Top => SpawnEdge { fixed_axis: Axis::Z, fixed_value: -ARENA_EDGE },
        Side::Bottom => SpawnEdge { fixed_axis: Axis::Z, fixed_value: ARENA_EDGE },
        Side::Left => SpawnEdge { fixed_axis: Axis::X, fixed_value: -ARENA_EDGE },
        Side::Right => SpawnEdge { fixed_axis: Axis::X, fixed_value: ARENA_EDGE },
    }
}

/// The wave that the given draws plan: `count` goblins, and goblin `i` enters
/// on the side that the `i`-th side draw picks.
pub fn wave_from_draws(count: usize, side_draws: &Vec<usize>) -> (wave: Vec<Side>)
    requires
        1 <= count <= MAX_WAVE,
        side_draws@.len() == count,
        forall|i: int| 0 <= i < count ==> side_draws@[i] < 4,
    ensures
        wave@.len() == count,
        forall|i: int| 0 <= i < count ==> wave@[i] == side_at(side_draws@[i] as int),
{
    let mut wave: Vec<Side> = Vec::new();
    let mut k: usize = 0;
    while k < count
        invariant
            k <= count,
            side_draws@.len() == count,
            forall|i: int| 0 <= i < count ==> side_draws@[i] < 4,
            wave@.len() == k,
            forall|i: int| 0 <= i < k ==> wave@[i] == side_at(side_draws@[i] as int),
        decreases count - k,
    {
        wave.push(side_from_index(side_draws[k]));
        k = k + 1;
    }
    wave
}

/// A new wave of goblins: the size of the wave is drawn from `1..10`, then for
/// each goblin a side index from `0..4`, and the draws are planned by
/// [`wave_from_draws`]. Which values come out is chance; whatever they are,
/// the wave holds one to nine goblins.
pub fn plan_goblin_wave() -> (wave: Vec<Side>)
    ensures
        1 <= wave@.len() <= MAX_WAVE,
{
    let mut rng = thread_rng();
    let count = gen_range(&mut rng, 1, MAX_WAVE + 1);
    let mut side_draws: Vec<usize> = Vec::new();
    let mut k: usize = 0;
    while k < count
        invariant
            k <= count,
            1 <= count <= MAX_WAVE,
            side_draws@.len() == k,
            forall|i: int| 0 <= i < k ==> side_draws@[i] < 4,
        decreases count - k,
    {
        side_draws.push(gen_range(&mut rng, 0, 4));
        k = k + 1;
    }
    wave_from_draws(count, &side_draws)
}

/// Every edge lies on the border of the arena, and opposite sides lie on
/// opposite edges of the same axis.
pub proof fn law_edges_on_border(side: Side)
    ensures
        edge_of(side).fixed_value == ARENA_EDGE || edge_of(side).fixed_value == -ARENA_EDGE,
        edge_of(Side::Top).fixed_axis == edge_of(Side::Bottom).fixed_axis,
        edge_of(Side::Top).fixed_value == -edge_of(Side::Bottom).fixed_value,
        edge_of(Side::Left).fixed_axis == edge_of(Side::Right).fixed_axis,
        edge_of(Side::Left).fixed_value == -edge_of(Side::Right).fixed_value,
{
}

/// Different sides are different edges, and every index that a draw from
/// `0..4` can give picks a different side.
pub proof fn law_sides_distinct(first: Side, second: Side, i: int, j: int)
    ensures
        first != second ==> edge_of(first) != edge_of(second),
        0 <= i < 4 && 0 <= j < 4 && i != j ==> side_at(i) != side_at(j),
{
}

} // verus!
