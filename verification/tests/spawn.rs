use dartman::spawn::{
    plan_goblin_wave, side_from_index, spawn_edge, Axis, Side, SpawnEdge, ARENA_EDGE, MAX_WAVE,
};

#[test]
fn sides_in_draw_order() {
    assert_eq!(side_from_index(0), Side::Top);
    assert_eq!(side_from_index(1), Side::Bottom);
    assert_eq!(side_from_index(2), Side::Left);
    assert_eq!(side_from_index(3), Side::Right);
}

#[test]
fn edges_of_the_arena() {
    assert_eq!(spawn_edge(Side::Top), SpawnEdge { fixed_axis: Axis::Z, fixed_value: -90 });
    assert_eq!(spawn_edge(Side::Bottom), SpawnEdge { fixed_axis: Axis::Z, fixed_value: 90 });
    assert_eq!(spawn_edge(Side::Left), SpawnEdge { fixed_axis: Axis::X, fixed_value: -90 });
    assert_eq!(spawn_edge(Side::Right), SpawnEdge { fixed_axis: Axis::X, fixed_value: 90 });
    assert_eq!(ARENA_EDGE, 90);
}

#[test]
fn waves_hold_one_to_nine_goblins() {
    for _ in 0..500 {
        let wave = plan_goblin_wave();
        assert!(!wave.is_empty());
        assert!(wave.len() <= MAX_WAVE);
    }
}

#[test]
fn waves_vary_in_size_and_sides() {
    let mut sizes = [false; 10];
    let mut sides = [false; 4];
    for _ in 0..2000 {
        let wave = plan_goblin_wave();
        sizes[wave.len()] = true;
        for side in wave {
            let slot = match side {
                Side::Top => 0,
                Side::Bottom => 1,
                Side::Left => 2,
                Side::Right => 3,
            };
            sides[slot] = true;
        }
    }
    assert!(sizes[1..].iter().all(|seen| *seen));
    assert!(!sizes[0]);
    assert!(sides.iter().all(|seen| *seen));
}

#[test]
fn wave_follows_the_draws() {
    let wave = dartman::spawn::wave_from_draws(5, &vec![3, 0, 2, 2, 1]);
    assert_eq!(wave, vec![Side::Right, Side::Top, Side::Left, Side::Left, Side::Bottom]);
    assert_eq!(dartman::spawn::wave_from_draws(1, &vec![0]), vec![Side::Top]);
    let nine = dartman::spawn::wave_from_draws(9, &vec![1; 9]);
    assert_eq!(nine, vec![Side::Bottom; 9]);
}
