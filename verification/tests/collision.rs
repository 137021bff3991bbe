use dartman::collision::{
    check_goblin_dart_collision, check_goblin_player_collision, goblins_touching_player,
    resolve_dart_hits,
};
use dartman::score::GameScore;

fn sorted(mut ids: Vec<u64>) -> Vec<u64> {
    ids.sort();
    ids
}

#[test]
fn no_goblins_no_darts() {
    let removed = resolve_dart_hits(&vec![], &vec![], &vec![]);
    assert!(removed.goblins.is_empty());
    assert!(removed.darts.is_empty());
}

#[test]
fn darts_that_miss_remove_nothing() {
    let goblins = vec![1, 2];
    let darts = vec![10, 11, 12];
    let hits = vec![vec![false, false, false], vec![false, false, false]];
    let removed = resolve_dart_hits(&goblins, &darts, &hits);
    assert!(removed.goblins.is_empty());
    assert!(removed.darts.is_empty());
}

#[test]
fn goblin_struck_by_two_darts_is_removed_once() {
    let goblins = vec![7, 8];
    let darts = vec![20, 21];
    let hits = vec![vec![true, true], vec![false, false]];
    let removed = resolve_dart_hits(&goblins, &darts, &hits);
    assert_eq!(removed.goblins, vec![7]);
    assert_eq!(sorted(removed.darts), vec![20, 21]);
}

#[test]
fn dart_striking_two_goblins_is_removed_once() {
    let goblins = vec![3, 4, 5];
    let darts = vec![30, 31];
    let hits = vec![vec![false, true], vec![false, true], vec![false, false]];
    let removed = resolve_dart_hits(&goblins, &darts, &hits);
    assert_eq!(sorted(removed.goblins), vec![3, 4]);
    assert_eq!(removed.darts, vec![31]);
}

#[test]
fn dart_round_credits_one_kill_per_goblin() {
    let mut score = GameScore { player_deaths: 5, goblin_kills: 10 };
    let goblins = vec![1, 2, 3];
    let darts = vec![100, 200, 300];
    let hits = vec![
        vec![true, false, true],
        vec![false, false, false],
        vec![true, true, false],
    ];
    let removed = check_goblin_dart_collision(&mut score, &goblins, &darts, &hits);
    assert_eq!(sorted(removed.goblins), vec![1, 3]);
    assert_eq!(sorted(removed.darts), vec![100, 200, 300]);
    assert_eq!(score.goblin_kills, 12);
    assert_eq!(score.player_deaths, 5);
}

#[test]
fn record_dart_hits_counts_removed_goblins() {
    let mut score = GameScore::new();
    let removed = resolve_dart_hits(&vec![9, 8], &vec![1], &vec![vec![true], vec![true]]);
    score.record_dart_hits(&removed);
    assert_eq!(score.goblin_kills, 2);
    assert_eq!(score.player_deaths, 0);
}

#[test]
fn touching_goblins_in_order() {
    let goblins = vec![5, 6, 7, 8];
    let touching = vec![true, false, true, true];
    assert_eq!(goblins_touching_player(&goblins, &touching), vec![5, 7, 8]);
    assert!(goblins_touching_player(&vec![], &vec![]).is_empty());
    assert!(goblins_touching_player(&vec![1], &vec![false]).is_empty());
}

#[test]
fn player_round_counts_one_death_per_goblin() {
    let mut score = GameScore { player_deaths: 1, goblin_kills: 4 };
    let reached = check_goblin_player_collision(&mut score, &vec![11, 12, 13], &vec![true, false, true]);
    assert_eq!(reached, vec![11, 13]);
    assert_eq!(score.player_deaths, 3);
    assert_eq!(score.goblin_kills, 4);
}

#[test]
fn rounds_remove_no_more_goblins_than_there_are() {
    let goblins = vec![1, 1, 2];
    let hits = vec![vec![true], vec![true], vec![true]];
    let removed = resolve_dart_hits(&goblins, &vec![50], &hits);
    assert_eq!(sorted(removed.goblins), vec![1, 2]);
    assert_eq!(removed.darts, vec![50]);
    let reached = goblins_touching_player(&goblins, &vec![true, true, true]);
    assert_eq!(reached, vec![1, 1, 2]);
}
