use dartman::score::GameScore;

#[test]
fn new_score_is_zero() {
    let score = GameScore::new();
    assert_eq!(score.player_deaths, 0);
    assert_eq!(score.goblin_kills, 0);
    let default_score = GameScore::default();
    assert_eq!(default_score.player_deaths, 0);
    assert_eq!(default_score.goblin_kills, 0);
}

#[test]
fn adding_kills_and_deaths() {
    let mut score = GameScore::new();
    score.add_goblin_kills(3);
    score.add_goblin_kills(0);
    score.add_player_deaths(2);
    score.add_goblin_kills(4);
    assert_eq!(score.goblin_kills, 7);
    assert_eq!(score.player_deaths, 2);
}

#[test]
fn adding_up_to_the_limit() {
    let mut score = GameScore { player_deaths: u32::MAX - 1, goblin_kills: u32::MAX - 5 };
    score.add_player_deaths(1);
    score.add_goblin_kills(5);
    assert_eq!(score.player_deaths, u32::MAX);
    assert_eq!(score.goblin_kills, u32::MAX);
}

#[test]
fn stats_text_of_a_fresh_score() {
    assert_eq!(GameScore::new().stats_text(), "Player Deaths: 0\n Goblin Kills: 0");
}

#[test]
fn stats_text_shows_both_counts() {
    let score = GameScore { player_deaths: 12, goblin_kills: 305 };
    assert_eq!(score.stats_text(), "Player Deaths: 12\n Goblin Kills: 305");
    let score = GameScore { player_deaths: 9, goblin_kills: 10 };
    assert_eq!(score.stats_text(), "Player Deaths: 9\n Goblin Kills: 10");
}

#[test]
fn stats_text_matches_std_formatting() {
    for (deaths, kills) in [(0u32, 1u32), (100, 99), (1000, 7), (u32::MAX, 4_000_000_000), (42, 1_234_567)] {
        let score = GameScore { player_deaths: deaths, goblin_kills: kills };
        assert_eq!(score.stats_text(), format!("Player Deaths: {}\n Goblin Kills: {}", deaths, kills));
    }
}

#[test]
fn different_scores_show_different_texts() {
    let texts: Vec<String> = [(1u32, 23u32), (12, 3), (123, 0), (0, 123), (1, 2), (12, 0)]
        .iter()
        .map(|(deaths, kills)| GameScore { player_deaths: *deaths, goblin_kills: *kills }.stats_text())
        .collect();
    for i in 0..texts.len() {
        for j in 0..texts.len() {
            assert_eq!(texts[i] == texts[j], i == j);
        }
    }
}
