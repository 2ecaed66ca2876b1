use ohmywordle::stats::Stats;

#[test]
fn fresh_stats_are_zero() {
    let s = Stats::default();
    assert_eq!(s.played, 0);
    assert_eq!(s.won, 0);
    assert_eq!(s.current_streak, 0);
    assert_eq!(s.max_streak, 0);
    assert_eq!(s.guess_distribution, [0; 6]);
    assert_eq!(s.win_percentage(), 0);
}

#[test]
fn wins_grow_streak_and_distribution() {
    let mut s = Stats::default();
    s.record_win(3);
    s.record_win(1);
    assert_eq!(s.played, 2);
    assert_eq!(s.won, 2);
    assert_eq!(s.current_streak, 2);
    assert_eq!(s.max_streak, 2);
    assert_eq!(s.guess_distribution, [1, 0, 1, 0, 0, 0]);
    assert_eq!(s.win_percentage(), 100);
}

#[test]
fn loss_breaks_streak_but_keeps_best() {
    let mut s = Stats::default();
    s.record_win(2);
    s.record_win(2);
    s.record_loss();
    s.record_win(6);
    assert_eq!(s.played, 4);
    assert_eq!(s.won, 3);
    assert_eq!(s.current_streak, 1);
    assert_eq!(s.max_streak, 2);
    assert_eq!(s.guess_distribution, [0, 2, 0, 0, 0, 1]);
    assert_eq!(s.win_percentage(), 75);
}

#[test]
fn out_of_range_guess_counts_skip_the_distribution() {
    let mut s = Stats::default();
    s.record_win(0);
    s.record_win(7);
    assert_eq!(s.won, 2);
    assert_eq!(s.guess_distribution, [0; 6]);
}

#[test]
fn percentage_rounds_down() {
    let mut s = Stats::default();
    s.record_win(4);
    s.record_loss();
    s.record_loss();
    assert_eq!(s.win_percentage(), 33);
}
