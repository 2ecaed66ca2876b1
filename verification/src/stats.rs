use vstd::prelude::*;

verus! {

/// A player's record over all games.
#[derive(Clone, Copy, Debug)]
pub struct Stats {
    pub played: u32,
    pub won: u32,
    pub current_streak: u32,
    pub max_streak: u32,
    /// Entry `i` counts the games won with `i + 1` guesses.
    pub guess_distribution: [u32; 6],
}

impl Default for Stats {
    fn default() -> (r: Self)
        ensures
            r.played == 0,
            r.won == 0,
            r.current_streak == 0,
            r.max_streak == 0,
            forall|i: int| 0 <= i < 6 ==> r.guess_distribution@[i] == 0,
    {
        Stats {
            played: 0,
            won: 0,
            current_streak: 0,
            max_streak: 0,
            guess_distribution: [0, 0, 0, 0, 0, 0],
        }
    }
}

/// A record as numbers.
pub struct StatsView {
    pub played: nat,
    pub won: nat,
    pub current_streak: nat,
    pub max_streak: nat,
    pub guess_distribution: Seq<nat>,
}

impl View for Stats {
    type V = StatsView;

    open spec fn view(&self) -> StatsView {
        StatsView {
            played: self.played as nat,
            won: self.won as nat,
            current_streak: self.current_streak as nat,
            max_streak: self.max_streak as nat,
            guess_distribution: self.guess_distribution@.map_values(|v: u32| v as nat),
        }
    }
}

/// Sum of the first `n` entries of a guess distribution.
pub open spec fn distribution_total(d: Seq<nat>, n: int) -> nat
    decreases n,
{
    if n <= 0 {
        0
    } else {
        distribution_total(d, n - 1) + d[n - 1]
    }
}

impl StatsView {
    /// Whether a game won with `n` guesses has an entry in the distribution.
    pub open spec fn counts_guesses(n: int) -> bool {
        1 <= n <= 6
    }

    /// The record after one more won game that took `n` guesses: one more
    /// game and win, the streak grows (and the best streak with it when
    /// overtaken), and the distribution entry for `n` grows when `n` is 1
    /// to 6.
    pub open spec fn after_win(self, n: int) -> StatsView {
        StatsView {
            played: self.played + 1,
            won: self.won + 1,
            current_streak: self.current_streak + 1,
            max_streak: if self.current_streak + 1 > self.max_streak {
                self.current_streak + 1
            } else {
                self.max_streak
            },
            guess_distribution: if Self::counts_guesses(n) {
                self.guess_distribution.update(n - 1, self.guess_distribution[n - 1] + 1)
            } else {
                self.guess_distribution
            },
        }
    }

    /// The record after one more lost game: one more game, and the streak
    /// is broken.
    pub open spec fn after_loss(self) -> StatsView {
        StatsView { played: self.played + 1, current_streak: 0, ..self }
    }

    /// The record tells a consistent story: no more wins than games, the
    /// current streak is a run of wins no longer than the best streak, and
    /// the distribution counts wins only.
    pub open spec fn consistent(self) -> bool {
        &&& self.guess_distribution.len() == 6
        &&& self.won <= self.played
        &&& self.current_streak <= self.max_streak
        &&& self.max_streak <= self.won
        &&& distribution_total(self.guess_distribution, 6) <= self.won
    }

    /// The percentage that `win_percentage` reports.
    pub open spec fn win_percentage(self) -> nat {
        if self.played == 0 {
            0
        } else {
            (self.won * 100) / self.played
        }
    }
}

impl Stats {
    /// Whether a win can be counted without overflowing a counter.
    pub open spec fn has_room_for_win(&self, n: int) -> bool {
        &&& self.played < u32::MAX
        &&& self.won < u32::MAX
        &&& self.current_streak < u32::MAX
        &&& StatsView::counts_guesses(n) ==> self.guess_distribution@[n - 1] < u32::MAX
    }

    /// Counts a won game that took `num_guesses` guesses: one more game and
    /// win, the streak grows (and the best streak with it when overtaken),
    /// and the distribution entry for `num_guesses` grows when it is 1 to 6.
    pub fn record_win(&mut self, num_guesses: usize)
        requires
            old(self).has_room_for_win(num_guesses as int),
        ensures
            final(self)@ == old(self)@.after_win(num_guesses as int),
    {
        self.played += 1;
        self.won += 1;
        self.current_streak += 1;
        if self.current_streak > self.max_streak {
            self.max_streak = self.current_streak;
        }
        if num_guesses >= 1 && num_guesses <= 6 {
            let i = num_guesses - 1;
            self.guess_distribution[i] = self.guess_distribution[i] + 1;
        }
        assert(self@.guess_distribution =~= old(self)@.after_win(num_guesses as int).guess_distribution);
    }

    /// Counts a lost game: one more game, and the streak is broken.
    pub fn record_loss(&mut self)
        requires
            old(self).played < u32::MAX,
        ensures
            final(self)@ == old(self)@.after_loss(),
    {
        self.played += 1;
        self.current_streak = 0;
    }

    /// The share of games won, in whole percent rounded down; 0 before the
    /// first game.
    pub fn win_percentage(&self) -> (r: u32)
        requires
            self.won * 100 <= u32::MAX,
        ensures
            r == self@.win_percentage(),
    {
        if self.played == 0 {
            0
        } else {
            (self.won * 100) / self.played
        }
    }
}

proof fn lemma_distribution_bump(d: Seq<nat>, i: int, n: int)
    requires
        0 <= i < d.len(),
        0 <= n <= d.len(),
    ensures
        distribution_total(d.update(i, d[i] + 1), n) == distribution_total(d, n) + if i < n {
            1int
        } else {
            0int
        },
    decreases n,
{
    if n > 0 {
        lemma_distribution_bump(d, i, n - 1);
    }
}

/// Recording a win or a loss keeps a consistent record consistent.
pub proof fn law_recording_keeps_consistency(s: StatsView, n: int)
    requires
        s.consistent(),
    ensures
        s.after_win(n).consistent(),
        s.after_loss().consistent(),
{
    if StatsView::counts_guesses(n) {
        lemma_distribution_bump(s.guess_distribution, n - 1, 6);
    }
}

/// In a consistent record the win percentage is at most 100.
pub proof fn law_win_percentage_at_most_100(s: StatsView)
    requires
        s.consistent(),
    ensures
        s.win_percentage() <= 100,
{
    if s.played > 0 {
        assert((s.won * 100) / s.played <= 100) by (nonlinear_arith)
            requires
                s.won <= s.played,
                s.played > 0,
        ;
    }
}

/// A fresh record is consistent.
pub proof fn law_fresh_record_consistent(s: Stats)
    requires
        s.played == 0,
        s.won == 0,
        s.current_streak == 0,
        s.max_streak == 0,
        forall|i: int| 0 <= i < 6 ==> s.guess_distribution@[i] == 0,
    ensures
        s@.consistent(),
{
    let d = s@.guess_distribution;
    assert(d[0] == 0 && d[1] == 0 && d[2] == 0 && d[3] == 0 && d[4] == 0 && d[5] == 0);
    reveal_with_fuel(distribution_total, 7);
}

/// A win with `n` guesses, `n` from 1 to 6, counts in exactly one entry of
/// the distribution, entry `n - 1`, which grows by one; every other entry is
/// unchanged, so the distribution's total grows by exactly one. A win with
/// any other count leaves the distribution alone.
pub proof fn law_win_counts_in_its_distribution_entry(s: StatsView, n: int)
    requires
        s.guess_distribution.len() == 6,
    ensures
        s.after_win(n).guess_distribution.len() == 6,
        1 <= n <= 6 ==> s.after_win(n).guess_distribution[n - 1] == s.guess_distribution[n - 1]
            + 1,
        forall|i: int|
            0 <= i < 6 && i != n - 1 ==> #[trigger] s.after_win(n).guess_distribution[i]
                == s.guess_distribution[i],
        1 <= n <= 6 ==> distribution_total(s.after_win(n).guess_distribution, 6)
            == distribution_total(s.guess_distribution, 6) + 1,
        !(1 <= n <= 6) ==> s.after_win(n).guess_distribution == s.guess_distribution,
{
    if 1 <= n <= 6 {
        lemma_distribution_bump(s.guess_distribution, n - 1, 6);
    }
}

/// A win counts one more game and one more win and lengthens the current
/// streak by one; the best streak becomes the larger of itself and the new
/// streak. A loss counts one more game, no win, breaks the streak and keeps
/// the best streak and the distribution.
pub proof fn law_win_and_loss_counters(s: StatsView, n: int)
    ensures
        s.after_win(n).played == s.played + 1,
        s.after_win(n).won == s.won + 1,
        s.after_win(n).current_streak == s.current_streak + 1,
        s.after_win(n).max_streak >= s.max_streak,
        s.after_win(n).max_streak >= s.after_win(n).current_streak,
        s.after_win(n).max_streak == s.max_streak || s.after_win(n).max_streak
            == s.after_win(n).current_streak,
        s.after_loss().played == s.played + 1,
        s.after_loss().won == s.won,
        s.after_loss().current_streak == 0,
        s.after_loss().max_streak == s.max_streak,
        s.after_loss().guess_distribution == s.guess_distribution,
{
}

/// The win percentage is the share of games won, in whole percent rounded
/// down: `p` percent means `p` percent of the games is at most the wins, and
/// `p + 1` percent would be more; before the first game it is 0.
pub proof fn law_win_percentage_rounds_down(s: StatsView)
    ensures
        s.played == 0 ==> s.win_percentage() == 0,
        s.played > 0 ==> s.win_percentage() * s.played <= s.won * 100 < (s.win_percentage() + 1)
            * s.played,
{
    if s.played > 0 {
        let p = s.win_percentage();
        let w = s.won * 100;
        let n = s.played;
        assert(p * n <= w < (p + 1) * n) by (nonlinear_arith)
            requires
                n > 0,
                p == w / n,
        ;
    }
}

} // verus!
