//! The running account of a game: where the clock stands in the timeline,
//! and what the player has scored.

use crate::note::Section;
use crate::time::Timestamp;
use vstd::prelude::*;

verus! {

/// The points for a keystroke that was taken.
pub const CORRECT_POINT: i32 = 10;

/// The points for a sentence that was fully typed.
pub const COMPLETED_POINT: i32 = 100;

/// The further points for a sentence that was fully typed without a refused
/// keystroke.
pub const PERFECT_POINT: i32 = 50;

/// A share between nothing and all, as a fraction of whole numbers.
#[derive(Clone, Copy, Debug, PartialEq, Eq, Structural)]
pub struct Ratio {
    pub numerator: u64,
    pub denominator: u64,
}

impl Ratio {
    /// The fraction is defined and not above one.
    pub open spec fn wf(self) -> bool {
        0 < self.denominator && self.numerator <= self.denominator
    }

    /// The share of nothing.
    pub open spec fn spec_zero() -> Ratio {
        Ratio { numerator: 0, denominator: 1 }
    }

    /// The share of all.
    pub open spec fn spec_one() -> Ratio {
        Ratio { numerator: 1, denominator: 1 }
    }

    /// The share of `part` in `whole`, held between nothing and all. The
    /// share in nothing is `empty`.
    pub open spec fn spec_of(part: u64, whole: u64, empty: Ratio) -> Ratio {
        if whole == 0 {
            empty
        } else if part >= whole {
            Ratio { numerator: whole, denominator: whole }
        } else {
            Ratio { numerator: part, denominator: whole }
        }
    }

    /// The share of nothing.
    pub fn zero() -> (ratio: Ratio)
        ensures
            ratio == Ratio::spec_zero(),
            ratio.wf(),
    {
        Ratio { numerator: 0, denominator: 1 }
    }

    /// The share of all.
    pub fn one() -> (ratio: Ratio)
        ensures
            ratio == Ratio::spec_one(),
            ratio.wf(),
    {
        Ratio { numerator: 1, denominator: 1 }
    }

    /// The share of `part` in `whole`, held between nothing and all. The
    /// share in nothing is `empty`.
    pub fn of(part: u64, whole: u64, empty: Ratio) -> (ratio: Ratio)
        ensures
            ratio == Ratio::spec_of(part, whole, empty),
            empty.wf() ==> ratio.wf(),
    {
        if whole == 0 {
            empty
        } else if part >= whole {
            Ratio { numerator: whole, denominator: whole }
        } else {
            Ratio { numerator: part, denominator: whole }
        }
    }
}

/// What the player has scored.
#[derive(Clone, Copy, Debug, PartialEq, Eq, Structural)]
pub struct GameScore {
    /// The points.
    pub score_point: i32,
    /// The share of the keystrokes that were taken among those judged.
    pub accuracy: Ratio,
    /// The share of the notes that were met among those whose time is over.
    pub achievement_rate: Ratio,
}

impl GameScore {
    /// The score of these values.
    pub fn new(score_point: i32, accuracy: Ratio, achievement_rate: Ratio) -> (score: GameScore)
        ensures
            score.score_point == score_point,
            score.accuracy == accuracy,
            score.achievement_rate == achievement_rate,
    {
        GameScore { score_point, accuracy, achievement_rate }
    }
}

/// `points` and the positive `gain`, or the most that can be held.
pub open spec fn spec_gain(points: i32, gain: i32) -> i32 {
    if points <= i32::MAX - gain {
        (points + gain) as i32
    } else {
        i32::MAX
    }
}

/// `points` and the positive `gain`, or the most that can be held.
pub fn gain(points: i32, won: i32) -> (next: i32)
    requires
        won >= 0,
    ensures
        next == spec_gain(points, won),
        next >= points,
{
    if points <= i32::MAX - won {
        points + won
    } else {
        i32::MAX
    }
}

/// The state of a game between two ticks.
#[derive(Clone, Copy, Debug, PartialEq, Eq, Structural)]
pub struct GameState {
    /// The time of the latest tick.
    pub clock: Timestamp,
    /// The index of the note that the clock has not left yet; the number of
    /// notes once it has left them all.
    pub position: usize,
    /// Whether the music was announced.
    pub started: bool,
    /// Whether the note at `position` was announced.
    pub announced: bool,
    /// Whether the end of the score was announced.
    pub ended: bool,
    /// Whether a keystroke was refused since the clock reached the note at
    /// `position`.
    pub flawed: bool,
    /// The number of keystrokes that were taken.
    pub correct: u64,
    /// The number of keystrokes that were taken or refused.
    pub judged: u64,
    /// The number of notes that the clock has left and that were met: fully
    /// typed, or with nothing to type.
    pub achieved: u64,
    /// The number of notes that the clock has left.
    pub elapsed: u64,
    /// The points.
    pub score_point: i32,
}

impl GameState {
    /// The state before the first tick.
    pub open spec fn initial() -> GameState {
        GameState {
            clock: Timestamp { millis: 0 },
            position: 0,
            started: false,
            announced: false,
            ended: false,
            flawed: false,
            correct: 0,
            judged: 0,
            achieved: 0,
            elapsed: 0,
            score_point: 0,
        }
    }

    /// The counts are consistent: no more keystrokes were taken than judged,
    /// and no more notes met than left.
    pub open spec fn wf(self) -> bool {
        self.correct <= self.judged && self.achieved <= self.elapsed
    }

    /// The share of the keystrokes that were taken among those judged; all
    /// while none is judged.
    pub open spec fn spec_accuracy(self) -> Ratio {
        Ratio::spec_of(self.correct, self.judged, Ratio::spec_one())
    }

    /// The share of the notes that were met among those that the clock has
    /// left; nothing while it has left none.
    pub open spec fn spec_achievement_rate(self) -> Ratio {
        Ratio::spec_of(self.achieved, self.elapsed, Ratio::spec_zero())
    }

    /// What the player has scored.
    pub open spec fn spec_score(self) -> GameScore {
        GameScore {
            score_point: self.score_point,
            accuracy: self.spec_accuracy(),
            achievement_rate: self.spec_achievement_rate(),
        }
    }

    /// The state after a keystroke was judged. A keystroke counts as long as
    /// the count of the judged ones can grow.
    pub open spec fn judge(self, taken: bool) -> GameState {
        if self.judged < u64::MAX {
            GameState {
                judged: (self.judged + 1) as u64,
                correct: if taken {
                    (self.correct + 1) as u64
                } else {
                    self.correct
                },
                flawed: self.flawed || !taken,
                score_point: if taken {
                    spec_gain(self.score_point, CORRECT_POINT)
                } else {
                    self.score_point
                },
                ..self
            }
        } else {
            GameState {
                flawed: self.flawed || !taken,
                score_point: if taken {
                    spec_gain(self.score_point, CORRECT_POINT)
                } else {
                    self.score_point
                },
                ..self
            }
        }
    }

    /// The state after the sentence of the current note was fully typed.
    pub open spec fn complete(self) -> GameState {
        GameState {
            score_point: if self.flawed {
                spec_gain(self.score_point, COMPLETED_POINT)
            } else {
                spec_gain(spec_gain(self.score_point, COMPLETED_POINT), PERFECT_POINT)
            },
            ..self
        }
    }

    /// The state after the clock has left the note at `position`, which was
    /// met or not.
    pub open spec fn leave(self, met: bool) -> GameState {
        if self.elapsed < u64::MAX {
            GameState {
                position: (self.position + 1) as usize,
                announced: false,
                flawed: false,
                elapsed: (self.elapsed + 1) as u64,
                achieved: if met {
                    (self.achieved + 1) as u64
                } else {
                    self.achieved
                },
                ..self
            }
        } else {
            GameState {
                position: (self.position + 1) as usize,
                announced: false,
                flawed: false,
                ..self
            }
        }
    }

    /// The state before the first tick.
    pub fn new() -> (state: GameState)
        ensures
            state == GameState::initial(),
            state.wf(),
    {
        GameState {
            clock: Timestamp::new(),
            position: 0,
            started: false,
            announced: false,
            ended: false,
            flawed: false,
            correct: 0,
            judged: 0,
            achieved: 0,
            elapsed: 0,
            score_point: 0,
        }
    }

    /// What the player has scored.
    pub fn score(&self) -> (score: GameScore)
        ensures
            score == self.spec_score(),
            score.accuracy.wf(),
            score.achievement_rate.wf(),
    {
        GameScore {
            score_point: self.score_point,
            accuracy: Ratio::of(self.correct, self.judged, Ratio::one()),
            achievement_rate: Ratio::of(self.achieved, self.elapsed, Ratio::zero()),
        }
    }

    /// Counts a keystroke that was judged.
    pub fn record(&mut self, taken: bool)
        requires
            old(self).wf(),
        ensures
            *final(self) == old(self).judge(taken),
            final(self).wf(),
            final(self).score_point >= old(self).score_point,
    {
        if self.judged < u64::MAX {
            self.judged = self.judged + 1;
            if taken {
                self.correct = self.correct + 1;
            }
        }
        if taken {
            self.score_point = gain(self.score_point, CORRECT_POINT);
        } else {
            self.flawed = true;
        }
    }

    /// Counts the sentence of the current note as fully typed.
    pub fn record_completed(&mut self)
        ensures
            *final(self) == old(self).complete(),
            final(self).wf() == old(self).wf(),
            final(self).score_point >= old(self).score_point,
    {
        self.score_point = gain(self.score_point, COMPLETED_POINT);
        if !self.flawed {
            self.score_point = gain(self.score_point, PERFECT_POINT);
        }
    }

    /// Moves on from the note at `position`, which was met or not.
    pub fn record_left(&mut self, met: bool)
        requires
            old(self).wf(),
            old(self).position < usize::MAX,
        ensures
            *final(self) == old(self).leave(met),
            final(self).wf(),
    {
        if self.elapsed < u64::MAX {
            self.elapsed = self.elapsed + 1;
            if met {
                self.achieved = self.achieved + 1;
            }
        }
        self.position = self.position + 1;
        self.announced = false;
        self.flawed = false;
    }
}

/// The sections of a timeline and the state of the game that runs on it.
#[derive(Clone, Debug, PartialEq, Eq)]
pub struct GameActivity {
    /// The spans between neighbouring notes, in order.
    pub sections: Vec<Section>,
    /// The state of the game.
    pub state: GameState,
}

impl GameActivity {
    /// The activity on `sections` before the first tick.
    pub fn new(sections: Vec<Section>) -> (activity: GameActivity)
        ensures
            activity.sections == sections,
            activity.state == GameState::initial(),
    {
        GameActivity { sections, state: GameState::new() }
    }

    /// The section that begins at the current note, if one does.
    pub fn current_section(&self) -> (section: Option<&Section>)
        ensures
            self.state.position < self.sections@.len() ==> section == Some(
                &self.sections@[self.state.position as int],
            ),
            self.state.position >= self.sections@.len() ==> section is None,
    {
        if self.state.position < self.sections.len() {
            Some(&self.sections[self.state.position])
        } else {
            None
        }
    }

    /// What the player has scored.
    pub fn score(&self) -> (score: GameScore)
        ensures
            score == self.state.spec_score(),
            score.accuracy.wf(),
            score.achievement_rate.wf(),
    {
        self.state.score()
    }
}

/// The points never fall: not by a keystroke, not by a sentence that is
/// completed, not by the clock leaving a note.
pub proof fn lemma_points_never_fall(state: GameState, taken: bool, met: bool)
    ensures
        state.judge(taken).score_point >= state.score_point,
        state.complete().score_point >= state.score_point,
        state.leave(met).score_point == state.score_point,
{
}

/// The accuracy is the share of the taken keystrokes among the judged ones,
/// between nothing and all, and it is all while no keystroke is judged.
pub proof fn lemma_accuracy(state: GameState)
    requires
        state.wf(),
    ensures
        state.spec_accuracy().wf(),
        state.spec_achievement_rate().wf(),
        state.judged == 0 ==> state.spec_accuracy() == Ratio::spec_one(),
        state.judged > 0 ==> state.spec_accuracy() == (Ratio {
            numerator: state.correct,
            denominator: state.judged,
        }),
        state.judged > 0 && state.correct == state.judged ==> state.spec_accuracy().numerator
            == state.spec_accuracy().denominator,
{
}

} // verus!
