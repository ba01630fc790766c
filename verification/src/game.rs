//! The game engine: it owns the timeline of a score, takes keystrokes and
//! clock ticks, and answers each with the events that came of it.

use crate::game_activity::{GameActivity, GameScore, GameState, Ratio};
use crate::note::{Note, NoteId, NoteView, Section};
use crate::scoremap::{meta_get, note_views, MusicInfo, Scoremap, ScoremapMetadata, ScoremapView};
use crate::sentence::Sentence;
use crate::time::Timestamp;
use vstd::prelude::*;
use vstd::string::*;

verus! {

/// How a keystroke was judged.
#[derive(Clone, Copy, Debug, PartialEq, Eq, Structural)]
pub enum MusicalTypeResult {
    /// No spelling of the current unit takes the keystroke.
    Missed,
    /// The current unit takes the keystroke.
    Correct,
    /// No sentence waits for a keystroke.
    Vacant,
}

/// Where the clock stands in the timeline.
#[derive(Clone, Copy, Debug, PartialEq, Eq, Structural)]
pub enum GamePhase {
    /// The clock is before the note that comes next.
    Idle,
    /// The clock is within a note.
    InSection,
    /// The clock has left the last note.
    Ended,
}

/// What came of a keystroke or of a tick of the clock.
#[derive(Clone, Debug, PartialEq, Eq)]
pub enum MusicalTyperEvent {
    /// The music of this name is to play.
    PlayBgm(String),
    /// The sentence of this note is now the one to type.
    UpdateSentence(NoteId),
    /// A keystroke was judged.
    Typed(MusicalTypeResult),
    /// The time of this note ran out before its sentence was typed.
    MissedSentence(NoteId),
    /// The sentence of this note was fully typed.
    CompletedSentence(NoteId),
    /// The sentence was fully typed without a refused keystroke.
    DidPerfectSection,
    /// The clock has left the last note.
    EndOfScore,
}

/// What an event holds.
pub enum EventView {
    PlayBgm(Seq<char>),
    UpdateSentence(NoteId),
    Typed(MusicalTypeResult),
    MissedSentence(NoteId),
    CompletedSentence(NoteId),
    DidPerfectSection,
    EndOfScore,
}

impl View for MusicalTyperEvent {
    type V = EventView;

    open spec fn view(&self) -> EventView {
        match self {
            MusicalTyperEvent::PlayBgm(name) => EventView::PlayBgm(name@),
            MusicalTyperEvent::UpdateSentence(id) => EventView::UpdateSentence(*id),
            MusicalTyperEvent::Typed(result) => EventView::Typed(*result),
            MusicalTyperEvent::MissedSentence(id) => EventView::MissedSentence(*id),
            MusicalTyperEvent::CompletedSentence(id) => EventView::CompletedSentence(*id),
            MusicalTyperEvent::DidPerfectSection => EventView::DidPerfectSection,
            MusicalTyperEvent::EndOfScore => EventView::EndOfScore,
        }
    }
}

/// The views of a list of events.
pub open spec fn event_views(events: Seq<MusicalTyperEvent>) -> Seq<EventView> {
    events.map_values(|e: MusicalTyperEvent| e@)
}

/// Whether `sections` are the spans between the neighbours among `notes`:
/// one from each note but the last to the note behind it.
pub open spec fn sections_match(sections: Seq<Section>, notes: Seq<NoteView>) -> bool {
    &&& notes.len() == 0 ==> sections.len() == 0
    &&& notes.len() > 0 ==> sections.len() == notes.len() - 1
    &&& forall|i: int|
        0 <= i < sections.len() ==> (#[trigger] sections[i]).spec_from() == notes[i].id
            && sections[i].spec_to() == notes[i + 1].id
}

/// What the engine holds.
pub struct TyperView {
    /// The score with its notes, the sentences as far as they are typed.
    pub score: ScoremapView,
    /// The spans between neighbouring notes.
    pub sections: Seq<Section>,
    /// The state of the game.
    pub state: GameState,
}

impl TyperView {
    /// The engine on `score` before the first tick.
    pub open spec fn initial(score: ScoremapView, sections: Seq<Section>) -> TyperView {
        TyperView { score, sections, state: GameState::initial() }
    }

    /// The invariant of the engine.
    pub open spec fn wf(self) -> bool {
        &&& self.score.wf()
        &&& self.score.notes.len() <= usize::MAX
        &&& self.state.wf()
        &&& self.state.position <= self.score.notes.len()
        &&& self.state.ended ==> self.state.position == self.score.notes.len()
        &&& sections_match(self.sections, self.score.notes)
    }

    /// The engine with the score `score` and the state `state`.
    pub open spec fn with(self, score: ScoremapView, state: GameState) -> TyperView {
        TyperView { score, sections: self.sections, state }
    }

    /// Whether the clock has a note that it has not left.
    pub open spec fn has_current(self) -> bool {
        self.state.position < self.score.notes.len() <= usize::MAX
    }

    /// The note that the clock has not left yet.
    pub open spec fn current(self) -> NoteView {
        self.score.notes[self.state.position as int]
    }

    /// The time at which the clock leaves the note at `at`: the start of the
    /// note behind it, or its own end if it is the last.
    pub open spec fn boundary(self, at: int) -> Timestamp {
        if at + 1 < self.score.notes.len() {
            self.score.notes[at + 1].start
        } else {
            self.score.notes[at].end
        }
    }

    /// Whether the clock is within the current note.
    pub open spec fn active(self) -> bool {
        self.has_current() && self.current().start.millis <= self.state.clock.millis
    }

    /// Where the clock stands in the timeline.
    pub open spec fn phase(self) -> GamePhase {
        if !self.has_current() {
            GamePhase::Ended
        } else if self.active() {
            GamePhase::InSection
        } else {
            GamePhase::Idle
        }
    }

    /// Whether a sentence waits for a keystroke.
    pub open spec fn awaits(self) -> bool {
        self.active() && self.current().content.awaits_input()
    }

    /// The engine after the keystroke `c`, and the events that came of it.
    /// Where no sentence waits, the keystroke is vacant. Else it goes to the
    /// sentence of the current note: a taken one scores, and the one that
    /// completes the sentence scores again, the more where none was refused
    /// in this note; a refused one counts against the accuracy.
    pub open spec fn key(self, c: char) -> (TyperView, Seq<EventView>) {
        if !self.awaits() {
            (self, seq![EventView::Typed(MusicalTypeResult::Vacant)])
        } else {
            let at = self.state.position as int;
            let taken = self.current().content.accepts(c);
            let note = self.current().input(c);
            let score = ScoremapView {
                scope: self.score.scope,
                metadata: self.score.metadata,
                notes: self.score.notes.update(at, note),
                section_lens: self.score.section_lens,
            };
            let state = self.state.judge(taken);
            if !taken {
                (self.with(score, state), seq![EventView::Typed(MusicalTypeResult::Missed)])
            } else if note.content.awaits_input() {
                (self.with(score, state), seq![EventView::Typed(MusicalTypeResult::Correct)])
            } else if state.flawed {
                (
                    self.with(score, state.complete()),
                    seq![
                        EventView::Typed(MusicalTypeResult::Correct),
                        EventView::CompletedSentence(note.id),
                    ],
                )
            } else {
                (
                    self.with(score, state.complete()),
                    seq![
                        EventView::Typed(MusicalTypeResult::Correct),
                        EventView::CompletedSentence(note.id),
                        EventView::DidPerfectSection,
                    ],
                )
            }
        }
    }

    /// The engine after the keystrokes `typed`, one after the other, and the
    /// events that came of them, in order.
    pub open spec fn keys(self, typed: Seq<char>) -> (TyperView, Seq<EventView>)
        decreases typed.len(),
    {
        if typed.len() == 0 {
            (self, Seq::empty())
        } else {
            let first = self.key(typed[0]);
            let rest = first.0.keys(typed.drop_first());
            (rest.0, first.1 + rest.1)
        }
    }

    /// The engine after the music was announced, if it was not before: the
    /// score names it under `bgm`.
    pub open spec fn open_music(self) -> (TyperView, Seq<EventView>) {
        if self.state.started {
            (self, Seq::empty())
        } else {
            (
                self.with(self.score, GameState { started: true, ..self.state }),
                match meta_get(self.score.metadata, "bgm"@) {
                    Some(name) => seq![EventView::PlayBgm(name)],
                    None => Seq::empty(),
                },
            )
        }
    }

    /// The engine after the clock has left the current note. A sentence that
    /// still waited is missed; any other note is met.
    pub open spec fn leave(self) -> (TyperView, Seq<EventView>) {
        let met = !self.current().content.awaits_input();
        (
            self.with(self.score, self.state.leave(met)),
            if met {
                Seq::empty()
            } else {
                seq![EventView::MissedSentence(self.current().id)]
            },
        )
    }

    /// The engine after the clock has left every note whose time is over.
    pub open spec fn cross(self) -> (TyperView, Seq<EventView>)
        decreases self.score.notes.len() - self.state.position,
    {
        if self.has_current() && self.boundary(self.state.position as int).millis
            <= self.state.clock.millis {
            let first = self.leave();
            let rest = first.0.cross();
            (rest.0, first.1 + rest.1)
        } else {
            (self, Seq::empty())
        }
    }

    /// The engine after what the clock has newly reached was announced: the
    /// end of the score, once, or the current note, once, with its sentence
    /// if it has one.
    pub open spec fn settle(self) -> (TyperView, Seq<EventView>) {
        if !self.has_current() {
            if self.state.ended {
                (self, Seq::empty())
            } else {
                (
                    self.with(self.score, GameState { ended: true, ..self.state }),
                    seq![EventView::EndOfScore],
                )
            }
        } else if !self.state.announced && self.active() {
            (
                self.with(self.score, GameState { announced: true, ..self.state }),
                if self.current().content is Sentence {
                    seq![EventView::UpdateSentence(self.current().id)]
                } else {
                    Seq::empty()
                },
            )
        } else {
            (self, Seq::empty())
        }
    }

    /// The engine after the clock was set to `time`, and the events that
    /// came of it. The clock does not go back: an earlier time changes
    /// nothing.
    pub open spec fn tick(self, time: Timestamp) -> (TyperView, Seq<EventView>) {
        if time.millis < self.state.clock.millis {
            (self, Seq::empty())
        } else {
            let moved = self.with(self.score, GameState { clock: time, ..self.state });
            let opened = moved.open_music();
            let crossed = opened.0.cross();
            let settled = crossed.0.settle();
            (settled.0, opened.1 + crossed.1 + settled.1)
        }
    }

    /// The engine after one tick: the keystrokes `typed`, then the clock at
    /// `time`.
    pub open spec fn advance(self, typed: Seq<char>, time: Timestamp) -> (
        TyperView,
        Seq<EventView>,
    ) {
        let keyed = self.keys(typed);
        let ticked = keyed.0.tick(time);
        (ticked.0, keyed.1 + ticked.1)
    }

    /// The share of the current note's time that is over; nothing where the
    /// clock is within no note.
    pub open spec fn remaining_ratio(self) -> Ratio {
        if self.active() && self.current().start.millis < self.boundary(
            self.state.position as int,
        ).millis {
            Ratio::spec_of(
                (self.state.clock.millis - self.current().start.millis) as u64,
                (self.boundary(self.state.position as int).millis
                    - self.current().start.millis) as u64,
                Ratio::spec_zero(),
            )
        } else {
            Ratio::spec_zero()
        }
    }
}

/// A keystroke keeps the engine valid and the points from falling.
pub proof fn lemma_key_wf(typer: TyperView, c: char)
    requires
        typer.wf(),
    ensures
        typer.key(c).0.wf(),
        typer.key(c).0.state.score_point >= typer.state.score_point,
        typer.key(c).0.state.position == typer.state.position,
        typer.key(c).0.state.clock == typer.state.clock,
        typer.key(c).1.len() >= 1,
        typer.key(c).1[0] is Typed,
{
    if typer.awaits() {
        let at = typer.state.position as int;
        let after = typer.key(c).0;
        let sentence = typer.current().content->Sentence_0;
        assert(typer.current().wf());
        crate::sentence::lemma_input_wf(sentence, c);
        assert forall|i: int| 0 <= i < after.score.notes.len() implies (
        #[trigger] after.score.notes[i]).wf() && after.score.notes[i].id
            == typer.score.notes[i].id by {
            if i != at {
                assert(after.score.notes[i] == typer.score.notes[i]);
            }
        }
    }
}

/// The clock leaving notes keeps the engine valid and the points as they
/// are.
pub proof fn lemma_cross_wf(typer: TyperView)
    requires
        typer.wf(),
        !typer.state.ended,
    ensures
        typer.cross().0.wf(),
        !typer.cross().0.state.ended,
        typer.cross().0.state.score_point == typer.state.score_point,
        typer.cross().0.state.position >= typer.state.position,
        typer.cross().0.state.clock == typer.state.clock,
        typer.cross().0.score == typer.score,
        forall|i: int| 0 <= i < typer.cross().1.len() ==> (#[trigger] typer.cross().1[i])
            is MissedSentence,
    decreases typer.score.notes.len() - typer.state.position,
{
    if typer.has_current() && typer.boundary(typer.state.position as int).millis
        <= typer.state.clock.millis {
        lemma_cross_wf(typer.leave().0);
    }
}

/// A tick keeps the engine valid and the points as they are, and the clock
/// never goes back.
pub proof fn lemma_tick_wf(typer: TyperView, time: Timestamp)
    requires
        typer.wf(),
    ensures
        typer.tick(time).0.wf(),
        typer.tick(time).0.state.score_point == typer.state.score_point,
        typer.tick(time).0.state.clock.millis >= typer.state.clock.millis,
        typer.tick(time).0.state.position >= typer.state.position,
{
    if time.millis >= typer.state.clock.millis {
        let moved = typer.with(typer.score, GameState { clock: time, ..typer.state });
        let opened = moved.open_music();
        if typer.state.ended {
            assert(opened.0.cross().0 == opened.0);
        } else {
            lemma_cross_wf(opened.0);
        }
    }
}

/// The end of the score is announced once: after it, no tick announces it
/// again, and every keystroke is vacant.
pub proof fn lemma_end_is_announced_once(typer: TyperView, time: Timestamp, c: char)
    requires
        typer.wf(),
        typer.state.ended,
    ensures
        typer.tick(time).0.state.ended,
        forall|i: int| 0 <= i < typer.tick(time).1.len() ==> !((#[trigger] typer.tick(time).1[i])
            is EndOfScore),
        typer.key(c) == (typer, seq![EventView::Typed(MusicalTypeResult::Vacant)]),
{
    if time.millis >= typer.state.clock.millis {
        let moved = typer.with(typer.score, GameState { clock: time, ..typer.state });
        let opened = moved.open_music();
        assert(opened.0.cross() == (opened.0, Seq::<EventView>::empty()));
        assert(opened.0.settle() == (opened.0, Seq::<EventView>::empty()));
        assert(typer.tick(time).1 =~= opened.1);
    }
}

/// A tick that takes the clock past the end of the last note announces the
/// end of the score, unless it was announced before.
pub proof fn lemma_end_is_announced(typer: TyperView, time: Timestamp)
    requires
        typer.wf(),
        !typer.state.ended,
        time.millis >= typer.state.clock.millis,
        forall|i: int|
            0 <= i < typer.score.notes.len() ==> (#[trigger] typer.boundary(i)).millis
                <= time.millis,
    ensures
        typer.tick(time).0.state.ended,
        typer.tick(time).1.len() > 0,
        typer.tick(time).1.last() == EventView::EndOfScore,
{
    let moved = typer.with(typer.score, GameState { clock: time, ..typer.state });
    let opened = moved.open_music();
    lemma_cross_wf(opened.0);
    assert forall|i: int| 0 <= i < opened.0.score.notes.len() implies (
    #[trigger] opened.0.boundary(i)).millis <= opened.0.state.clock.millis by {
        assert(opened.0.boundary(i) == typer.boundary(i));
    }
    lemma_cross_all(opened.0);
}

/// Where the time of every note is over, the clock leaves them all.
proof fn lemma_cross_all(typer: TyperView)
    requires
        typer.wf(),
        forall|i: int|
            0 <= i < typer.score.notes.len() ==> (#[trigger] typer.boundary(i)).millis
                <= typer.state.clock.millis,
    ensures
        typer.cross().0.state.position == typer.score.notes.len(),
    decreases typer.score.notes.len() - typer.state.position,
{
    if typer.has_current() {
        let at = typer.state.position as int;
        assert(typer.boundary(at).millis <= typer.state.clock.millis);
        let next = typer.leave().0;
        assert forall|i: int| 0 <= i < next.score.notes.len() implies (#[trigger] next.boundary(
            i,
        )).millis <= next.state.clock.millis by {
            assert(next.boundary(i) == typer.boundary(i));
        }
        lemma_cross_all(next);
    }
}

/// The engine of a game.
#[derive(Clone, Debug, PartialEq)]
pub struct MusicalTyper {
    score: Scoremap,
    activity: GameActivity,
}

impl View for MusicalTyper {
    type V = TyperView;

    closed spec fn view(&self) -> TyperView {
        TyperView {
            score: self.score@,
            sections: self.activity.sections@,
            state: self.activity.state,
        }
    }
}

impl MusicalTyper {
    /// The engine on `score` before the first tick. Each note but the last
    /// opens a section that runs to the note behind it.
    pub fn new(score: Scoremap) -> (typer: MusicalTyper)
        requires
            score@.wf(),
        ensures
            typer@.score == score@,
            typer@.state == GameState::initial(),
            sections_match(typer@.sections, score@.notes),
            typer@.wf(),
    {
        let mut sections: Vec<Section> = Vec::new();
        let notes = score.notes();
        let mut i: usize = 1;
        while i < notes.len()
            invariant
                1 <= i,
                note_views(notes@) == score@.notes,
                notes@.len() > 0 ==> i <= notes@.len(),
                notes@.len() > 0 ==> sections@.len() == i - 1,
                notes@.len() == 0 ==> sections@.len() == 0,
                forall|k: int|
                    0 <= k < sections@.len() ==> (#[trigger] sections@[k]).spec_from()
                        == score@.notes[k].id && sections@[k].spec_to() == score@.notes[k + 1].id,
            decreases notes@.len() - i,
        {
            assert(score@.notes[i - 1] == notes@[i - 1]@);
            assert(score@.notes[i as int] == notes@[i as int]@);
            sections.push(Section::new(notes[i - 1].id(), notes[i].id()));
            i += 1;
        }
        let _ = notes.len();
        MusicalTyper { score, activity: GameActivity::new(sections) }
    }

    /// The score that the game runs on.
    pub fn scoremap(&self) -> (score: &Scoremap)
        ensures
            score@ == self@.score,
    {
        &self.score
    }

    /// The sections and the state of the game.
    pub fn activity(&self) -> (activity: &GameActivity)
        ensures
            activity.sections@ == self@.sections,
            activity.state == self@.state,
    {
        &self.activity
    }

    /// The time of the latest tick.
    pub fn current_time(&self) -> (time: Timestamp)
        ensures
            time == self@.state.clock,
    {
        self.activity.state.clock
    }

    /// What the player has scored.
    pub fn score(&self) -> (score: GameScore)
        ensures
            score == self@.state.spec_score(),
            score.accuracy.wf(),
            score.achievement_rate.wf(),
    {
        self.activity.state.score()
    }

    /// The title and the author of the song, as far as the score states
    /// them.
    pub fn music_info(&self) -> (info: MusicInfo)
        ensures
            info.title@ == ScoremapMetadata::spec_title(self@.score.metadata),
            info.song_author@ == ScoremapMetadata::spec_song_author(self@.score.metadata),
    {
        self.score.metadata().get_music_info()
    }

    /// The time at which the clock leaves the note at `at`.
    fn boundary(&self, at: usize) -> (time: Timestamp)
        requires
            at < self@.score.notes.len(),
        ensures
            time == self@.boundary(at as int),
    {
        let notes = self.score.notes();
        assert(self@.score.notes[at as int] == notes@[at as int]@);
        if notes.len() - at > 1 {
            assert(self@.score.notes[at + 1] == notes@[at + 1]@);
            notes[at + 1].duration().start()
        } else {
            notes[at].duration().end()
        }
    }

    /// Whether the clock is within the current note.
    fn active(&self) -> (active: bool)
        ensures
            active == self@.active(),
    {
        let at = self.activity.state.position;
        let notes = self.score.notes();
        if at < notes.len() {
            assert(self@.score.notes[at as int] == notes@[at as int]@);
            notes[at].duration().start().millis <= self.activity.state.clock.millis
        } else {
            false
        }
    }

    /// Where the clock stands in the timeline.
    pub fn phase(&self) -> (phase: GamePhase)
        ensures
            phase == self@.phase(),
    {
        if self.activity.state.position >= self.score.len() {
            GamePhase::Ended
        } else if self.active() {
            GamePhase::InSection
        } else {
            GamePhase::Idle
        }
    }

    /// The note that the clock is within, if there is one.
    pub fn current_note(&self) -> (note: Option<&Note>)
        ensures
            self@.active() ==> note is Some && note->Some_0@ == self@.current(),
            !self@.active() ==> note is None,
    {
        if self.active() {
            let at = self.activity.state.position;
            let notes = self.score.notes();
            assert(self@.score.notes[at as int] == notes@[at as int]@);
            Some(&notes[at])
        } else {
            None
        }
    }

    /// The sentence of the note that the clock is within, if it has one.
    pub fn current_sentence(&self) -> (sentence: Option<&Sentence>)
        ensures
            self@.active() && self@.current().content is Sentence ==> sentence is Some
                && sentence->Some_0@ == self@.current().content->Sentence_0,
            !(self@.active() && self@.current().content is Sentence) ==> sentence is None,
    {
        match self.current_note() {
            Some(note) => note.as_sentence(),
            None => None,
        }
    }

    /// The share of the current note's time that is over; nothing where the
    /// clock is within no note.
    pub fn section_remaining_ratio(&self) -> (ratio: Ratio)
        ensures
            ratio == self@.remaining_ratio(),
            ratio.wf(),
    {
        if !self.active() {
            return Ratio::zero();
        }
        let at = self.activity.state.position;
        let notes = self.score.notes();
        assert(self@.score.notes[at as int] == notes@[at as int]@);
        let start = notes[at].duration().start();
        let end = self.boundary(at);
        if start.millis < end.millis {
            Ratio::of(
                self.activity.state.clock.millis - start.millis,
                end.millis - start.millis,
                Ratio::zero(),
            )
        } else {
            Ratio::zero()
        }
    }

    /// Takes one keystroke and adds the events that come of it to `events`.
    fn type_key(&mut self, typed: char, events: &mut Vec<MusicalTyperEvent>)
        requires
            old(self)@.wf(),
        ensures
            final(self)@ == old(self)@.key(typed).0,
            event_views(final(events)@) == event_views(old(events)@) + old(self)@.key(typed).1,
            final(self)@.wf(),
    {
        let ghost before = self@;
        let ghost listed = event_views(events@);
        proof {
            lemma_key_wf(before, typed);
        }
        let at = self.activity.state.position;
        let waiting = self.active() && {
            let notes = self.score.notes();
            assert(before.score.notes[at as int] == notes@[at as int]@);
            notes[at].awaits_input()
        };
        if !waiting {
            events.push(MusicalTyperEvent::Typed(MusicalTypeResult::Vacant));
            assert(event_views(events@) =~= listed + before.key(typed).1);
            return ;
        }
        let taken = self.score.input(at, typed);
        self.activity.state.record(taken);
        let (id, still_waiting) = {
            let notes = self.score.notes();
            assert(self@.score.notes[at as int] == notes@[at as int]@);
            (notes[at].id(), notes[at].awaits_input())
        };
        if !taken {
            events.push(MusicalTyperEvent::Typed(MusicalTypeResult::Missed));
            assert(event_views(events@) =~= listed + before.key(typed).1);
        } else if still_waiting {
            events.push(MusicalTyperEvent::Typed(MusicalTypeResult::Correct));
            assert(event_views(events@) =~= listed + before.key(typed).1);
        } else {
            let flawed = self.activity.state.flawed;
            self.activity.state.record_completed();
            events.push(MusicalTyperEvent::Typed(MusicalTypeResult::Correct));
            events.push(MusicalTyperEvent::CompletedSentence(id));
            if !flawed {
                events.push(MusicalTyperEvent::DidPerfectSection);
            }
            assert(event_views(events@) =~= listed + before.key(typed).1);
        }
    }

    /// Takes the keystrokes `typed`, one after the other, and returns the
    /// events that came of them, in order.
    pub fn key_press(&mut self, typed: &[char]) -> (events: Vec<MusicalTyperEvent>)
        requires
            old(self)@.wf(),
        ensures
            final(self)@ == old(self)@.keys(typed@).0,
            event_views(events@) == old(self)@.keys(typed@).1,
            final(self)@.wf(),
    {
        let mut events: Vec<MusicalTyperEvent> = Vec::new();
        let ghost before = self@;
        let mut i: usize = 0;
        assert(typed@.skip(0) =~= typed@);
        assert(event_views(events@) + self@.keys(typed@).1 =~= before.keys(typed@).1);
        while i < typed.len()
            invariant
                i <= typed@.len(),
                self@.wf(),
                before.keys(typed@).0 == self@.keys(typed@.skip(i as int)).0,
                before.keys(typed@).1 == event_views(events@) + self@.keys(
                    typed@.skip(i as int),
                ).1,
            decreases typed@.len() - i,
        {
            let ghost here = self@;
            let ghost listed = event_views(events@);
            let ghost rest = typed@.skip(i as int);
            assert(rest[0] == typed@[i as int]);
            assert(rest.drop_first() =~= typed@.skip(i + 1));
            self.type_key(typed[i], &mut events);
            proof {
                let first = here.key(rest[0]);
                let more = first.0.keys(rest.drop_first());
                assert(listed + (first.1 + more.1) =~= (listed + first.1) + more.1);
            }
            i += 1;
        }
        assert(event_views(events@) + Seq::<EventView>::empty() =~= event_views(events@));
        events
    }

    /// Sets the clock to `new_time` and returns the events that came of it,
    /// in order: the music on the first tick, a missed sentence for each
    /// note that the clock left with its sentence untyped, and the new
    /// sentence or the end of the score. A time before the clock changes
    /// nothing.
    pub fn set_time(&mut self, new_time: Timestamp) -> (events: Vec<MusicalTyperEvent>)
        requires
            old(self)@.wf(),
        ensures
            final(self)@ == old(self)@.tick(new_time).0,
            event_views(events@) == old(self)@.tick(new_time).1,
            final(self)@.wf(),
    {
        let mut events: Vec<MusicalTyperEvent> = Vec::new();
        let ghost before = self@;
        proof {
            lemma_tick_wf(before, new_time);
        }
        assert(event_views(events@) =~= Seq::<EventView>::empty());
        if new_time.millis < self.activity.state.clock.millis {
            return events;
        }
        self.activity.state.clock = new_time;
        if !self.activity.state.started {
            self.activity.state.started = true;
            match self.score.metadata().get("bgm") {
                Some(name) => {
                    events.push(MusicalTyperEvent::PlayBgm(name.to_owned()));
                },
                None => {},
            }
        }
        let ghost opened = self@;
        let ghost opening = event_views(events@);
        assert(opening =~= before.with(before.score, GameState { clock: new_time, ..before.state })
            .open_music().1);
        assert(event_views(events@) + self@.cross().1 =~= opening + opened.cross().1);
        while self.activity.state.position < self.score.len() && self.boundary(
            self.activity.state.position,
        ).millis <= self.activity.state.clock.millis
            invariant
                self@.score.wf(),
                self@.score.notes.len() <= usize::MAX,
                self@.state.wf(),
                self@.state.position <= self@.score.notes.len(),
                sections_match(self@.sections, self@.score.notes),
                self@.state.ended == opened.state.ended,
                opened.cross().0 == self@.cross().0,
                opening + opened.cross().1 == event_views(events@) + self@.cross().1,
            decreases self@.score.notes.len() - self@.state.position,
        {
            let ghost here = self@;
            let ghost listed = event_views(events@);
            let at = self.activity.state.position;
            let (id, waiting) = {
                let notes = self.score.notes();
                assert(here.score.notes[at as int] == notes@[at as int]@);
                (notes[at].id(), notes[at].awaits_input())
            };
            self.activity.state.record_left(!waiting);
            if waiting {
                events.push(MusicalTyperEvent::MissedSentence(id));
            }
            proof {
                let first = here.leave();
                let more = first.0.cross();
                assert(event_views(events@) =~= listed + first.1);
                assert(listed + (first.1 + more.1) =~= (listed + first.1) + more.1);
            }
        }
        let ghost crossed = self@;
        let ghost so_far = event_views(events@);
        assert(so_far + Seq::<EventView>::empty() =~= so_far);
        if self.activity.state.position >= self.score.len() {
            if !self.activity.state.ended {
                self.activity.state.ended = true;
                events.push(MusicalTyperEvent::EndOfScore);
            }
        } else if !self.activity.state.announced && self.active() {
            self.activity.state.announced = true;
            let at = self.activity.state.position;
            let notes = self.score.notes();
            assert(crossed.score.notes[at as int] == notes@[at as int]@);
            match notes[at].as_sentence() {
                Some(_) => {
                    events.push(MusicalTyperEvent::UpdateSentence(notes[at].id()));
                },
                None => {},
            }
        }
        assert(event_views(events@) =~= so_far + crossed.settle().1);
        events
    }

    /// One tick of the game: the keystrokes `typed_characters`, then the
    /// clock at `new_time`. Returns the events that came of both, in order.
    pub fn advance(&mut self, typed_characters: &[char], new_time: Timestamp) -> (events: Vec<
        MusicalTyperEvent,
    >)
        requires
            old(self)@.wf(),
        ensures
            final(self)@ == old(self)@.advance(typed_characters@, new_time).0,
            event_views(events@) == old(self)@.advance(typed_characters@, new_time).1,
            final(self)@.wf(),
    {
        let mut events = self.key_press(typed_characters);
        let ghost keyed = event_views(events@);
        let mut ticked = self.set_time(new_time);
        let ghost tick_events = event_views(ticked@);
        events.append(&mut ticked);
        assert(event_views(events@) =~= keyed + tick_events);
        events
    }
}

} // verus!
