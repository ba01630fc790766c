//! What the screens of the game decide from the engine's answers: which
//! sound an event calls for, what the header shows, how a key is painted,
//! how fast the player types, and which screen comes next. Drawing and
//! playing are left to the program around the library.

use crate::game::{EventView, MusicalTypeResult, MusicalTyperEvent};
use crate::game_activity::GameScore;
use crate::scoremap::{MusicInfo, Scoremap};
use crate::sentence::Sentence;
use crate::time::Timestamp;
use vstd::prelude::*;
use vstd::string::*;

verus! {

/// A colour, as red, green and blue.
#[derive(Clone, Copy, Debug, PartialEq, Eq, Structural)]
pub struct Rgb {
    pub r: u8,
    pub g: u8,
    pub b: u8,
}

/// The sound effects of the game.
#[derive(Clone, Copy, Debug, PartialEq, Eq, Structural)]
pub enum SEKind {
    Correct,
    Fail,
    Vacant,
    GameOver,
    MissedSentence,
    PerfectSentence,
    PerfectSection,
}

impl SEKind {
    /// The name under which the sound is stored.
    pub open spec fn spec_name(self) -> Seq<char> {
        match self {
            SEKind::Correct => "correct"@,
            SEKind::Fail => "fail"@,
            SEKind::Vacant => "vacant"@,
            SEKind::GameOver => "gameover"@,
            SEKind::MissedSentence => "missed"@,
            SEKind::PerfectSentence => "perfect_sentence"@,
            SEKind::PerfectSection => "perfect_section"@,
        }
    }

    /// The name under which the sound is stored.
    pub fn name(self) -> (name: &'static str)
        ensures
            name@ == self.spec_name(),
    {
        match self {
            SEKind::Correct => "correct",
            SEKind::Fail => "fail",
            SEKind::Vacant => "vacant",
            SEKind::GameOver => "gameover",
            SEKind::MissedSentence => "missed",
            SEKind::PerfectSentence => "perfect_sentence",
            SEKind::PerfectSection => "perfect_section",
        }
    }

    /// The sound that the event calls for, if it calls for one.
    pub open spec fn spec_of(event: EventView) -> Option<SEKind> {
        match event {
            EventView::Typed(MusicalTypeResult::Missed) => Some(SEKind::Fail),
            EventView::Typed(MusicalTypeResult::Correct) => Some(SEKind::Correct),
            EventView::Typed(MusicalTypeResult::Vacant) => Some(SEKind::Vacant),
            EventView::MissedSentence(_) => Some(SEKind::MissedSentence),
            EventView::CompletedSentence(_) => Some(SEKind::PerfectSentence),
            EventView::DidPerfectSection => Some(SEKind::PerfectSection),
            _ => None,
        }
    }

    /// The sound that the event calls for, if it calls for one.
    pub fn of(event: &MusicalTyperEvent) -> (sound: Option<SEKind>)
        ensures
            sound == SEKind::spec_of(event@),
    {
        match event {
            MusicalTyperEvent::Typed(MusicalTypeResult::Missed) => Some(SEKind::Fail),
            MusicalTyperEvent::Typed(MusicalTypeResult::Correct) => Some(SEKind::Correct),
            MusicalTyperEvent::Typed(MusicalTypeResult::Vacant) => Some(SEKind::Vacant),
            MusicalTyperEvent::MissedSentence(_) => Some(SEKind::MissedSentence),
            MusicalTyperEvent::CompletedSentence(_) => Some(SEKind::PerfectSentence),
            MusicalTyperEvent::DidPerfectSection => Some(SEKind::PerfectSection),
            _ => None,
        }
    }
}

/// How a sentence ended.
#[derive(Clone, Copy, Debug, PartialEq, Eq, Structural)]
pub enum SentenceResult {
    Completed,
    Missed,
}

impl SentenceResult {
    /// The mark that the header shows for the result.
    pub open spec fn spec_label(self) -> Seq<char> {
        match self {
            SentenceResult::Completed => "AC"@,
            SentenceResult::Missed => "TLE"@,
        }
    }

    /// The colour of the mark.
    pub open spec fn spec_color(self) -> Rgb {
        match self {
            SentenceResult::Completed => Rgb { r: 0x72, g: 0xb5, b: 0x66 },
            SentenceResult::Missed => Rgb { r: 0xe7, g: 0xb0, b: 0x5f },
        }
    }

    /// How the sentence ended, if the event says that one did.
    pub open spec fn spec_of(event: EventView) -> Option<SentenceResult> {
        match event {
            EventView::CompletedSentence(_) => Some(SentenceResult::Completed),
            EventView::MissedSentence(_) => Some(SentenceResult::Missed),
            _ => None,
        }
    }

    /// The mark that the header shows for the result.
    pub fn label(self) -> (label: &'static str)
        ensures
            label@ == self.spec_label(),
    {
        match self {
            SentenceResult::Completed => "AC",
            SentenceResult::Missed => "TLE",
        }
    }

    /// The colour of the mark.
    pub fn color(self) -> (color: Rgb)
        ensures
            color == self.spec_color(),
    {
        match self {
            SentenceResult::Completed => Rgb { r: 0x72, g: 0xb5, b: 0x66 },
            SentenceResult::Missed => Rgb { r: 0xe7, g: 0xb0, b: 0x5f },
        }
    }

    /// How the sentence ended, if the event says that one did.
    pub fn of(event: &MusicalTyperEvent) -> (result: Option<SentenceResult>)
        ensures
            result == SentenceResult::spec_of(event@),
    {
        match event {
            MusicalTyperEvent::CompletedSentence(_) => Some(SentenceResult::Completed),
            MusicalTyperEvent::MissedSentence(_) => Some(SentenceResult::Missed),
            _ => None,
        }
    }
}

/// What the header shows.
#[derive(Clone, Debug, PartialEq, Eq)]
pub struct HeaderProps {
    pub music_info: MusicInfo,
    pub score_point: i32,
    pub sentence_result: Option<SentenceResult>,
}

/// What the keyboard shows.
#[derive(Clone, Debug, PartialEq, Eq)]
pub struct KeyboardProps {
    pub pressed_keys: Vec<char>,
    pub highlighted_keys: Vec<char>,
}

impl KeyboardProps {
    /// The keys to highlight for a sentence whose keystrokes to come are
    /// `rest`: the first of them, if there is one.
    pub open spec fn spec_hint(rest: Seq<char>) -> Seq<char> {
        if rest.len() > 0 {
            seq![rest[0]]
        } else {
            Seq::empty()
        }
    }

    /// The keyboard with the keys `pressed_keys` held down and the key that
    /// `sentence` asks for next highlighted.
    pub fn new(pressed_keys: Vec<char>, sentence: &Sentence) -> (props: KeyboardProps)
        requires
            sentence@.wf(),
        ensures
            props.pressed_keys == pressed_keys,
            props.highlighted_keys@ == Self::spec_hint(sentence@.roman_rest()),
    {
        let halves = sentence.roman();
        let rest = halves.will_input.as_str();
        let mut highlighted_keys: Vec<char> = Vec::new();
        if rest.unicode_len() > 0 {
            highlighted_keys.push(rest.get_char(0));
        }
        assert(highlighted_keys@ =~= Self::spec_hint(sentence@.roman_rest()));
        KeyboardProps { pressed_keys, highlighted_keys }
    }
}

/// The key of the game that the character `c` stands for: a Latin letter
/// stands for itself in lower case and the hyphen for itself; any other
/// character stands for no key, which is written as the character zero.
pub open spec fn spec_key_of(c: char) -> char {
    match c {
        'a' | 'A' => 'a',
        'b' | 'B' => 'b',
        'c' | 'C' => 'c',
        'd' | 'D' => 'd',
        'e' | 'E' => 'e',
        'f' | 'F' => 'f',
        'g' | 'G' => 'g',
        'h' | 'H' => 'h',
        'i' | 'I' => 'i',
        'j' | 'J' => 'j',
        'k' | 'K' => 'k',
        'l' | 'L' => 'l',
        'm' | 'M' => 'm',
        'n' | 'N' => 'n',
        'o' | 'O' => 'o',
        'p' | 'P' => 'p',
        'q' | 'Q' => 'q',
        'r' | 'R' => 'r',
        's' | 'S' => 's',
        't' | 'T' => 't',
        'u' | 'U' => 'u',
        'v' | 'V' => 'v',
        'w' | 'W' => 'w',
        'x' | 'X' => 'x',
        'y' | 'Y' => 'y',
        'z' | 'Z' => 'z',
        '-' => '-',
        _ => '\0',
    }
}

/// The key of the game that the character `c` stands for.
pub fn key_of(c: char) -> (key: char)
    ensures
        key == spec_key_of(c),
{
    match c {
        'a' | 'A' => 'a',
        'b' | 'B' => 'b',
        'c' | 'C' => 'c',
        'd' | 'D' => 'd',
        'e' | 'E' => 'e',
        'f' | 'F' => 'f',
        'g' | 'G' => 'g',
        'h' | 'H' => 'h',
        'i' | 'I' => 'i',
        'j' | 'J' => 'j',
        'k' | 'K' => 'k',
        'l' | 'L' => 'l',
        'm' | 'M' => 'm',
        'n' | 'N' => 'n',
        'o' | 'O' => 'o',
        'p' | 'P' => 'p',
        'q' | 'Q' => 'q',
        'r' | 'R' => 'r',
        's' | 'S' => 's',
        't' | 'T' => 't',
        'u' | 'U' => 'u',
        'v' | 'V' => 'v',
        'w' | 'W' => 'w',
        'x' | 'X' => 'x',
        'y' | 'Y' => 'y',
        'z' | 'Z' => 'z',
        '-' => '-',
        _ => '\0',
    }
}

/// The background of a key: green where it is highlighted.
pub open spec fn spec_key_background(is_highlighted: bool) -> Rgb {
    if is_highlighted {
        Rgb { r: 0x14, g: 0x4c, b: 0x40 }
    } else {
        Rgb { r: 0xfd, g: 0xf3, b: 0xe2 }
    }
}

/// The colour of the letter on a key: orange while the key is held down,
/// else grey where it is highlighted, else blue on the two home keys and
/// black on the others.
pub open spec fn spec_key_text_color(key: char, is_pressed: bool, is_highlighted: bool) -> Rgb {
    if is_pressed {
        Rgb { r: 0xd1, g: 0x9a, b: 0x1d }
    } else if is_highlighted {
        Rgb { r: 0xc3, g: 0xc3, b: 0xbe }
    } else if key == 'f' || key == 'j' {
        Rgb { r: 0x40, g: 0x50, b: 0xb4 }
    } else {
        Rgb { r: 0, g: 0, b: 0 }
    }
}

/// The background of a key.
pub fn key_background(is_highlighted: bool) -> (color: Rgb)
    ensures
        color == spec_key_background(is_highlighted),
{
    if is_highlighted {
        Rgb { r: 0x14, g: 0x4c, b: 0x40 }
    } else {
        Rgb { r: 0xfd, g: 0xf3, b: 0xe2 }
    }
}

/// The colour of the letter on a key.
pub fn key_text_color(key: char, is_pressed: bool, is_highlighted: bool) -> (color: Rgb)
    ensures
        color == spec_key_text_color(key, is_pressed, is_highlighted),
{
    if is_pressed {
        Rgb { r: 0xd1, g: 0x9a, b: 0x1d }
    } else if is_highlighted {
        Rgb { r: 0xc3, g: 0xc3, b: 0xbe }
    } else if key == 'f' || key == 'j' {
        Rgb { r: 0x40, g: 0x50, b: 0xb4 }
    } else {
        Rgb { r: 0, g: 0, b: 0 }
    }
}

/// The length of the window over which the typing speed is taken.
pub const SPEED_WINDOW_MILLIS: u64 = 5000;

/// The time that the game stays on the screen after the end of the score.
pub const GRACE_MILLIS: u64 = 2000;

/// The number of times at the front of `points` that are before `limit`.
pub open spec fn expired(points: Seq<Timestamp>, limit: Timestamp) -> nat
    decreases points.len(),
{
    if points.len() > 0 && points[0].millis < limit.millis {
        1 + expired(points.drop_first(), limit)
    } else {
        0
    }
}

/// The start of the window that ends at `now`.
pub open spec fn window_start(now: Timestamp) -> Timestamp {
    if now.millis >= SPEED_WINDOW_MILLIS {
        Timestamp { millis: (now.millis - SPEED_WINDOW_MILLIS) as u64 }
    } else {
        Timestamp { millis: 0 }
    }
}

/// The times of the keystrokes that were taken within the last seconds.
#[derive(Clone, Debug, PartialEq, Eq)]
pub struct TypeTimes {
    /// The times, the oldest first.
    pub points: Vec<Timestamp>,
}

impl TypeTimes {
    /// No keystroke yet.
    pub fn new() -> (times: TypeTimes)
        ensures
            times.points@ == Seq::<Timestamp>::empty(),
    {
        TypeTimes { points: Vec::new() }
    }

    /// Notes a keystroke that was taken at `now`.
    pub fn record(&mut self, now: Timestamp)
        ensures
            final(self).points@ == old(self).points@.push(now),
    {
        self.points.push(now);
    }

    /// Drops the times at the front that lie before the window which ends at
    /// `now`.
    pub fn expire(&mut self, now: Timestamp)
        ensures
            final(self).points@ == old(self).points@.skip(
                expired(old(self).points@, window_start(now)) as int,
            ),
    {
        let limit = if now.millis >= SPEED_WINDOW_MILLIS {
            Timestamp { millis: now.millis - SPEED_WINDOW_MILLIS }
        } else {
            Timestamp { millis: 0 }
        };
        let ghost all = self.points@;
        let ghost mut dropped: nat = 0;
        assert(all.skip(0) =~= all);
        while self.points.len() > 0 && self.points[0].millis < limit.millis
            invariant
                limit == window_start(now),
                dropped <= all.len(),
                self.points@ == all.skip(dropped as int),
                expired(all, limit) == dropped + expired(self.points@, limit),
            decreases self.points@.len(),
        {
            let ghost here = self.points@;
            self.points.remove(0);
            assert(self.points@ =~= here.drop_first());
            assert(here.drop_first() =~= all.skip(dropped as int + 1));
            proof {
                dropped = dropped + 1;
            }
        }
    }

    /// The number of keystrokes in the window.
    pub fn count(&self) -> (count: usize)
        ensures
            count == self.points@.len(),
    {
        self.points.len()
    }
}

/// The time until which the game stays on the screen when the score ended
/// at `now`.
pub fn grace_end(now: Timestamp) -> (end: Timestamp)
    ensures
        now.millis + GRACE_MILLIS <= u64::MAX ==> end.millis == now.millis + GRACE_MILLIS,
        now.millis + GRACE_MILLIS > u64::MAX ==> end.millis == u64::MAX,
{
    Timestamp { millis: now.millis.saturating_add(GRACE_MILLIS) }
}

/// Whether the game is to leave the screen: the score has ended, and the
/// time to stay is over.
pub fn grace_is_over(ended: Option<Timestamp>, now: Timestamp) -> (over: bool)
    ensures
        over == (ended matches Some(end) && end.millis < now.millis),
{
    match ended {
        Some(end) => end.millis < now.millis,
        None => false,
    }
}

/// Where a screen sends the player when it closes.
#[derive(Clone, Debug, PartialEq)]
pub enum ViewRoute {
    SelectMusic,
    Start(Scoremap),
    Retry,
    ResultView(GameScore, MusicInfo),
    Quit,
}

/// What the router does with a route.
#[derive(Clone, Debug, PartialEq, Eq)]
pub enum RouterStep {
    /// The screen stays.
    Stay,
    /// The game opens on the loaded score.
    OpenGame,
    /// The result opens with this score.
    OpenResult(GameScore, MusicInfo),
    /// The program ends.
    Close,
}

impl ViewRoute {
    /// What the router does with the route: a retry opens the game, a result
    /// opens the result screen, quitting ends the program, and the other
    /// routes leave the screen as it is.
    pub fn step(self) -> (step: RouterStep)
        ensures
            match self {
                ViewRoute::SelectMusic => step == RouterStep::Stay,
                ViewRoute::Start(_) => step == RouterStep::Stay,
                ViewRoute::Retry => step == RouterStep::OpenGame,
                ViewRoute::ResultView(score, info) => step == RouterStep::OpenResult(score, info),
                ViewRoute::Quit => step == RouterStep::Close,
            },
    {
        match self {
            ViewRoute::SelectMusic => RouterStep::Stay,
            ViewRoute::Start(_) => RouterStep::Stay,
            ViewRoute::Retry => RouterStep::OpenGame,
            ViewRoute::ResultView(score, info) => RouterStep::OpenResult(score, info),
            ViewRoute::Quit => RouterStep::Close,
        }
    }
}

} // verus!
