//! A sentence to type: a lyric line, its reading, and the phonetic units
//! that the reading is made of.

use crate::kana::{
    contracted, doubling_letter, is_doubling, is_sokuon, kana, latin, sokuon, spec_contracted,
    spec_kana, spec_latin,
};
use crate::roman_char::{style_views, RomanChar, RomanCharView};
use crate::text::{chars_to_string, str_eq, str_to_chars};
use vstd::prelude::*;
use vstd::string::*;

verus! {

/// The one-letter spellings that write a small tsu before a syllable spelled
/// `styles`: the doubling consonants that begin them, each once, in their
/// order.
pub open spec fn doubling_letters(styles: Seq<Seq<char>>) -> Seq<Seq<char>>
    decreases styles.len(),
{
    if styles.len() == 0 {
        Seq::empty()
    } else {
        let front = doubling_letters(styles.drop_last());
        let style = styles.last();
        if style.len() > 0 && is_doubling(style[0]) && !front.contains(seq![style[0]]) {
            front.push(seq![style[0]])
        } else {
            front
        }
    }
}

/// The spellings of a character that cannot be typed: the empty one alone.
pub open spec fn silent_styles() -> Seq<Seq<char>> {
    seq![""@]
}

/// The syllable that begins at `at` in `reading`: how many characters it
/// takes, and its spellings. A contracted syllable takes two characters; a
/// character that cannot be typed takes one and is spelled by nothing.
pub open spec fn spec_syllable(reading: Seq<char>, at: int) -> (nat, Seq<Seq<char>>) {
    if at + 1 < reading.len() && spec_contracted(reading[at], reading[at + 1]).len() > 0 {
        (2, spec_contracted(reading[at], reading[at + 1]))
    } else if spec_kana(reading[at]).len() > 0 {
        (1, spec_kana(reading[at]))
    } else if spec_latin(reading[at]).len() > 0 {
        (1, spec_latin(reading[at]))
    } else {
        (1, silent_styles())
    }
}

/// One phonetic unit as the reading gives it.
pub struct UnitPlan {
    /// The index in the reading of the unit's first character.
    pub start: nat,
    /// The number of characters of the reading that the unit takes.
    pub span: nat,
    /// The spellings of the unit, the preferred one first.
    pub styles: Seq<Seq<char>>,
    /// Whether the unit is a small tsu that a doubled consonant can write.
    pub doubles: bool,
}

/// Whether the preferred spelling of a syllable spelled `styles` begins with
/// a doubling consonant.
pub open spec fn doubles_first(styles: Seq<Seq<char>>) -> bool {
    styles.len() > 0 && styles[0].len() > 0 && is_doubling(styles[0][0])
}

/// The spellings of a small tsu before a syllable spelled `behind`: the
/// doubling consonants of that syllable and the spellings `own` of the small
/// tsu itself. The consonants come first where the preferred spelling of the
/// syllable begins with one, so that what is shown for the two units can be
/// typed as it stands.
pub open spec fn sokuon_styles(behind: Seq<Seq<char>>, own: Seq<Seq<char>>) -> Seq<Seq<char>> {
    if doubles_first(behind) {
        doubling_letters(behind) + own
    } else {
        own + doubling_letters(behind)
    }
}

/// The unit that begins at `at` in `reading`. A small tsu before another
/// character is spelled by the doubling consonants of the syllable behind it,
/// and by its own spellings.
pub open spec fn spec_unit(reading: Seq<char>, at: int) -> UnitPlan {
    if is_sokuon(reading[at]) && at + 1 < reading.len() {
        UnitPlan {
            start: at as nat,
            span: 1,
            styles: sokuon_styles(spec_syllable(reading, at + 1).1, spec_kana(reading[at])),
            doubles: true,
        }
    } else {
        UnitPlan {
            start: at as nat,
            span: spec_syllable(reading, at).0,
            styles: spec_syllable(reading, at).1,
            doubles: false,
        }
    }
}

/// The units of `reading` from `at` on.
pub open spec fn spec_plan(reading: Seq<char>, at: int) -> Seq<UnitPlan>
    decreases reading.len() - at,
{
    if at < 0 || at >= reading.len() {
        Seq::empty()
    } else {
        seq![spec_unit(reading, at)] + spec_plan(reading, at + spec_unit(reading, at).span)
    }
}

/// The index of the first unit from `from` on that is not fully typed, or
/// the number of units if there is none.
pub open spec fn first_incomplete(units: Seq<RomanCharView>, from: int) -> nat
    decreases units.len() - from,
{
    if from < 0 || from >= units.len() {
        units.len()
    } else if units[from].is_complete() {
        first_incomplete(units, from + 1)
    } else {
        from as nat
    }
}

/// What is left to type of a unit: its displayed spelling without as many
/// characters as were typed.
pub open spec fn unit_rest(unit: RomanCharView) -> Seq<char> {
    if unit.typed.len() <= unit.displayed().len() {
        unit.displayed().skip(unit.typed.len() as int)
    } else {
        Seq::empty()
    }
}

/// The characters typed on the units, in their order.
pub open spec fn typed_text(units: Seq<RomanCharView>) -> Seq<char>
    decreases units.len(),
{
    if units.len() == 0 {
        Seq::empty()
    } else {
        typed_text(units.drop_last()) + units.last().typed
    }
}

/// What is left to type of the units, in their order.
pub open spec fn rest_text(units: Seq<RomanCharView>) -> Seq<char>
    decreases units.len(),
{
    if units.len() == 0 {
        Seq::empty()
    } else {
        rest_text(units.drop_last()) + unit_rest(units.last())
    }
}

/// The views of a list of units.
pub open spec fn unit_views(units: Seq<RomanChar>) -> Seq<RomanCharView> {
    units.map_values(|u: RomanChar| u@)
}

/// What a sentence holds.
pub struct SentenceView {
    /// The lyric line as it is sung.
    pub origin: Seq<char>,
    /// The reading of the line.
    pub reading: Seq<char>,
    /// The phonetic units of the reading, in its order.
    pub units: Seq<RomanCharView>,
    /// For each unit, the index in the reading of its first character.
    pub starts: Seq<nat>,
    /// For each unit, whether it is a small tsu that a doubled consonant can
    /// write.
    pub doubles: Seq<bool>,
    /// The index of the unit that takes the next keystroke; the number of
    /// units once the sentence is fully typed.
    pub cursor: nat,
}

impl SentenceView {
    /// The sentence of the line `origin` read as `reading`, before any
    /// keystroke.
    pub open spec fn build(origin: Seq<char>, reading: Seq<char>) -> SentenceView {
        let plan = spec_plan(reading, 0);
        let units = Seq::new(plan.len(), |i: int| RomanCharView::fresh(plan[i].styles));
        SentenceView {
            origin,
            reading,
            units,
            starts: Seq::new(plan.len(), |i: int| plan[i].start),
            doubles: Seq::new(plan.len(), |i: int| plan[i].doubles),
            cursor: first_incomplete(units, 0),
        }
    }

    /// The invariant of a sentence.
    pub open spec fn wf(self) -> bool {
        &&& self.units.len() == self.starts.len()
        &&& self.units.len() == self.doubles.len()
        &&& self.cursor <= self.units.len()
        &&& forall|i: int| 0 <= i < self.units.len() ==> (#[trigger] self.units[i]).wf()
        &&& forall|i: int| 0 <= i < self.starts.len() ==> #[trigger] self.starts[i] <= self.reading.len()
        &&& forall|i: int| 0 <= i < self.cursor ==> (#[trigger] self.units[i]).is_complete()
    }

    /// Whether every unit is fully typed.
    pub open spec fn completed(self) -> bool {
        self.cursor >= self.units.len()
    }

    /// Whether the unit at the cursor takes the keystroke `c`.
    pub open spec fn accepts(self, c: char) -> bool {
        !self.completed() && self.units[self.cursor as int].accepts(c)
    }

    /// The sentence after the keystroke `c` was offered to the unit at the
    /// cursor. When the keystroke completes the unit, the cursor moves on to
    /// the next unit that is not complete; when the completed unit is a small
    /// tsu written by one consonant, the unit behind it is bound to the
    /// spellings that begin with that consonant.
    pub open spec fn input(self, c: char) -> SentenceView {
        if self.completed() {
            self
        } else {
            let k = self.cursor as int;
            let unit = self.units[k].accept(c);
            let units = self.units.update(k, unit);
            if self.units[k].accepts(c) && unit.is_complete() {
                let bound = if self.doubles[k] && unit.typed.len() == 1 && k + 1
                    < self.units.len() {
                    units.update(k + 1, units[k + 1].narrow(unit.typed[0]))
                } else {
                    units
                };
                SentenceView {
                    origin: self.origin,
                    reading: self.reading,
                    units: bound,
                    starts: self.starts,
                    doubles: self.doubles,
                    cursor: first_incomplete(bound, k + 1),
                }
            } else {
                SentenceView {
                    origin: self.origin,
                    reading: self.reading,
                    units,
                    starts: self.starts,
                    doubles: self.doubles,
                    cursor: self.cursor,
                }
            }
        }
    }

    /// The number of characters of the reading that the units before the
    /// cursor take.
    pub open spec fn reading_mark(self) -> nat {
        if self.cursor < self.starts.len() {
            self.starts[self.cursor as int]
        } else {
            self.reading.len()
        }
    }

    /// The part of the reading that is typed.
    pub open spec fn reading_typed(self) -> Seq<char> {
        self.reading.take(self.reading_mark() as int)
    }

    /// The part of the reading that is still to type.
    pub open spec fn reading_rest(self) -> Seq<char> {
        self.reading.skip(self.reading_mark() as int)
    }

    /// The keystrokes taken so far.
    pub open spec fn roman_typed(self) -> Seq<char> {
        typed_text(self.units)
    }

    /// The keystrokes that are still to come, as the displayed spellings
    /// have them.
    pub open spec fn roman_rest(self) -> Seq<char> {
        rest_text(self.units)
    }
}

/// The first unit that is not complete lies at or behind the place the
/// search began, within the units, and every unit between is complete.
pub proof fn lemma_first_incomplete(units: Seq<RomanCharView>, from: int)
    requires
        0 <= from <= units.len(),
    ensures
        from <= first_incomplete(units, from) <= units.len(),
        forall|i: int| from <= i < first_incomplete(units, from) ==> (#[trigger] units[i]).is_complete(),
        first_incomplete(units, from) < units.len() ==> !units[first_incomplete(units, from) as int].is_complete(),
    decreases units.len() - from,
{
    if from < units.len() && units[from].is_complete() {
        lemma_first_incomplete(units, from + 1);
    }
}

/// Every unit of a plan lies within the reading, offers a spelling, and the
/// plan has no more units than the reading has characters.
pub proof fn lemma_plan(reading: Seq<char>, at: int)
    requires
        0 <= at,
    ensures
        spec_plan(reading, at).len() <= reading.len() - at || spec_plan(reading, at).len() == 0,
        forall|i: int|
            0 <= i < spec_plan(reading, at).len() ==> {
                &&& at <= (#[trigger] spec_plan(reading, at)[i]).start < reading.len()
                &&& spec_plan(reading, at)[i].styles.len() > 0
            },
    decreases reading.len() - at,
{
    if at < reading.len() {
        let unit = spec_unit(reading, at);
        let rest = spec_plan(reading, at + unit.span);
        lemma_plan(reading, at + unit.span);
        assert(unit.styles.len() > 0) by {
            if is_sokuon(reading[at]) && at + 1 < reading.len() {
                assert(spec_kana(reading[at]).len() == 3);
            }
        }
        assert forall|i: int| 0 <= i < spec_plan(reading, at).len() implies {
            &&& at <= (#[trigger] spec_plan(reading, at)[i]).start < reading.len()
            &&& spec_plan(reading, at)[i].styles.len() > 0
        } by {
            if i > 0 {
                assert(spec_plan(reading, at)[i] == rest[i - 1]);
            }
        }
    }
}

/// The sentence that a line and its reading make is valid.
pub proof fn lemma_build_wf(origin: Seq<char>, reading: Seq<char>)
    ensures
        SentenceView::build(origin, reading).wf(),
{
    let view = SentenceView::build(origin, reading);
    lemma_plan(reading, 0);
    lemma_first_incomplete(view.units, 0);
    assert forall|i: int| 0 <= i < view.units.len() implies (#[trigger] view.units[i]).wf() by {
        let unit = view.units[i];
        assert forall|k: int| 0 <= k < unit.candidates.len() implies unit.offered.contains(
            #[trigger] unit.candidates[k],
        ) by {
            assert(unit.offered[k] == unit.candidates[k]);
        }
    }
}

/// Before any keystroke, every unit of a sentence displays the first of the
/// spellings that the reading gives it, unchanged, and all of them are its
/// candidates.
pub proof fn lemma_fresh_sentence_displays_first_styles(
    origin: Seq<char>,
    reading: Seq<char>,
    i: int,
)
    requires
        0 <= i < SentenceView::build(origin, reading).units.len(),
    ensures
        SentenceView::build(origin, reading).units[i].offered == spec_plan(reading, 0)[i].styles,
        SentenceView::build(origin, reading).units[i].candidates == spec_plan(
            reading,
            0,
        )[i].styles,
        SentenceView::build(origin, reading).units[i].typed.len() == 0,
        SentenceView::build(origin, reading).units[i].displayed() == spec_plan(
            reading,
            0,
        )[i].styles[0],
        SentenceView::build(origin, reading).units[i].offered.contains(
            SentenceView::build(origin, reading).units[i].displayed(),
        ),
{
    lemma_plan(reading, 0);
    let unit = SentenceView::build(origin, reading).units[i];
    assert(unit.offered[0] == unit.displayed());
}

/// A keystroke keeps a sentence valid and never moves the cursor back.
pub proof fn lemma_input_wf(sentence: SentenceView, c: char)
    requires
        sentence.wf(),
    ensures
        sentence.input(c).wf(),
        sentence.input(c).cursor >= sentence.cursor,
        sentence.input(c).origin == sentence.origin,
        sentence.input(c).reading == sentence.reading,
        !sentence.accepts(c) ==> sentence.input(c).cursor == sentence.cursor,
{
    if !sentence.completed() {
        let k = sentence.cursor as int;
        let unit = sentence.units[k].accept(c);
        let units = sentence.units.update(k, unit);
        assert(sentence.units[k].wf());
        crate::roman_char::lemma_unit_stays_wf(sentence.units[k], c);
        if sentence.units[k].accepts(c) && unit.is_complete() {
            let bound = sentence.input(c).units;
            if k + 1 < sentence.units.len() {
                assert(sentence.units[k + 1].wf());
                if unit.typed.len() == 1 {
                    crate::roman_char::lemma_unit_stays_wf(sentence.units[k + 1], unit.typed[0]);
                }
            }
            lemma_first_incomplete(bound, k + 1);
            assert forall|i: int| 0 <= i < bound.len() implies (#[trigger] bound[i]).wf() by {
                if i != k && i != k + 1 {
                    assert(bound[i] == sentence.units[i]);
                }
            }
            assert forall|i: int| 0 <= i < sentence.input(c).cursor implies (
            #[trigger] bound[i]).is_complete() by {
                if i < k {
                    assert(bound[i] == sentence.units[i]);
                }
            }
        } else {
            assert forall|i: int| 0 <= i < units.len() implies (#[trigger] units[i]).wf() by {
                if i != k {
                    assert(units[i] == sentence.units[i]);
                }
            }
            assert forall|i: int| 0 <= i < sentence.cursor implies (
            #[trigger] units[i]).is_complete() by {
                assert(units[i] == sentence.units[i]);
            }
        }
    }
}

/// The two halves of a text that is being typed.
#[derive(Clone, Debug, PartialEq, Eq)]
pub struct TypingStr {
    /// The part that is still to type.
    pub will_input: String,
    /// The part that is typed.
    pub inputted: String,
}

/// A lyric line with its reading, and how far the reading is typed.
#[derive(Clone, Debug, PartialEq)]
pub struct Sentence {
    origin: String,
    reading: Vec<char>,
    units: Vec<RomanChar>,
    starts: Vec<usize>,
    doubles: Vec<bool>,
    cursor: usize,
}

impl View for Sentence {
    type V = SentenceView;

    closed spec fn view(&self) -> SentenceView {
        SentenceView {
            origin: self.origin@,
            reading: self.reading@,
            units: unit_views(self.units@),
            starts: Seq::new(self.starts@.len(), |i: int| self.starts@[i] as nat),
            doubles: self.doubles@,
            cursor: self.cursor as nat,
        }
    }
}

/// Whether `found` holds the spelling `style`.
fn holds_style(found: &Vec<&'static str>, style: &str) -> (r: bool)
    ensures
        r == style_views(found@).contains(style@),
{
    let mut i: usize = 0;
    while i < found.len()
        invariant
            i <= found.len(),
            forall|j: int| 0 <= j < i ==> style_views(found@)[j] != style@,
        decreases found.len() - i,
    {
        if str_eq(found[i], style) {
            assert(style_views(found@)[i as int] == style@);
            return true;
        }
        i += 1;
    }
    false
}

/// The one-letter spellings that write a small tsu before a syllable spelled
/// `styles`.
fn doubled(styles: &Vec<&'static str>) -> (letters: Vec<&'static str>)
    ensures
        style_views(letters@) == doubling_letters(style_views(styles@)),
{
    let mut letters: Vec<&'static str> = Vec::new();
    let mut i: usize = 0;
    assert(style_views(letters@) =~= Seq::<Seq<char>>::empty());
    while i < styles.len()
        invariant
            i <= styles.len(),
            style_views(letters@) == doubling_letters(style_views(styles@).take(i as int)),
        decreases styles.len() - i,
    {
        let ghost before = style_views(styles@).take(i as int);
        let ghost after = style_views(styles@).take(i + 1);
        assert(after.drop_last() =~= before);
        assert(after.last() == styles@[i as int]@);
        let chars = str_to_chars(styles[i]);
        if chars.len() > 0 {
            match doubling_letter(chars[0]) {
                Some(letter) => {
                    if !holds_style(&letters, letter) {
                        let ghost old_letters = letters@;
                        letters.push(letter);
                        assert(style_views(letters@) =~= style_views(old_letters).push(letter@));
                    }
                },
                None => {},
            }
        }
        i += 1;
    }
    assert(style_views(styles@).take(styles@.len() as int) =~= style_views(styles@));
    letters
}

/// The syllable that begins at `at` in `reading`.
fn syllable(reading: &Vec<char>, at: usize) -> (r: (usize, Vec<&'static str>))
    requires
        at < reading@.len(),
    ensures
        r.0 == spec_syllable(reading@, at as int).0,
        style_views(r.1@) == spec_syllable(reading@, at as int).1,
        1 <= r.0 <= 2,
        at + r.0 <= reading@.len(),
        r.1@.len() > 0,
{
    if reading.len() - at > 1 {
        let both = contracted(reading[at], reading[at + 1]);
        if both.len() > 0 {
            return (2, both);
        }
    }
    let alone = kana(reading[at]);
    if alone.len() > 0 {
        return (1, alone);
    }
    let letter = latin(reading[at]);
    if letter.len() > 0 {
        return (1, letter);
    }
    let mut silent: Vec<&'static str> = Vec::new();
    silent.push("");
    assert(style_views(silent@) =~= silent_styles());
    (1, silent)
}

/// The unit that begins at `at` in `reading`: its span, its spellings, and
/// whether it is a small tsu that a doubled consonant can write.
fn unit_at(reading: &Vec<char>, at: usize) -> (r: (usize, Vec<&'static str>, bool))
    requires
        at < reading@.len(),
    ensures
        r.0 == spec_unit(reading@, at as int).span,
        style_views(r.1@) == spec_unit(reading@, at as int).styles,
        r.2 == spec_unit(reading@, at as int).doubles,
        1 <= r.0 <= 2,
        at + r.0 <= reading@.len(),
        r.1@.len() > 0,
{
    if sokuon(reading[at]) && reading.len() - at > 1 {
        let (_, behind) = syllable(reading, at + 1);
        let mut letters = doubled(&behind);
        let mut own = kana(reading[at]);
        let ghost letter_styles = letters@;
        let ghost own_styles = own@;
        assert(spec_kana(reading@[at as int]).len() == 3);
        assert(style_views(behind@)[0] == behind@[0]@);
        let first = str_to_chars(behind[0]);
        let letters_first = first.len() > 0 && doubling_letter(first[0]).is_some();
        if letters_first {
            letters.append(&mut own);
            assert(style_views(letters@) =~= style_views(letter_styles) + style_views(
                own_styles,
            ));
            (1, letters, true)
        } else {
            own.append(&mut letters);
            assert(style_views(own@) =~= style_views(own_styles) + style_views(letter_styles));
            (1, own, true)
        }
    } else {
        let (span, styles) = syllable(reading, at);
        (span, styles, false)
    }
}

impl Sentence {
    /// The sentence of the line `origin` read as `yomigana`, before any
    /// keystroke.
    pub fn from(origin: &str, yomigana: String) -> (sentence: Sentence)
        ensures
            sentence@ == SentenceView::build(origin@, yomigana@),
            sentence@.wf(),
    {
        let reading = str_to_chars(yomigana.as_str());
        let mut units: Vec<RomanChar> = Vec::new();
        let mut starts: Vec<usize> = Vec::new();
        let mut doubles: Vec<bool> = Vec::new();
        let ghost mut built: Seq<UnitPlan> = Seq::empty();
        let mut at: usize = 0;
        while at < reading.len()
            invariant
                at <= reading@.len(),
                spec_plan(reading@, 0) =~= built + spec_plan(reading@, at as int),
                units@.len() == built.len(),
                starts@.len() == built.len(),
                doubles@.len() == built.len(),
                forall|i: int|
                    0 <= i < built.len() ==> {
                        &&& (#[trigger] units@[i])@ == RomanCharView::fresh(built[i].styles)
                        &&& units@[i]@.wf()
                    },
                forall|i: int|
                    0 <= i < built.len() ==> {
                        &&& #[trigger] starts@[i] == built[i].start
                        &&& starts@[i] < reading@.len()
                    },
                forall|i: int| 0 <= i < built.len() ==> #[trigger] doubles@[i] == built[i].doubles,
            decreases reading.len() - at,
        {
            let (span, styles, double) = unit_at(&reading, at);
            let unit = RomanChar::new(styles.as_slice());
            proof {
                let plan = spec_unit(reading@, at as int);
                assert(spec_plan(reading@, at as int) =~= seq![plan] + spec_plan(
                    reading@,
                    at + plan.span,
                ));
                built = built.push(plan);
            }
            units.push(unit);
            starts.push(at);
            doubles.push(double);
            at += span;
        }
        let ghost plan = spec_plan(reading@, 0);
        assert(plan =~= built);
        let mut cursor: usize = 0;
        while cursor < units.len() && units[cursor].completed_input()
            invariant
                cursor <= units@.len(),
                forall|i: int| 0 <= i < units@.len() ==> (#[trigger] units@[i])@.wf(),
                first_incomplete(unit_views(units@), 0) == first_incomplete(
                    unit_views(units@),
                    cursor as int,
                ),
            decreases units@.len() - cursor,
        {
            cursor += 1;
        }
        let sentence = Sentence {
            origin: origin.to_owned(),
            reading,
            units,
            starts,
            doubles,
            cursor,
        };
        proof {
            let view = SentenceView::build(origin@, yomigana@);
            assert(sentence@.units =~= view.units);
            assert(sentence@.starts =~= view.starts);
            assert(sentence@.doubles =~= view.doubles);
            lemma_first_incomplete(view.units, 0);
        }
        sentence
    }

    /// The sentence of no line: nothing to read and nothing to type.
    pub fn empty() -> (sentence: Sentence)
        ensures
            sentence@ == SentenceView::build(Seq::empty(), Seq::empty()),
            sentence@.wf(),
    {
        let sentence = Sentence {
            origin: String::new(),
            reading: Vec::new(),
            units: Vec::new(),
            starts: Vec::new(),
            doubles: Vec::new(),
            cursor: 0,
        };
        proof {
            let view = SentenceView::build(Seq::empty(), Seq::empty());
            assert(sentence@.units =~= view.units);
            assert(sentence@.starts =~= view.starts);
            assert(sentence@.doubles =~= view.doubles);
        }
        sentence
    }

    /// The lyric line as it is sung.
    pub fn origin(&self) -> (origin: &str)
        ensures
            origin@ == self@.origin,
    {
        self.origin.as_str()
    }

    /// The phonetic units of the reading.
    pub fn units(&self) -> (units: &Vec<RomanChar>)
        ensures
            unit_views(units@) == self@.units,
    {
        &self.units
    }

    /// The index of the unit that takes the next keystroke.
    pub fn cursor(&self) -> (cursor: usize)
        ensures
            cursor == self@.cursor,
    {
        self.cursor
    }

    /// Whether every unit is fully typed.
    pub fn completed(&self) -> (done: bool)
        ensures
            done == self@.completed(),
    {
        self.cursor >= self.units.len()
    }

    /// Offers the keystroke `typed` to the unit at the cursor. Returns
    /// whether the unit took it; a sentence that is fully typed takes none.
    pub fn input(&mut self, typed: char) -> (accepted: bool)
        requires
            old(self)@.wf(),
        ensures
            final(self)@.wf(),
            accepted == old(self)@.accepts(typed),
            final(self)@ == old(self)@.input(typed),
    {
        if self.cursor >= self.units.len() {
            return false;
        }
        let k = self.cursor;
        let ghost before = self@;
        let ghost old_units = self.units@;
        assert(before.units[k as int].wf());
        let accepted = self.units[k].input(typed);
        let ghost typed_in = before.units.update(k as int, before.units[k as int].accept(typed));
        assert(unit_views(self.units@) =~= typed_in);
        if accepted && self.units[k].completed_input() {
            if self.doubles[k] && self.units[k].inputted().len() == 1 && k + 1 < self.units.len() {
                let letter = self.units[k].inputted()[0];
                assert(before.units[k + 1].wf());
                self.units[k + 1].fix_style(letter);
                assert(unit_views(self.units@) =~= typed_in.update(
                    k + 1,
                    typed_in[k + 1].narrow(letter),
                ));
            }
            let ghost bound = unit_views(self.units@);
            let mut next: usize = k + 1;
            while next < self.units.len() && self.units[next].completed_input()
                invariant
                    k < next <= self.units@.len(),
                    unit_views(self.units@) == bound,
                    forall|i: int| 0 <= i < bound.len() ==> (#[trigger] bound[i]).wf(),
                    first_incomplete(bound, k + 1) == first_incomplete(bound, next as int),
                decreases self.units@.len() - next,
            {
                next += 1;
            }
            self.cursor = next;
            proof {
                lemma_first_incomplete(bound, k + 1);
                assert(self@.starts =~= before.starts);
                assert forall|i: int| 0 <= i < self@.cursor implies (
                #[trigger] self@.units[i]).is_complete() by {
                    if i < k {
                        assert(bound[i] == before.units[i]);
                    }
                }
            }
        } else {
            proof {
                assert(self@.starts =~= before.starts);
                assert forall|i: int| 0 <= i < self@.cursor implies (
                #[trigger] self@.units[i]).is_complete() by {
                    assert(self@.units[i] == before.units[i]);
                }
            }
        }
        accepted
    }

    /// The keystrokes of the sentence: those taken, and those still to come
    /// as the displayed spellings have them.
    pub fn roman(&self) -> (halves: TypingStr)
        requires
            self@.wf(),
        ensures
            halves.inputted@ == self@.roman_typed(),
            halves.will_input@ == self@.roman_rest(),
    {
        let mut inputted = String::new();
        let mut will_input = String::new();
        let ghost views = unit_views(self.units@);
        let mut i: usize = 0;
        while i < self.units.len()
            invariant
                i <= self.units@.len(),
                views == unit_views(self.units@),
                forall|j: int| 0 <= j < views.len() ==> (#[trigger] views[j]).wf(),
                inputted@ == typed_text(views.take(i as int)),
                will_input@ == rest_text(views.take(i as int)),
            decreases self.units@.len() - i,
        {
            let unit = &self.units[i];
            assert(unit@ == views[i as int]);
            assert(views.take(i + 1).drop_last() =~= views.take(i as int));
            let typed = unit.inputted();
            let ghost typed_before = inputted@;
            let mut j: usize = 0;
            while j < typed.len()
                invariant
                    j <= typed@.len(),
                    inputted@ == typed_before + typed@.take(j as int),
                decreases typed@.len() - j,
            {
                inputted.push(typed[j]);
                assert(typed@.take(j as int).push(typed@[j as int]) =~= typed@.take(j + 1));
                j += 1;
            }
            assert(typed@.take(typed@.len() as int) =~= typed@);
            let style = str_to_chars(unit.determined_style());
            let ghost rest_before = will_input@;
            let mut j: usize = typed.len();
            if j <= style.len() {
                while j < style.len()
                    invariant
                        typed@.len() <= j <= style@.len(),
                        will_input@ == rest_before + style@.subrange(
                            typed@.len() as int,
                            j as int,
                        ),
                    decreases style@.len() - j,
                {
                    will_input.push(style[j]);
                    assert(style@.subrange(typed@.len() as int, j as int).push(style@[j as int])
                        =~= style@.subrange(typed@.len() as int, j + 1));
                    j += 1;
                }
                assert(style@.subrange(typed@.len() as int, style@.len() as int) =~= unit_rest(
                    views[i as int],
                ));
            } else {
                assert(rest_before + unit_rest(views[i as int]) =~= rest_before);
            }
            i += 1;
        }
        assert(views.take(views.len() as int) =~= views);
        TypingStr { will_input, inputted }
    }

    /// The reading of the sentence: the part whose units are typed, and the
    /// part that is still to type.
    pub fn yomigana(&self) -> (halves: TypingStr)
        requires
            self@.wf(),
        ensures
            halves.inputted@ == self@.reading_typed(),
            halves.will_input@ == self@.reading_rest(),
    {
        let mark = if self.cursor < self.starts.len() {
            self.starts[self.cursor]
        } else {
            self.reading.len()
        };
        assert(mark == self@.reading_mark());
        assert(mark <= self.reading@.len()) by {
            if self.cursor < self.starts.len() {
                assert(self@.starts[self.cursor as int] <= self@.reading.len());
            }
        }
        let inputted = chars_to_string(&self.reading, 0, mark);
        let will_input = chars_to_string(&self.reading, mark, self.reading.len());
        TypingStr { will_input, inputted }
    }
}

} // verus!
