//! What is shown can be typed: a player who types the keystrokes that a
//! sentence displays, one after the other, is never refused and completes
//! the sentence with the last of them.

use crate::game::{lemma_key_wf, EventView, MusicalTypeResult, TyperView};
use crate::kana::{is_sokuon, spec_contracted, spec_kana};
use crate::note::{NoteId, NoteView};
use crate::parser::{spec_dispatch, spec_parse, spec_run, spec_step};
use crate::processor::{ParseResultView, ParserState};
use crate::roman_char::{
    lemma_displayed_style_can_be_typed, lemma_matching_all, lemma_matching_keeps_first,
    lemma_matching_members, matching, RomanCharView,
};
use crate::scoremap::ScoremapLoadConfig;
use crate::sentence::{
    doubles_first, doubling_letters, lemma_build_wf, lemma_first_incomplete, lemma_input_wf,
    lemma_plan, rest_text, spec_plan, spec_syllable, spec_unit, unit_rest, SentenceView,
};
use crate::text::is_prefix;
use crate::token::TokenView;
use vstd::prelude::*;

verus! {

/// Whether the small tsu at `i` and the unit behind it agree: where the
/// small tsu shows a single consonant, the preferred spelling of the unit
/// behind it begins with that consonant.
pub open spec fn in_step(sentence: SentenceView, i: int) -> bool {
    sentence.doubles[i] && sentence.units[i].displayed().len() == 1 ==> {
        &&& sentence.units[i + 1].offered[0].len() > 0
        &&& sentence.units[i + 1].offered[0][0] == sentence.units[i].displayed()[0]
    }
}

/// Whether the sentence is typed as far as the cursor and untouched behind
/// it: the unit at the cursor is not complete and its candidates are those
/// that the typed characters leave, the units behind it are as the reading
/// gave them or bound by a small tsu before them, and each small tsu agrees
/// with the unit behind it. Every sentence is so when it is built, and stays
/// so as long as no keystroke is refused.
pub open spec fn ready(sentence: SentenceView) -> bool {
    &&& sentence.wf()
    &&& sentence.cursor < sentence.units.len() ==> !sentence.units[sentence.cursor as int]
        .is_complete()
    &&& forall|i: int|
        sentence.cursor <= i < sentence.units.len() ==> (#[trigger] sentence.units[i]).on_track()
    &&& forall|i: int|
        sentence.cursor < i < sentence.units.len() ==> (#[trigger] sentence.units[i]).typed.len()
            == 0
    &&& forall|i: int|
        sentence.cursor <= i < sentence.units.len() - 1 ==> #[trigger] in_step(sentence, i)
}

/// Whether each of the keystrokes `keys`, offered one after the other, is
/// taken.
pub open spec fn all_taken(sentence: SentenceView, keys: Seq<char>) -> bool
    decreases keys.len(),
{
    keys.len() == 0 || (sentence.accepts(keys[0]) && all_taken(
        sentence.input(keys[0]),
        keys.drop_first(),
    ))
}

/// The sentence after the keystrokes `keys`, offered one after the other.
pub open spec fn after_keys(sentence: SentenceView, keys: Seq<char>) -> SentenceView
    decreases keys.len(),
{
    if keys.len() == 0 {
        sentence
    } else {
        after_keys(sentence.input(keys[0]), keys.drop_first())
    }
}

/// What is left to type of a list of units is what is left of its front
/// part followed by what is left of its back part.
pub proof fn lemma_rest_split(units: Seq<RomanCharView>, at: int)
    requires
        0 <= at <= units.len(),
    ensures
        rest_text(units) == rest_text(units.take(at)) + rest_text(units.skip(at)),
    decreases units.len(),
{
    if at == units.len() {
        assert(units.take(at) =~= units);
        assert(units.skip(at) =~= Seq::<RomanCharView>::empty());
        assert(rest_text(units) + Seq::<char>::empty() =~= rest_text(units));
    } else {
        let front = units.drop_last();
        lemma_rest_split(front, at);
        assert(front.take(at) =~= units.take(at));
        assert(front.skip(at) =~= units.skip(at).drop_last());
        assert(units.skip(at).last() == units.last());
        assert(rest_text(units.take(at)) + (rest_text(units.skip(at).drop_last()) + unit_rest(
            units.last(),
        )) =~= (rest_text(units.take(at)) + rest_text(units.skip(at).drop_last())) + unit_rest(
            units.last(),
        ));
    }
}

/// Nothing is left to type of units that are complete.
pub proof fn lemma_rest_of_complete(units: Seq<RomanCharView>)
    requires
        forall|i: int| 0 <= i < units.len() ==> (#[trigger] units[i]).is_complete(),
    ensures
        rest_text(units).len() == 0,
    decreases units.len(),
{
    if units.len() > 0 {
        let front = units.drop_last();
        assert forall|i: int| 0 <= i < front.len() implies (#[trigger] front[i]).is_complete() by {
            assert(front[i] == units[i]);
        }
        lemma_rest_of_complete(front);
        assert(units.last() == units[units.len() - 1]);
        assert(unit_rest(units.last()).len() == 0);
    }
}

/// What is left to type depends on what is left of each unit alone.
pub proof fn lemma_rest_unit_by_unit(a: Seq<RomanCharView>, b: Seq<RomanCharView>)
    requires
        a.len() == b.len(),
        forall|i: int| 0 <= i < a.len() ==> unit_rest(#[trigger] a[i]) == unit_rest(b[i]),
    ensures
        rest_text(a) == rest_text(b),
    decreases a.len(),
{
    if a.len() > 0 {
        assert forall|i: int| 0 <= i < a.drop_last().len() implies unit_rest(
            #[trigger] a.drop_last()[i],
        ) == unit_rest(b.drop_last()[i]) by {
            assert(a.drop_last()[i] == a[i]);
            assert(b.drop_last()[i] == b[i]);
        }
        lemma_rest_unit_by_unit(a.drop_last(), b.drop_last());
        assert(a.last() == a[a.len() - 1]);
        assert(b.last() == b[b.len() - 1]);
    }
}

/// What is left to type of a sentence is what is left of the unit at the
/// cursor followed by what is left of the units behind it.
pub proof fn lemma_rest_at_cursor(sentence: SentenceView)
    requires
        sentence.wf(),
        !sentence.completed(),
    ensures
        sentence.roman_rest() == unit_rest(sentence.units[sentence.cursor as int]) + rest_text(
            sentence.units.skip(sentence.cursor as int + 1),
        ),
{
    let units = sentence.units;
    let k = sentence.cursor as int;
    lemma_rest_split(units, k);
    assert forall|i: int| 0 <= i < units.take(k).len() implies (#[trigger] units.take(
        k,
    )[i]).is_complete() by {
        assert(units.take(k)[i] == units[i]);
    }
    lemma_rest_of_complete(units.take(k));
    let back = units.skip(k);
    lemma_rest_split(back, 1);
    assert(back.take(1) =~= seq![units[k]]);
    assert(back.skip(1) =~= units.skip(k + 1));
    assert(rest_text(seq![units[k]]) =~= unit_rest(units[k])) by {
        reveal_with_fuel(rest_text, 3);
        assert(seq![units[k]].drop_last() =~= Seq::<RomanCharView>::empty());
        assert(seq![units[k]].last() == units[k]);
        assert(Seq::<char>::empty() + unit_rest(units[k]) =~= unit_rest(units[k]));
    }
    assert(rest_text(units.take(k)) + rest_text(back) =~= rest_text(back));
}

/// A sentence that is ready is fully typed exactly when nothing is left to
/// type.
pub proof fn lemma_ready_rest(sentence: SentenceView)
    requires
        ready(sentence),
    ensures
        sentence.completed() <==> sentence.roman_rest().len() == 0,
{
    if sentence.completed() {
        lemma_rest_of_complete(sentence.units);
    } else {
        lemma_rest_at_cursor(sentence);
        let unit = sentence.units[sentence.cursor as int];
        assert(unit.wf());
        lemma_displayed_style_can_be_typed(unit);
    }
}

/// The keystroke that a ready sentence shows next is taken, the sentence
/// stays ready, and what is left to type is what was left without that
/// keystroke.
pub proof fn lemma_shown_key_is_taken(sentence: SentenceView)
    requires
        ready(sentence),
        !sentence.completed(),
    ensures
        sentence.roman_rest().len() > 0,
        sentence.accepts(sentence.roman_rest()[0]),
        ready(sentence.input(sentence.roman_rest()[0])),
        sentence.input(sentence.roman_rest()[0]).roman_rest() == sentence.roman_rest().drop_first(),
{
    let k = sentence.cursor as int;
    let units = sentence.units;
    let unit = units[k];
    assert(unit.wf());
    lemma_rest_at_cursor(sentence);
    lemma_displayed_style_can_be_typed(unit);
    lemma_matching_members(unit.offered, unit.typed);
    let shown = unit.displayed();
    let c = shown[unit.typed.len() as int];
    assert(unit_rest(unit)[0] == c);
    assert(sentence.roman_rest()[0] == c);
    let typed_unit = unit.accept(c);
    assert(unit_rest(typed_unit) =~= unit_rest(unit).drop_first());
    let after = sentence.input(c);
    lemma_input_wf(sentence, c);
    let behind = rest_text(units.skip(k + 1));
    assert(sentence.roman_rest().drop_first() =~= unit_rest(typed_unit) + behind);
    if !typed_unit.is_complete() {
        assert(after.units =~= units.update(k, typed_unit));
        assert(after.units.skip(k + 1) =~= units.skip(k + 1));
        lemma_rest_at_cursor(after);
        assert forall|i: int| after.cursor <= i < after.units.len() - 1 implies #[trigger] in_step(
            after,
            i,
        ) by {
            assert(in_step(sentence, i));
        }
        assert forall|i: int| after.cursor <= i < after.units.len() implies (
        #[trigger] after.units[i]).on_track() by {
            if i != k {
                assert(units[i].on_track());
            }
        }
    } else {
        assert(unit_rest(typed_unit).len() == 0);
        let typed_in = units.update(k, typed_unit);
        let binds = sentence.doubles[k] && typed_unit.typed.len() == 1 && k + 1 < units.len();
        let bound = after.units;
        if binds {
            let next = units[k + 1];
            assert(next.wf());
            assert(next.on_track());
            assert(next.typed =~= Seq::<char>::empty());
            lemma_matching_all(next.offered);
            assert(in_step(sentence, k));
            lemma_matching_members(unit.offered, typed_unit.typed);
            assert(is_prefix(typed_unit.typed, shown));
            assert(typed_unit.typed =~= shown) by {
                assert(shown.subrange(0, shown.len() as int) =~= shown);
            }
            let letter = typed_unit.typed[0];
            assert(is_prefix(seq![letter], next.offered[0])) by {
                assert(next.offered[0].subrange(0, 1) =~= seq![letter]);
            }
            lemma_matching_keeps_first(next.offered, seq![letter]);
            let narrowed = next.narrow(letter);
            assert(narrowed.offered == matching(next.offered, seq![letter]));
            assert(narrowed.candidates == narrowed.offered);
            lemma_matching_all(narrowed.offered);
            assert(narrowed.on_track());
            assert(narrowed.displayed() == next.displayed());
            assert(unit_rest(narrowed) == unit_rest(next));
            assert(bound =~= typed_in.update(k + 1, narrowed));
        } else {
            assert(bound =~= typed_in);
        }
        lemma_first_incomplete(bound, k + 1);
        let m = after.cursor as int;
        lemma_rest_split(bound, k + 1);
        assert forall|i: int| 0 <= i < bound.take(k + 1).len() implies (#[trigger] bound.take(
            k + 1,
        )[i]).is_complete() by {
            assert(bound.take(k + 1)[i] == bound[i]);
            if i < k {
                assert(bound[i] == units[i]);
            }
        }
        lemma_rest_of_complete(bound.take(k + 1));
        assert forall|i: int| 0 <= i < bound.skip(k + 1).len() implies unit_rest(
            #[trigger] bound.skip(k + 1)[i],
        ) == unit_rest(units.skip(k + 1)[i]) by {
            assert(bound.skip(k + 1)[i] == bound[k + 1 + i]);
            assert(units.skip(k + 1)[i] == units[k + 1 + i]);
        }
        lemma_rest_unit_by_unit(bound.skip(k + 1), units.skip(k + 1));
        assert(rest_text(bound) =~= behind);
        assert forall|i: int| after.cursor <= i < after.units.len() implies (
        #[trigger] after.units[i]).on_track() by {
            if i > k + 1 || !binds {
                assert(bound[i] == units[i]);
                assert(units[i].on_track());
            }
        }
        assert forall|i: int| after.cursor < i < after.units.len() implies (
        #[trigger] after.units[i]).typed.len() == 0 by {
            assert(units[i].typed.len() == 0);
        }
        assert forall|i: int| after.cursor <= i < after.units.len() - 1 implies #[trigger] in_step(
            after,
            i,
        ) by {
            assert(in_step(sentence, i));
            assert(bound[i + 1] == units[i + 1]);
            assert(bound[i].displayed() == units[i].displayed());
        }
    }
}

/// Every keystroke that a ready sentence shows is taken when they are typed
/// in their order, and the last of them completes the sentence.
pub proof fn lemma_shown_keys_complete_the_sentence(sentence: SentenceView)
    requires
        ready(sentence),
    ensures
        all_taken(sentence, sentence.roman_rest()),
        after_keys(sentence, sentence.roman_rest()).completed(),
        ready(after_keys(sentence, sentence.roman_rest())),
    decreases sentence.roman_rest().len(),
{
    lemma_ready_rest(sentence);
    if !sentence.completed() {
        lemma_shown_key_is_taken(sentence);
        lemma_shown_keys_complete_the_sentence(sentence.input(sentence.roman_rest()[0]));
    }
}

/// Each unit of a plan is the unit that the reading gives at the unit's
/// start, and the next unit starts where it ends.
pub proof fn lemma_plan_steps(reading: Seq<char>, at: int, i: int)
    requires
        0 <= at,
        0 <= i < spec_plan(reading, at).len(),
    ensures
        spec_plan(reading, at)[i] == spec_unit(reading, spec_plan(reading, at)[i].start as int),
        at <= spec_plan(reading, at)[i].start < reading.len(),
        i + 1 < spec_plan(reading, at).len() ==> spec_plan(reading, at)[i + 1].start == spec_plan(
            reading,
            at,
        )[i].start + spec_plan(reading, at)[i].span,
        i + 1 == spec_plan(reading, at).len() ==> spec_plan(reading, at)[i].start + spec_plan(
            reading,
            at,
        )[i].span >= reading.len(),
    decreases reading.len() - at,
{
    if at < reading.len() {
        let unit = spec_unit(reading, at);
        let rest = spec_plan(reading, at + unit.span);
        if i > 0 {
            lemma_plan_steps(reading, at + unit.span, i - 1);
            assert(spec_plan(reading, at)[i] == rest[i - 1]);
            if i + 1 < spec_plan(reading, at).len() {
                assert(spec_plan(reading, at)[i + 1] == rest[i]);
            }
        } else if rest.len() > 0 {
            lemma_plan_steps(reading, at + unit.span, 0);
            assert(spec_plan(reading, at)[1] == rest[0]);
        }
    }
}

/// Where the preferred spelling begins with a doubling consonant, that
/// consonant is the first of the doubling letters.
pub proof fn lemma_first_doubling_letter(styles: Seq<Seq<char>>)
    requires
        doubles_first(styles),
    ensures
        doubling_letters(styles).len() > 0,
        doubling_letters(styles)[0] == seq![styles[0][0]],
    decreases styles.len(),
{
    if styles.len() > 1 {
        let front = styles.drop_last();
        assert(front[0] == styles[0]);
        lemma_first_doubling_letter(front);
    } else {
        assert(doubling_letters(styles.drop_last()).len() == 0);
    }
}

/// The spellings of the small tsu itself have more than one letter, and the
/// first of them begins with no doubling consonant.
pub proof fn lemma_sokuon_own_styles(c: char)
    requires
        is_sokuon(c),
    ensures
        spec_kana(c).len() == 3,
        spec_kana(c)[0].len() == 3,
        !doubles_first(spec_kana(c)),
{
    reveal_strlit("ltu");
    assert(spec_kana(c)[0] == "ltu"@);
    assert("ltu"@[0] == 'l');
}

/// A sentence is ready when it is built.
pub proof fn lemma_build_ready(origin: Seq<char>, reading: Seq<char>)
    ensures
        ready(SentenceView::build(origin, reading)),
{
    let sentence = SentenceView::build(origin, reading);
    let plan = spec_plan(reading, 0);
    lemma_build_wf(origin, reading);
    lemma_plan(reading, 0);
    lemma_first_incomplete(sentence.units, 0);
    assert forall|i: int| 0 <= i < sentence.units.len() implies (
    #[trigger] sentence.units[i]).on_track() by {
        lemma_matching_all(sentence.units[i].offered);
    }
    assert forall|i: int| 0 <= i < sentence.units.len() - 1 implies #[trigger] in_step(
        sentence,
        i,
    ) by {
        if sentence.doubles[i] && sentence.units[i].displayed().len() == 1 {
            lemma_plan_steps(reading, 0, i);
            lemma_plan_steps(reading, 0, i + 1);
            let at = plan[i].start as int;
            assert(plan[i] == spec_unit(reading, at));
            assert(is_sokuon(reading[at]) && at + 1 < reading.len());
            let behind = spec_syllable(reading, at + 1).1;
            let own = spec_kana(reading[at]);
            lemma_sokuon_own_styles(reading[at]);
            assert(sentence.units[i].displayed() == plan[i].styles[0]);
            if doubles_first(behind) {
                lemma_first_doubling_letter(behind);
                assert(plan[i].styles[0] == doubling_letters(behind)[0]);
                assert(plan[i + 1] == spec_unit(reading, at + 1));
                if is_sokuon(reading[at + 1]) && at + 2 < reading.len() {
                    lemma_sokuon_own_styles(reading[at + 1]);
                    assert(spec_contracted(reading[at + 1], reading[at + 2]).len() == 0);
                    assert(behind == spec_kana(reading[at + 1]));
                } else {
                    assert(plan[i + 1].styles == behind);
                }
            } else {
                assert(plan[i].styles[0] == own[0]);
            }
        }
    }
}

/// The events of a sentence typed without a fault: a correct keystroke for
/// each of the `count` keys, then the completed sentence and the perfect
/// section.
pub open spec fn perfect_run(count: nat, id: NoteId) -> Seq<EventView> {
    Seq::new(count, |i: int| EventView::Typed(MusicalTypeResult::Correct)) + seq![
        EventView::CompletedSentence(id),
        EventView::DidPerfectSection,
    ]
}

/// Whether the engine waits for a sentence that is ready, in a note in which
/// no keystroke was refused.
pub open spec fn awaits_ready(typer: TyperView) -> bool {
    &&& typer.wf()
    &&& typer.awaits()
    &&& !typer.state.flawed
    &&& ready(typer.current().content->Sentence_0)
}

/// The keystrokes that the waiting sentence shows, typed as they stand,
/// are all judged correct; the last completes the sentence, and the section
/// is perfect. Where every keystroke before was taken, the accuracy is still
/// all.
pub proof fn lemma_exact_keystrokes_are_perfect(typer: TyperView)
    requires
        awaits_ready(typer),
    ensures
        typer.keys(typer.current().content->Sentence_0.roman_rest()).1 == perfect_run(
            typer.current().content->Sentence_0.roman_rest().len(),
            typer.current().id,
        ),
        typer.keys(typer.current().content->Sentence_0.roman_rest()).0.wf(),
        typer.state.correct == typer.state.judged ==> typer.keys(
            typer.current().content->Sentence_0.roman_rest(),
        ).0.state.correct == typer.keys(
            typer.current().content->Sentence_0.roman_rest(),
        ).0.state.judged,
    decreases typer.current().content->Sentence_0.roman_rest().len(),
{
    let sentence = typer.current().content->Sentence_0;
    let keys = sentence.roman_rest();
    let id = typer.current().id;
    assert(typer.current().wf());
    lemma_ready_rest(sentence);
    lemma_shown_key_is_taken(sentence);
    lemma_key_wf(typer, keys[0]);
    let first = typer.key(keys[0]);
    let typed = sentence.input(keys[0]);
    lemma_ready_rest(typed);
    let rest = keys.drop_first();
    let correct = seq![EventView::Typed(MusicalTypeResult::Correct)];
    if typed.completed() {
        assert(rest.len() == 0);
        assert(first.0.keys(rest) == (first.0, Seq::<EventView>::empty()));
        assert(typer.keys(keys).1 =~= perfect_run(keys.len(), id));
    } else {
        assert(first.1 == correct);
        assert(first.0.current().content->Sentence_0 == typed);
        assert(awaits_ready(first.0));
        lemma_exact_keystrokes_are_perfect(first.0);
        assert(correct + perfect_run(rest.len(), id) =~= perfect_run(keys.len(), id));
    }
}

/// Whether every sentence among `notes` is ready.
pub open spec fn sentences_ready(notes: Seq<NoteView>) -> bool {
    forall|i: int|
        0 <= i < notes.len() && (#[trigger] notes[i]).content is Sentence ==> ready(
            notes[i].content->Sentence_0,
        )
}

/// A run of the parser adds only sentences that are ready.
pub proof fn lemma_run_sentences_ready(state: ParserState, queue: Seq<TokenView>)
    requires
        sentences_ready(state.notes),
        spec_run(state, queue) is Ok,
    ensures
        sentences_ready(spec_run(state, queue)->Ok_0.notes),
    decreases queue.len(),
{
    if queue.len() > 0 {
        let next = spec_step(state, queue)->Ok_0;
        assert(spec_dispatch(state, queue).0.notes == state.notes);
        match spec_dispatch(state, queue).1 {
            ParseResultView::Emitted(note) => {
                if queue[0].content is Yomigana && state.parsed_japanese is Some {
                    lemma_build_ready(state.parsed_japanese->Some_0, queue[0].content->Yomigana_0);
                }
                assert forall|i: int|
                    0 <= i < next.notes.len() && (#[trigger] next.notes[i]).content
                        is Sentence implies ready(next.notes[i].content->Sentence_0) by {
                    if i < state.notes.len() {
                        assert(next.notes[i] == state.notes[i]);
                    }
                }
            },
            _ => {},
        }
        lemma_run_sentences_ready(next, queue.drop_first());
    }
}

/// Every sentence of a score that the parser makes is ready: what it shows
/// can be typed as it stands.
pub proof fn lemma_parsed_sentences_are_ready(
    tokens: Seq<TokenView>,
    config: ScoremapLoadConfig,
    scope: u64,
)
    requires
        spec_parse(tokens, config, scope) is Ok,
    ensures
        sentences_ready(spec_parse(tokens, config, scope)->Ok_0.notes),
{
    lemma_run_sentences_ready(ParserState::initial(config, scope), tokens);
}

} // verus!
