//! The parser: the chain of handlers run over the tokens of a score, and
//! what holds of every score that it accepts.

use crate::error::{Reason, ScoremapParseError};
use crate::note::{NoteContentView, NoteView};
use crate::processor::{
    caption_processor, command_processor, comment_processor, double_time_processor,
    lyrics_processor, property_processor, queue_from, section_processor, single_time_processor,
    spec_caption, spec_command, spec_comment, spec_double_time, spec_lyrics, spec_property,
    spec_section, spec_single_time, spec_yomigana, yomigana_processor, ParseResult,
    ParseResultView, ParserCtx, ParserState,
};
use crate::scoremap::{
    lemma_meta_insert, meta_distinct, notes_wf, Scoremap, ScoremapLoadConfig, ScoremapView,
};
use crate::sentence::lemma_build_wf;
use crate::time::Timestamp;
use crate::token::{token_views, Token, TokenView};
use vstd::prelude::*;

verus! {

/// What the chain of handlers makes of the front of the queue: the result of
/// the first handler that takes it. The handlers stand in this order: two
/// time marks in a row, a time mark, a command, a caption, a property, a
/// reading, a section break, lyrics, a comment.
pub open spec fn spec_dispatch(state: ParserState, queue: Seq<TokenView>) -> (
    ParserState,
    ParseResultView,
) {
    if !(spec_double_time(state, queue).1 is Ignored) {
        spec_double_time(state, queue)
    } else if !(spec_single_time(state, queue).1 is Ignored) {
        spec_single_time(state, queue)
    } else if !(spec_command(state, queue).1 is Ignored) {
        spec_command(state, queue)
    } else if !(spec_caption(state, queue).1 is Ignored) {
        spec_caption(state, queue)
    } else if !(spec_property(state, queue).1 is Ignored) {
        spec_property(state, queue)
    } else if !(spec_yomigana(state, queue).1 is Ignored) {
        spec_yomigana(state, queue)
    } else if !(spec_section(state, queue).1 is Ignored) {
        spec_section(state, queue)
    } else if !(spec_lyrics(state, queue).1 is Ignored) {
        spec_lyrics(state, queue)
    } else {
        spec_comment(state, queue)
    }
}

/// The state after the front of the queue is dealt with: the note that comes
/// of it joins the section in progress. An error ends the parse.
pub open spec fn spec_step(state: ParserState, queue: Seq<TokenView>) -> Result<
    ParserState,
    ScoremapParseError,
> {
    match spec_dispatch(state, queue).1 {
        ParseResultView::Failed(err) => Err(err),
        ParseResultView::Emitted(note) => Ok(spec_dispatch(state, queue).0.with_note(note)),
        _ => Ok(spec_dispatch(state, queue).0),
    }
}

/// The state after the whole queue is dealt with, token by token, or the
/// first error.
pub open spec fn spec_run(state: ParserState, queue: Seq<TokenView>) -> Result<
    ParserState,
    ScoremapParseError,
>
    decreases queue.len(),
{
    if queue.len() == 0 {
        Ok(state)
    } else {
        match spec_step(state, queue) {
            Ok(next) => spec_run(next, queue.drop_first()),
            Err(err) => Err(err),
        }
    }
}

/// The score that the tokens make, or the first error among them.
pub open spec fn spec_parse(tokens: Seq<TokenView>, config: ScoremapLoadConfig, scope: u64)
    -> Result<ScoremapView, ScoremapParseError> {
    match spec_run(ParserState::initial(config, scope), tokens) {
        Ok(state) => Ok(state.finish()),
        Err(err) => Err(err),
    }
}

/// Every token is taken by some handler.
pub proof fn lemma_every_token_is_taken(state: ParserState, queue: Seq<TokenView>)
    requires
        queue.len() > 0,
    ensures
        !(spec_dispatch(state, queue).1 is Ignored),
{
}

/// A step keeps the state valid and adds at most one note, as long as the
/// identifiers can count one more.
pub proof fn lemma_step_wf(state: ParserState, queue: Seq<TokenView>)
    requires
        state.wf(),
        state.notes.len() < u64::MAX,
        spec_step(state, queue) is Ok,
    ensures
        spec_step(state, queue)->Ok_0.wf(),
        spec_step(state, queue)->Ok_0.notes.len() <= state.notes.len() + 1,
{
    let (next, result) = spec_dispatch(state, queue);
    assert(next.notes == state.notes);
    assert(next.scope == state.scope);
    if next.section_lens != state.section_lens {
        assert(next == state.sealed());
        assert(next.section_lens.drop_last() =~= state.section_lens);
    }
    assert(next.wf());
    match result {
        ParseResultView::Emitted(note) => {
            assert(note.id == state.next_id());
            assert(note.wf()) by {
                if queue[0].content is Yomigana && state.parsed_japanese is Some {
                    lemma_build_wf(state.parsed_japanese->Some_0, queue[0].content->Yomigana_0);
                }
            }
            let after = next.with_note(note);
            assert(notes_wf(after.notes, after.scope));
        },
        _ => {},
    }
}

/// A run keeps the state valid, as long as the identifiers can count a note
/// for every token.
pub proof fn lemma_run_wf(state: ParserState, queue: Seq<TokenView>)
    requires
        state.wf(),
        state.notes.len() + queue.len() <= u64::MAX,
        spec_run(state, queue) is Ok,
    ensures
        spec_run(state, queue)->Ok_0.wf(),
    decreases queue.len(),
{
    if queue.len() > 0 {
        lemma_step_wf(state, queue);
        lemma_run_wf(spec_step(state, queue)->Ok_0, queue.drop_first());
    }
}

/// Every score that the parser makes is valid: each note ends after it
/// starts, each is named by the scope and its place, so that no two share an
/// identifier, and the sections hold all the notes. The tokens are no more
/// than a vector can hold.
pub proof fn lemma_parse_wf(tokens: Seq<TokenView>, config: ScoremapLoadConfig, scope: u64)
    requires
        tokens.len() <= usize::MAX,
        spec_parse(tokens, config, scope) is Ok,
    ensures
        spec_parse(tokens, config, scope)->Ok_0.wf(),
        forall|i: int|
            0 <= i < spec_parse(tokens, config, scope)->Ok_0.notes.len() ==> (
            #[trigger] spec_parse(tokens, config, scope)->Ok_0.notes[i]).start.millis
                < spec_parse(tokens, config, scope)->Ok_0.notes[i].end.millis,
        forall|i: int, j: int|
            0 <= i < j < spec_parse(tokens, config, scope)->Ok_0.notes.len() ==> (
            #[trigger] spec_parse(tokens, config, scope)->Ok_0.notes[i]).id != (
            #[trigger] spec_parse(tokens, config, scope)->Ok_0.notes[j]).id,
{
    let initial = ParserState::initial(config, scope);
    lemma_run_wf(initial, tokens);
    let state = spec_run(initial, tokens)->Ok_0;
    let view = state.finish();
    if state.section_start < state.notes.len() {
        assert(view.section_lens.drop_last() =~= state.section_lens);
    }
    assert forall|i: int| 0 <= i < view.notes.len() implies (#[trigger] view.notes[i]).start.millis
        < view.notes[i].end.millis by {
        assert(view.notes[i].wf());
    }
}

/// A run keeps the scope of the identifiers and the configuration.
pub proof fn lemma_run_scope(state: ParserState, queue: Seq<TokenView>)
    requires
        spec_run(state, queue) is Ok,
    ensures
        spec_run(state, queue)->Ok_0.scope == state.scope,
        spec_run(state, queue)->Ok_0.config == state.config,
    decreases queue.len(),
{
    if queue.len() > 0 {
        lemma_run_scope(spec_step(state, queue)->Ok_0, queue.drop_first());
    }
}

/// A run keeps the keys of the metadata distinct: a key that is stated again
/// takes the place of its earlier entry.
pub proof fn lemma_run_keys_distinct(state: ParserState, queue: Seq<TokenView>)
    requires
        meta_distinct(state.metadata),
        spec_run(state, queue) is Ok,
    ensures
        meta_distinct(spec_run(state, queue)->Ok_0.metadata),
    decreases queue.len(),
{
    if queue.len() > 0 {
        let next = spec_step(state, queue)->Ok_0;
        if next.metadata != state.metadata {
            lemma_meta_insert(
                state.metadata,
                queue[0].content->key,
                queue[0].content->value,
                queue[0].content->key,
            );
        }
        lemma_run_keys_distinct(next, queue.drop_first());
    }
}

/// No two entries of the metadata of a parsed score have the same key.
pub proof fn lemma_parsed_keys_are_distinct(
    tokens: Seq<TokenView>,
    config: ScoremapLoadConfig,
    scope: u64,
)
    requires
        spec_parse(tokens, config, scope) is Ok,
    ensures
        meta_distinct(spec_parse(tokens, config, scope)->Ok_0.metadata),
{
    lemma_run_keys_distinct(ParserState::initial(config, scope), tokens);
}

/// A time mark in open lyrics that is not later than the clock is passed
/// over: it is no error, and the clock stays where it is. Where no time mark
/// follows it directly, nothing at all changes.
pub proof fn lemma_passed_time_mark_is_ignored(state: ParserState, queue: Seq<TokenView>)
    requires
        state.parsing_lyrics,
        queue.len() > 0,
        queue[0].content is Time,
        queue[0].content->Time_0.millis <= state.curr_time.millis,
    ensures
        spec_single_time(state, queue) == (state, ParseResultView::Consumed),
        spec_step(state, queue) is Ok,
        spec_step(state, queue)->Ok_0.curr_time == state.curr_time,
        spec_step(state, queue)->Ok_0.parsed_japanese == state.parsed_japanese,
        !(queue.len() >= 2 && queue[1].content is Time) ==> spec_step(state, queue) == Ok::<
            ParserState,
            ScoremapParseError,
        >(state),
{
}

/// A property in open lyrics is an error, whatever its key and its value
/// are and whatever the configuration passes over.
pub proof fn lemma_property_in_lyrics_fails(state: ParserState, queue: Seq<TokenView>)
    requires
        state.parsing_lyrics,
        queue.len() > 0,
        queue[0].content is Property,
    ensures
        spec_step(state, queue) == Err::<ParserState, ScoremapParseError>(
            ScoremapParseError::PropertyDefinition {
                line_num: queue[0].line_num,
                reason: Reason::PropertyInsideLyrics,
            },
        ),
{
}

/// A caption and a reading outside open lyrics are errors.
pub proof fn lemma_statement_outside_lyrics_fails(state: ParserState, queue: Seq<TokenView>)
    requires
        !state.parsing_lyrics,
        queue.len() > 0,
        queue[0].content is Caption || queue[0].content is Yomigana,
    ensures
        spec_step(state, queue) is Err,
        spec_step(state, queue)->Err_0 is StatementDefinition,
        spec_step(state, queue)->Err_0.spec_line_num() == queue[0].line_num,
        queue[0].content is Caption ==> spec_step(state, queue)->Err_0.spec_reason()
            == Reason::CaptionOutsideLyrics,
        queue[0].content is Yomigana ==> spec_step(state, queue)->Err_0.spec_reason()
            == Reason::YomiganaOutsideLyrics,
{
}

/// Two time marks in a row, the first before the second, make exactly one
/// note: a pause from the first to the second. The clock, the waiting lyrics
/// and everything else stay as they are.
pub proof fn lemma_double_time_makes_one_blank(state: ParserState, queue: Seq<TokenView>)
    requires
        queue.len() >= 2,
        queue[0].content is Time,
        queue[1].content is Time,
        queue[0].content->Time_0.millis < queue[1].content->Time_0.millis,
    ensures
        spec_step(state, queue) == Ok::<ParserState, ScoremapParseError>(
            state.with_note(
                NoteView {
                    id: state.next_id(),
                    start: queue[0].content->Time_0,
                    end: queue[1].content->Time_0,
                    content: NoteContentView::Blank,
                },
            ),
        ),
        spec_step(state, queue)->Ok_0.notes.len() == state.notes.len() + 1,
        spec_step(state, queue)->Ok_0.parsed_japanese == state.parsed_japanese,
        spec_step(state, queue)->Ok_0.curr_time == state.curr_time,
{
}

/// No time mark of the queue comes before an earlier one.
pub open spec fn times_ascend(queue: Seq<TokenView>) -> bool {
    forall|i: int, j: int|
        0 <= i < j < queue.len() && (#[trigger] queue[i]).content is Time && (
        #[trigger] queue[j]).content is Time ==> queue[i].content->Time_0.millis
            <= queue[j].content->Time_0.millis
}

/// No note starts before an earlier one: the spans between neighbouring
/// notes follow one another and do not overlap.
pub open spec fn starts_ascend(notes: Seq<NoteView>) -> bool {
    forall|i: int, j: int|
        0 <= i < j < notes.len() ==> (#[trigger] notes[i]).start.millis <= (
        #[trigger] notes[j]).start.millis
}

/// The time that no note of the state starts after: the time mark at the
/// front of the queue, or the clock where the front is no time mark.
pub open spec fn start_bound(state: ParserState, queue: Seq<TokenView>) -> Timestamp {
    if queue.len() > 0 && queue[0].content is Time {
        queue[0].content->Time_0
    } else {
        state.curr_time
    }
}

/// What a run over ascending time marks keeps: the marks to come are not
/// before the clock, the notes start in order, those of the sealed sections
/// not after the clock and the others not after the bound.
pub open spec fn in_order(state: ParserState, queue: Seq<TokenView>) -> bool {
    &&& state.section_start <= state.notes.len()
    &&& times_ascend(queue)
    &&& forall|i: int|
        0 <= i < queue.len() && (#[trigger] queue[i]).content is Time ==> state.curr_time.millis
            <= queue[i].content->Time_0.millis
    &&& starts_ascend(state.notes)
    &&& forall|i: int|
        0 <= i < state.section_start ==> (#[trigger] state.notes[i]).start.millis
            <= state.curr_time.millis
    &&& forall|i: int|
        0 <= i < state.notes.len() ==> (#[trigger] state.notes[i]).start.millis <= start_bound(
            state,
            queue,
        ).millis
}

/// A step over ascending time marks keeps the notes in order.
pub proof fn lemma_step_in_order(state: ParserState, queue: Seq<TokenView>)
    requires
        queue.len() > 0,
        in_order(state, queue),
        spec_step(state, queue) is Ok,
    ensures
        in_order(spec_step(state, queue)->Ok_0, queue.drop_first()),
{
    let after = spec_step(state, queue)->Ok_0;
    let rest = queue.drop_first();
    assert forall|i: int| 0 <= i < rest.len() implies rest[i] == queue[i + 1] by {}
    assert(times_ascend(rest)) by {
        assert forall|i: int, j: int|
            0 <= i < j < rest.len() && (#[trigger] rest[i]).content is Time && (
            #[trigger] rest[j]).content is Time implies rest[i].content->Time_0.millis
            <= rest[j].content->Time_0.millis by {
            assert(rest[i] == queue[i + 1]);
            assert(rest[j] == queue[j + 1]);
        }
    }
    assert(state.curr_time.millis <= start_bound(state, queue).millis);
    assert(start_bound(state, queue).millis <= start_bound(after, rest).millis) by {
        if rest.len() > 0 && rest[0].content is Time {
            assert(rest[0] == queue[1]);
        }
    }
    assert forall|i: int|
        0 <= i < rest.len() && (#[trigger] rest[i]).content is Time implies after.curr_time.millis
        <= rest[i].content->Time_0.millis by {
        assert(rest[i] == queue[i + 1]);
    }
    assert forall|i: int| 0 <= i < after.notes.len() implies (
    #[trigger] after.notes[i]).start.millis <= start_bound(after, rest).millis by {
        if i < state.notes.len() {
            assert(after.notes[i] == state.notes[i]);
        }
    }
    assert forall|i: int| 0 <= i < after.section_start implies (
    #[trigger] after.notes[i]).start.millis <= after.curr_time.millis by {
        assert(after.notes[i] == state.notes[i]);
    }
    assert(starts_ascend(after.notes)) by {
        assert forall|i: int, j: int| 0 <= i < j < after.notes.len() implies (
        #[trigger] after.notes[i]).start.millis <= (#[trigger] after.notes[j]).start.millis by {
            assert(after.notes[i] == state.notes[i]);
            if j < state.notes.len() {
                assert(after.notes[j] == state.notes[j]);
            }
        }
    }
}

/// A run over ascending time marks keeps the notes in order.
pub proof fn lemma_run_in_order(state: ParserState, queue: Seq<TokenView>)
    requires
        in_order(state, queue),
        spec_run(state, queue) is Ok,
    ensures
        starts_ascend(spec_run(state, queue)->Ok_0.notes),
    decreases queue.len(),
{
    if queue.len() > 0 {
        lemma_step_in_order(state, queue);
        lemma_run_in_order(spec_step(state, queue)->Ok_0, queue.drop_first());
    }
}

/// In a score whose time marks never step back, no note starts before an
/// earlier one. So the spans between neighbouring notes, each from the start
/// of a note to the start of the next, follow one another in time and do not
/// overlap.
pub proof fn lemma_sections_follow_one_another(
    tokens: Seq<TokenView>,
    config: ScoremapLoadConfig,
    scope: u64,
)
    requires
        times_ascend(tokens),
        spec_parse(tokens, config, scope) is Ok,
    ensures
        starts_ascend(spec_parse(tokens, config, scope)->Ok_0.notes),
{
    lemma_run_in_order(ParserState::initial(config, scope), tokens);
}

/// Deals with the token at `front`: the handlers are tried in their order,
/// and the first that takes the token decides.
pub fn dispatch(tokens: &Vec<Token>, front: usize, ctx: &mut ParserCtx) -> (result: ParseResult)
    requires
        old(ctx)@.wf(),
    ensures
        final(ctx)@ == spec_dispatch(old(ctx)@, queue_from(tokens@, front)).0,
        result@ == spec_dispatch(old(ctx)@, queue_from(tokens@, front)).1,
        final(ctx)@.wf(),
        result matches ParseResult::Emitted(note) ==> note@.wf()
            && note@.id == final(ctx)@.next_id(),
{
    let result = double_time_processor(tokens, front, ctx);
    if !matches!(result, ParseResult::Ignored) {
        return result;
    }
    let result = single_time_processor(tokens, front, ctx);
    if !matches!(result, ParseResult::Ignored) {
        return result;
    }
    let result = command_processor(tokens, front, ctx);
    if !matches!(result, ParseResult::Ignored) {
        return result;
    }
    let result = caption_processor(tokens, front, ctx);
    if !matches!(result, ParseResult::Ignored) {
        return result;
    }
    let result = property_processor(tokens, front, ctx);
    if !matches!(result, ParseResult::Ignored) {
        return result;
    }
    let result = yomigana_processor(tokens, front, ctx);
    if !matches!(result, ParseResult::Ignored) {
        return result;
    }
    let result = section_processor(tokens, front, ctx);
    if !matches!(result, ParseResult::Ignored) {
        return result;
    }
    let result = lyrics_processor(tokens, front, ctx);
    if !matches!(result, ParseResult::Ignored) {
        return result;
    }
    comment_processor(tokens, front, ctx)
}

/// Deals with the token at `front` and adds the note that comes of it to
/// the section in progress.
pub fn step(tokens: &Vec<Token>, front: usize, ctx: &mut ParserCtx) -> (r: Result<
    (),
    ScoremapParseError,
>)
    requires
        old(ctx)@.wf(),
    ensures
        match spec_step(old(ctx)@, queue_from(tokens@, front)) {
            Ok(state) => r is Ok && final(ctx)@ == state,
            Err(err) => r == Err::<(), ScoremapParseError>(err),
        },
        final(ctx)@.wf(),
{
    match dispatch(tokens, front, ctx) {
        ParseResult::Failed(err) => Err(err),
        ParseResult::Emitted(note) => {
            ctx.push(note);
            Ok(())
        },
        _ => Ok(()),
    }
}

/// Parses the tokens of a score. The notes are named in the scope `scope`.
/// The first token that a handler refuses ends the parse with its error.
pub fn parse(tokens: &Vec<Token>, config: ScoremapLoadConfig, scope: u64) -> (r: Result<
    Scoremap,
    ScoremapParseError,
>)
    ensures
        match spec_parse(token_views(tokens@), config, scope) {
            Ok(view) => r is Ok && r->Ok_0@ == view && view.wf(),
            Err(err) => r == Err::<Scoremap, ScoremapParseError>(err),
        },
{
    let mut ctx = ParserCtx::new(config, scope);
    let ghost all = token_views(tokens@);
    let ghost initial = ctx@;
    let mut front: usize = 0;
    assert(all.skip(0) =~= all);
    while front < tokens.len()
        invariant
            front <= tokens@.len(),
            all == token_views(tokens@),
            initial == ParserState::initial(config, scope),
            ctx@.wf(),
            spec_run(initial, all) == spec_run(ctx@, all.skip(front as int)),
        decreases tokens@.len() - front,
    {
        let ghost queue = all.skip(front as int);
        let ghost before = ctx@;
        assert(queue.drop_first() =~= all.skip(front + 1));
        assert(queue.len() > 0);
        match step(tokens, front, &mut ctx) {
            Ok(()) => {},
            Err(err) => {
                assert(spec_step(before, queue) == Err::<ParserState, ScoremapParseError>(err));
                assert(spec_run(before, queue) == Err::<ParserState, ScoremapParseError>(err));
                return Err(err);
            },
        }
        front += 1;
    }
    Ok(ctx.finish())
}

} // verus!
