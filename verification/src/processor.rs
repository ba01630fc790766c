//! The handlers of the parser: one for each kind of token, each looking at
//! the front of the queue only, all sharing one context.

use crate::error::{Reason, ScoremapParseError};
use crate::note::{Note, NoteContentView, NoteId, NoteView};
use crate::scoremap::{
    lens_total, lens_view, meta_insert, note_views, notes_wf, MetadataView, Scoremap,
    ScoremapLoadConfig, ScoremapMetadata, ScoremapView,
};
use crate::sentence::{Sentence, SentenceView};
use crate::text::str_eq;
use crate::time::{Duration, Timestamp};
use crate::token::{token_views, Token, TokenContent, TokenContentView, TokenView};
use vstd::prelude::*;
use vstd::string::*;

verus! {

/// What the parser knows between two tokens.
pub struct ParserState {
    /// What the loader makes of properties that it cannot take.
    pub config: ScoremapLoadConfig,
    /// The scope of the identifiers of the notes.
    pub scope: u64,
    /// What the properties so far state.
    pub metadata: MetadataView,
    /// The notes so far, those of the sealed sections first.
    pub notes: Seq<NoteView>,
    /// The number of notes in each sealed section.
    pub section_lens: Seq<nat>,
    /// The number of notes in the sealed sections: the notes from here on
    /// are those of the section in progress.
    pub section_start: nat,
    /// Whether the lyrics are open.
    pub parsing_lyrics: bool,
    /// The lyrics that no reading has taken yet.
    pub parsed_japanese: Option<Seq<char>>,
    /// The latest time mark.
    pub curr_time: Timestamp,
}

impl ParserState {
    /// The state before the first token.
    pub open spec fn initial(config: ScoremapLoadConfig, scope: u64) -> ParserState {
        ParserState {
            config,
            scope,
            metadata: Seq::empty(),
            notes: Seq::empty(),
            section_lens: Seq::empty(),
            section_start: 0,
            parsing_lyrics: false,
            parsed_japanese: None,
            curr_time: Timestamp { millis: 0 },
        }
    }

    /// The invariant of the state: the notes are valid and named by their
    /// place, and the sealed sections are not empty and hold the notes before
    /// the section in progress.
    pub open spec fn wf(self) -> bool {
        &&& notes_wf(self.notes, self.scope)
        &&& self.section_start <= self.notes.len()
        &&& forall|i: int| 0 <= i < self.section_lens.len() ==> #[trigger] self.section_lens[i] > 0
        &&& lens_total(self.section_lens) == self.section_start
    }

    /// The identifier of the next note.
    pub open spec fn next_id(self) -> NoteId {
        NoteId { scope: self.scope, serial: self.notes.len() as u64 }
    }

    /// Whether the section in progress holds no note.
    pub open spec fn section_is_empty(self) -> bool {
        self.section_start == self.notes.len()
    }

    /// The state with the lyrics open or shut.
    pub open spec fn with_lyrics(self, parsing_lyrics: bool) -> ParserState {
        ParserState { parsing_lyrics, ..self }
    }

    /// The state with the lyrics `parsed_japanese` waiting for a reading.
    pub open spec fn with_japanese(self, parsed_japanese: Option<Seq<char>>) -> ParserState {
        ParserState { parsed_japanese, ..self }
    }

    /// The state at the time mark `curr_time`, with no lyrics waiting.
    pub open spec fn at_time(self, curr_time: Timestamp) -> ParserState {
        ParserState { curr_time, parsed_japanese: None, ..self }
    }

    /// The state with `value` stated for `key`.
    pub open spec fn with_property(self, key: Seq<char>, value: Seq<char>) -> ParserState {
        ParserState { metadata: meta_insert(self.metadata, key, value), ..self }
    }

    /// The state with `note` added to the section in progress.
    pub open spec fn with_note(self, note: NoteView) -> ParserState {
        ParserState { notes: self.notes.push(note), ..self }
    }

    /// The state with the section in progress sealed, if it holds a note.
    pub open spec fn sealed(self) -> ParserState {
        if self.section_start < self.notes.len() {
            ParserState {
                section_lens: self.section_lens.push(
                    (self.notes.len() - self.section_start) as nat,
                ),
                section_start: self.notes.len(),
                ..self
            }
        } else {
            self
        }
    }

    /// The score that the state amounts to at the end of the tokens.
    pub open spec fn finish(self) -> ScoremapView {
        ScoremapView {
            scope: self.scope,
            metadata: self.metadata,
            notes: self.notes,
            section_lens: self.sealed().section_lens,
        }
    }
}

/// What a handler made of the front of the queue.
#[derive(Clone, Debug, PartialEq)]
pub enum ParseResult {
    /// The token is not of the handler's kind: it is left for the next.
    Ignored,
    /// The token is taken, and nothing comes of it.
    Consumed,
    /// The token is taken, and this note comes of it.
    Emitted(Note),
    /// The token is taken, and the parse fails on it.
    Failed(ScoremapParseError),
}

/// What a handler's result holds.
pub enum ParseResultView {
    Ignored,
    Consumed,
    Emitted(NoteView),
    Failed(ScoremapParseError),
}

impl View for ParseResult {
    type V = ParseResultView;

    open spec fn view(&self) -> ParseResultView {
        match self {
            ParseResult::Ignored => ParseResultView::Ignored,
            ParseResult::Consumed => ParseResultView::Consumed,
            ParseResult::Emitted(note) => ParseResultView::Emitted(note@),
            ParseResult::Failed(err) => ParseResultView::Failed(*err),
        }
    }
}

/// The queue of the tokens from `front` on.
pub open spec fn queue_from(tokens: Seq<Token>, front: usize) -> Seq<TokenView> {
    if front <= tokens.len() {
        token_views(tokens).skip(front as int)
    } else {
        Seq::empty()
    }
}

/// The first time mark in the queue, if there is one.
pub open spec fn spec_next_time(queue: Seq<TokenView>) -> Option<Timestamp>
    decreases queue.len(),
{
    if queue.len() == 0 {
        None
    } else {
        match queue[0].content {
            TokenContentView::Time(time) => Some(time),
            _ => spec_next_time(queue.drop_first()),
        }
    }
}

/// The start and the end of a note that begins at `clock`: it lasts until
/// the first time mark in the queue, or for a second where the queue holds
/// none. There is no such note where that end does not come after `clock`.
pub open spec fn spec_calc_duration(clock: Timestamp, queue: Seq<TokenView>) -> Option<
    (Timestamp, Timestamp),
> {
    let end = match spec_next_time(queue) {
        Some(time) => time,
        None => clock.spec_one_second_later(),
    };
    if clock.millis < end.millis {
        Some((clock, end))
    } else {
        None
    }
}

/// Whether a score can state the property `key`.
pub open spec fn is_supported_key(key: Seq<char>) -> bool {
    key == "title"@ || key == "song_author"@ || key == "singer"@ || key == "score_author"@ || key
        == "bgm"@
}

/// Two time marks in a row make a pause from the first to the second. Only
/// the first is taken; the clock and the waiting lyrics stay as they are.
/// Where the first does not come before the second, it is taken and nothing
/// comes of it.
pub open spec fn spec_double_time(state: ParserState, queue: Seq<TokenView>) -> (
    ParserState,
    ParseResultView,
) {
    if queue.len() >= 2 && queue[0].content is Time && queue[1].content is Time {
        let from = queue[0].content->Time_0;
        let to = queue[1].content->Time_0;
        if from.millis < to.millis {
            (
                state,
                ParseResultView::Emitted(
                    NoteView {
                        id: state.next_id(),
                        start: from,
                        end: to,
                        content: NoteContentView::Blank,
                    },
                ),
            )
        } else {
            (state, ParseResultView::Consumed)
        }
    } else {
        (state, ParseResultView::Ignored)
    }
}

/// A time mark moves the clock on and drops the waiting lyrics. Outside the
/// lyrics it is an error; one that is not later than the clock changes
/// nothing. In a section without notes it makes a pause from the old clock to
/// the new.
pub open spec fn spec_single_time(state: ParserState, queue: Seq<TokenView>) -> (
    ParserState,
    ParseResultView,
) {
    if queue.len() >= 1 && queue[0].content is Time {
        let specified = queue[0].content->Time_0;
        if !state.parsing_lyrics {
            (
                state,
                ParseResultView::Failed(
                    ScoremapParseError::TimingDefinition {
                        line_num: queue[0].line_num,
                        reason: Reason::TimeOutsideLyrics,
                    },
                ),
            )
        } else if specified.millis <= state.curr_time.millis {
            (state, ParseResultView::Consumed)
        } else if state.section_is_empty() {
            (
                state.at_time(specified),
                ParseResultView::Emitted(
                    NoteView {
                        id: state.next_id(),
                        start: state.curr_time,
                        end: specified,
                        content: NoteContentView::Blank,
                    },
                ),
            )
        } else {
            (state.at_time(specified), ParseResultView::Consumed)
        }
    } else {
        (state, ParseResultView::Ignored)
    }
}

/// `start` opens the lyrics and `end` shuts them; `break` does nothing. Any
/// other command is an error, as is `start` in open lyrics and `end` in shut
/// ones.
pub open spec fn spec_command(state: ParserState, queue: Seq<TokenView>) -> (
    ParserState,
    ParseResultView,
) {
    if queue.len() >= 1 && queue[0].content is Command {
        let command = queue[0].content->Command_0;
        let line_num = queue[0].line_num;
        if command == "start"@ {
            if state.parsing_lyrics {
                (
                    state,
                    ParseResultView::Failed(
                        ScoremapParseError::Command { line_num, reason: Reason::StartInsideLyrics },
                    ),
                )
            } else {
                (state.with_lyrics(true), ParseResultView::Consumed)
            }
        } else if command == "break"@ {
            (state, ParseResultView::Consumed)
        } else if command == "end"@ {
            if !state.parsing_lyrics {
                (
                    state,
                    ParseResultView::Failed(
                        ScoremapParseError::Command { line_num, reason: Reason::EndOutsideLyrics },
                    ),
                )
            } else {
                (state.with_lyrics(false), ParseResultView::Consumed)
            }
        } else {
            (
                state,
                ParseResultView::Failed(
                    ScoremapParseError::Command { line_num, reason: Reason::UnknownCommand },
                ),
            )
        }
    } else {
        (state, ParseResultView::Ignored)
    }
}

/// A caption makes a note that shows it from the clock until the next time
/// mark. Outside the lyrics it is an error, and so is one whose time would
/// not run forward.
pub open spec fn spec_caption(state: ParserState, queue: Seq<TokenView>) -> (
    ParserState,
    ParseResultView,
) {
    if queue.len() >= 1 && queue[0].content is Caption {
        let line_num = queue[0].line_num;
        if !state.parsing_lyrics {
            (
                state,
                ParseResultView::Failed(
                    ScoremapParseError::StatementDefinition {
                        line_num,
                        reason: Reason::CaptionOutsideLyrics,
                    },
                ),
            )
        } else {
            match spec_calc_duration(state.curr_time, queue) {
                Some((start, end)) => (
                    state,
                    ParseResultView::Emitted(
                        NoteView {
                            id: state.next_id(),
                            start,
                            end,
                            content: NoteContentView::Caption(queue[0].content->Caption_0),
                        },
                    ),
                ),
                None => (
                    state,
                    ParseResultView::Failed(
                        ScoremapParseError::DurationInvalid {
                            line_num,
                            reason: Reason::DurationNotIncreasing,
                        },
                    ),
                ),
            }
        }
    } else {
        (state, ParseResultView::Ignored)
    }
}

/// A property states a value for a key. Inside the lyrics it is an error,
/// whatever it states. One without a key or a value, and one whose key no
/// score can state, is an error too, unless the configuration passes over
/// it.
pub open spec fn spec_property(state: ParserState, queue: Seq<TokenView>) -> (
    ParserState,
    ParseResultView,
) {
    if queue.len() >= 1 && queue[0].content is Property {
        let key = queue[0].content->key;
        let value = queue[0].content->value;
        let line_num = queue[0].line_num;
        if state.parsing_lyrics {
            (
                state,
                ParseResultView::Failed(
                    ScoremapParseError::PropertyDefinition {
                        line_num,
                        reason: Reason::PropertyInsideLyrics,
                    },
                ),
            )
        } else if key.len() == 0 || value.len() == 0 {
            if state.config.ignore_invalid_properties {
                (state, ParseResultView::Consumed)
            } else {
                (
                    state,
                    ParseResultView::Failed(
                        ScoremapParseError::PropertyDefinition {
                            line_num,
                            reason: Reason::InvalidProperty,
                        },
                    ),
                )
            }
        } else if !is_supported_key(key) {
            if state.config.ignore_unsupported_property {
                (state, ParseResultView::Consumed)
            } else {
                (
                    state,
                    ParseResultView::Failed(
                        ScoremapParseError::PropertyDefinition {
                            line_num,
                            reason: Reason::UnsupportedProperty,
                        },
                    ),
                )
            }
        } else {
            (state.with_property(key, value), ParseResultView::Consumed)
        }
    } else {
        (state, ParseResultView::Ignored)
    }
}

/// A reading takes the waiting lyrics and makes the sentence to type, from
/// the clock until the next time mark. Outside the lyrics it is an error, and
/// so is one with no lyrics waiting, and one whose time would not run
/// forward.
pub open spec fn spec_yomigana(state: ParserState, queue: Seq<TokenView>) -> (
    ParserState,
    ParseResultView,
) {
    if queue.len() >= 1 && queue[0].content is Yomigana {
        let line_num = queue[0].line_num;
        if !state.parsing_lyrics {
            (
                state,
                ParseResultView::Failed(
                    ScoremapParseError::StatementDefinition {
                        line_num,
                        reason: Reason::YomiganaOutsideLyrics,
                    },
                ),
            )
        } else {
            match state.parsed_japanese {
                None => (
                    state,
                    ParseResultView::Failed(
                        ScoremapParseError::StatementDefinition {
                            line_num,
                            reason: Reason::YomiganaBeforeLyrics,
                        },
                    ),
                ),
                Some(lyrics) => match spec_calc_duration(state.curr_time, queue) {
                    Some((start, end)) => (
                        state.with_japanese(None),
                        ParseResultView::Emitted(
                            NoteView {
                                id: state.next_id(),
                                start,
                                end,
                                content: NoteContentView::Sentence(
                                    SentenceView::build(lyrics, queue[0].content->Yomigana_0),
                                ),
                            },
                        ),
                    ),
                    None => (
                        state,
                        ParseResultView::Failed(
                            ScoremapParseError::DurationInvalid {
                                line_num,
                                reason: Reason::DurationNotIncreasing,
                            },
                        ),
                    ),
                },
            }
        }
    } else {
        (state, ParseResultView::Ignored)
    }
}

/// A section break seals the section in progress, if it holds a note.
pub open spec fn spec_section(state: ParserState, queue: Seq<TokenView>) -> (
    ParserState,
    ParseResultView,
) {
    if queue.len() >= 1 && queue[0].content is Section {
        (state.sealed(), ParseResultView::Consumed)
    } else {
        (state, ParseResultView::Ignored)
    }
}

/// A lyric line joins the lyrics that wait for a reading.
pub open spec fn spec_lyrics(state: ParserState, queue: Seq<TokenView>) -> (
    ParserState,
    ParseResultView,
) {
    if queue.len() >= 1 && queue[0].content is Lyrics {
        let lyrics = queue[0].content->Lyrics_0;
        let joined = match state.parsed_japanese {
            Some(waiting) => waiting + lyrics,
            None => lyrics,
        };
        (state.with_japanese(Some(joined)), ParseResultView::Consumed)
    } else {
        (state, ParseResultView::Ignored)
    }
}

/// A comment is taken and dropped.
pub open spec fn spec_comment(state: ParserState, queue: Seq<TokenView>) -> (
    ParserState,
    ParseResultView,
) {
    if queue.len() >= 1 && queue[0].content is Comment {
        (state, ParseResultView::Consumed)
    } else {
        (state, ParseResultView::Ignored)
    }
}

/// The first time mark of a queue is that of the queue behind a token that
/// is no time mark.
pub proof fn lemma_next_time_skip(queue: Seq<TokenView>, n: int)
    requires
        0 <= n <= queue.len(),
        forall|i: int| 0 <= i < n ==> !((#[trigger] queue[i]).content is Time),
    ensures
        spec_next_time(queue) == spec_next_time(queue.skip(n)),
    decreases n,
{
    if n > 0 {
        lemma_next_time_skip(queue.drop_first(), n - 1);
        assert(queue.drop_first().skip(n - 1) =~= queue.skip(n));
    } else {
        assert(queue.skip(0) =~= queue);
    }
}

/// The context that the handlers share while a score is parsed.
#[derive(Clone, Debug)]
pub struct ParserCtx {
    config: ScoremapLoadConfig,
    scope: u64,
    metadata: ScoremapMetadata,
    notes: Vec<Note>,
    section_lens: Vec<usize>,
    section_start: usize,
    parsing_lyrics: bool,
    parsed_japanese: Option<String>,
    curr_time: Timestamp,
}

impl View for ParserCtx {
    type V = ParserState;

    closed spec fn view(&self) -> ParserState {
        ParserState {
            config: self.config,
            scope: self.scope,
            metadata: self.metadata@,
            notes: note_views(self.notes@),
            section_lens: lens_view(self.section_lens@),
            section_start: self.section_start as nat,
            parsing_lyrics: self.parsing_lyrics,
            parsed_japanese: match self.parsed_japanese {
                Some(lyrics) => Some(lyrics@),
                None => None,
            },
            curr_time: self.curr_time,
        }
    }
}

impl ParserCtx {
    /// The context before the first token.
    pub fn new(config: ScoremapLoadConfig, scope: u64) -> (ctx: ParserCtx)
        ensures
            ctx@ == ParserState::initial(config, scope),
            ctx@.wf(),
    {
        let ctx = ParserCtx {
            config,
            scope,
            metadata: ScoremapMetadata::new(),
            notes: Vec::new(),
            section_lens: Vec::new(),
            section_start: 0,
            parsing_lyrics: false,
            parsed_japanese: None,
            curr_time: Timestamp::new(),
        };
        proof {
            assert(ctx@.notes =~= Seq::<NoteView>::empty());
            assert(ctx@.section_lens =~= Seq::<nat>::empty());
        }
        ctx
    }

    /// Whether the lyrics are open.
    pub fn parsing_lyrics(&self) -> (open: bool)
        ensures
            open == self@.parsing_lyrics,
    {
        self.parsing_lyrics
    }

    /// The latest time mark.
    pub fn curr_time(&self) -> (time: Timestamp)
        ensures
            time == self@.curr_time,
    {
        self.curr_time
    }

    /// The lyrics that no reading has taken yet.
    pub fn parsed_japanese(&self) -> (lyrics: Option<&str>)
        ensures
            match self@.parsed_japanese {
                Some(waiting) => lyrics is Some && lyrics->Some_0@ == waiting,
                None => lyrics is None,
            },
    {
        match &self.parsed_japanese {
            Some(lyrics) => Some(lyrics.as_str()),
            None => None,
        }
    }

    /// What the properties so far state.
    pub fn metadata(&self) -> (metadata: &ScoremapMetadata)
        ensures
            metadata@ == self@.metadata,
    {
        &self.metadata
    }

    /// The notes so far.
    pub fn notes(&self) -> (notes: &Vec<Note>)
        ensures
            note_views(notes@) == self@.notes,
    {
        &self.notes
    }

    /// The number of sections that are sealed.
    pub fn sealed_sections(&self) -> (count: usize)
        ensures
            count == self@.section_lens.len(),
    {
        self.section_lens.len()
    }

    /// The identifier of the next note.
    fn next_id(&self) -> (id: NoteId)
        ensures
            id == self@.next_id(),
    {
        NoteId { scope: self.scope, serial: self.notes.len() as u64 }
    }

    /// The time of a note that begins at the clock: until the first time
    /// mark among the tokens from `front` on, or for a second where there is
    /// none. Where that does not run forward, the error names `line_num`.
    pub fn calc_duration(&self, tokens: &Vec<Token>, front: usize, line_num: usize) -> (r: Result<
        Duration,
        ScoremapParseError,
    >)
        ensures
            match spec_calc_duration(self@.curr_time, queue_from(tokens@, front)) {
                Some((start, end)) => r is Ok && r->Ok_0.spec_start() == start
                    && r->Ok_0.spec_end() == end && r->Ok_0.wf(),
                None => r == Err::<Duration, ScoremapParseError>(
                    ScoremapParseError::DurationInvalid {
                        line_num,
                        reason: Reason::DurationNotIncreasing,
                    },
                ),
            },
    {
        let ghost queue = queue_from(tokens@, front);
        let mut next_time: Option<Timestamp> = None;
        let mut i: usize = front;
        while i < tokens.len() && next_time.is_none()
            invariant
                front <= i,
                front <= tokens@.len() ==> i <= tokens@.len(),
                queue == queue_from(tokens@, front),
                next_time is Some ==> next_time == spec_next_time(queue),
                next_time is None && i <= tokens@.len() ==> forall|j: int|
                    0 <= j < i - front ==> !((#[trigger] queue[j]).content is Time),
            decreases tokens@.len() - i + (if next_time is None { 1nat } else { 0nat }),
        {
            assert(queue[i - front] == tokens@[i as int]@);
            match &tokens[i].content {
                TokenContent::Time(time) => {
                    proof {
                        lemma_next_time_skip(queue, i - front);
                    }
                    next_time = Some(*time);
                },
                _ => {
                    i += 1;
                },
            }
        }
        proof {
            if next_time is None && front <= tokens@.len() {
                lemma_next_time_skip(queue, queue.len() as int);
            }
        }
        let end = match next_time {
            Some(time) => time,
            None => self.curr_time.one_second_later(),
        };
        match Duration::new(self.curr_time, end) {
            Ok(duration) => Ok(duration),
            Err(_) => Err(
                ScoremapParseError::DurationInvalid {
                    line_num,
                    reason: Reason::DurationNotIncreasing,
                },
            ),
        }
    }

    /// Adds `note` to the section in progress.
    pub fn push(&mut self, note: Note)
        requires
            old(self)@.wf(),
            note@.wf(),
            note@.id == old(self)@.next_id(),
        ensures
            final(self)@ == old(self)@.with_note(note@),
            final(self)@.wf(),
    {
        let ghost before = self@;
        self.notes.push(note);
        let _ = self.notes.len();
        assert(self@.notes =~= before.notes.push(note@));
    }

    /// The score that the context amounts to at the end of the tokens: the
    /// section in progress is sealed if it holds a note.
    pub fn finish(self) -> (score: Scoremap)
        requires
            self@.wf(),
        ensures
            score@ == self@.finish(),
            score@.wf(),
    {
        let ghost state = self@;
        let mut ctx = self;
        if ctx.section_start < ctx.notes.len() {
            let len = ctx.notes.len() - ctx.section_start;
            ctx.section_lens.push(len);
            assert(lens_view(ctx.section_lens@) =~= state.section_lens.push(len as nat));
            assert(state.section_lens.push(len as nat).drop_last() =~= state.section_lens);
        }
        Scoremap::assemble(ctx.scope, ctx.metadata, ctx.notes, ctx.section_lens)
    }
}

/// Whether a score can state the property `key`.
pub fn supported_key(key: &str) -> (supported: bool)
    ensures
        supported == is_supported_key(key@),
{
    str_eq(key, "title") || str_eq(key, "song_author") || str_eq(key, "singer") || str_eq(
        key,
        "score_author",
    ) || str_eq(key, "bgm")
}

/// Takes the first of two time marks in a row and makes the pause between
/// them.
pub fn double_time_processor(tokens: &Vec<Token>, front: usize, ctx: &mut ParserCtx) -> (result:
    ParseResult)
    requires
        old(ctx)@.wf(),
    ensures
        final(ctx)@ == spec_double_time(old(ctx)@, queue_from(tokens@, front)).0,
        result@ == spec_double_time(old(ctx)@, queue_from(tokens@, front)).1,
        final(ctx)@.wf(),
        result matches ParseResult::Emitted(note) ==> note@.wf()
            && note@.id == old(ctx)@.next_id(),
{
    if front >= tokens.len() || tokens.len() - front < 2 {
        return ParseResult::Ignored;
    }
    let ghost queue = queue_from(tokens@, front);
    assert(queue[0] == tokens@[front as int]@);
    assert(queue[1] == tokens@[front + 1]@);
    match (&tokens[front].content, &tokens[front + 1].content) {
        (TokenContent::Time(from), TokenContent::Time(to)) => {
            match Duration::new(*from, *to) {
                Ok(duration) => ParseResult::Emitted(Note::blank(ctx.next_id(), duration)),
                Err(_) => ParseResult::Consumed,
            }
        },
        _ => ParseResult::Ignored,
    }
}

/// Takes a time mark: moves the clock on, or refuses it outside the lyrics.
pub fn single_time_processor(tokens: &Vec<Token>, front: usize, ctx: &mut ParserCtx) -> (result:
    ParseResult)
    requires
        old(ctx)@.wf(),
    ensures
        final(ctx)@ == spec_single_time(old(ctx)@, queue_from(tokens@, front)).0,
        result@ == spec_single_time(old(ctx)@, queue_from(tokens@, front)).1,
        final(ctx)@.wf(),
        result matches ParseResult::Emitted(note) ==> note@.wf()
            && note@.id == old(ctx)@.next_id(),
{
    if front >= tokens.len() {
        return ParseResult::Ignored;
    }
    let ghost queue = queue_from(tokens@, front);
    assert(queue[0] == tokens@[front as int]@);
    match &tokens[front].content {
        TokenContent::Time(specified) => {
            if !ctx.parsing_lyrics {
                return ParseResult::Failed(
                    ScoremapParseError::TimingDefinition {
                        line_num: tokens[front].line_num,
                        reason: Reason::TimeOutsideLyrics,
                    },
                );
            }
            if specified.millis <= ctx.curr_time.millis {
                return ParseResult::Consumed;
            }
            let id = ctx.next_id();
            let idle = Duration::new(ctx.curr_time, *specified);
            let was_empty = ctx.section_start == ctx.notes.len();
            ctx.curr_time = *specified;
            ctx.parsed_japanese = None;
            if was_empty {
                match idle {
                    Ok(duration) => ParseResult::Emitted(Note::blank(id, duration)),
                    Err(_) => ParseResult::Consumed,
                }
            } else {
                ParseResult::Consumed
            }
        },
        _ => ParseResult::Ignored,
    }
}

/// Takes a command: opens or shuts the lyrics, or refuses it.
pub fn command_processor(tokens: &Vec<Token>, front: usize, ctx: &mut ParserCtx) -> (result:
    ParseResult)
    requires
        old(ctx)@.wf(),
    ensures
        final(ctx)@ == spec_command(old(ctx)@, queue_from(tokens@, front)).0,
        result@ == spec_command(old(ctx)@, queue_from(tokens@, front)).1,
        final(ctx)@.wf(),
        !(result is Emitted),
{
    if front >= tokens.len() {
        return ParseResult::Ignored;
    }
    let ghost queue = queue_from(tokens@, front);
    assert(queue[0] == tokens@[front as int]@);
    match &tokens[front].content {
        TokenContent::Command(command) => {
            let line_num = tokens[front].line_num;
            if str_eq(command.as_str(), "start") {
                if ctx.parsing_lyrics {
                    return ParseResult::Failed(
                        ScoremapParseError::Command { line_num, reason: Reason::StartInsideLyrics },
                    );
                }
                ctx.parsing_lyrics = true;
                ParseResult::Consumed
            } else if str_eq(command.as_str(), "break") {
                ParseResult::Consumed
            } else if str_eq(command.as_str(), "end") {
                if !ctx.parsing_lyrics {
                    return ParseResult::Failed(
                        ScoremapParseError::Command { line_num, reason: Reason::EndOutsideLyrics },
                    );
                }
                ctx.parsing_lyrics = false;
                ParseResult::Consumed
            } else {
                ParseResult::Failed(
                    ScoremapParseError::Command { line_num, reason: Reason::UnknownCommand },
                )
            }
        },
        _ => ParseResult::Ignored,
    }
}

/// Takes a caption and makes the note that shows it.
pub fn caption_processor(tokens: &Vec<Token>, front: usize, ctx: &mut ParserCtx) -> (result:
    ParseResult)
    requires
        old(ctx)@.wf(),
    ensures
        final(ctx)@ == spec_caption(old(ctx)@, queue_from(tokens@, front)).0,
        result@ == spec_caption(old(ctx)@, queue_from(tokens@, front)).1,
        final(ctx)@.wf(),
        result matches ParseResult::Emitted(note) ==> note@.wf()
            && note@.id == old(ctx)@.next_id(),
{
    if front >= tokens.len() {
        return ParseResult::Ignored;
    }
    let ghost queue = queue_from(tokens@, front);
    assert(queue[0] == tokens@[front as int]@);
    match &tokens[front].content {
        TokenContent::Caption(caption) => {
            let line_num = tokens[front].line_num;
            if !ctx.parsing_lyrics {
                return ParseResult::Failed(
                    ScoremapParseError::StatementDefinition {
                        line_num,
                        reason: Reason::CaptionOutsideLyrics,
                    },
                );
            }
            match ctx.calc_duration(tokens, front, line_num) {
                Ok(duration) => ParseResult::Emitted(
                    Note::caption(ctx.next_id(), duration, caption.as_str()),
                ),
                Err(err) => ParseResult::Failed(err),
            }
        },
        _ => ParseResult::Ignored,
    }
}

/// Takes a property and states it, or refuses it.
pub fn property_processor(tokens: &Vec<Token>, front: usize, ctx: &mut ParserCtx) -> (result:
    ParseResult)
    requires
        old(ctx)@.wf(),
    ensures
        final(ctx)@ == spec_property(old(ctx)@, queue_from(tokens@, front)).0,
        result@ == spec_property(old(ctx)@, queue_from(tokens@, front)).1,
        final(ctx)@.wf(),
        !(result is Emitted),
{
    if front >= tokens.len() {
        return ParseResult::Ignored;
    }
    let ghost queue = queue_from(tokens@, front);
    assert(queue[0] == tokens@[front as int]@);
    match &tokens[front].content {
        TokenContent::Property { key, value } => {
            let line_num = tokens[front].line_num;
            if ctx.parsing_lyrics {
                return ParseResult::Failed(
                    ScoremapParseError::PropertyDefinition {
                        line_num,
                        reason: Reason::PropertyInsideLyrics,
                    },
                );
            }
            if key.as_str().unicode_len() == 0 || value.as_str().unicode_len() == 0 {
                if ctx.config.ignore_invalid_properties {
                    return ParseResult::Consumed;
                }
                return ParseResult::Failed(
                    ScoremapParseError::PropertyDefinition {
                        line_num,
                        reason: Reason::InvalidProperty,
                    },
                );
            }
            if !supported_key(key.as_str()) {
                if ctx.config.ignore_unsupported_property {
                    return ParseResult::Consumed;
                }
                return ParseResult::Failed(
                    ScoremapParseError::PropertyDefinition {
                        line_num,
                        reason: Reason::UnsupportedProperty,
                    },
                );
            }
            ctx.metadata.insert(key.clone(), value.clone());
            ParseResult::Consumed
        },
        _ => ParseResult::Ignored,
    }
}

/// Takes a reading and makes the sentence of the waiting lyrics.
pub fn yomigana_processor(tokens: &Vec<Token>, front: usize, ctx: &mut ParserCtx) -> (result:
    ParseResult)
    requires
        old(ctx)@.wf(),
    ensures
        final(ctx)@ == spec_yomigana(old(ctx)@, queue_from(tokens@, front)).0,
        result@ == spec_yomigana(old(ctx)@, queue_from(tokens@, front)).1,
        final(ctx)@.wf(),
        result matches ParseResult::Emitted(note) ==> note@.wf()
            && note@.id == old(ctx)@.next_id(),
{
    if front >= tokens.len() {
        return ParseResult::Ignored;
    }
    let ghost queue = queue_from(tokens@, front);
    assert(queue[0] == tokens@[front as int]@);
    match &tokens[front].content {
        TokenContent::Yomigana(yomigana) => {
            let line_num = tokens[front].line_num;
            if !ctx.parsing_lyrics {
                return ParseResult::Failed(
                    ScoremapParseError::StatementDefinition {
                        line_num,
                        reason: Reason::YomiganaOutsideLyrics,
                    },
                );
            }
            if ctx.parsed_japanese.is_none() {
                return ParseResult::Failed(
                    ScoremapParseError::StatementDefinition {
                        line_num,
                        reason: Reason::YomiganaBeforeLyrics,
                    },
                );
            }
            match ctx.calc_duration(tokens, front, line_num) {
                Ok(duration) => {
                    let id = ctx.next_id();
                    let lyrics = ctx.parsed_japanese.take().unwrap();
                    let sentence = Sentence::from(lyrics.as_str(), yomigana.clone());
                    ParseResult::Emitted(Note::sentence(id, duration, sentence))
                },
                Err(err) => ParseResult::Failed(err),
            }
        },
        _ => ParseResult::Ignored,
    }
}

/// Takes a section break and seals the section in progress.
pub fn section_processor(tokens: &Vec<Token>, front: usize, ctx: &mut ParserCtx) -> (result:
    ParseResult)
    requires
        old(ctx)@.wf(),
    ensures
        final(ctx)@ == spec_section(old(ctx)@, queue_from(tokens@, front)).0,
        result@ == spec_section(old(ctx)@, queue_from(tokens@, front)).1,
        final(ctx)@.wf(),
        !(result is Emitted),
{
    if front >= tokens.len() {
        return ParseResult::Ignored;
    }
    let ghost queue = queue_from(tokens@, front);
    assert(queue[0] == tokens@[front as int]@);
    match &tokens[front].content {
        TokenContent::Section => {
            let ghost before = ctx@;
            if ctx.section_start < ctx.notes.len() {
                let len = ctx.notes.len() - ctx.section_start;
                ctx.section_lens.push(len);
                ctx.section_start = ctx.notes.len();
                proof {
                    assert(ctx@.section_lens =~= before.section_lens.push(len as nat));
                    assert(before.section_lens.push(len as nat).drop_last()
                        =~= before.section_lens);
                }
            }
            ParseResult::Consumed
        },
        _ => ParseResult::Ignored,
    }
}

/// Takes a lyric line and joins it to the waiting lyrics.
pub fn lyrics_processor(tokens: &Vec<Token>, front: usize, ctx: &mut ParserCtx) -> (result:
    ParseResult)
    requires
        old(ctx)@.wf(),
    ensures
        final(ctx)@ == spec_lyrics(old(ctx)@, queue_from(tokens@, front)).0,
        result@ == spec_lyrics(old(ctx)@, queue_from(tokens@, front)).1,
        final(ctx)@.wf(),
        !(result is Emitted),
{
    if front >= tokens.len() {
        return ParseResult::Ignored;
    }
    let ghost queue = queue_from(tokens@, front);
    assert(queue[0] == tokens@[front as int]@);
    match &tokens[front].content {
        TokenContent::Lyrics(lyrics) => {
            let joined = match ctx.parsed_japanese.take() {
                Some(waiting) => waiting.concat(lyrics.as_str()),
                None => lyrics.clone(),
            };
            ctx.parsed_japanese = Some(joined);
            ParseResult::Consumed
        },
        _ => ParseResult::Ignored,
    }
}

/// Takes a comment and drops it.
pub fn comment_processor(tokens: &Vec<Token>, front: usize, ctx: &mut ParserCtx) -> (result:
    ParseResult)
    requires
        old(ctx)@.wf(),
    ensures
        final(ctx)@ == spec_comment(old(ctx)@, queue_from(tokens@, front)).0,
        result@ == spec_comment(old(ctx)@, queue_from(tokens@, front)).1,
        final(ctx)@.wf(),
        !(result is Emitted),
{
    if front >= tokens.len() {
        return ParseResult::Ignored;
    }
    let ghost queue = queue_from(tokens@, front);
    assert(queue[0] == tokens@[front as int]@);
    match &tokens[front].content {
        TokenContent::Comment => ParseResult::Consumed,
        _ => ParseResult::Ignored,
    }
}

} // verus!
