//! The notes of a timeline, and the sections between them.

use crate::sentence::{Sentence, SentenceView};
use crate::time::{Duration, Timestamp};
use vstd::prelude::*;

verus! {

/// The identifier of a note: the scope of the timeline that the note belongs
/// to, and the note's place in it. It says nothing of what the note holds.
#[derive(Clone, Copy, Debug, PartialEq, Eq, Hash, Structural)]
pub struct NoteId {
    /// The number that the builder of the timeline drew for it.
    pub scope: u64,
    /// The number of notes that the timeline held when this one was made.
    pub serial: u64,
}

/// The span between two neighbouring notes of a timeline, named by their
/// identifiers. It holds neither note.
#[derive(Clone, Copy, Debug, PartialEq, Eq, Structural)]
pub struct Section {
    from: NoteId,
    to: NoteId,
}

impl Section {
    /// The note at which the section begins.
    pub closed spec fn spec_from(&self) -> NoteId {
        self.from
    }

    /// The note at which the section ends.
    pub closed spec fn spec_to(&self) -> NoteId {
        self.to
    }

    /// The section from the note `from` to the note `to`.
    pub fn new(from: NoteId, to: NoteId) -> (section: Section)
        ensures
            section.spec_from() == from,
            section.spec_to() == to,
    {
        Section { from, to }
    }

    /// The note at which the section begins.
    #[verifier::when_used_as_spec(spec_from)]
    pub fn from(&self) -> (id: NoteId)
        ensures
            id == self.spec_from(),
    {
        self.from
    }

    /// The note at which the section ends.
    #[verifier::when_used_as_spec(spec_to)]
    pub fn to(&self) -> (id: NoteId)
        ensures
            id == self.spec_to(),
    {
        self.to
    }
}

/// What a note asks of the player.
#[derive(Clone, Debug, PartialEq)]
pub enum NoteContent {
    /// A sentence to type.
    Sentence(Sentence),
    /// A text to show.
    Caption(String),
    /// Nothing: the note only takes time.
    Blank,
}

/// What a note's content holds.
pub enum NoteContentView {
    Sentence(SentenceView),
    Caption(Seq<char>),
    Blank,
}

impl View for NoteContent {
    type V = NoteContentView;

    open spec fn view(&self) -> NoteContentView {
        match self {
            NoteContent::Sentence(sentence) => NoteContentView::Sentence(sentence@),
            NoteContent::Caption(caption) => NoteContentView::Caption(caption@),
            NoteContent::Blank => NoteContentView::Blank,
        }
    }
}

impl NoteContentView {
    /// The invariant of a content: that of its sentence.
    pub open spec fn wf(self) -> bool {
        self matches NoteContentView::Sentence(sentence) ==> sentence.wf()
    }

    /// Whether the content is a sentence that is not fully typed.
    pub open spec fn awaits_input(self) -> bool {
        self matches NoteContentView::Sentence(sentence) && !sentence.completed()
    }

    /// Whether the content is a sentence whose next unit takes `c`.
    pub open spec fn accepts(self, c: char) -> bool {
        self matches NoteContentView::Sentence(sentence) && sentence.accepts(c)
    }

    /// The content after the keystroke `c` was offered to its sentence.
    pub open spec fn input(self, c: char) -> NoteContentView {
        match self {
            NoteContentView::Sentence(sentence) => NoteContentView::Sentence(sentence.input(c)),
            _ => self,
        }
    }
}

/// What a note holds.
pub struct NoteView {
    pub id: NoteId,
    pub start: Timestamp,
    pub end: Timestamp,
    pub content: NoteContentView,
}

impl NoteView {
    /// The invariant of a note: it takes time, and its content is valid.
    pub open spec fn wf(self) -> bool {
        self.start.millis < self.end.millis && self.content.wf()
    }

    /// The note after the keystroke `c` was offered to its sentence.
    pub open spec fn input(self, c: char) -> NoteView {
        NoteView { id: self.id, start: self.start, end: self.end, content: self.content.input(c) }
    }
}

/// One entry of a timeline: a sentence, a caption or a pause, with the time
/// it takes.
#[derive(Clone, Debug, PartialEq)]
pub struct Note {
    id: NoteId,
    duration: Duration,
    content: NoteContent,
}

impl View for Note {
    type V = NoteView;

    closed spec fn view(&self) -> NoteView {
        NoteView {
            id: self.id,
            start: self.duration.spec_start(),
            end: self.duration.spec_end(),
            content: self.content@,
        }
    }
}

impl Note {
    fn new(id: NoteId, duration: Duration, content: NoteContent) -> (note: Note)
        ensures
            note@ == (NoteView {
                id,
                start: duration.spec_start(),
                end: duration.spec_end(),
                content: content@,
            }),
            duration.wf(),
    {
        let _ = duration.start();
        Note { id, duration, content }
    }

    /// The note `id` that asks for `sentence` during `duration`.
    pub fn sentence(id: NoteId, duration: Duration, sentence: Sentence) -> (note: Note)
        requires
            sentence@.wf(),
        ensures
            note@ == (NoteView {
                id,
                start: duration.spec_start(),
                end: duration.spec_end(),
                content: NoteContentView::Sentence(sentence@),
            }),
            note@.wf(),
    {
        Note::new(id, duration, NoteContent::Sentence(sentence))
    }

    /// The note `id` that shows `caption` during `duration`.
    pub fn caption(id: NoteId, duration: Duration, caption: &str) -> (note: Note)
        ensures
            note@ == (NoteView {
                id,
                start: duration.spec_start(),
                end: duration.spec_end(),
                content: NoteContentView::Caption(caption@),
            }),
            note@.wf(),
    {
        Note::new(id, duration, NoteContent::Caption(caption.to_owned()))
    }

    /// The note `id` that only takes the time `duration`.
    pub fn blank(id: NoteId, duration: Duration) -> (note: Note)
        ensures
            note@ == (NoteView {
                id,
                start: duration.spec_start(),
                end: duration.spec_end(),
                content: NoteContentView::Blank,
            }),
            note@.wf(),
    {
        Note::new(id, duration, NoteContent::Blank)
    }

    /// The identifier of the note.
    pub fn id(&self) -> (id: NoteId)
        ensures
            id == self@.id,
    {
        self.id
    }

    /// The time that the note takes.
    pub fn duration(&self) -> (duration: Duration)
        ensures
            duration.spec_start() == self@.start,
            duration.spec_end() == self@.end,
            duration.wf(),
    {
        let _ = self.duration.start();
        self.duration
    }

    /// What the note asks of the player.
    pub fn content(&self) -> (content: &NoteContent)
        ensures
            content@ == self@.content,
    {
        &self.content
    }

    /// The sentence of the note, if it asks for one.
    pub fn as_sentence(&self) -> (sentence: Option<&Sentence>)
        ensures
            match self@.content {
                NoteContentView::Sentence(view) => sentence is Some && sentence->Some_0@ == view,
                _ => sentence is None,
            },
    {
        match &self.content {
            NoteContent::Sentence(sentence) => Some(sentence),
            _ => None,
        }
    }

    /// Whether the note asks for a sentence that is not fully typed.
    pub fn awaits_input(&self) -> (waiting: bool)
        ensures
            waiting == self@.content.awaits_input(),
    {
        match &self.content {
            NoteContent::Sentence(sentence) => !sentence.completed(),
            _ => false,
        }
    }

    /// Offers the keystroke `typed` to the sentence of the note. Returns
    /// whether it was taken; a note without a sentence takes none.
    pub fn input(&mut self, typed: char) -> (accepted: bool)
        requires
            old(self)@.wf(),
        ensures
            final(self)@.wf(),
            accepted == old(self)@.content.accepts(typed),
            final(self)@ == old(self)@.input(typed),
    {
        match &mut self.content {
            NoteContent::Sentence(sentence) => sentence.input(typed),
            _ => false,
        }
    }
}

} // verus!
