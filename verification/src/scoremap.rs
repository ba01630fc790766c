//! The loaded score: its metadata and its timeline of notes.

use crate::note::{Note, NoteId, NoteView};
use crate::text::str_eq;
use vstd::prelude::*;
use vstd::string::*;

verus! {

/// The entries of a score's metadata: keys with their values, in the order
/// in which the keys were first stated.
pub type MetadataView = Seq<(Seq<char>, Seq<char>)>;

/// The index of the first entry from `from` on whose key is `key`, or the
/// number of entries if there is none.
pub open spec fn meta_find(entries: MetadataView, key: Seq<char>, from: int) -> int
    decreases entries.len() - from,
{
    if from < 0 || from >= entries.len() {
        entries.len() as int
    } else if entries[from].0 == key {
        from
    } else {
        meta_find(entries, key, from + 1)
    }
}

/// The value stated for `key`, if any.
pub open spec fn meta_get(entries: MetadataView, key: Seq<char>) -> Option<Seq<char>> {
    let at = meta_find(entries, key, 0);
    if at < entries.len() {
        Some(entries[at].1)
    } else {
        None
    }
}

/// The entries after `value` was stated for `key`: a key that is stated
/// again keeps its place and takes the new value.
pub open spec fn meta_insert(entries: MetadataView, key: Seq<char>, value: Seq<char>)
    -> MetadataView {
    let at = meta_find(entries, key, 0);
    if at < entries.len() {
        entries.update(at, (key, value))
    } else {
        entries.push((key, value))
    }
}

/// No two entries have the same key.
pub open spec fn meta_distinct(entries: MetadataView) -> bool {
    forall|i: int, j: int|
        0 <= i < j < entries.len() ==> (#[trigger] entries[i]).0 != (#[trigger] entries[j]).0
}

/// The search for a key ends within the entries, at an entry with that key
/// if it ends before the last, and passes over no entry with that key.
pub proof fn lemma_meta_find(entries: MetadataView, key: Seq<char>, from: int)
    requires
        0 <= from <= entries.len(),
    ensures
        from <= meta_find(entries, key, from) <= entries.len(),
        meta_find(entries, key, from) < entries.len() ==> entries[meta_find(
            entries,
            key,
            from,
        )].0 == key,
        forall|i: int| from <= i < meta_find(entries, key, from) ==> (#[trigger] entries[i]).0 != key,
    decreases entries.len() - from,
{
    if from < entries.len() && entries[from].0 != key {
        lemma_meta_find(entries, key, from + 1);
    }
}

/// An index at which the key stands, with no earlier entry of that key, is
/// where the search ends.
pub proof fn lemma_meta_find_is(entries: MetadataView, key: Seq<char>, from: int, at: int)
    requires
        0 <= from <= at <= entries.len(),
        forall|i: int| from <= i < at ==> (#[trigger] entries[i]).0 != key,
        at < entries.len() ==> entries[at].0 == key,
    ensures
        meta_find(entries, key, from) == at,
    decreases at - from,
{
    if from < at {
        lemma_meta_find_is(entries, key, from + 1, at);
    }
}

/// Stating a value for a key makes it the value of that key, leaves the
/// value of every other key as it was, keeps the keys distinct, and adds an
/// entry only where the key was not stated before.
pub proof fn lemma_meta_insert(
    entries: MetadataView,
    key: Seq<char>,
    value: Seq<char>,
    other: Seq<char>,
)
    requires
        meta_distinct(entries),
    ensures
        meta_get(meta_insert(entries, key, value), key) == Some(value),
        other != key ==> meta_get(meta_insert(entries, key, value), other) == meta_get(
            entries,
            other,
        ),
        meta_distinct(meta_insert(entries, key, value)),
        meta_get(entries, key) is Some ==> meta_insert(entries, key, value).len()
            == entries.len(),
        meta_get(entries, key) is None ==> meta_insert(entries, key, value).len() == entries.len()
            + 1,
{
    let at = meta_find(entries, key, 0);
    let after = meta_insert(entries, key, value);
    lemma_meta_find(entries, key, 0);
    lemma_meta_find_is(after, key, 0, at);
    if other != key {
        let there = meta_find(entries, other, 0);
        lemma_meta_find(entries, other, 0);
        if there < entries.len() {
            lemma_meta_find_is(after, other, 0, there);
        } else {
            lemma_meta_find_is(after, other, 0, after.len() as int);
        }
    }
}

/// The metadata of a score: what its properties state.
#[derive(Clone, Debug, PartialEq, Eq)]
pub struct ScoremapMetadata {
    entries: Vec<(String, String)>,
}

/// The title and the author of a song.
#[derive(Clone, Debug, PartialEq, Eq)]
pub struct MusicInfo {
    pub title: String,
    pub song_author: String,
}

impl View for ScoremapMetadata {
    type V = MetadataView;

    closed spec fn view(&self) -> MetadataView {
        self.entries@.map_values(|e: (String, String)| (e.0@, e.1@))
    }
}

impl ScoremapMetadata {
    /// The metadata that states nothing.
    pub fn new() -> (metadata: ScoremapMetadata)
        ensures
            metadata@ == Seq::<(Seq<char>, Seq<char>)>::empty(),
    {
        let metadata = ScoremapMetadata { entries: Vec::new() };
        assert(metadata@ =~= Seq::<(Seq<char>, Seq<char>)>::empty());
        metadata
    }

    /// The number of keys that are stated.
    pub fn len(&self) -> (len: usize)
        ensures
            len == self@.len(),
    {
        self.entries.len()
    }

    /// The key and the value of the entry at `index`, in the order in which
    /// the keys were first stated.
    pub fn entry(&self, index: usize) -> (entry: Option<(&str, &str)>)
        ensures
            index < self@.len() ==> entry is Some && entry->Some_0.0@ == self@[index as int].0
                && entry->Some_0.1@ == self@[index as int].1,
            index >= self@.len() ==> entry is None,
    {
        if index < self.entries.len() {
            Some((self.entries[index].0.as_str(), self.entries[index].1.as_str()))
        } else {
            None
        }
    }

    fn find(&self, key: &str) -> (at: usize)
        ensures
            at == meta_find(self@, key@, 0),
            at <= self.entries@.len(),
    {
        let mut at: usize = 0;
        while at < self.entries.len()
            invariant
                at <= self.entries@.len(),
                forall|i: int| 0 <= i < at ==> (#[trigger] self@[i]).0 != key@,
            decreases self.entries@.len() - at,
        {
            if str_eq(self.entries[at].0.as_str(), key) {
                proof {
                    assert(self@[at as int].0 == key@);
                    lemma_meta_find_is(self@, key@, 0, at as int);
                }
                return at;
            }
            at += 1;
        }
        proof {
            lemma_meta_find_is(self@, key@, 0, at as int);
        }
        at
    }

    /// The value stated for `key`, if any.
    pub fn get(&self, key: &str) -> (value: Option<&str>)
        ensures
            match meta_get(self@, key@) {
                Some(stated) => value is Some && value->Some_0@ == stated,
                None => value is None,
            },
    {
        let at = self.find(key);
        if at < self.entries.len() {
            Some(self.entries[at].1.as_str())
        } else {
            None
        }
    }

    /// States `value` for `key`. A key that was stated before keeps its
    /// place and takes the new value.
    pub fn insert(&mut self, key: String, value: String)
        ensures
            final(self)@ == meta_insert(old(self)@, key@, value@),
    {
        let at = self.find(key.as_str());
        let ghost before = self@;
        if at < self.entries.len() {
            self.entries[at] = (key, value);
            assert(self@ =~= before.update(at as int, (key@, value@)));
        } else {
            self.entries.push((key, value));
            assert(self@ =~= before.push((key@, value@)));
        }
    }

    /// The title of the song, or the empty text where none is stated.
    pub open spec fn spec_title(entries: MetadataView) -> Seq<char> {
        match meta_get(entries, "title"@) {
            Some(title) => title,
            None => Seq::empty(),
        }
    }

    /// The author of the song, or the empty text where none is stated.
    pub open spec fn spec_song_author(entries: MetadataView) -> Seq<char> {
        match meta_get(entries, "song_author"@) {
            Some(author) => author,
            None => Seq::empty(),
        }
    }

    /// The title and the author of the song, as far as they are stated.
    pub fn get_music_info(&self) -> (info: MusicInfo)
        ensures
            info.title@ == Self::spec_title(self@),
            info.song_author@ == Self::spec_song_author(self@),
    {
        let title = match self.get("title") {
            Some(title) => title.to_owned(),
            None => String::new(),
        };
        let song_author = match self.get("song_author") {
            Some(author) => author.to_owned(),
            None => String::new(),
        };
        MusicInfo { title, song_author }
    }
}

/// What the loader makes of properties that it cannot take.
#[derive(Clone, Copy, Debug, PartialEq, Eq, Structural)]
pub struct ScoremapLoadConfig {
    /// Whether a property with an unknown key is passed over.
    pub ignore_unsupported_property: bool,
    /// Whether a property without a key or a value is passed over.
    pub ignore_invalid_properties: bool,
}

impl ScoremapLoadConfig {
    /// The strict configuration: every property must be one that a score can
    /// state.
    pub fn new() -> (config: ScoremapLoadConfig)
        ensures
            !config.ignore_unsupported_property,
            !config.ignore_invalid_properties,
    {
        ScoremapLoadConfig { ignore_unsupported_property: false, ignore_invalid_properties: false }
    }

    /// The configuration that passes over unknown keys if `ignore` is set.
    pub fn ignore_unsupported_property(self, ignore: bool) -> (config: ScoremapLoadConfig)
        ensures
            config.ignore_unsupported_property == ignore,
            config.ignore_invalid_properties == self.ignore_invalid_properties,
    {
        ScoremapLoadConfig {
            ignore_unsupported_property: ignore,
            ignore_invalid_properties: self.ignore_invalid_properties,
        }
    }

    /// The configuration that passes over properties without a key or a
    /// value if `ignore` is set.
    pub fn ignore_invalid_properties(self, ignore: bool) -> (config: ScoremapLoadConfig)
        ensures
            config.ignore_unsupported_property == self.ignore_unsupported_property,
            config.ignore_invalid_properties == ignore,
    {
        ScoremapLoadConfig {
            ignore_unsupported_property: self.ignore_unsupported_property,
            ignore_invalid_properties: ignore,
        }
    }
}

/// The sum of the lengths `lens`.
pub open spec fn lens_total(lens: Seq<nat>) -> nat
    decreases lens.len(),
{
    if lens.len() == 0 {
        0
    } else {
        lens_total(lens.drop_last()) + lens.last()
    }
}

/// The lengths `lens` as numbers without bound.
pub open spec fn lens_view(lens: Seq<usize>) -> Seq<nat> {
    Seq::new(lens.len(), |i: int| lens[i] as nat)
}

/// The views of a list of notes.
pub open spec fn note_views(notes: Seq<Note>) -> Seq<NoteView> {
    notes.map_values(|n: Note| n@)
}

/// Every note is valid and is named by the scope and its place in the list.
pub open spec fn notes_wf(notes: Seq<NoteView>, scope: u64) -> bool {
    &&& notes.len() <= u64::MAX
    &&& forall|i: int| 0 <= i < notes.len() ==> (#[trigger] notes[i]).wf()
    &&& forall|i: int|
        0 <= i < notes.len() ==> (#[trigger] notes[i]).id == (NoteId { scope, serial: i as u64 })
}

/// What a loaded score holds.
pub struct ScoremapView {
    /// The scope of the identifiers of the notes.
    pub scope: u64,
    /// What the properties state.
    pub metadata: MetadataView,
    /// The notes of all sections, in the order of the file.
    pub notes: Seq<NoteView>,
    /// The number of notes in each section of the file, in order.
    pub section_lens: Seq<nat>,
}

impl ScoremapView {
    /// The invariant of a score: the notes are valid and named by their
    /// place, and the sections are not empty and hold all the notes.
    pub open spec fn wf(self) -> bool {
        &&& notes_wf(self.notes, self.scope)
        &&& forall|i: int| 0 <= i < self.section_lens.len() ==> #[trigger] self.section_lens[i] > 0
        &&& lens_total(self.section_lens) == self.notes.len()
    }
}

/// A loaded score. It owns its notes; sections and events name them by
/// their identifiers.
#[derive(Clone, Debug, PartialEq)]
pub struct Scoremap {
    scope: u64,
    metadata: ScoremapMetadata,
    notes: Vec<Note>,
    section_lens: Vec<usize>,
}

impl View for Scoremap {
    type V = ScoremapView;

    closed spec fn view(&self) -> ScoremapView {
        ScoremapView {
            scope: self.scope,
            metadata: self.metadata@,
            notes: note_views(self.notes@),
            section_lens: lens_view(self.section_lens@),
        }
    }
}

impl Scoremap {
    /// The score made of these parts.
    pub(crate) fn assemble(
        scope: u64,
        metadata: ScoremapMetadata,
        notes: Vec<Note>,
        section_lens: Vec<usize>,
    ) -> (score: Scoremap)
        ensures
            score@ == (ScoremapView {
                scope,
                metadata: metadata@,
                notes: note_views(notes@),
                section_lens: lens_view(section_lens@),
            }),
    {
        Scoremap { scope, metadata, notes, section_lens }
    }

    /// The scope of the identifiers of the notes.
    pub fn scope(&self) -> (scope: u64)
        ensures
            scope == self@.scope,
    {
        self.scope
    }

    /// What the properties of the score state.
    pub fn metadata(&self) -> (metadata: &ScoremapMetadata)
        ensures
            metadata@ == self@.metadata,
    {
        &self.metadata
    }

    /// The notes of the score, in the order of the file.
    pub fn notes(&self) -> (notes: &Vec<Note>)
        ensures
            note_views(notes@) == self@.notes,
    {
        &self.notes
    }

    /// The number of notes.
    pub fn len(&self) -> (len: usize)
        ensures
            len == self@.notes.len(),
    {
        self.notes.len()
    }

    /// The number of notes in each section of the file, in order.
    pub fn section_lens(&self) -> (lens: &Vec<usize>)
        ensures
            lens_view(lens@) == self@.section_lens,
    {
        &self.section_lens
    }

    /// The number of sections of the file that hold a note.
    pub fn section_count(&self) -> (count: usize)
        ensures
            count == self@.section_lens.len(),
    {
        self.section_lens.len()
    }

    /// The note with the identifier `id`, if the score holds it.
    pub fn note(&self, id: NoteId) -> (note: Option<&Note>)
        requires
            self@.wf(),
        ensures
            id.scope == self@.scope && id.serial < self@.notes.len() ==> note is Some
                && note->Some_0@ == self@.notes[id.serial as int] && note->Some_0@.id == id,
            !(id.scope == self@.scope && id.serial < self@.notes.len()) ==> note is None,
    {
        if id.scope == self.scope && id.serial < self.notes.len() as u64 {
            let at = id.serial as usize;
            assert(self@.notes[at as int] == self.notes@[at as int]@);
            Some(&self.notes[at])
        } else {
            None
        }
    }

    /// Offers the keystroke `typed` to the sentence of the note at `index`.
    /// Returns whether it was taken.
    pub fn input(&mut self, index: usize, typed: char) -> (accepted: bool)
        requires
            old(self)@.wf(),
            index < old(self)@.notes.len(),
        ensures
            final(self)@.wf(),
            accepted == old(self)@.notes[index as int].content.accepts(typed),
            final(self)@ == (ScoremapView {
                scope: old(self)@.scope,
                metadata: old(self)@.metadata,
                notes: old(self)@.notes.update(
                    index as int,
                    old(self)@.notes[index as int].input(typed),
                ),
                section_lens: old(self)@.section_lens,
            }),
    {
        let ghost before = self@;
        assert(before.notes[index as int] == self.notes@[index as int]@);
        let accepted = self.notes[index].input(typed);
        assert(note_views(self.notes@) =~= before.notes.update(
            index as int,
            before.notes[index as int].input(typed),
        ));
        accepted
    }
}

} // verus!
