//! One phonetic unit: a syllable with the spellings that are valid for it,
//! narrowed keystroke by keystroke.

use crate::text::{is_prefix, str_starts_with, str_to_chars};
use vstd::prelude::*;
use vstd::string::*;

verus! {

/// The texts of a list of spellings.
pub open spec fn style_views(styles: Seq<&'static str>) -> Seq<Seq<char>> {
    styles.map_values(|s: &'static str| s@)
}

/// The spellings among `styles` that begin with `prefix`, in their order.
pub open spec fn matching(styles: Seq<Seq<char>>, prefix: Seq<char>) -> Seq<Seq<char>>
    decreases styles.len(),
{
    if styles.len() == 0 {
        Seq::empty()
    } else {
        let front = matching(styles.drop_last(), prefix);
        if is_prefix(prefix, styles.last()) {
            front.push(styles.last())
        } else {
            front
        }
    }
}

/// Every spelling that `matching` keeps is one of the spellings it was given
/// and begins with the prefix, and it keeps no more than it was given.
pub proof fn lemma_matching_members(styles: Seq<Seq<char>>, prefix: Seq<char>)
    ensures
        matching(styles, prefix).len() <= styles.len(),
        forall|i: int|
            0 <= i < matching(styles, prefix).len() ==> styles.contains(
                #[trigger] matching(styles, prefix)[i],
            ) && is_prefix(prefix, matching(styles, prefix)[i]),
    decreases styles.len(),
{
    if styles.len() > 0 {
        let front = styles.drop_last();
        lemma_matching_members(front, prefix);
        assert forall|i: int| 0 <= i < matching(styles, prefix).len() implies styles.contains(
            #[trigger] matching(styles, prefix)[i],
        ) && is_prefix(prefix, matching(styles, prefix)[i]) by {
            if i < matching(front, prefix).len() {
                let k = choose|k: int|
                    0 <= k < front.len() && front[k] == matching(front, prefix)[i];
                assert(styles[k] == matching(styles, prefix)[i]);
            } else {
                assert(styles[styles.len() - 1] == matching(styles, prefix)[i]);
            }
        }
    }
}

/// Every spelling begins with the empty prefix.
pub proof fn lemma_matching_all(styles: Seq<Seq<char>>)
    ensures
        matching(styles, Seq::empty()) == styles,
    decreases styles.len(),
{
    if styles.len() > 0 {
        lemma_matching_all(styles.drop_last());
        assert(styles.last().subrange(0, 0) =~= Seq::<char>::empty());
        assert(styles.drop_last().push(styles.last()) =~= styles);
    } else {
        assert(matching(styles, Seq::empty()) =~= styles);
    }
}

/// `matching` keeps every spelling that begins with the prefix.
pub proof fn lemma_matching_complete(styles: Seq<Seq<char>>, prefix: Seq<char>, style: Seq<char>)
    requires
        styles.contains(style),
        is_prefix(prefix, style),
    ensures
        matching(styles, prefix).contains(style),
    decreases styles.len(),
{
    let front = styles.drop_last();
    let kept = matching(styles, prefix);
    if styles.last() == style {
        assert(kept[kept.len() - 1] == style);
    } else {
        let k = choose|k: int| 0 <= k < styles.len() && styles[k] == style;
        assert(front[k] == style);
        lemma_matching_complete(front, prefix, style);
        let j = choose|j: int|
            0 <= j < matching(front, prefix).len() && matching(front, prefix)[j] == style;
        assert(kept[j] == style);
    }
}

/// Where the first spelling begins with the prefix, it is the first that
/// `matching` keeps.
pub proof fn lemma_matching_keeps_first(styles: Seq<Seq<char>>, prefix: Seq<char>)
    requires
        styles.len() > 0,
        is_prefix(prefix, styles[0]),
    ensures
        matching(styles, prefix).len() > 0,
        matching(styles, prefix)[0] == styles[0],
    decreases styles.len(),
{
    if styles.len() > 1 {
        let front = styles.drop_last();
        assert(front[0] == styles[0]);
        lemma_matching_keeps_first(front, prefix);
    } else {
        assert(matching(styles.drop_last(), prefix).len() == 0);
    }
}

/// To keep the spellings that begin with a prefix, and of those the ones
/// that begin with a longer one, is to keep those that begin with the longer
/// one.
pub proof fn lemma_matching_twice(styles: Seq<Seq<char>>, shorter: Seq<char>, longer: Seq<char>)
    requires
        is_prefix(shorter, longer),
    ensures
        matching(matching(styles, shorter), longer) == matching(styles, longer),
    decreases styles.len(),
{
    if styles.len() > 0 {
        let front = styles.drop_last();
        let last = styles.last();
        lemma_matching_twice(front, shorter, longer);
        if is_prefix(longer, last) {
            assert(is_prefix(shorter, last)) by {
                assert(last.subrange(0, shorter.len() as int) =~= last.subrange(
                    0,
                    longer.len() as int,
                ).subrange(0, shorter.len() as int));
            }
        }
        if is_prefix(shorter, last) {
            let kept = matching(front, shorter);
            assert(kept.push(last).drop_last() =~= kept);
        }
    }
}

/// What a phonetic unit holds.
pub struct RomanCharView {
    /// The spellings that the unit accepts, the preferred one first.
    pub offered: Seq<Seq<char>>,
    /// The spellings that the keystrokes so far have not ruled out. It is
    /// empty after a keystroke that no spelling accepts.
    pub candidates: Seq<Seq<char>>,
    /// The characters typed so far for this unit.
    pub typed: Seq<char>,
}

impl RomanCharView {
    /// A unit on which nothing has been typed.
    pub open spec fn fresh(styles: Seq<Seq<char>>) -> RomanCharView {
        RomanCharView { offered: styles, candidates: styles, typed: Seq::empty() }
    }

    /// The spelling shown as the target: the first candidate, or the first
    /// offered spelling where no candidate is left.
    pub open spec fn displayed(self) -> Seq<char> {
        if self.candidates.len() > 0 {
            self.candidates[0]
        } else {
            self.offered[0]
        }
    }

    /// Whether some offered spelling begins with what was typed followed by
    /// `c`.
    pub open spec fn accepts(self, c: char) -> bool {
        matching(self.offered, self.typed.push(c)).len() > 0
    }

    /// The unit after the keystroke `c`. An accepted keystroke joins the
    /// typed characters and narrows the candidates; a refused one leaves the
    /// typed characters as they were and clears the candidates.
    pub open spec fn accept(self, c: char) -> RomanCharView {
        if self.accepts(c) {
            RomanCharView {
                offered: self.offered,
                candidates: matching(self.offered, self.typed.push(c)),
                typed: self.typed.push(c),
            }
        } else {
            RomanCharView { offered: self.offered, candidates: Seq::empty(), typed: self.typed }
        }
    }

    /// Whether the typed characters are as many as the displayed spelling has.
    pub open spec fn is_complete(self) -> bool {
        self.displayed().len() == self.typed.len()
    }

    /// The unit after it was bound to the spellings that begin with `c`.
    /// Where no offered spelling does, nothing changes.
    pub open spec fn narrow(self, c: char) -> RomanCharView {
        let kept = matching(self.offered, seq![c]);
        if kept.len() > 0 {
            RomanCharView {
                offered: kept,
                candidates: matching(self.candidates, seq![c]),
                typed: self.typed,
            }
        } else {
            self
        }
    }

    /// The unit offers at least one spelling, and every candidate is one of
    /// the offered spellings.
    pub open spec fn wf(self) -> bool {
        &&& self.offered.len() > 0
        &&& forall|i: int|
            0 <= i < self.candidates.len() ==> self.offered.contains(#[trigger] self.candidates[i])
    }

    /// The candidates are what the typed characters leave of the offered
    /// spellings, and there is at least one.
    pub open spec fn on_track(self) -> bool {
        self.candidates.len() > 0 && self.candidates == matching(self.offered, self.typed)
    }
}

/// A keystroke that was refused leaves no trace but the cleared candidates:
/// the typed characters are as before, and the next keystroke is judged
/// against all the offered spellings, as if the refused one had not come.
pub proof fn lemma_refused_keystroke_is_forgotten(unit: RomanCharView, refused: char, next: char)
    requires
        !unit.accepts(refused),
    ensures
        unit.accept(refused).typed == unit.typed,
        unit.accept(refused).offered == unit.offered,
        unit.accept(refused).candidates.len() == 0,
        unit.accept(refused).accepts(next) == unit.accepts(next),
        unit.accept(refused).accept(next) == unit.accept(next),
{
}

/// The candidates are emptied only by a keystroke that is refused: an
/// accepted keystroke leaves at least one, all of them offered spellings that
/// begin with the typed characters.
pub proof fn lemma_accepted_keystroke_keeps_candidates(unit: RomanCharView, c: char)
    requires
        unit.accepts(c),
    ensures
        unit.accept(c).on_track(),
        unit.accept(c).typed == unit.typed.push(c),
        unit.accept(c).offered.contains(unit.accept(c).displayed()),
        is_prefix(unit.accept(c).typed, unit.accept(c).displayed()),
{
    lemma_matching_members(unit.offered, unit.typed.push(c));
}

/// The next character of the displayed spelling is taken, and the displayed
/// spelling stays: a player who types what is shown is never refused, and
/// completes the unit with the last character shown.
pub proof fn lemma_displayed_style_can_be_typed(unit: RomanCharView)
    requires
        unit.wf(),
        unit.on_track(),
        !unit.is_complete(),
    ensures
        unit.typed.len() < unit.displayed().len(),
        unit.accepts(unit.displayed()[unit.typed.len() as int]),
        unit.accept(unit.displayed()[unit.typed.len() as int]).on_track(),
        unit.accept(unit.displayed()[unit.typed.len() as int]).displayed() == unit.displayed(),
        unit.accept(unit.displayed()[unit.typed.len() as int]).typed == unit.typed.push(
            unit.displayed()[unit.typed.len() as int],
        ),
        unit.accept(unit.displayed()[unit.typed.len() as int]).is_complete() <==> unit.typed.len()
            + 1 == unit.displayed().len(),
{
    let shown = unit.displayed();
    lemma_matching_members(unit.offered, unit.typed);
    assert(is_prefix(unit.typed, shown));
    let c = shown[unit.typed.len() as int];
    let longer = unit.typed.push(c);
    assert(is_prefix(longer, shown)) by {
        assert(shown.subrange(0, longer.len() as int) =~= shown.subrange(
            0,
            unit.typed.len() as int,
        ).push(c));
    }
    assert(is_prefix(unit.typed, longer)) by {
        assert(longer.subrange(0, unit.typed.len() as int) =~= unit.typed);
    }
    lemma_matching_twice(unit.offered, unit.typed, longer);
    lemma_matching_keeps_first(unit.candidates, longer);
}

/// A keystroke and a binding keep a unit valid.
pub proof fn lemma_unit_stays_wf(unit: RomanCharView, c: char)
    requires
        unit.wf(),
    ensures
        unit.accept(c).wf(),
        unit.narrow(c).wf(),
        RomanCharView::fresh(unit.offered).wf(),
{
    lemma_matching_members(unit.offered, unit.typed.push(c));
    lemma_matching_members(unit.offered, seq![c]);
    lemma_matching_members(unit.candidates, seq![c]);
    let kept = matching(unit.offered, seq![c]);
    if kept.len() > 0 {
        let narrowed = matching(unit.candidates, seq![c]);
        assert forall|i: int| 0 <= i < narrowed.len() implies kept.contains(
            #[trigger] narrowed[i],
        ) by {
            let k = choose|k: int| 0 <= k < unit.candidates.len() && unit.candidates[k] == narrowed[i];
            assert(unit.offered.contains(unit.candidates[k]));
            lemma_matching_complete(unit.offered, seq![c], narrowed[i]);
        }
    }
    assert forall|i: int| 0 <= i < unit.offered.len() implies unit.offered.contains(
        #[trigger] unit.offered[i],
    ) by {}
}

/// The displayed spelling of a unit is always one of its offered spellings.
pub proof fn lemma_displayed_is_offered(unit: RomanCharView)
    requires
        unit.wf(),
    ensures
        unit.offered.contains(unit.displayed()),
{
    if unit.candidates.len() == 0 {
        assert(unit.offered[0] == unit.displayed());
    }
}

/// A syllable of a reading and the spellings that type it.
#[derive(Clone, Debug, PartialEq)]
pub struct RomanChar {
    styles: Vec<&'static str>,
    candidates: Vec<&'static str>,
    inputted: Vec<char>,
}

/// The spellings among `styles` that begin with `prefix`, in their order.
fn keep_matching(styles: &Vec<&'static str>, prefix: &Vec<char>) -> (kept: Vec<&'static str>)
    ensures
        style_views(kept@) == matching(style_views(styles@), prefix@),
{
    let mut kept: Vec<&'static str> = Vec::new();
    let mut i: usize = 0;
    while i < styles.len()
        invariant
            i <= styles.len(),
            style_views(kept@) == matching(style_views(styles@).take(i as int), prefix@),
        decreases styles.len() - i,
    {
        let style: &'static str = styles[i];
        let ghost before = style_views(styles@).take(i as int);
        let ghost after = style_views(styles@).take(i + 1);
        assert(after.drop_last() =~= before);
        assert(after.last() == style@);
        if str_starts_with(style, prefix) {
            let ghost old_kept = kept@;
            kept.push(style);
            assert(style_views(kept@) =~= style_views(old_kept).push(style@));
        }
        i += 1;
    }
    assert(style_views(styles@).take(styles@.len() as int) =~= style_views(styles@));
    kept
}

impl View for RomanChar {
    type V = RomanCharView;

    closed spec fn view(&self) -> RomanCharView {
        RomanCharView {
            offered: style_views(self.styles@),
            candidates: style_views(self.candidates@),
            typed: self.inputted@,
        }
    }
}

impl RomanChar {
    /// A unit that accepts the spellings `styles`, on which nothing has been
    /// typed.
    pub fn new(styles: &[&'static str]) -> (unit: RomanChar)
        requires
            styles@.len() > 0,
        ensures
            unit@ == RomanCharView::fresh(style_views(styles@)),
            unit@.wf(),
    {
        let mut offered: Vec<&'static str> = Vec::new();
        let mut candidates: Vec<&'static str> = Vec::new();
        let mut i: usize = 0;
        while i < styles.len()
            invariant
                i <= styles.len(),
                offered@ == styles@.take(i as int),
                candidates@ == styles@.take(i as int),
            decreases styles.len() - i,
        {
            offered.push(styles[i]);
            candidates.push(styles[i]);
            assert(styles@.take(i as int).push(styles@[i as int]) =~= styles@.take(i + 1));
            i += 1;
        }
        assert(styles@.take(styles@.len() as int) =~= styles@);
        let unit = RomanChar { styles: offered, candidates, inputted: Vec::new() };
        proof {
            assert forall|i: int| 0 <= i < unit@.candidates.len() implies unit@.offered.contains(
                #[trigger] unit@.candidates[i],
            ) by {
                assert(unit@.offered[i] == unit@.candidates[i]);
            }
        }
        unit
    }

    /// The first offered spelling that begins with `input`.
    pub fn determine(&self, input: &str) -> (found: Option<&'static str>)
        requires
            self@.wf(),
        ensures
            matching(self@.offered, input@).len() > 0 ==> found is Some && found->Some_0@
                == matching(self@.offered, input@)[0],
            matching(self@.offered, input@).len() == 0 ==> found is None,
    {
        let prefix = str_to_chars(input);
        let kept = keep_matching(&self.styles, &prefix);
        if kept.len() > 0 {
            Some(kept[0])
        } else {
            None
        }
    }

    /// The spellings that the keystrokes so far have not ruled out.
    pub fn styles(&self) -> (candidates: &[&'static str])
        requires
            self@.wf(),
        ensures
            style_views(candidates@) == self@.candidates,
    {
        self.candidates.as_slice()
    }

    /// The spellings that the unit accepts.
    pub fn offered_styles(&self) -> (offered: &[&'static str])
        requires
            self@.wf(),
        ensures
            style_views(offered@) == self@.offered,
    {
        self.styles.as_slice()
    }

    /// The characters typed so far for this unit.
    pub fn inputted(&self) -> (typed: &Vec<char>)
        requires
            self@.wf(),
        ensures
            typed@ == self@.typed,
    {
        &self.inputted
    }

    /// The spelling shown as the target.
    pub fn determined_style(&self) -> (style: &'static str)
        requires
            self@.wf(),
        ensures
            style@ == self@.displayed(),
            self@.offered.contains(style@),
    {
        proof {
            lemma_displayed_is_offered(self@);
        }
        if self.candidates.len() > 0 {
            self.candidates[0]
        } else {
            self.styles[0]
        }
    }

    /// Takes the keystroke `typed`. Returns whether some offered spelling
    /// begins with the typed characters and this one.
    pub fn input(&mut self, typed: char) -> (accepted: bool)
        requires
            old(self)@.wf(),
        ensures
            final(self)@.wf(),
            accepted == old(self)@.accepts(typed),
            final(self)@ == old(self)@.accept(typed),
    {
        let ghost before = self.inputted@;
        proof {
            lemma_unit_stays_wf(self@, typed);
        }
        self.inputted.push(typed);
        let kept = keep_matching(&self.styles, &self.inputted);
        if kept.len() > 0 {
            self.candidates = kept;
            true
        } else {
            self.inputted.pop();
            assert(self.inputted@ =~= before);
            self.candidates = Vec::new();
            assert(style_views(self.candidates@) =~= Seq::<Seq<char>>::empty());
            false
        }
    }

    /// Whether the unit is fully typed.
    pub fn completed_input(&self) -> (complete: bool)
        requires
            self@.wf(),
        ensures
            complete == self@.is_complete(),
    {
        let style = self.determined_style();
        style.unicode_len() == self.inputted.len()
    }

    /// Binds the unit to the spellings that begin with `typed`, without
    /// taking it as a keystroke. Where no offered spelling begins with it,
    /// nothing changes.
    pub fn fix_style(&mut self, typed: char)
        requires
            old(self)@.wf(),
        ensures
            final(self)@.wf(),
            final(self)@ == old(self)@.narrow(typed),
    {
        proof {
            lemma_unit_stays_wf(self@, typed);
        }
        let mut prefix: Vec<char> = Vec::new();
        prefix.push(typed);
        assert(prefix@ =~= seq![typed]);
        let fixed = keep_matching(&self.styles, &prefix);
        if fixed.len() > 0 {
            let narrowed = keep_matching(&self.candidates, &prefix);
            self.styles = fixed;
            self.candidates = narrowed;
        }
    }
}

} // verus!
