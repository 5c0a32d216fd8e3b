//! The score library: records, the storage interface, and the manager that keeps one
//! score selected while scores are created, renamed, edited and deleted.
use std::sync::Arc;
use vstd::prelude::*;

use crate::text::{
    chars_of, decimal, decimal_string, has_prefix, parse_u32, parse_u32_spec, signed_decimal,
    signed_decimal_string, starts_with, trim, trimmed,
};
use crate::tutorial::{default_source, lesson_example};

verus! {

/// Identifier of a stored score.
pub type ScoreId = i64;

/// Title of the score that an empty library is seeded with.
pub const DEFAULT_SCORE_TITLE: &'static str = "Starter Score";

/// Title prefix of the scores that `create_score` makes, followed by their number.
pub const UNTITLED_PREFIX: &'static str = "Untitled Score ";

/// LilyPond source of a newly created score.
pub const NEW_SCORE_SOURCE: &'static str = r#"\version "2.24.0"

\header {
  title = "Untitled Score"
}

\score {
  \new Staff \relative c' {
    \key c \major
    \time 4/4

    c4 d e f
    g1
  }

  \layout { }
}"#;

/// A stored score.
#[derive(Debug, PartialEq, Eq)]
pub struct ScoreRecord {
    /// The score's identifier in the store.
    pub id: ScoreId,
    /// The score's title.
    pub title: String,
    /// The score's LilyPond source.
    pub source: String,
}

/// A score as a mathematical value.
pub struct ScoreView {
    pub id: ScoreId,
    pub title: Seq<char>,
    pub source: Seq<char>,
}

impl View for ScoreRecord {
    type V = ScoreView;

    open spec fn view(&self) -> ScoreView {
        ScoreView { id: self.id, title: self.title@, source: self.source@ }
    }
}

impl Clone for ScoreRecord {
    fn clone(&self) -> (r: Self)
        ensures
            r@ == self@,
    {
        ScoreRecord { id: self.id, title: self.title.clone(), source: self.source.clone() }
    }
}

/// The views of a sequence of records.
pub open spec fn views(s: Seq<ScoreRecord>) -> Seq<ScoreView> {
    s.map_values(|r: ScoreRecord| r@)
}

/// An error that a store reports, with its message.
#[derive(Debug)]
pub struct StoreError {
    /// What went wrong, in words.
    pub message: String,
}

/// Why an operation of the score library failed.
#[derive(Debug)]
pub enum ScoreError {
    /// The store reported an error.
    Store(StoreError),
    /// The store listed no score even after the library was seeded.
    NoInitialScore,
    /// A listed title already carries the largest untitled number, so no next number exists.
    UntitledIndexExhausted,
    /// No score of the library has the selected identifier.
    SelectionMissing,
}

/// Where scores are kept. The library calls these methods and makes no assumption about
/// what they return.
pub trait ScoreStore: Send + Sync {
    /// All stored scores, in the store's order.
    fn list_scores(&self) -> Result<Vec<ScoreRecord>, StoreError>;

    /// Stores a new score and returns it with its identifier, and with the title and source
    /// that it was given.
    fn create_score(&self, title: &str, source: &str) -> (r: Result<ScoreRecord, StoreError>)
        ensures
            r matches Ok(rec) ==> rec@.title == title@ && rec@.source == source@,
    ;

    /// Changes the title of score `id`.
    fn update_score_title(&self, id: ScoreId, title: &str) -> Result<(), StoreError>;

    /// Changes the source of score `id`.
    fn update_score_source(&self, id: ScoreId, source: &str) -> Result<(), StoreError>;

    /// Removes score `id`.
    fn delete_score(&self, id: ScoreId) -> Result<(), StoreError>;
}

/// The store operation that found no score with the given identifier.
#[derive(Clone, Copy, Debug, PartialEq, Eq, Structural)]
pub enum StoreAction {
    Renaming,
    Saving,
    Deleting,
}

/// The word for an operation in a not-found message.
pub open spec fn action_word(action: StoreAction) -> Seq<char> {
    match action {
        StoreAction::Renaming => "renaming"@,
        StoreAction::Saving => "saving"@,
        StoreAction::Deleting => "deleting"@,
    }
}

/// The message of a store that found no score `id` during `action`.
pub open spec fn not_found_message(id: ScoreId, action: StoreAction) -> Seq<char> {
    "score "@ + signed_decimal(id as int) + " was not found while "@ + action_word(action)
}

/// A write that changed no row found no score with that identifier: `rows_affected` rows
/// changed while `action` was applied to score `id`.
pub fn expect_row_affected(rows_affected: u64, id: ScoreId, action: StoreAction) -> (r: Result<(), StoreError>)
    ensures
        r is Ok <==> rows_affected > 0,
        r matches Err(e) ==> e.message@ == not_found_message(id, action),
{
    if rows_affected > 0 {
        return Ok(());
    }
    let mut message = String::from_str("score ");
    let digits = signed_decimal_string(id);
    message.append(digits.as_str());
    message.append(" was not found while ");
    let word = match action {
        StoreAction::Renaming => "renaming",
        StoreAction::Saving => "saving",
        StoreAction::Deleting => "deleting",
    };
    message.append(word);
    Err(StoreError { message })
}

// ---------------------------------------------------------------------------------------
// Untitled numbering
// ---------------------------------------------------------------------------------------

/// The title `Untitled Score <index>`.
pub open spec fn untitled_title_spec(index: u32) -> Seq<char> {
    UNTITLED_PREFIX@ + decimal(index as nat)
}

/// The number in a title of the form `Untitled Score <number>`, read as `u32::from_str`
/// reads it; `None` for any other title.
pub open spec fn parse_untitled_spec(title: Seq<char>) -> Option<u32> {
    if has_prefix(title, UNTITLED_PREFIX@) {
        parse_u32_spec(title.skip(UNTITLED_PREFIX@.len() as int))
    } else {
        None
    }
}

/// The largest untitled number among the titles of `s`, or 0 when there is none.
pub open spec fn highest_untitled(s: Seq<ScoreView>) -> nat
    decreases s.len(),
{
    if s.len() == 0 {
        0
    } else {
        let rest = highest_untitled(s.drop_last());
        match parse_untitled_spec(s.last().title) {
            Some(n) => if n > rest { n as nat } else { rest },
            None => rest,
        }
    }
}

/// The title `Untitled Score <index>`.
pub fn untitled_title(index: u32) -> (t: String)
    ensures
        t@ == untitled_title_spec(index),
{
    let mut t = String::from_str(UNTITLED_PREFIX);
    let digits = decimal_string(index as u64);
    t.append(digits.as_str());
    t
}

/// The number of an untitled score's title, if `title` is one.
pub fn parse_untitled_index(title: &str) -> (r: Option<u32>)
    ensures
        r == parse_untitled_spec(title@),
{
    let chars = chars_of(title);
    let prefix = chars_of(UNTITLED_PREFIX);
    if !starts_with(chars.as_slice(), prefix.as_slice()) {
        return None;
    }
    let (_, rest) = chars.as_slice().split_at(prefix.len());
    assert(rest@ == title@.skip(UNTITLED_PREFIX@.len() as int));
    parse_u32(rest)
}

/// The largest untitled number among `scores`, or 0.
pub fn highest_untitled_index(scores: &Vec<ScoreRecord>) -> (n: u32)
    ensures
        n == highest_untitled(views(scores@)),
{
    let mut best: u32 = 0;
    let mut i: usize = 0;
    while i < scores.len()
        invariant
            i <= scores@.len(),
            best == highest_untitled(views(scores@).take(i as int)),
        decreases scores.len() - i,
    {
        let ghost before = views(scores@).take(i as int);
        let ghost after = views(scores@).take(i + 1);
        assert(after.drop_last() == before);
        assert(after.last() == scores@[i as int]@);
        match parse_untitled_index(scores[i].title.as_str()) {
            Some(n) => {
                if n > best {
                    best = n;
                }
            },
            None => {},
        }
        i = i + 1;
    }
    assert(views(scores@).take(scores@.len() as int) == views(scores@));
    best
}

/// Parsing the title `Untitled Score <n>` gives back `n`.
pub proof fn lemma_untitled_title_round_trip(n: u32)
    ensures
        parse_untitled_spec(untitled_title_spec(n)) == Some(n),
{
    let t = untitled_title_spec(n);
    assert(t.subrange(0, UNTITLED_PREFIX@.len() as int) == UNTITLED_PREFIX@);
    assert(t.skip(UNTITLED_PREFIX@.len() as int) == decimal(n as nat));
    crate::text::lemma_parse_decimal(n);
}

// ---------------------------------------------------------------------------------------
// The manager's state and its transitions
// ---------------------------------------------------------------------------------------

/// `i` is the first position of `s` that holds score `id`.
pub open spec fn is_first_index(s: Seq<ScoreView>, id: ScoreId, i: int) -> bool {
    &&& 0 <= i < s.len()
    &&& s[i].id == id
    &&& forall|j: int| 0 <= j < i ==> s[j].id != id
}

/// Some position of `s` holds score `id`.
pub open spec fn holds_id(s: Seq<ScoreView>, id: ScoreId) -> bool {
    exists|i: int| 0 <= i < s.len() && s[i].id == id
}

/// The first position of `s` that holds score `id` (meaningful when `holds_id(s, id)`).
pub open spec fn first_index(s: Seq<ScoreView>, id: ScoreId) -> int {
    choose|i: int| is_first_index(s, id, i)
}

/// When some position holds `id`, `first_index` is the first of them.
pub proof fn lemma_first_index(s: Seq<ScoreView>, id: ScoreId)
    requires
        holds_id(s, id),
    ensures
        is_first_index(s, id, first_index(s, id)),
{
    let k = choose|i: int| 0 <= i < s.len() && s[i].id == id;
    lemma_first_index_below(s, id, k);
}

proof fn lemma_first_index_below(s: Seq<ScoreView>, id: ScoreId, k: int)
    requires
        0 <= k < s.len(),
        s[k].id == id,
    ensures
        exists|i: int| is_first_index(s, id, i),
    decreases k,
{
    if exists|j: int| 0 <= j < k && s[j].id == id {
        let j = choose|j: int| 0 <= j < k && s[j].id == id;
        lemma_first_index_below(s, id, j);
    } else {
        assert(is_first_index(s, id, k));
    }
}

/// The first position that holds `id` is the only position with that property.
pub proof fn lemma_first_index_is(s: Seq<ScoreView>, id: ScoreId, i: int)
    requires
        is_first_index(s, id, i),
    ensures
        first_index(s, id) == i,
{
    lemma_first_index(s, id);
    let f = first_index(s, id);
    if f < i {
        assert(s[f].id != id);
    } else if i < f {
        assert(s[i].id != id);
    }
}

/// The state of a score manager: the scores in library order, the selected score's
/// identifier, and the number that the next untitled score gets.
pub struct ManagerState {
    pub scores: Seq<ScoreView>,
    pub selected: ScoreId,
    pub next_untitled: u32,
}

impl ManagerState {
    /// The selected identifier names a score of the library.
    pub open spec fn wf(self) -> bool {
        holds_id(self.scores, self.selected)
    }

    /// The position of the selected score.
    pub open spec fn selected_index(self) -> int {
        first_index(self.scores, self.selected)
    }

    /// The state with the first record of the selected score retitled `title`; unchanged
    /// when no record has the selected identifier.
    pub open spec fn with_selected_title(self, title: Seq<char>) -> ManagerState {
        if holds_id(self.scores, self.selected) {
            let k = self.selected_index();
            ManagerState {
                scores: self.scores.update(
                    k,
                    ScoreView { id: self.scores[k].id, title: title, source: self.scores[k].source },
                ),
                ..self
            }
        } else {
            self
        }
    }

    /// The state with the first record of the selected score given `source`; unchanged
    /// when no record has the selected identifier.
    pub open spec fn with_selected_source(self, source: Seq<char>) -> ManagerState {
        if holds_id(self.scores, self.selected) {
            let k = self.selected_index();
            ManagerState {
                scores: self.scores.update(
                    k,
                    ScoreView { id: self.scores[k].id, title: self.scores[k].title, source: source },
                ),
                ..self
            }
        } else {
            self
        }
    }

    /// The scores left once the selected score's record is removed.
    pub open spec fn remaining_after_delete(self) -> Seq<ScoreView> {
        self.scores.remove(self.selected_index())
    }

    /// The position selected after a deletion leaves `remaining` non-empty: the position the
    /// deleted score had, or the last position when it was the last score.
    pub open spec fn index_after_delete(self) -> int {
        let i = self.selected_index();
        let len = self.remaining_after_delete().len();
        if i <= len - 1 { i } else { len - 1 }
    }

    /// The state once the selected score has left the store: the remaining scores with the
    /// neighbour selected, or, when none remain, the library holding only `seed`, selected.
    pub open spec fn after_delete(self, seed: Option<ScoreView>) -> ManagerState {
        let rest = self.remaining_after_delete();
        if rest.len() > 0 {
            ManagerState { scores: rest, selected: rest[self.index_after_delete()].id, ..self }
        } else {
            match seed {
                Some(rec) => ManagerState { scores: seq![rec], selected: rec.id, ..self },
                None => self,
            }
        }
    }
}

/// The view of an optional record.
pub open spec fn seed_view(seed: Option<ScoreRecord>) -> Option<ScoreView> {
    match seed {
        Some(rec) => Some(rec@),
        None => None,
    }
}

/// The starter score that seeds an empty library, as a value: any identifier, the starter
/// title and the first lesson's example.
pub open spec fn is_starter(rec: ScoreView) -> bool {
    rec.title == DEFAULT_SCORE_TITLE@ && rec.source == lesson_example(0)
}

/// What renaming to `title` asks of the store: the selected score and the trimmed title,
/// or nothing when the trimmed title is blank.
pub open spec fn title_request(st: ManagerState, title: Seq<char>) -> Option<(ScoreId, Seq<char>)> {
    if trimmed(title).len() == 0 {
        None
    } else {
        Some((st.selected, trimmed(title)))
    }
}

/// The state a library starts in from the listed `scores`: the first score is selected,
/// and untitled numbering continues after the largest number already in use.
pub open spec fn initial_state(scores: Seq<ScoreView>) -> ManagerState {
    ManagerState {
        scores: scores,
        selected: scores[0].id,
        next_untitled: (highest_untitled(scores) + 1) as u32,
    }
}

/// What becomes of the listed `scores`: none listed is the error that no initial score
/// exists; a title already carrying the largest untitled number exhausts numbering;
/// otherwise a manager over exactly those scores with the first selected.
pub open spec fn listed_outcome<S: ScoreStore + ?Sized>(
    store: Arc<S>,
    scores: Seq<ScoreRecord>,
    r: Result<ScoreManager<S>, ScoreError>,
) -> bool {
    if scores.len() == 0 {
        r matches Err(e) && e is NoInitialScore
    } else if highest_untitled(views(scores)) == u32::MAX {
        r matches Err(e) && e is UntitledIndexExhausted
    } else {
        r matches Ok(m) && m@ == initial_state(views(scores)) && m@.wf()
            && m.store_spec() == store
    }
}

/// Keeps the library's scores in memory, with one of them selected, and mirrors every
/// change into a store.
pub struct ScoreManager<S: ScoreStore + ?Sized> {
    store: Arc<S>,
    scores: Vec<ScoreRecord>,
    selected_score_id: ScoreId,
    next_new_score_index: u32,
}

impl<S: ScoreStore + ?Sized> View for ScoreManager<S> {
    type V = ManagerState;

    closed spec fn view(&self) -> ManagerState {
        ManagerState {
            scores: views(self.scores@),
            selected: self.selected_score_id,
            next_untitled: self.next_new_score_index,
        }
    }
}

impl<S: ScoreStore + ?Sized> ScoreManager<S> {
    /// The store that the manager writes through.
    pub closed spec fn store_spec(&self) -> Arc<S> {
        self.store
    }

    /// A manager over `scores`, which the store listed, with the first score selected.
    pub fn from_scores(store: Arc<S>, scores: Vec<ScoreRecord>) -> (m: Self)
        requires
            scores@.len() > 0,
            highest_untitled(views(scores@)) < u32::MAX,
        ensures
            m@ == initial_state(views(scores@)),
            m@.wf(),
            m.store_spec() == store,
    {
        let highest = highest_untitled_index(&scores);
        let selected_score_id = scores[0].id;
        let m = ScoreManager {
            store,
            scores,
            selected_score_id,
            next_new_score_index: highest + 1,
        };
        assert(m@.scores[0].id == m@.selected);
        m
    }

    /// A manager over the scores that the store listed: none listed is the error that the
    /// library produced no initial score; a title that already carries the largest untitled
    /// number exhausts numbering; otherwise the listed scores with the first one selected.
    pub fn from_listed(store: Arc<S>, listed: Vec<ScoreRecord>) -> (r: Result<Self, ScoreError>)
        ensures
            highest_untitled(views(listed@)) <= u32::MAX,
            listed_outcome(store, listed@, r),
            listed@.len() == 0 ==> (r matches Err(e) && e is NoInitialScore),
            listed@.len() > 0 && highest_untitled(views(listed@)) == u32::MAX ==> (
                r matches Err(e) && e is UntitledIndexExhausted),
            listed@.len() > 0 && highest_untitled(views(listed@)) < u32::MAX ==> (
                r matches Ok(m) && m@ == initial_state(views(listed@)) && m@.wf()
                && m.store_spec() == store),
    {
        proof {
            lemma_highest_untitled_fits(views(listed@));
        }
        if listed.len() == 0 {
            return Err(ScoreError::NoInitialScore);
        }
        if highest_untitled_index(&listed) == u32::MAX {
            return Err(ScoreError::UntitledIndexExhausted);
        }
        Ok(Self::from_scores(store, listed))
    }

    /// What seeding an empty library asks of the store: the starter title and the first
    /// lesson's example.
    pub fn seed_request() -> (r: (&'static str, &'static str))
        ensures
            r.0@ == DEFAULT_SCORE_TITLE@,
            r.1@ == lesson_example(0),
    {
        (DEFAULT_SCORE_TITLE, default_source())
    }

    /// A manager from the answer to the listing after seeding: the store's error, or what
    /// `from_listed` makes of the scores.
    pub fn from_relisting(store: Arc<S>, relisting: Result<Vec<ScoreRecord>, StoreError>) -> (r: Result<Self, ScoreError>)
        ensures
            relisting matches Err(e) ==> (r matches Err(ScoreError::Store(x)) && x == e),
            relisting matches Ok(w) ==> listed_outcome(store, w@, r),
            r matches Ok(m) ==> m@.wf() && m@ == initial_state(m@.scores)
                && highest_untitled(m@.scores) < u32::MAX && m.store_spec() == store,
            r matches Err(e) ==> (e is Store || e is NoInitialScore || e is UntitledIndexExhausted),
    {
        match relisting {
            Ok(w) => Self::from_listed(store, w),
            Err(e) => Err(ScoreError::Store(e)),
        }
    }

    /// A manager over what the store listed: with `listed` non-empty, exactly the listed
    /// scores; with it empty, the library is first seeded with `seed_request()` and listed
    /// again, and the second listing goes to `from_relisting`.
    pub fn from_listing(store: Arc<S>, listed: Vec<ScoreRecord>) -> (r: Result<Self, ScoreError>)
        ensures
            listed@.len() > 0 ==> listed_outcome(store, listed@, r),
            r matches Ok(m) ==> m@.wf() && m@ == initial_state(m@.scores)
                && highest_untitled(m@.scores) < u32::MAX && m.store_spec() == store,
            r matches Err(e) ==> (e is Store || e is NoInitialScore || e is UntitledIndexExhausted),
    {
        if listed.len() > 0 {
            return Self::from_listed(store, listed);
        }
        let (title, source) = Self::seed_request();
        match store.create_score(title, source) {
            Ok(_) => {},
            Err(e) => return Err(ScoreError::Store(e)),
        }
        let relisting = store.list_scores();
        Self::from_relisting(store, relisting)
    }

    /// A manager from the answer to the first listing: the store's error, or what
    /// `from_listing` makes of the scores.
    pub fn from_listing_result(store: Arc<S>, listing: Result<Vec<ScoreRecord>, StoreError>) -> (r: Result<Self, ScoreError>)
        ensures
            listing matches Err(e) ==> (r matches Err(ScoreError::Store(x)) && x == e),
            listing matches Ok(w) ==> (w@.len() > 0 ==> listed_outcome(store, w@, r)),
            r matches Ok(m) ==> m@.wf() && m@ == initial_state(m@.scores)
                && highest_untitled(m@.scores) < u32::MAX && m.store_spec() == store,
            r matches Err(e) ==> (e is Store || e is NoInitialScore || e is UntitledIndexExhausted),
    {
        match listing {
            Ok(listed) => Self::from_listing(store, listed),
            Err(e) => Err(ScoreError::Store(e)),
        }
    }

    /// Loads the library from `store`, seeding it with the starter score when it is empty:
    /// the store's first listing goes to `from_listing_result`.
    pub fn load(store: Arc<S>) -> (r: Result<Self, ScoreError>)
        ensures
            r matches Ok(m) ==> m@.wf() && m@ == initial_state(m@.scores)
                && highest_untitled(m@.scores) < u32::MAX && m.store_spec() == store,
            r matches Err(e) ==> (e is Store || e is NoInitialScore || e is UntitledIndexExhausted),
    {
        let listing = store.list_scores();
        Self::from_listing_result(store, listing)
    }

    /// All scores, in library order.
    pub fn scores(&self) -> (s: &[ScoreRecord])
        ensures
            views(s@) == self@.scores,
    {
        self.scores.as_slice()
    }

    /// The first position holding score `id`, if any.
    fn position_of(&self, id: ScoreId) -> (r: Option<usize>)
        ensures
            match r {
                Some(i) => is_first_index(self@.scores, id, i as int),
                None => !holds_id(self@.scores, id),
            },
    {
        let mut i: usize = 0;
        while i < self.scores.len()
            invariant
                i <= self.scores@.len(),
                forall|j: int| 0 <= j < i ==> self@.scores[j].id != id,
            decreases self.scores.len() - i,
        {
            if self.scores[i].id == id {
                return Some(i);
            }
            i = i + 1;
        }
        None
    }

    /// Whether the selected identifier names a score of the library.
    pub fn has_selected_score(&self) -> (b: bool)
        ensures
            b == self@.wf(),
    {
        self.position_of(self.selected_score_id).is_some()
    }

    /// The selected score.
    pub fn selected_score(&self) -> (s: &ScoreRecord)
        requires
            self@.wf(),
        ensures
            s@ == self@.scores[self@.selected_index()],
    {
        proof {
            lemma_first_index(self@.scores, self@.selected);
        }
        match self.position_of(self.selected_score_id) {
            Some(i) => {
                proof {
                    lemma_first_index_is(self@.scores, self@.selected, i as int);
                }
                &self.scores[i]
            },
            None => {
                assert(false);
                &self.scores[0]
            },
        }
    }

    /// The identifier of the selected score.
    pub fn selected_score_id(&self) -> (id: ScoreId)
        ensures
            id == self@.selected,
    {
        self.selected_score_id
    }

    /// The number that the next untitled score will get.
    pub fn next_untitled_index(&self) -> (n: u32)
        ensures
            n == self@.next_untitled,
    {
        self.next_new_score_index
    }

    /// Selects score `id`; `false`, with nothing changed, when it is already selected or
    /// not in the library.
    pub fn select_score(&mut self, id: ScoreId) -> (changed: bool)
        ensures
            changed == (old(self)@.selected != id && holds_id(old(self)@.scores, id)),
            final(self)@ == (if changed {
                ManagerState { selected: id, ..old(self)@ }
            } else {
                old(self)@
            }),
            final(self).store_spec() == old(self).store_spec(),
    {
        if self.selected_score_id == id {
            return false;
        }
        match self.position_of(id) {
            None => false,
            Some(_) => {
                self.selected_score_id = id;
                true
            },
        }
    }

    /// Creates a score titled `Untitled Score <n>` with the new-score source, appends it and
    /// selects it. The untitled number advances whether or not the store succeeds.
    pub fn create_score(&mut self) -> (r: Result<ScoreRecord, ScoreError>)
        requires
            old(self)@.next_untitled < u32::MAX,
        ensures
            final(self).store_spec() == old(self).store_spec(),
            final(self)@.next_untitled == old(self)@.next_untitled + 1,
            match r {
                Ok(rec) => final(self)@.scores == old(self)@.scores.push(rec@)
                    && final(self)@.selected == rec.id
                    && rec@.title == untitled_title_spec(old(self)@.next_untitled)
                    && rec@.source == NEW_SCORE_SOURCE@,
                Err(e) => e is Store
                    && final(self)@.scores == old(self)@.scores
                    && final(self)@.selected == old(self)@.selected,
            },
            r is Ok ==> final(self)@.wf(),
            old(self)@.wf() ==> final(self)@.wf(),
    {
        let title = untitled_title(self.next_new_score_index);
        self.next_new_score_index = self.next_new_score_index + 1;
        match self.store.create_score(title.as_str(), NEW_SCORE_SOURCE) {
            Ok(record) => {
                self.selected_score_id = record.id;
                let copy = record.clone();
                let ghost before = self.scores@;
                self.scores.push(copy);
                proof {
                    assert(views(self.scores@) == views(before).push(record@));
                    let last = self.scores@.len() - 1;
                    assert(views(self.scores@)[last].id == record.id);
                }
                Ok(record)
            },
            Err(e) => Err(ScoreError::Store(e)),
        }
    }

    /// Replaces the record at position `i` by one with the same identifier and source and
    /// the title `title`.
    fn set_title_at(&mut self, i: usize, title: String)
        requires
            i < old(self).scores@.len(),
        ensures
            final(self).store == old(self).store,
            final(self).selected_score_id == old(self).selected_score_id,
            final(self).next_new_score_index == old(self).next_new_score_index,
            views(final(self).scores@) == views(old(self).scores@).update(
                i as int,
                ScoreView {
                    id: old(self).scores@[i as int].id,
                    title: title@,
                    source: old(self).scores@[i as int].source@,
                },
            ),
    {
        let id = self.scores[i].id;
        let source = self.scores[i].source.clone();
        self.scores.set(i, ScoreRecord { id, title, source });
        assert(views(self.scores@) =~= views(old(self).scores@).update(
            i as int,
            ScoreView { id: id, title: title@, source: old(self).scores@[i as int].source@ },
        ));
    }

    /// Replaces the record at position `i` by one with the same identifier and title and
    /// the source `source`.
    fn set_source_at(&mut self, i: usize, source: String)
        requires
            i < old(self).scores@.len(),
        ensures
            final(self).store == old(self).store,
            final(self).selected_score_id == old(self).selected_score_id,
            final(self).next_new_score_index == old(self).next_new_score_index,
            views(final(self).scores@) == views(old(self).scores@).update(
                i as int,
                ScoreView {
                    id: old(self).scores@[i as int].id,
                    title: old(self).scores@[i as int].title@,
                    source: source@,
                },
            ),
    {
        let id = self.scores[i].id;
        let title = self.scores[i].title.clone();
        self.scores.set(i, ScoreRecord { id, title, source });
        assert(views(self.scores@) =~= views(old(self).scores@).update(
            i as int,
            ScoreView { id: id, title: old(self).scores@[i as int].title@, source: source@ },
        ));
    }

    /// What renaming to `title` asks of the store: the selected score and the trimmed title,
    /// or nothing when the trimmed title is blank.
    pub fn rename_request<'a>(&self, title: &'a str) -> (r: Option<(ScoreId, &'a str)>)
        ensures
            match r {
                Some((id, t)) => title_request(self@, title@) == Some((id, t@)),
                None => title_request(self@, title@) is None,
            },
    {
        let t = trim(title);
        if t.is_empty() {
            None
        } else {
            Some((self.selected_score_id, t))
        }
    }

    /// Renames the selected score to `title` without its surrounding whitespace. A title that
    /// is blank once trimmed is ignored. Only the selected score's record changes. The store
    /// is asked for exactly `rename_request(title)`.
    pub fn rename_selected_score(&mut self, title: &str) -> (r: Result<(), ScoreError>)
        ensures
            final(self).store_spec() == old(self).store_spec(),
            trimmed(title@).len() == 0 ==> r is Ok && final(self)@ == old(self)@,
            trimmed(title@).len() > 0 ==> match r {
                Ok(_) => final(self)@ == old(self)@.with_selected_title(trimmed(title@)),
                Err(e) => e is Store && final(self)@ == old(self)@,
            },
    {
        let (selected_id, t) = match self.rename_request(title) {
            Some(request) => request,
            None => return Ok(()),
        };
        match self.store.update_score_title(selected_id, t) {
            Ok(()) => {},
            Err(e) => return Err(ScoreError::Store(e)),
        }
        match self.position_of(selected_id) {
            Some(i) => {
                proof {
                    lemma_first_index_is(self@.scores, selected_id, i as int);
                }
                self.set_title_at(i, String::from_str(t));
            },
            None => {},
        }
        Ok(())
    }

    /// What replacing the source with `source` asks of the store: the selected score and
    /// the source as given.
    pub fn source_request<'a>(&self, source: &'a str) -> (r: (ScoreId, &'a str))
        ensures
            r.0 == self@.selected,
            r.1@ == source@,
    {
        (self.selected_score_id, source)
    }

    /// Replaces the selected score's source with `source`. The store is asked for exactly
    /// `source_request(source)`.
    pub fn update_selected_source(&mut self, source: &str) -> (r: Result<(), ScoreError>)
        ensures
            final(self).store_spec() == old(self).store_spec(),
            match r {
                Ok(_) => final(self)@ == old(self)@.with_selected_source(source@),
                Err(e) => e is Store && final(self)@ == old(self)@,
            },
    {
        let (selected_id, text) = self.source_request(source);
        match self.store.update_score_source(selected_id, text) {
            Ok(()) => {},
            Err(e) => return Err(ScoreError::Store(e)),
        }
        match self.position_of(selected_id) {
            Some(i) => {
                proof {
                    lemma_first_index_is(self@.scores, selected_id, i as int);
                }
                self.set_source_at(i, String::from_str(text));
            },
            None => {},
        }
        Ok(())
    }

    /// What deleting the selected score asks of the store: the selected identifier.
    pub fn delete_request(&self) -> (id: ScoreId)
        ensures
            id == self@.selected,
    {
        self.selected_score_id
    }

    /// Brings the in-memory library in line with a deletion of the selected score from the
    /// store: removes its record and selects the record that took its position, or the new
    /// last record; when it was the last score, `seed`, the starter score the store created
    /// in its place, becomes the library and is selected.
    pub fn apply_deletion(&mut self, seed: Option<ScoreRecord>)
        requires
            old(self)@.wf(),
            (old(self)@.remaining_after_delete().len() == 0) == (seed is Some),
        ensures
            final(self)@ == old(self)@.after_delete(seed_view(seed)),
            seed is None ==> final(self)@.scores == old(self)@.scores.remove(old(self)@.selected_index()),
            final(self)@.wf(),
            final(self).store_spec() == old(self).store_spec(),
    {
        proof {
            lemma_first_index(self@.scores, self@.selected);
        }
        let selected_id = self.selected_score_id;
        let selected_index = match self.position_of(selected_id) {
            Some(i) => i,
            None => {
                assert(false);
                0
            },
        };
        proof {
            lemma_first_index_is(self@.scores, selected_id, selected_index as int);
        }
        match seed {
            Some(record) => {
                let ghost rv = record@;
                self.selected_score_id = record.id;
                self.scores = Vec::new();
                self.scores.push(record);
                assert(views(self.scores@) =~= seq![rv]);
                assert(views(self.scores@)[0].id == self.selected_score_id);
            },
            None => {
                let ghost before = self.scores@;
                self.scores.remove(selected_index);
                assert(views(self.scores@) =~= views(before).remove(selected_index as int));
                let last = self.scores.len() - 1;
                let next_index = if selected_index <= last { selected_index } else { last };
                self.selected_score_id = self.scores[next_index].id;
                assert(views(self.scores@)[next_index as int].id == self.selected_score_id);
            },
        }
    }

    /// Deletes the selected score. The selection moves to the score that took its position,
    /// or to the new last score; when the library would become empty it is seeded again with
    /// the starter score, which is selected. The store is asked to delete `delete_request()`
    /// and, when seeding, to create `seed_request()`. When the store fails, to delete or to
    /// seed, the in-memory library stays as it was, so a selected score always exists.
    pub fn delete_selected_score(&mut self) -> (r: Result<(), ScoreError>)
        ensures
            final(self).store_spec() == old(self).store_spec(),
            !old(self)@.wf() ==> (r matches Err(e) && e is SelectionMissing && final(self)@ == old(self)@),
            old(self)@.wf() ==> final(self)@.wf(),
            old(self)@.wf() ==> match r {
                Ok(_) => if old(self)@.remaining_after_delete().len() > 0 {
                    final(self)@ == old(self)@.after_delete(None)
                        && final(self)@.scores == old(self)@.scores.remove(old(self)@.selected_index())
                } else {
                    exists|rec: ScoreView|
                        is_starter(rec) && final(self)@ == old(self)@.after_delete(Some(rec))
                },
                Err(e) => e is Store && final(self)@ == old(self)@,
            },
    {
        let selected_id = self.selected_score_id;
        match self.position_of(selected_id) {
            Some(_) => {},
            None => return Err(ScoreError::SelectionMissing),
        }
        proof {
            lemma_first_index(self@.scores, self@.selected);
        }
        let target = self.delete_request();
        match self.store.delete_score(target) {
            Ok(()) => {},
            Err(e) => return Err(ScoreError::Store(e)),
        }
        if self.scores.len() == 1 {
            let (title, source) = Self::seed_request();
            match self.store.create_score(title, source) {
                Ok(record) => {
                    let ghost rv = record@;
                    self.apply_deletion(Some(record));
                    assert(is_starter(rv));
                },
                Err(e) => return Err(ScoreError::Store(e)),
            }
        } else {
            self.apply_deletion(None);
        }
        Ok(())
    }
}

// ---------------------------------------------------------------------------------------
// Laws of the manager
// ---------------------------------------------------------------------------------------

/// Renaming changes the title of the selected score and of no other: every other position
/// keeps its record, and the selection and numbering stay as they were.
pub proof fn lemma_rename_touches_only_selected(st: ManagerState, title: Seq<char>, j: int)
    requires
        st.wf(),
        0 <= j < st.scores.len(),
        j != st.selected_index(),
    ensures
        st.with_selected_title(title).scores[j] == st.scores[j],
        st.with_selected_title(title).scores.len() == st.scores.len(),
        st.with_selected_title(title).selected == st.selected,
        st.with_selected_title(title).scores[st.selected_index()].title == title,
        st.with_selected_title(title).scores[st.selected_index()].id == st.selected,
        st.with_selected_title(title).scores[st.selected_index()].source
            == st.scores[st.selected_index()].source,
        st.with_selected_title(title).next_untitled == st.next_untitled,
{
    lemma_first_index(st.scores, st.selected);
}

/// Saving a source changes the source of the selected score and nothing else: every other
/// position keeps its record, the selected record keeps its identifier and title, and the
/// selection and numbering stay as they were.
pub proof fn lemma_source_touches_only_selected(st: ManagerState, source: Seq<char>, j: int)
    requires
        st.wf(),
        0 <= j < st.scores.len(),
        j != st.selected_index(),
    ensures
        st.with_selected_source(source).scores[j] == st.scores[j],
        st.with_selected_source(source).scores.len() == st.scores.len(),
        st.with_selected_source(source).selected == st.selected,
        st.with_selected_source(source).next_untitled == st.next_untitled,
        st.with_selected_source(source).scores[st.selected_index()].source == source,
        st.with_selected_source(source).scores[st.selected_index()].id == st.selected,
        st.with_selected_source(source).scores[st.selected_index()].title
            == st.scores[st.selected_index()].title,
{
    lemma_first_index(st.scores, st.selected);
}

/// Deleting the selected score from a library of several removes exactly its record: one
/// record fewer, the records before it unchanged, the records after it moved down by one, and
/// the record now at its position (or the new last record) selected.
pub proof fn lemma_delete_removes_only_selected(st: ManagerState)
    requires
        st.wf(),
        st.scores.len() > 1,
    ensures
        st.after_delete(None).scores.len() == st.scores.len() - 1,
        forall|j: int| 0 <= j < st.selected_index() ==> st.after_delete(None).scores[j] == st.scores[j],
        forall|j: int|
            st.selected_index() <= j < st.scores.len() - 1 ==> st.after_delete(None).scores[j]
                == st.scores[j + 1],
        st.selected_index() < st.scores.len() - 1 ==> st.after_delete(None).selected
            == st.scores[st.selected_index() + 1].id,
        st.selected_index() == st.scores.len() - 1 ==> st.after_delete(None).selected
            == st.scores[st.scores.len() - 2].id,
        st.after_delete(None).next_untitled == st.next_untitled,
{
    lemma_first_index(st.scores, st.selected);
}

/// Selecting a score that the library holds makes it the selected score: the selection stays
/// valid and the selected record carries the chosen identifier.
pub proof fn lemma_select_reads_back(st: ManagerState, id: ScoreId)
    requires
        holds_id(st.scores, id),
    ensures
        (ManagerState { selected: id, ..st }).wf(),
        (ManagerState { selected: id, ..st }).scores[(ManagerState { selected: id, ..st }).selected_index()].id
            == id,
{
    lemma_first_index(st.scores, id);
}

/// A title written to the selected score is what the selected score then shows, and the
/// selection stays valid.
pub proof fn lemma_rename_reads_back(st: ManagerState, title: Seq<char>)
    requires
        st.wf(),
    ensures
        st.with_selected_title(title).wf(),
        st.with_selected_title(title).selected_index() == st.selected_index(),
        st.with_selected_title(title).scores[st.with_selected_title(title).selected_index()].title
            == title,
{
    lemma_first_index(st.scores, st.selected);
    let k = st.selected_index();
    let after = st.with_selected_title(title);
    assert(is_first_index(after.scores, st.selected, k));
    lemma_first_index_is(after.scores, st.selected, k);
}

/// A source written to the selected score is what the selected score then holds, and the
/// selection stays valid.
pub proof fn lemma_source_reads_back(st: ManagerState, source: Seq<char>)
    requires
        st.wf(),
    ensures
        st.with_selected_source(source).wf(),
        st.with_selected_source(source).selected_index() == st.selected_index(),
        st.with_selected_source(source).scores[st.with_selected_source(source).selected_index()].source
            == source,
{
    lemma_first_index(st.scores, st.selected);
    let k = st.selected_index();
    let after = st.with_selected_source(source);
    assert(is_first_index(after.scores, st.selected, k));
    lemma_first_index_is(after.scores, st.selected, k);
}

/// After a deletion that leaves scores behind, the newly selected score is one that was
/// in the library and is not the deleted record's position: it is the record that followed
/// the deleted one, or the new last record.
pub proof fn lemma_delete_selects_neighbour(st: ManagerState)
    requires
        st.wf(),
        st.remaining_after_delete().len() > 0,
    ensures
        0 <= st.index_after_delete() < st.remaining_after_delete().len(),
        st.selected_index() < st.scores.len() - 1 ==> st.remaining_after_delete()[st.index_after_delete()]
            == st.scores[st.selected_index() + 1],
        st.selected_index() == st.scores.len() - 1 ==> st.remaining_after_delete()[st.index_after_delete()]
            == st.scores[st.scores.len() - 2],
{
    lemma_first_index(st.scores, st.selected);
}

/// The numbering a library starts with lies above every untitled number already in use, so
/// the next untitled title is new to the library.
pub proof fn lemma_next_untitled_is_fresh(scores: Seq<ScoreView>, i: int)
    requires
        0 <= i < scores.len(),
        highest_untitled(scores) < u32::MAX,
    ensures
        parse_untitled_spec(scores[i].title) matches Some(n) ==> n < initial_state(scores).next_untitled,
        parse_untitled_spec(scores[i].title) != Some(initial_state(scores).next_untitled),
    decreases scores.len(),
{
    lemma_highest_untitled_bounds(scores, i);
}

/// The largest untitled number in use is itself a `u32`.
pub proof fn lemma_highest_untitled_fits(scores: Seq<ScoreView>)
    ensures
        highest_untitled(scores) <= u32::MAX,
    decreases scores.len(),
{
    if scores.len() > 0 {
        lemma_highest_untitled_fits(scores.drop_last());
    }
}

proof fn lemma_highest_untitled_bounds(scores: Seq<ScoreView>, i: int)
    requires
        0 <= i < scores.len(),
    ensures
        parse_untitled_spec(scores[i].title) matches Some(n) ==> n <= highest_untitled(scores),
    decreases scores.len(),
{
    if i < scores.len() - 1 {
        lemma_highest_untitled_bounds(scores.drop_last(), i);
        assert(scores.drop_last()[i] == scores[i]);
    }
}

// ---------------------------------------------------------------------------------------
// Where the library is kept
// ---------------------------------------------------------------------------------------

/// The operating system family, which decides where application data lives.
#[derive(Clone, Copy, Debug, PartialEq, Eq, Structural)]
pub enum Platform {
    Windows,
    MacOs,
    Other,
}

/// The environment that locates the data directory: the platform, the values of
/// `LOCALAPPDATA`, `HOME` and `XDG_DATA_HOME` where they are set, and the temporary directory.
pub struct DataDirEnv<P> {
    pub platform: Platform,
    pub local_app_data: Option<P>,
    pub home: Option<P>,
    pub xdg_data_home: Option<P>,
    pub temp_dir: P,
}

/// A path written as a base directory followed by path segments.
pub struct DataPath<P> {
    pub base: P,
    pub segments: Vec<&'static str>,
}

/// The segments of a path as character sequences.
pub open spec fn segment_views(s: Seq<&'static str>) -> Seq<Seq<char>> {
    s.map_values(|x: &'static str| x@)
}

/// The application data directory: `%LOCALAPPDATA%/lilypond-studio` on Windows,
/// `$HOME/Library/Application Support/lilypond-studio` on macOS, else
/// `$XDG_DATA_HOME/lilypond-studio`, else `$HOME/.local/share/lilypond-studio`, else a
/// `lilypond-studio` directory in the temporary directory. A platform whose own variable
/// is unset falls through to the later choices.
pub open spec fn data_root_spec<P>(env: DataDirEnv<P>) -> (P, Seq<Seq<char>>) {
    if env.platform == Platform::Windows && env.local_app_data is Some {
        (env.local_app_data->0, seq!["lilypond-studio"@])
    } else if env.platform == Platform::MacOs && env.home is Some {
        (env.home->0, seq!["Library"@, "Application Support"@, "lilypond-studio"@])
    } else if env.xdg_data_home is Some {
        (env.xdg_data_home->0, seq!["lilypond-studio"@])
    } else if env.home is Some {
        (env.home->0, seq![".local"@, "share"@, "lilypond-studio"@])
    } else {
        (env.temp_dir, seq!["lilypond-studio"@])
    }
}

/// The application data directory for `env` (see `data_root_spec`).
pub fn app_data_root<P>(env: DataDirEnv<P>) -> (r: DataPath<P>)
    ensures
        (r.base, segment_views(r.segments@)) == data_root_spec(env),
{
    let ghost e = env;
    let DataDirEnv { platform, local_app_data, home, xdg_data_home, temp_dir } = env;
    let mut segments: Vec<&'static str> = Vec::new();
    let base;
    if platform == Platform::Windows && local_app_data.is_some() {
        base = local_app_data.unwrap();
    } else if platform == Platform::MacOs && home.is_some() {
        base = home.unwrap();
        segments.push("Library");
        segments.push("Application Support");
    } else if xdg_data_home.is_some() {
        base = xdg_data_home.unwrap();
    } else if home.is_some() {
        base = home.unwrap();
        segments.push(".local");
        segments.push("share");
    } else {
        base = temp_dir;
    }
    segments.push("lilypond-studio");
    let r = DataPath { base, segments };
    assert(segment_views(r.segments@) =~= data_root_spec(e).1);
    r
}

/// The score database: `scores.db` in the application data directory.
pub fn default_database_path<P>(env: DataDirEnv<P>) -> (r: DataPath<P>)
    ensures
        (r.base, segment_views(r.segments@)) == (data_root_spec(env).0, data_root_spec(env).1.push("scores.db"@)),
{
    let mut r = app_data_root(env);
    r.segments.push("scores.db");
    assert(segment_views(r.segments@) =~= data_root_spec(env).1.push("scores.db"@));
    r
}

} // verus!
