//! The studio's decisions apart from drawing: which screen and document are shown, which
//! render job is current, which preview page is on view, and the status texts.
use vstd::prelude::*;
use vstd::string::*;

use crate::scores::{ScoreId, ScoreManager, ScoreStore};
use crate::text::{decimal, decimal_string};
use crate::tutorial::LESSON_COUNT;

verus! {

/// Where the last render stands.
#[derive(Clone, Copy, Debug, PartialEq, Eq, Structural)]
pub enum RenderPhase {
    /// Nothing rendered yet for this document.
    Idle,
    /// A render job is running.
    Rendering,
    /// The last render produced pages.
    Ready,
    /// The last render failed.
    Error,
}

/// The two screens of the studio.
#[derive(Clone, Copy, Debug, PartialEq, Eq, Structural)]
pub enum AppScreen {
    /// Editor and preview.
    Studio,
    /// The file library.
    Scores,
}

/// The document in the editor: a saved score, or a tutorial lesson by position.
#[derive(Clone, Copy, Debug, PartialEq, Eq, Structural)]
pub enum ActiveDocument {
    Score(ScoreId),
    Tutorial(usize),
}

/// The studio state as a mathematical value.
pub struct StudioView<P> {
    pub screen: AppScreen,
    pub document: ActiveDocument,
    pub phase: RenderPhase,
    pub next_job: u64,
    pub active_job: Option<u64>,
    pub pages: Seq<P>,
    pub page: nat,
    pub dirty: bool,
    pub log: Seq<char>,
}

impl<P> StudioView<P> {
    /// The page on view is a page of the preview, or the first position when there is none;
    /// a running job has a number below the next one.
    pub open spec fn wf(self) -> bool {
        &&& (self.page == 0 || self.page < self.pages.len())
        &&& (self.active_job matches Some(j) ==> j < self.next_job)
    }

    /// The state with the preview emptied for a new document: no job awaited, no pages,
    /// the first page, an empty log, nothing rendered, and the preview stale.
    pub open spec fn reset_preview(self) -> StudioView<P> {
        StudioView {
            active_job: None,
            pages: Seq::empty(),
            page: 0,
            log: Seq::empty(),
            phase: RenderPhase::Idle,
            dirty: true,
            ..self
        }
    }
}

/// The outcome of a render job as the studio receives it: the pages and the log, or the
/// error's text.
pub type RenderResult<P> = Result<(Vec<P>, String), String>;

/// What the studio shows and decides, with `P` the type of a rendered page.
pub struct StudioState<P> {
    current_screen: AppScreen,
    active_document: ActiveDocument,
    render_phase: RenderPhase,
    next_render_job: u64,
    active_render_job: Option<u64>,
    preview_pages: Vec<P>,
    current_preview_page: usize,
    dirty: bool,
    render_log: String,
}

impl<P> View for StudioState<P> {
    type V = StudioView<P>;

    closed spec fn view(&self) -> StudioView<P> {
        StudioView {
            screen: self.current_screen,
            document: self.active_document,
            phase: self.render_phase,
            next_job: self.next_render_job,
            active_job: self.active_render_job,
            pages: self.preview_pages@,
            page: self.current_preview_page as nat,
            dirty: self.dirty,
            log: self.render_log@,
        }
    }
}

impl<P> StudioState<P> {
    /// Every studio state keeps the page on view within the preview and awaits only a job
    /// that was started.
    #[verifier::type_invariant]
    spec fn studio_inv(self) -> bool {
        self@.wf()
    }

    /// The state the studio opens in: the library screen, score `initial_score` in the
    /// editor, nothing rendered, job numbering from 0, and the preview stale.
    pub fn new(initial_score: ScoreId) -> (s: Self)
        ensures
            s@ == (StudioView::<P> {
                screen: AppScreen::Scores,
                document: ActiveDocument::Score(initial_score),
                phase: RenderPhase::Idle,
                next_job: 0,
                active_job: None,
                pages: Seq::empty(),
                page: 0,
                dirty: true,
                log: Seq::empty(),
            }),
            s@.wf(),
    {
        StudioState {
            current_screen: AppScreen::Scores,
            active_document: ActiveDocument::Score(initial_score),
            render_phase: RenderPhase::Idle,
            next_render_job: 0,
            active_render_job: None,
            preview_pages: Vec::new(),
            current_preview_page: 0,
            dirty: true,
            render_log: String::new(),
        }
    }

    /// The screen on view.
    pub fn current_screen(&self) -> (s: AppScreen)
        ensures
            s == self@.screen,
    {
        self.current_screen
    }

    /// The document in the editor.
    pub fn active_document(&self) -> (d: ActiveDocument)
        ensures
            d == self@.document,
    {
        self.active_document
    }

    /// Where the last render stands.
    pub fn render_phase(&self) -> (p: RenderPhase)
        ensures
            p == self@.phase,
    {
        self.render_phase
    }

    /// The number that the next render job gets.
    pub fn next_render_job(&self) -> (n: u64)
        ensures
            n == self@.next_job,
    {
        self.next_render_job
    }

    /// The pages of the last successful render of this document.
    pub fn preview_pages(&self) -> (p: &Vec<P>)
        ensures
            p@ == self@.pages,
    {
        &self.preview_pages
    }

    /// The position of the page on view.
    pub fn current_preview_page(&self) -> (i: usize)
        ensures
            i == self@.page,
    {
        self.current_preview_page
    }

    /// Whether the document changed since the last render began.
    pub fn is_dirty(&self) -> (d: bool)
        ensures
            d == self@.dirty,
    {
        self.dirty
    }

    /// The last render's log, or the last error's text.
    pub fn render_log(&self) -> (l: &str)
        ensures
            l@ == self@.log,
    {
        self.render_log.as_str()
    }

    /// Whether a tutorial lesson is in the editor.
    pub fn is_tutorial_active(&self) -> (b: bool)
        ensures
            b == (self@.document is Tutorial),
    {
        match self.active_document {
            ActiveDocument::Tutorial(_) => true,
            ActiveDocument::Score(_) => false,
        }
    }

    /// Shows the studio screen; `true` when the screen changed.
    pub fn show_studio_screen(&mut self) -> (changed: bool)
        ensures
            changed == (old(self)@.screen != AppScreen::Studio),
            final(self)@ == (StudioView { screen: AppScreen::Studio, ..old(self)@ }),
    {
        proof {
            use_type_invariant(&*self);
        }
        if self.current_screen != AppScreen::Studio {
            self.current_screen = AppScreen::Studio;
            true
        } else {
            false
        }
    }

    /// Shows the library screen; `true` when the screen changed.
    pub fn show_scores_screen(&mut self) -> (changed: bool)
        ensures
            changed == (old(self)@.screen != AppScreen::Scores),
            final(self)@ == (StudioView { screen: AppScreen::Scores, ..old(self)@ }),
    {
        proof {
            use_type_invariant(&*self);
        }
        if self.current_screen != AppScreen::Scores {
            self.current_screen = AppScreen::Scores;
            true
        } else {
            false
        }
    }

    /// Starts a render job and returns its number: the job becomes the one awaited, the
    /// phase becomes rendering, the log is cleared and the preview counts as current.
    pub fn begin_render(&mut self) -> (job: u64)
        requires
            old(self)@.next_job < u64::MAX,
        ensures
            job == old(self)@.next_job,
            final(self)@ == (StudioView {
                next_job: (job + 1) as u64,
                active_job: Some(job),
                phase: RenderPhase::Rendering,
                log: Seq::empty(),
                dirty: false,
                ..old(self)@
            }),
            final(self)@.wf(),
    {
        proof {
            use_type_invariant(&*self);
        }
        let job = self.next_render_job;
        self.next_render_job = self.next_render_job + 1;
        self.active_render_job = Some(job);
        self.render_phase = RenderPhase::Rendering;
        self.render_log = String::new();
        self.dirty = false;
        job
    }

    /// Takes the outcome of render job `job`. An outcome of any job but the awaited one is
    /// ignored and `false` returned. Otherwise the job is no longer awaited, and pages
    /// replace the preview from its first page with the phase ready, or an error's text
    /// becomes the log with the phase failed.
    pub fn finish_render(&mut self, job: u64, result: RenderResult<P>) -> (taken: bool)
        ensures
            taken == (old(self)@.active_job == Some(job)),
            !taken ==> final(self)@ == old(self)@,
            taken ==> match result {
                Ok((pages, log)) => final(self)@ == (StudioView {
                    active_job: None,
                    pages: pages@,
                    page: 0,
                    phase: RenderPhase::Ready,
                    log: log@,
                    ..old(self)@
                }),
                Err(message) => final(self)@ == (StudioView {
                    active_job: None,
                    phase: RenderPhase::Error,
                    log: message@,
                    ..old(self)@
                }),
            },
            final(self)@.wf(),
    {
        proof {
            use_type_invariant(&*self);
        }
        match self.active_render_job {
            Some(active) => {
                if active != job {
                    return false;
                }
            },
            None => return false,
        }
        self.active_render_job = None;
        match result {
            Ok((pages, log)) => {
                self.current_preview_page = 0;
                self.preview_pages = pages;
                self.render_phase = RenderPhase::Ready;
                self.render_log = log;
            },
            Err(message) => {
                self.render_phase = RenderPhase::Error;
                self.render_log = message;
            },
        }
        true
    }

    /// Marks the preview as behind the editor.
    pub fn mark_preview_stale(&mut self)
        ensures
            final(self)@ == (StudioView { dirty: true, ..old(self)@ }),
    {
        proof {
            use_type_invariant(&*self);
        }
        self.dirty = true;
    }

    /// Shows a failure of a library operation: the phase becomes failed and `message` the log.
    pub fn report_error(&mut self, message: String)
        ensures
            final(self)@ == (StudioView { phase: RenderPhase::Error, log: message@, ..old(self)@ }),
    {
        proof {
            use_type_invariant(&*self);
        }
        self.render_phase = RenderPhase::Error;
        self.render_log = message;
    }

    /// Empties the preview for a new document.
    pub fn reset_preview_for_score_switch(&mut self)
        ensures
            final(self)@ == old(self)@.reset_preview(),
            final(self)@.wf(),
    {
        proof {
            use_type_invariant(&*self);
        }
        self.active_render_job = None;
        self.current_preview_page = 0;
        self.preview_pages = Vec::new();
        self.render_log = String::new();
        self.render_phase = RenderPhase::Idle;
        self.dirty = true;
    }

    /// Puts score `id` in the editor after it was selected, with an empty preview, on the
    /// studio screen.
    pub fn open_score(&mut self, id: ScoreId)
        ensures
            final(self)@ == (StudioView {
                document: ActiveDocument::Score(id),
                screen: AppScreen::Studio,
                ..old(self)@.reset_preview()
            }),
            final(self)@.wf(),
    {
        proof {
            use_type_invariant(&*self);
        }
        self.active_document = ActiveDocument::Score(id);
        self.reset_preview_for_score_switch();
        self.current_screen = AppScreen::Studio;
    }

    /// Puts lesson `index` in the editor, with an empty preview, on the studio screen.
    pub fn open_tutorial(&mut self, index: usize)
        ensures
            final(self)@ == (StudioView {
                document: ActiveDocument::Tutorial(index),
                screen: AppScreen::Studio,
                ..old(self)@.reset_preview()
            }),
            final(self)@.wf(),
    {
        proof {
            use_type_invariant(&*self);
        }
        self.active_document = ActiveDocument::Tutorial(index);
        self.reset_preview_for_score_switch();
        self.current_screen = AppScreen::Studio;
    }

    /// Puts score `id` in the editor after a score was created or deleted, with an empty
    /// preview, on the same screen.
    pub fn replace_score(&mut self, id: ScoreId)
        ensures
            final(self)@ == (StudioView {
                document: ActiveDocument::Score(id),
                ..old(self)@.reset_preview()
            }),
            final(self)@.wf(),
    {
        proof {
            use_type_invariant(&*self);
        }
        self.active_document = ActiveDocument::Score(id);
        self.reset_preview_for_score_switch();
    }

    /// Shows the previous page; `false`, with nothing changed, on the first page.
    pub fn previous_preview_page(&mut self) -> (moved: bool)
        ensures
            moved == (old(self)@.page > 0),
            final(self)@ == (if moved {
                StudioView { page: (old(self)@.page - 1) as nat, ..old(self)@ }
            } else {
                old(self)@
            }),
            final(self)@.wf(),
    {
        proof {
            use_type_invariant(&*self);
        }
        if self.current_preview_page > 0 {
            self.current_preview_page = self.current_preview_page - 1;
            true
        } else {
            false
        }
    }

    /// Shows the next page; `false`, with nothing changed, on the last page.
    pub fn next_preview_page(&mut self) -> (moved: bool)
        ensures
            moved == (old(self)@.page + 1 < old(self)@.pages.len()),
            final(self)@ == (if moved {
                StudioView { page: old(self)@.page + 1, ..old(self)@ }
            } else {
                old(self)@
            }),
            final(self)@.wf(),
    {
        proof {
            use_type_invariant(&*self);
        }
        if self.current_preview_page < self.preview_pages.len()
            && self.preview_pages.len() - self.current_preview_page > 1 {
            self.current_preview_page = self.current_preview_page + 1;
            true
        } else {
            false
        }
    }

    /// Whether the previous-page action is available: a preview exists and a page precedes
    /// the one on view.
    pub fn can_go_previous(&self) -> (b: bool)
        ensures
            b == (self@.pages.len() > 0 && self@.page > 0),
    {
        self.preview_pages.len() > 0 && self.current_preview_page > 0
    }

    /// Whether the next-page action is available: a page follows the one on view.
    pub fn can_go_next(&self) -> (b: bool)
        ensures
            b == (self@.pages.len() > 0 && self@.page + 1 < self@.pages.len()),
    {
        self.preview_pages.len() > 0 && self.current_preview_page < self.preview_pages.len()
            && self.preview_pages.len() - self.current_preview_page > 1
    }

    /// The label of the render badge.
    pub fn render_badge_label(&self) -> (l: &'static str)
        ensures
            l@ == badge_label_spec(self@.phase, self@.dirty),
    {
        match self.render_phase {
            RenderPhase::Idle => "Ready to render",
            RenderPhase::Rendering => "Rendering",
            RenderPhase::Ready => if self.dirty {
                "Preview stale"
            } else {
                "Preview current"
            },
            RenderPhase::Error => "Render failed",
        }
    }

    /// The sentence under the badge that explains the render state.
    pub fn render_detail(&self) -> (d: String)
        ensures
            d@ == render_detail_spec(self@.phase, self@.dirty, self@.pages.len()),
    {
        match self.render_phase {
            RenderPhase::Idle => String::from_str(IDLE_DETAIL),
            RenderPhase::Rendering => String::from_str(RENDERING_DETAIL),
            RenderPhase::Ready => {
                let mut d = decimal_string(self.preview_pages.len() as u64);
                if self.dirty {
                    d.append(STALE_DETAIL);
                } else {
                    d.append(CURRENT_DETAIL);
                }
                d
            },
            RenderPhase::Error => String::from_str(ERROR_DETAIL),
        }
    }

    /// The page count of the preview in words.
    pub fn preview_page_summary(&self) -> (s: String)
        ensures
            s@ == page_summary_spec(self@.pages.len()),
    {
        let n = self.preview_pages.len();
        if n == 0 {
            String::from_str("No preview")
        } else if n == 1 {
            String::from_str("1 page")
        } else {
            let mut s = decimal_string(n as u64);
            s.append(" pages");
            s
        }
    }

    /// Where the page on view stands: `Page <n> of <count>`, or `No pages yet`.
    pub fn preview_position_label(&self) -> (s: String)
        ensures
            s@ == position_label_spec(self@.page, self@.pages.len()),
            self@.pages.len() > 0 ==> s@ == "Page "@ + decimal(self@.page + 1) + " of "@
                + decimal(self@.pages.len()),
    {
        proof {
            use_type_invariant(self);
        }
        let count = self.preview_pages.len();
        if count == 0 {
            return String::from_str("No pages yet");
        }
        let mut s = String::from_str("Page ");
        let page = decimal_string((self.current_preview_page + 1) as u64);
        s.append(page.as_str());
        s.append(" of ");
        let total = decimal_string(count as u64);
        s.append(total.as_str());
        s
    }

    /// The title of the document in the editor: the selected score's, or the lesson's.
    pub fn selected_document_title<'a, S: ScoreStore + ?Sized>(
        &self,
        manager: &'a ScoreManager<S>,
        lesson_titles: &'a Vec<&'static str>,
    ) -> (t: &'a str)
        requires
            self@.document is Score ==> manager@.wf(),
            self@.document matches ActiveDocument::Tutorial(i) ==> i < lesson_titles@.len(),
        ensures
            t@ == match self@.document {
                ActiveDocument::Score(_) => manager@.scores[manager@.selected_index()].title,
                ActiveDocument::Tutorial(i) => lesson_titles@[i as int]@,
            },
    {
        match self.active_document {
            ActiveDocument::Score(_) => manager.selected_score().title.as_str(),
            ActiveDocument::Tutorial(index) => lesson_titles[index],
        }
    }

    /// Whether the library's delete action is available: a saved score is in the editor and
    /// the library holds scores.
    pub fn can_delete(&self, score_count: usize) -> (b: bool)
        ensures
            b == (self@.document is Score && score_count > 0),
    {
        match self.active_document {
            ActiveDocument::Score(_) => score_count > 0,
            ActiveDocument::Tutorial(_) => false,
        }
    }
}

/// Detail while nothing was rendered.
pub const IDLE_DETAIL: &'static str =
    "Edit the score in the center pane, then compile it with the LilyPond CLI.";

/// Detail while a job runs.
pub const RENDERING_DETAIL: &'static str =
    "Running LilyPond and collecting the generated SVG pages.";

/// Detail after a render, behind a page count, when the editor changed since.
pub const STALE_DETAIL: &'static str =
    " page(s) rendered. The current score changed since the last successful render.";

/// Detail after a render, behind a page count, when the editor did not change since.
pub const CURRENT_DETAIL: &'static str = " page(s) rendered from the current editor content.";

/// Detail after a failed render.
pub const ERROR_DETAIL: &'static str =
    "LilyPond returned an error. Fix the notation and render again.";

/// The badge label for a render phase and staleness.
pub open spec fn badge_label_spec(phase: RenderPhase, dirty: bool) -> Seq<char> {
    match phase {
        RenderPhase::Idle => "Ready to render"@,
        RenderPhase::Rendering => "Rendering"@,
        RenderPhase::Ready => if dirty { "Preview stale"@ } else { "Preview current"@ },
        RenderPhase::Error => "Render failed"@,
    }
}

/// The detail sentence for a render phase, staleness and page count.
pub open spec fn render_detail_spec(phase: RenderPhase, dirty: bool, pages: nat) -> Seq<char> {
    match phase {
        RenderPhase::Idle => IDLE_DETAIL@,
        RenderPhase::Rendering => RENDERING_DETAIL@,
        RenderPhase::Ready => decimal(pages) + (if dirty { STALE_DETAIL@ } else { CURRENT_DETAIL@ }),
        RenderPhase::Error => ERROR_DETAIL@,
    }
}

/// A page count in words: `No preview`, `1 page`, or the count and `pages`.
pub open spec fn page_summary_spec(n: nat) -> Seq<char> {
    if n == 0 {
        "No preview"@
    } else if n == 1 {
        "1 page"@
    } else {
        decimal(n) + " pages"@
    }
}

/// The position of the page on view in words.
pub open spec fn position_label_spec(page: nat, count: nat) -> Seq<char> {
    if count == 0 {
        "No pages yet"@
    } else {
        "Page "@ + decimal(page + 1) + " of "@ + decimal(count)
    }
}

/// The page position is counted from one at the first page: with pages on view, the label
/// is `Page`, the 1-based position of the page on view, `of` and the page count; the first
/// page is `Page 1`, and the next page's number is one more.
pub proof fn lemma_position_label_counts_from_one(page: nat, count: nat)
    requires
        count > 0,
    ensures
        position_label_spec(page, count) == "Page "@ + decimal(page + 1) + " of "@ + decimal(count),
        position_label_spec(0, count) == "Page "@ + seq!['1'] + " of "@ + decimal(count),
        page + 1 < count ==> position_label_spec(page + 1, count) == "Page "@ + decimal(page + 2)
            + " of "@ + decimal(count),
{
    assert(decimal(1) == seq!['1']);
}

/// A count of files in words: `1 file`, or the count and `files`.
pub open spec fn file_count_spec(n: nat) -> Seq<char> {
    if n == 1 {
        "1 file"@
    } else {
        decimal(n) + " files"@
    }
}

/// A count of tutorials in words: `1 tutorial`, or the count and `tutorials`.
pub open spec fn tutorial_count_spec(n: nat) -> Seq<char> {
    if n == 1 {
        "1 tutorial"@
    } else {
        decimal(n) + " tutorials"@
    }
}

/// The number of files in the library, the saved scores and the lessons, in words.
pub fn file_count_summary(score_count: usize) -> (s: String)
    requires
        score_count + LESSON_COUNT <= usize::MAX,
    ensures
        s@ == file_count_spec((score_count + LESSON_COUNT) as nat),
{
    let n = score_count + LESSON_COUNT;
    if n == 1 {
        String::from_str("1 file")
    } else {
        let mut s = decimal_string(n as u64);
        s.append(" files");
        s
    }
}

/// The number of lessons in words.
pub fn tutorial_count_summary() -> (s: String)
    ensures
        s@ == tutorial_count_spec(LESSON_COUNT as nat),
{
    let n = LESSON_COUNT;
    if n == 1 {
        String::from_str("1 tutorial")
    } else {
        let mut s = decimal_string(n as u64);
        s.append(" tutorials");
        s
    }
}

} // verus!
