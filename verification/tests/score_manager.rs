use std::sync::{Arc, Mutex};

use lilypond_studio::scores::{
    ScoreError, ScoreId, ScoreManager, ScoreRecord, ScoreStore, StoreError, DEFAULT_SCORE_TITLE,
    NEW_SCORE_SOURCE,
};
use lilypond_studio::tutorial::default_source;

#[derive(Default)]
struct InMemoryScoreStore {
    inner: Mutex<InMemoryState>,
}

#[derive(Default)]
struct InMemoryState {
    next_id: ScoreId,
    scores: Vec<ScoreRecord>,
}

impl InMemoryScoreStore {
    fn with_scores(scores: Vec<ScoreRecord>) -> Self {
        let next_id = scores.iter().map(|score| score.id).max().unwrap_or(0);
        Self {
            inner: Mutex::new(InMemoryState { next_id, scores }),
        }
    }
}

fn missing(what: &str) -> StoreError {
    StoreError {
        message: format!("score should exist while {what}"),
    }
}

impl ScoreStore for InMemoryScoreStore {
    fn list_scores(&self) -> Result<Vec<ScoreRecord>, StoreError> {
        Ok(self.inner.lock().unwrap().scores.clone())
    }

    fn create_score(&self, title: &str, source: &str) -> Result<ScoreRecord, StoreError> {
        let mut inner = self.inner.lock().unwrap();
        inner.next_id += 1;
        let score = ScoreRecord {
            id: inner.next_id,
            title: title.to_string(),
            source: source.to_string(),
        };
        inner.scores.push(score.clone());
        Ok(score)
    }

    fn update_score_title(&self, id: ScoreId, title: &str) -> Result<(), StoreError> {
        let mut inner = self.inner.lock().unwrap();
        let score = inner
            .scores
            .iter_mut()
            .find(|score| score.id == id)
            .ok_or_else(|| missing("renaming"))?;
        score.title = title.to_string();
        Ok(())
    }

    fn update_score_source(&self, id: ScoreId, source: &str) -> Result<(), StoreError> {
        let mut inner = self.inner.lock().unwrap();
        let score = inner
            .scores
            .iter_mut()
            .find(|score| score.id == id)
            .ok_or_else(|| missing("saving"))?;
        score.source = source.to_string();
        Ok(())
    }

    fn delete_score(&self, id: ScoreId) -> Result<(), StoreError> {
        let mut inner = self.inner.lock().unwrap();
        let index = inner
            .scores
            .iter()
            .position(|score| score.id == id)
            .ok_or_else(|| missing("deleting"))?;
        inner.scores.remove(index);
        Ok(())
    }
}

/// A store that refuses every operation.
struct BrokenStore;

impl ScoreStore for BrokenStore {
    fn list_scores(&self) -> Result<Vec<ScoreRecord>, StoreError> {
        Err(StoreError { message: "offline".to_string() })
    }
    fn create_score(&self, _title: &str, _source: &str) -> Result<ScoreRecord, StoreError> {
        Err(StoreError { message: "offline".to_string() })
    }
    fn update_score_title(&self, _id: ScoreId, _title: &str) -> Result<(), StoreError> {
        Err(StoreError { message: "offline".to_string() })
    }
    fn update_score_source(&self, _id: ScoreId, _source: &str) -> Result<(), StoreError> {
        Err(StoreError { message: "offline".to_string() })
    }
    fn delete_score(&self, _id: ScoreId) -> Result<(), StoreError> {
        Err(StoreError { message: "offline".to_string() })
    }
}

/// A store that accepts writes but always lists nothing.
struct ForgetfulStore;

impl ScoreStore for ForgetfulStore {
    fn list_scores(&self) -> Result<Vec<ScoreRecord>, StoreError> {
        Ok(Vec::new())
    }
    fn create_score(&self, title: &str, source: &str) -> Result<ScoreRecord, StoreError> {
        Ok(record(1, title, source))
    }
    fn update_score_title(&self, _id: ScoreId, _title: &str) -> Result<(), StoreError> {
        Ok(())
    }
    fn update_score_source(&self, _id: ScoreId, _source: &str) -> Result<(), StoreError> {
        Ok(())
    }
    fn delete_score(&self, _id: ScoreId) -> Result<(), StoreError> {
        Ok(())
    }
}

fn record(id: ScoreId, title: &str, source: &str) -> ScoreRecord {
    ScoreRecord {
        id,
        title: title.to_string(),
        source: source.to_string(),
    }
}

#[test]
fn seeds_default_score_when_library_is_empty() {
    let store = Arc::new(InMemoryScoreStore::default());
    let manager = ScoreManager::load(store).unwrap();

    assert_eq!(manager.scores().len(), 1);
    assert_eq!(manager.selected_score().title, DEFAULT_SCORE_TITLE);
    assert_eq!(manager.selected_score().source, default_source());
}

#[test]
fn loads_existing_scores_without_reseeding() {
    let store = Arc::new(InMemoryScoreStore::with_scores(vec![
        record(4, "Existing One", "a"),
        record(9, "Existing Two", "b"),
    ]));
    let manager = ScoreManager::load(store).unwrap();

    assert_eq!(manager.scores().len(), 2);
    assert_eq!(manager.selected_score_id(), 4);
}

#[test]
fn selecting_a_score_changes_the_current_record() {
    let store = Arc::new(InMemoryScoreStore::with_scores(vec![record(1, "One", "a"), record(2, "Two", "b")]));
    let mut manager = ScoreManager::load(store).unwrap();

    assert!(manager.select_score(2));
    assert_eq!(manager.selected_score().title, "Two");
}

#[test]
fn creating_a_score_selects_and_appends_it() {
    let store = Arc::new(InMemoryScoreStore::with_scores(vec![record(1, "One", "a")]));
    let mut manager = ScoreManager::load(store).unwrap();

    let created = manager.create_score().unwrap();

    assert_eq!(created.title, "Untitled Score 1");
    assert_eq!(manager.selected_score_id(), created.id);
    assert_eq!(manager.scores().last().unwrap().id, created.id);
}

#[test]
fn renaming_selected_score_only_updates_that_record() {
    let store = Arc::new(InMemoryScoreStore::with_scores(vec![record(1, "One", "a"), record(2, "Two", "b")]));
    let mut manager = ScoreManager::load(store).unwrap();
    manager.select_score(2);

    manager.rename_selected_score("Renamed").unwrap();

    assert_eq!(manager.scores()[0].title, "One");
    assert_eq!(manager.scores()[1].title, "Renamed");
}

#[test]
fn deleting_selected_score_moves_selection_to_the_next_record() {
    let store = Arc::new(InMemoryScoreStore::with_scores(vec![
        record(1, "One", "a"),
        record(2, "Two", "b"),
        record(3, "Three", "c"),
    ]));
    let mut manager = ScoreManager::load(store).unwrap();
    manager.select_score(2);

    manager.delete_selected_score().unwrap();

    assert_eq!(manager.selected_score_id(), 3);
    assert_eq!(manager.scores().len(), 2);
}

#[test]
fn deleting_the_last_score_recreates_a_default_record() {
    let store = Arc::new(InMemoryScoreStore::with_scores(vec![record(1, "Only", "a")]));
    let mut manager = ScoreManager::load(store).unwrap();

    manager.delete_selected_score().unwrap();

    assert_eq!(manager.scores().len(), 1);
    assert_eq!(manager.selected_score().title, DEFAULT_SCORE_TITLE);
}

#[test]
fn updating_selected_source_keeps_the_latest_editor_content() {
    let store = Arc::new(InMemoryScoreStore::with_scores(vec![record(1, "One", "old")]));
    let mut manager = ScoreManager::load(store).unwrap();

    manager.update_selected_source("new source").unwrap();

    assert_eq!(manager.selected_score().source, "new source");
}

#[test]
fn selecting_the_selected_or_a_missing_score_changes_nothing() {
    let store = Arc::new(InMemoryScoreStore::with_scores(vec![record(1, "One", "a"), record(2, "Two", "b")]));
    let mut manager = ScoreManager::load(store).unwrap();

    assert!(!manager.select_score(1));
    assert!(!manager.select_score(7));
    assert_eq!(manager.selected_score_id(), 1);
}

#[test]
fn untitled_numbering_continues_after_the_highest_number() {
    let store = Arc::new(InMemoryScoreStore::with_scores(vec![
        record(1, "Untitled Score 4", "a"),
        record(2, "Untitled Score 12", "b"),
        record(3, "Untitled Score x", "c"),
    ]));
    let mut manager = ScoreManager::load(store).unwrap();
    assert_eq!(manager.next_untitled_index(), 13);

    let created = manager.create_score().unwrap();
    assert_eq!(created.title, "Untitled Score 13");
    assert_eq!(created.source, NEW_SCORE_SOURCE);
    assert_eq!(manager.next_untitled_index(), 14);
    assert_eq!(manager.scores().len(), 4);
}

#[test]
fn deleting_the_last_position_selects_the_new_last_score() {
    let store = Arc::new(InMemoryScoreStore::with_scores(vec![
        record(1, "One", "a"),
        record(2, "Two", "b"),
        record(3, "Three", "c"),
    ]));
    let mut manager = ScoreManager::load(store).unwrap();
    manager.select_score(3);

    manager.delete_selected_score().unwrap();

    assert_eq!(manager.selected_score_id(), 2);
    assert_eq!(manager.scores().len(), 2);
}

#[test]
fn renaming_trims_the_title_and_ignores_blank_titles() {
    let store = Arc::new(InMemoryScoreStore::with_scores(vec![record(1, "One", "a")]));
    let mut manager = ScoreManager::load(store).unwrap();

    manager.rename_selected_score("  Spaced Out \t\n").unwrap();
    assert_eq!(manager.selected_score().title, "Spaced Out");

    manager.rename_selected_score(" \u{3000} \n").unwrap();
    assert_eq!(manager.selected_score().title, "Spaced Out");
}

#[test]
fn store_errors_surface_and_leave_the_library_unchanged() {
    match ScoreManager::load(Arc::new(BrokenStore)) {
        Err(ScoreError::Store(e)) => assert_eq!(e.message, "offline"),
        _ => panic!("expected a store error"),
    }
}

#[test]
fn a_library_that_stays_empty_reports_no_initial_score() {
    assert!(matches!(
        ScoreManager::load(Arc::new(ForgetfulStore)),
        Err(ScoreError::NoInitialScore)
    ));
}

#[test]
fn the_largest_untitled_number_exhausts_numbering() {
    let store = Arc::new(InMemoryScoreStore::with_scores(vec![record(1, "Untitled Score 4294967295", "a")]));
    assert!(matches!(
        ScoreManager::load(store),
        Err(ScoreError::UntitledIndexExhausted)
    ));
}

#[test]
fn from_listing_keeps_the_listed_scores() {
    let listed = vec![record(5, "Five", "a"), record(6, "Untitled Score 2", "b")];
    let manager = ScoreManager::from_listing(Arc::new(ForgetfulStore), listed).unwrap();
    assert_eq!(manager.selected_score_id(), 5);
    assert_eq!(manager.next_untitled_index(), 3);
    assert_eq!(manager.scores().len(), 2);
}

/// A store that lists one score and deletes it, but can create nothing.
struct NoCreateStore;

impl ScoreStore for NoCreateStore {
    fn list_scores(&self) -> Result<Vec<ScoreRecord>, StoreError> {
        Ok(vec![record(1, "Only", "a")])
    }
    fn create_score(&self, _title: &str, _source: &str) -> Result<ScoreRecord, StoreError> {
        Err(StoreError { message: "read-only".to_string() })
    }
    fn update_score_title(&self, _id: ScoreId, _title: &str) -> Result<(), StoreError> {
        Ok(())
    }
    fn update_score_source(&self, _id: ScoreId, _source: &str) -> Result<(), StoreError> {
        Ok(())
    }
    fn delete_score(&self, _id: ScoreId) -> Result<(), StoreError> {
        Ok(())
    }
}

#[test]
fn a_failed_reseed_keeps_a_selected_score() {
    let mut manager = ScoreManager::load(Arc::new(NoCreateStore)).unwrap();
    assert!(matches!(manager.delete_selected_score(), Err(ScoreError::Store(_))));
    assert_eq!(manager.scores().len(), 1);
    assert!(manager.has_selected_score());
    assert_eq!(manager.selected_score().title, "Only");
    assert!(matches!(manager.create_score(), Err(ScoreError::Store(_))));
    assert_eq!(manager.next_untitled_index(), 2);
}

#[test]
fn deleting_the_only_score_reseeds_the_starter() {
    let mut manager = ScoreManager::from_listing(Arc::new(ForgetfulStore), vec![record(1, "One", "a")]).unwrap();
    manager.apply_deletion(Some(record(1, "Starter Score", "s")));
    assert_eq!(manager.selected_score_id(), 1);
    manager.delete_selected_score().unwrap();
    assert_eq!(manager.scores().len(), 1);
    assert_eq!(manager.selected_score().title, DEFAULT_SCORE_TITLE);
    assert_eq!(manager.selected_score().source, default_source());
}

#[test]
fn failed_writes_leave_the_library_unchanged() {
    let store = Arc::new(InMemoryScoreStore::with_scores(vec![record(1, "One", "a")]));
    let mut manager = ScoreManager::load(store).unwrap();
    let mut broken = ScoreManager::from_listing(Arc::new(BrokenStore), vec![record(1, "One", "a")]).unwrap();
    assert!(matches!(broken.rename_selected_score("New"), Err(ScoreError::Store(_))));
    assert!(matches!(broken.update_selected_source("x"), Err(ScoreError::Store(_))));
    assert!(matches!(broken.delete_selected_score(), Err(ScoreError::Store(_))));
    assert_eq!(broken.scores()[0].title, "One");
    assert_eq!(broken.scores()[0].source, "a");
    manager.update_selected_source("b").unwrap();
    assert_eq!(manager.scores()[0].source, "b");
}

#[test]
fn from_listed_decides_each_listing() {
    assert!(matches!(
        ScoreManager::from_listed(Arc::new(ForgetfulStore), Vec::new()),
        Err(ScoreError::NoInitialScore)
    ));
    assert!(matches!(
        ScoreManager::from_listed(Arc::new(ForgetfulStore), vec![record(2, "Untitled Score 4294967295", "a")]),
        Err(ScoreError::UntitledIndexExhausted)
    ));
    let manager =
        ScoreManager::from_listed(Arc::new(ForgetfulStore), vec![record(3, "Untitled Score 7", "a")]).unwrap();
    assert_eq!(manager.selected_score_id(), 3);
    assert_eq!(manager.next_untitled_index(), 8);
}

#[test]
fn store_requests_carry_the_selected_score() {
    let store = Arc::new(InMemoryScoreStore::with_scores(vec![record(1, "One", "a"), record(2, "Two", "b")]));
    let mut manager = ScoreManager::load(store).unwrap();
    manager.select_score(2);
    assert_eq!(manager.rename_request("  New  "), Some((2, "New")));
    assert_eq!(manager.rename_request(" \t "), None);
    assert_eq!(manager.source_request("x y"), (2, "x y"));
}

#[test]
fn deleting_the_middle_record_in_memory_selects_its_successor() {
    let mut manager = ScoreManager::from_listing(
        Arc::new(ForgetfulStore),
        vec![record(1, "One", "a"), record(2, "Two", "b"), record(3, "Three", "c")],
    )
    .unwrap();
    manager.select_score(2);
    manager.apply_deletion(None);
    assert_eq!(manager.selected_score_id(), 3);
    assert_eq!(manager.scores().len(), 2);
}

#[test]
fn requests_name_the_starter_and_the_selected_score() {
    let (title, source) = ScoreManager::<InMemoryScoreStore>::seed_request();
    assert_eq!(title, DEFAULT_SCORE_TITLE);
    assert_eq!(source, default_source());
    let store = Arc::new(InMemoryScoreStore::with_scores(vec![record(4, "A", "a"), record(6, "B", "b")]));
    let mut manager = ScoreManager::load(store).unwrap();
    assert_eq!(manager.delete_request(), 4);
    manager.select_score(6);
    assert_eq!(manager.delete_request(), 6);
}

#[test]
fn listing_answers_are_mapped_to_outcomes() {
    let failed = ScoreManager::from_listing_result(
        Arc::new(ForgetfulStore),
        Err(StoreError { message: "locked".to_string() }),
    );
    match failed {
        Err(ScoreError::Store(e)) => assert_eq!(e.message, "locked"),
        _ => panic!("expected the store's error"),
    }
    let relisted = ScoreManager::from_relisting(Arc::new(ForgetfulStore), Ok(vec![record(8, "Eight", "e")])).unwrap();
    assert_eq!(relisted.selected_score_id(), 8);
    assert!(matches!(
        ScoreManager::from_relisting(Arc::new(ForgetfulStore), Ok(Vec::new())),
        Err(ScoreError::NoInitialScore)
    ));
    assert!(matches!(
        ScoreManager::from_relisting(Arc::new(ForgetfulStore), Err(StoreError { message: "x".to_string() })),
        Err(ScoreError::Store(_))
    ));
    let loaded = ScoreManager::from_listing_result(Arc::new(ForgetfulStore), Ok(vec![record(2, "Untitled Score 9", "x")])).unwrap();
    assert_eq!(loaded.next_untitled_index(), 10);
}
