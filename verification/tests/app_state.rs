use review_tool::types::rank::sitcon_gdsc::Group;
use review_tool::types::rank::{GroupMetaDatabase, Item, StandardChoice};
use review_tool::types::{Author, Difficulty, Manuscript, ManuscriptDatabase, ManuscriptId};
use review_tool::ui::state::State;
use review_tool::ui::{Error, ReviewToolApp};

fn manuscript(title: &str) -> Manuscript {
    Manuscript {
        title: title.to_string(),
        type_: "talk".to_string(),
        abstract_: "ab".to_string(),
        audience: "all".to_string(),
        difficulty: Difficulty::Medium,
        description: "d".to_string(),
        extra: String::new(),
        author: Author { name: "someone".to_string(), description: "intro".to_string() },
    }
}

#[test]
fn refuses_empty_manuscript_input() {
    let db = ManuscriptDatabase::from_manuscripts(Vec::new());
    let ledger: GroupMetaDatabase<Group> = GroupMetaDatabase::new();
    let err = ReviewToolApp::new(db, ledger).err().unwrap();
    assert_eq!(err, Error::NoManuscript);
    assert_eq!(err.message(), "expected at least 1 manuscript; nothing given.");
}

#[test]
fn starts_at_first_and_navigates() {
    let a = manuscript("A");
    let b = manuscript("B");
    let id_a = ManuscriptId::hash(&a);
    let id_b = ManuscriptId::hash(&b);
    let db = ManuscriptDatabase::from_manuscripts(vec![a, b]);
    let ledger: GroupMetaDatabase<Group> = GroupMetaDatabase::new();
    let mut app = ReviewToolApp::new(db, ledger).ok().unwrap();

    assert_eq!(app.selected_id(), &id_a);
    assert_eq!(app.get_current_manuscript().title, "A");

    app.select_next();
    assert_eq!(app.selected_id(), &id_b);
    app.select_next();
    assert_eq!(app.selected_id(), &id_b);  // last stays selected
    app.select_previous();
    assert_eq!(app.selected_id(), &id_a);
    app.select_previous();
    assert_eq!(app.selected_id(), &id_a);  // first stays selected

    app.select(&id_b);
    assert_eq!(app.get_current_manuscript().title, "B");
    let unknown = ManuscriptId::hash(&manuscript("Z"));
    app.select(&unknown);
    assert_eq!(app.selected_id(), &id_b);  // unknown identities are ignored
}

#[test]
fn current_rank_is_created_lazily_and_kept() {
    let a = manuscript("A");
    let db = ManuscriptDatabase::from_manuscripts(vec![a]);
    let ledger: GroupMetaDatabase<Group> = GroupMetaDatabase::new();
    let mut app = ReviewToolApp::new(db, ledger).ok().unwrap();

    assert_eq!(app.rank_groups().len(), 0);
    {
        let rubric = app.get_current_rank_or_set_default();
        *rubric.subject.student_related.choice_mut() = StandardChoice::Partial;
    }
    assert_eq!(app.rank_groups().len(), 1);
    let rubric = app.get_current_rank_or_set_default();
    assert_eq!(rubric.subject.student_related.choice(), StandardChoice::Partial);
}

#[test]
fn clear_ranks_resets_the_ledger() {
    let db = ManuscriptDatabase::from_manuscripts(vec![manuscript("A")]);
    let ledger: GroupMetaDatabase<Group> = GroupMetaDatabase::new();
    let mut app = ReviewToolApp::new(db, ledger).ok().unwrap();
    app.get_current_rank_or_set_default();
    assert_eq!(app.rank_groups().len(), 1);
    app.clear_ranks(0);
    assert_eq!(app.rank_groups().len(), 0);
    assert_eq!(app.status_text(0), "The rank has been reset!");
}

#[test]
fn status_notices_expire() {
    let mut state = State::default();
    assert_eq!(state.get_human_text(0), "");
    state.saved(1000);
    assert!(state.is_saved(1000));
    assert_eq!(state.get_human_text(1000), "The rank has been saved!");
    state.reset(2000);
    assert_eq!(state.get_human_text(2000), "The rank has been saved & reset!");
    // The saved notice expires three seconds after it was raised.
    assert_eq!(state.get_human_text(4200), "The rank has been reset!");
    assert!(!state.is_saved(4200));
    assert!(state.is_reset(4200));
    assert_eq!(state.get_human_text(5000), "");
}
