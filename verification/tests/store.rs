use review_tool::types::{Author, Difficulty, Manuscript, ManuscriptDatabase, ManuscriptId};

fn manuscript(title: &str, author: &str, kind: &str, description: &str) -> Manuscript {
    Manuscript {
        title: title.to_string(),
        type_: kind.to_string(),
        abstract_: format!("abstract of {title}"),
        audience: "everyone".to_string(),
        difficulty: Difficulty::Easy,
        description: description.to_string(),
        extra: String::new(),
        author: Author {
            name: author.to_string(),
            description: format!("{author} introduces themselves"),
        },
    }
}

#[test]
fn identity_deterministic() {
    let m1 = manuscript("Title", "Author", "talk", "first version");
    let m2 = manuscript("Title", "Author", "talk", "a completely different body");
    assert_eq!(ManuscriptId::hash(&m1), ManuscriptId::hash(&m2));
}

#[test]
fn identity_distinguishes_the_triple() {
    let m = manuscript("Title", "Author", "talk", "d");
    assert_ne!(
        ManuscriptId::hash(&m),
        ManuscriptId::hash(&manuscript("Title2", "Author", "talk", "d"))
    );
    assert_ne!(
        ManuscriptId::hash(&m),
        ManuscriptId::hash(&manuscript("Title", "Author2", "talk", "d"))
    );
    assert_ne!(
        ManuscriptId::hash(&m),
        ManuscriptId::hash(&manuscript("Title", "Author", "workshop", "d"))
    );
}

#[test]
fn identity_is_thirty_two_bytes() {
    let id = ManuscriptId::hash(&manuscript("t", "a", "k", "d"));
    assert_eq!(id.0.len(), 32);
}

#[test]
fn store_iteration_in_input_order() {
    let db = ManuscriptDatabase::from_manuscripts(vec![
        manuscript("A", "a", "k", "1"),
        manuscript("B", "b", "k", "2"),
        manuscript("C", "c", "k", "3"),
    ]);
    let mut iter = db.iter();
    let mut titles = Vec::new();
    while let Some((_, m)) = iter.next() {
        titles.push(m.title.clone());
    }
    assert_eq!(titles, vec!["A".to_string(), "B".to_string(), "C".to_string()]);
}

#[test]
fn store_iteration_restartable() {
    let db = ManuscriptDatabase::from_manuscripts(vec![
        manuscript("A", "a", "k", "1"),
        manuscript("B", "b", "k", "2"),
    ]);
    for _ in 0..2 {
        let mut iter = db.iter();
        let mut count = 0;
        while iter.next().is_some() {
            count += 1;
        }
        assert_eq!(count, 2);
    }
}

#[test]
fn duplicate_identity_overwrites_but_keeps_order_slots() {
    // Same (title, author, type): the later record wins, both order slots stay.
    let db = ManuscriptDatabase::from_manuscripts(vec![
        manuscript("A", "a", "k", "first"),
        manuscript("A", "a", "k", "second"),
    ]);
    assert_eq!(db.len(), 1);
    let mut iter = db.iter();
    let mut seen = Vec::new();
    while let Some((_, m)) = iter.next() {
        seen.push(m.description.clone());
    }
    assert_eq!(seen, vec!["second".to_string(), "second".to_string()]);
}

#[test]
fn navigation_totality_and_fallback() {
    let a = manuscript("A", "a", "k", "1");
    let b = manuscript("B", "b", "k", "2");
    let c = manuscript("C", "c", "k", "3");
    let id_a = ManuscriptId::hash(&a);
    let id_b = ManuscriptId::hash(&b);
    let id_c = ManuscriptId::hash(&c);
    let db = ManuscriptDatabase::from_manuscripts(vec![a, b, c]);

    assert_eq!(db.first().unwrap(), &id_a);
    assert_eq!(db.last().unwrap(), &id_c);

    assert_eq!(db.previous(&id_a).unwrap(), &id_a);
    assert_eq!(db.next(&id_a).unwrap(), &id_b);
    assert_eq!(db.previous(&id_b).unwrap(), &id_a);
    assert_eq!(db.next(&id_b).unwrap(), &id_c);
    assert_eq!(db.previous(&id_c).unwrap(), &id_b);
    assert_eq!(db.next(&id_c).unwrap(), &id_c);

    let unknown = ManuscriptId::hash(&manuscript("Z", "z", "k", "9"));
    assert_eq!(db.previous(&unknown).unwrap(), &id_a);
    assert_eq!(db.next(&unknown).unwrap(), &id_c);
}

#[test]
fn empty_store_navigation_returns_nothing() {
    let db = ManuscriptDatabase::from_manuscripts(Vec::new());
    let id = ManuscriptId::hash(&manuscript("A", "a", "k", "1"));
    assert!(db.first().is_none());
    assert!(db.last().is_none());
    assert!(db.previous(&id).is_none());
    assert!(db.next(&id).is_none());
    assert_eq!(db.len(), 0);
}

#[test]
fn difficulty_is_ordinal() {
    assert!(Difficulty::Easy < Difficulty::Medium);
    assert!(Difficulty::Medium < Difficulty::Hard);
    assert_eq!(Difficulty::Easy.as_str(), "Easy");
    assert_eq!(Difficulty::Medium.as_str(), "Medium");
    assert_eq!(Difficulty::Hard.as_str(), "Hard");
}

#[test]
fn identity_clone_is_equal() {
    let id = ManuscriptId::hash(&manuscript("t", "a", "k", "d"));
    let copy = id.clone();
    assert_eq!(id, copy);
}

#[test]
fn lookup_by_identity() {
    let a = manuscript("A", "a", "k", "1");
    let id_a = ManuscriptId::hash(&a);
    let db = ManuscriptDatabase::from_manuscripts(vec![a]);
    assert_eq!(db.get(&id_a).unwrap().title, "A");
    let unknown = ManuscriptId::hash(&manuscript("Z", "z", "k", "9"));
    assert!(db.get(&unknown).is_none());
}
