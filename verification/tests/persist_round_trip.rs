use review_tool::persist::{decode_ledger, encode_ledger};
use review_tool::types::rank::sitcon_gdsc::Group;
use review_tool::types::rank::{CommentableItemGroup, GroupMetaDatabase, Item, StandardChoice};
use review_tool::types::{Author, Difficulty, Manuscript, ManuscriptId};

fn manuscript(title: &str) -> Manuscript {
    Manuscript {
        title: title.to_string(),
        type_: "talk".to_string(),
        abstract_: "ab".to_string(),
        audience: "all".to_string(),
        difficulty: Difficulty::Hard,
        description: "d".to_string(),
        extra: String::new(),
        author: Author { name: "someone".to_string(), description: "intro".to_string() },
    }
}

fn entries_of(db: &GroupMetaDatabase<Group>) -> Vec<(ManuscriptId, Group)> {
    let mut out = Vec::new();
    let mut i = 0;
    while i < db.entry_count() {
        let (id, g) = db.entry_at(i);
        out.push((id.clone(), g.clone()));
        i += 1;
    }
    out
}

#[test]
fn round_trip_reproduces_every_field() {
    let mut ledger: GroupMetaDatabase<Group> = GroupMetaDatabase::new();
    let id_a = ManuscriptId::hash(&manuscript("A"));
    let id_b = ManuscriptId::hash(&manuscript("B"));

    {
        let rubric = ledger.get_or_create(&id_a);
        *rubric.subject.student_related.choice_mut() = StandardChoice::Partial;
        *rubric.subject.student_related.comment_mut() =
            Some("多行\n備註, with unicode ✅".to_string());
        *rubric.expressive.fluent.choice_mut() = StandardChoice::No;
        *rubric.expressive.fluent.comment_mut() = Some(String::new());  // empty, yet present
        *rubric.content.uniqueness.choice_mut() = StandardChoice::Maybe;
        rubric.subject.comment_mut().push_str("group note 評語");
    }
    {
        let rubric = ledger.get_or_create(&id_b);
        *rubric.content.completeness.choice_mut() = StandardChoice::No;
    }

    let text = encode_ledger(&ledger);
    let decoded = decode_ledger(text.as_str()).expect("a freshly written ledger reads back");

    let before = entries_of(&ledger);
    let after = entries_of(&decoded);
    assert_eq!(before, after);

    let rubric = decoded.get(&id_a).unwrap();
    assert_eq!(rubric.subject.student_related.choice(), StandardChoice::Partial);
    assert_eq!(
        rubric.subject.student_related.comment(),
        Some("多行\n備註, with unicode ✅")
    );
    assert_eq!(rubric.expressive.fluent.comment(), Some(""));
    assert_eq!(rubric.subject.comment(), "group note 評語");
    assert!(decoded.get(&id_b).is_some());
}

#[test]
fn round_trip_of_empty_ledger() {
    let ledger: GroupMetaDatabase<Group> = GroupMetaDatabase::new();
    let text = encode_ledger(&ledger);
    let decoded = decode_ledger(text.as_str()).unwrap();
    assert_eq!(decoded.len(), 0);
}

#[test]
fn decode_rejects_malformed_text() {
    assert!(decode_ledger("").is_none());
    assert!(decode_ledger("not a ledger at all").is_none());
    assert!(decode_ledger("0000000000000001").is_none());  // one entry promised, none given

    // A valid ledger with trailing garbage is rejected whole.
    let mut ledger: GroupMetaDatabase<Group> = GroupMetaDatabase::new();
    ledger.get_or_create(&ManuscriptId::hash(&manuscript("A")));
    let mut text = encode_ledger(&ledger);
    text.push_str("x");
    assert!(decode_ledger(text.as_str()).is_none());

    // A truncated ledger is rejected as well.
    let whole = encode_ledger(&ledger);
    let cut: String = whole.chars().take(whole.chars().count() - 1).collect();
    assert!(decode_ledger(cut.as_str()).is_none());
}
