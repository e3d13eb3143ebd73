use review_tool::types::rank::sitcon_gdsc::{content, expressive, subject, Group};
use review_tool::types::rank::{
    CommentableItemGroup, GroupMetaDatabase, Item, ItemGroup, MetaGroup, StandardChoice,
};
use review_tool::types::{Author, Difficulty, Manuscript, ManuscriptId};

fn manuscript(title: &str) -> Manuscript {
    Manuscript {
        title: title.to_string(),
        type_: "talk".to_string(),
        abstract_: "ab".to_string(),
        audience: "all".to_string(),
        difficulty: Difficulty::Easy,
        description: "d".to_string(),
        extra: String::new(),
        author: Author { name: "someone".to_string(), description: "intro".to_string() },
    }
}

#[test]
fn choice_default_and_emoji() {
    assert_eq!(StandardChoice::default(), StandardChoice::Full);
    assert_eq!(StandardChoice::Full.as_emoji(), "✅");
    assert_eq!(StandardChoice::Partial.as_emoji(), "👌");
    assert_eq!(StandardChoice::Maybe.as_emoji(), "🤔");
    assert_eq!(StandardChoice::No.as_emoji(), "⚠️");
    assert_eq!(StandardChoice::Full.as_str(), "完全符合要求");
}

#[test]
fn subject_cap_boundary() {
    // Three topic criteria at Full sum to 10.5 points but cap at 7.0; the
    // FLOSS bonus lands on top of the cap, not inside it.
    let mut g = subject::Group::new();
    assert_eq!(g.score_tenths(), 100);  // 7.0 + 3.0
    *g.floss_related.choice_mut() = StandardChoice::No;
    assert_eq!(g.score_tenths(), 70);  // capped exactly at 7.0
    *g.floss_related.choice_mut() = StandardChoice::Partial;
    assert_eq!(g.score_tenths(), 85);  // 7.0 + 1.5
}

#[test]
fn subject_score_below_cap() {
    let mut g = subject::Group::new();
    *g.student_related.choice_mut() = StandardChoice::Maybe;
    *g.community_related.choice_mut() = StandardChoice::Maybe;
    *g.coding_related.choice_mut() = StandardChoice::Maybe;
    *g.floss_related.choice_mut() = StandardChoice::No;
    assert_eq!(g.score_tenths(), 45);  // 1.5 * 3, no bonus
}

#[test]
fn expressive_score_rounds_to_whole_points() {
    let mut g = expressive::Group::new();
    assert_eq!(g.score_tenths(), 100);  // 3.3 * 3 = 9.9, rounds to 10
    *g.organized.choice_mut() = StandardChoice::Partial;
    *g.fluent.choice_mut() = StandardChoice::Partial;
    *g.completeness.choice_mut() = StandardChoice::Partial;
    assert_eq!(g.score_tenths(), 80);  // 2.5 * 3 = 7.5, rounds to 8
    *g.completeness.choice_mut() = StandardChoice::Maybe;
    assert_eq!(g.score_tenths(), 70);  // 2.5 + 2.5 + 1.5 = 6.5, rounds to 7
}

#[test]
fn content_score_caps_direction_and_adds_bonuses() {
    let mut g = content::Group::new();
    // Direction: 2.5 * 3 = 7.5, rounds to 8, capped at 7; structure 2.0;
    // completeness bonus 1.0.
    assert_eq!(g.score_tenths(), 100);
    *g.completeness.choice_mut() = StandardChoice::Partial;
    assert_eq!(g.score_tenths(), 90);  // bonus only for Full
    *g.structure.choice_mut() = StandardChoice::Maybe;
    assert_eq!(g.score_tenths(), 75);  // 7.0 + 0.5 + 0
    *g.knowledges.choice_mut() = StandardChoice::No;
    *g.experiences.choice_mut() = StandardChoice::No;
    *g.uniqueness.choice_mut() = StandardChoice::No;
    assert_eq!(g.score_tenths(), 5);  // structure 0.5 alone
}

#[test]
fn rationale_embeds_one_glyph_per_item() {
    let mut g = subject::Group::new();
    *g.community_related.choice_mut() = StandardChoice::Maybe;
    *g.floss_related.choice_mut() = StandardChoice::No;
    let text = g.score_description().unwrap();
    assert_eq!(
        text,
        "和學生✅、社群🤔以及程式✅相關的議題，且與 FLOSS（自由/開放原始碼軟體）相關⚠️。"
    );

    let e = expressive::Group::new();
    assert_eq!(
        e.score_description().unwrap(),
        "提供的資料是否有條理 ✅、文句暢通 ✅，以及提供資料之完整度 ✅。"
    );

    let c = content::Group::new();
    assert_eq!(
        c.score_description().unwrap(),
        "知識分享 ✅、經驗案例 ✅、想法觀點是否獨特 ✅ 等。另外也包括稿件的結構 ✅ 及資料完整性是否充足 ✅。"
    );
}

#[test]
fn item_accessors() {
    let mut item = subject::Group::new().student_related;
    assert_eq!(item.name(), "和學生相關");
    assert!(item.description().is_none());
    assert_eq!(item.choice(), StandardChoice::Full);
    assert!(item.comment().is_none());
    *item.comment_mut() = Some("note".to_string());
    assert_eq!(item.comment(), Some("note"));
    *item.choice_mut() = StandardChoice::No;
    assert_eq!(item.choice(), StandardChoice::No);
}

#[test]
fn group_comment_is_separate_from_item_comments() {
    let mut g = subject::Group::new();
    assert_eq!(g.comment(), "");
    g.comment_mut().push_str("group-level note");
    assert_eq!(g.comment(), "group-level note");
    assert!(g.student_related.comment().is_none());
    assert_eq!(g.name(), "主題相關性");
    assert!(g.description().is_some());
}

#[test]
fn reviewed_flag_default_false() {
    let g = Group::fresh();
    assert!(!g.reviewed());
    let mut g = g;
    // Whatever the choices become, this schema version never reports reviewed.
    *g.subject.student_related.choice_mut() = StandardChoice::No;
    *g.content.completeness.choice_mut() = StandardChoice::Maybe;
    assert!(!g.reviewed());
    // The empty schema reports the same.
    assert!(!(().reviewed()));
}

#[test]
fn ledger_lazy_creation_is_idempotent() {
    let mut ledger: GroupMetaDatabase<Group> = GroupMetaDatabase::new();
    let id = ManuscriptId::hash(&manuscript("A"));
    assert!(ledger.get(&id).is_none());

    {
        let rubric = ledger.get_or_create(&id);
        assert!(!rubric.reviewed());
        *rubric.subject.floss_related.choice_mut() = StandardChoice::Maybe;
    }
    assert_eq!(ledger.len(), 1);

    // The second call returns the same instance: the earlier mutation shows.
    {
        let rubric = ledger.get_or_create(&id);
        assert_eq!(rubric.subject.floss_related.choice(), StandardChoice::Maybe);
    }
    assert_eq!(ledger.len(), 1);
}

#[test]
fn ledger_reviewed_and_clear() {
    let mut ledger: GroupMetaDatabase<Group> = GroupMetaDatabase::with_capacity(4);
    let id = ManuscriptId::hash(&manuscript("A"));
    assert!(!ledger.reviewed(&id));
    ledger.get_or_create(&id);
    assert!(!ledger.reviewed(&id));
    assert!(!ledger.is_empty());
    ledger.clear();
    assert!(ledger.is_empty());
    assert_eq!(ledger.len(), 0);
    assert!(ledger.get(&id).is_none());
}
