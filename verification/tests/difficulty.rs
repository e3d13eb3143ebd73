use review_tool::types::deserialize::{SitconGdscDifficulty, SitconGdscFormat};
use review_tool::types::Difficulty;

#[test]
fn test_difficulty_into() {
    let raw = [
        "中階", "中階", "入門", "入門", "入門", "中階", "入門", "入門", "入門", "Beginner",
        "入門", "入門", "入門", "入門", "中階", "入門", "入門", "入門", "中階",
    ];

    let expected = [
        Difficulty::Medium,
        Difficulty::Medium,
        Difficulty::Easy,
        Difficulty::Easy,
        Difficulty::Easy,
        Difficulty::Medium,
        Difficulty::Easy,
        Difficulty::Easy,
        Difficulty::Easy,
        Difficulty::Easy,
        Difficulty::Easy,
        Difficulty::Easy,
        Difficulty::Easy,
        Difficulty::Easy,
        Difficulty::Medium,
        Difficulty::Easy,
        Difficulty::Easy,
        Difficulty::Easy,
        Difficulty::Medium,
    ];

    for (raw, expected) in raw.iter().zip(expected.iter()) {
        let actual = SitconGdscDifficulty(raw.to_string()).to_difficulty().unwrap();
        assert_eq!(*expected, actual);
    }
}

#[test]
fn difficulty_case_insensitive() {
    assert_eq!(
        SitconGdscDifficulty("ADVANCED".to_string()).to_difficulty(),
        Some(Difficulty::Hard)
    );
    assert_eq!(
        SitconGdscDifficulty("Intermediate".to_string()).to_difficulty(),
        Some(Difficulty::Medium)
    );
    assert_eq!(
        SitconGdscDifficulty("容易 EASY".to_string()).to_difficulty(),
        Some(Difficulty::Easy)
    );
}

#[test]
fn difficulty_unrecognized() {
    assert_eq!(SitconGdscDifficulty("expert".to_string()).to_difficulty(), None);
    assert_eq!(SitconGdscDifficulty("".to_string()).to_difficulty(), None);
    assert_eq!(SitconGdscDifficulty("中".to_string()).to_difficulty(), None);
}

#[test]
fn format_conversion_carries_fields() {
    let record = SitconGdscFormat {
        name: "Kyle Lin".to_string(),
        title: "從V和Zig中探索編譯期間運算的實際應用".to_string(),
        post_type: "general (30mins)".to_string(),
        abstract_: "abstract text".to_string(),
        self_introduction: "intro".to_string(),
        target_audience: "audience".to_string(),
        difficulty: SitconGdscDifficulty("中階".to_string()),
        description: "description".to_string(),
        supplemental_materials: "extra".to_string(),
    };
    let m = record.into_manuscript().unwrap();
    assert_eq!(m.title, "從V和Zig中探索編譯期間運算的實際應用");
    assert_eq!(m.type_, "general (30mins)");
    assert_eq!(m.abstract_, "abstract text");
    assert_eq!(m.audience, "audience");
    assert_eq!(m.difficulty, Difficulty::Medium);
    assert_eq!(m.description, "description");
    assert_eq!(m.extra, "extra");
    assert_eq!(m.author.name, "Kyle Lin");
    assert_eq!(m.author.description, "intro");
}

#[test]
fn format_conversion_rejects_unknown_difficulty() {
    let record = SitconGdscFormat {
        name: "a".to_string(),
        title: "t".to_string(),
        post_type: "p".to_string(),
        abstract_: "ab".to_string(),
        self_introduction: "si".to_string(),
        target_audience: "ta".to_string(),
        difficulty: SitconGdscDifficulty("unknown level".to_string()),
        description: "d".to_string(),
        supplemental_materials: "s".to_string(),
    };
    assert!(record.into_manuscript().is_none());
}
