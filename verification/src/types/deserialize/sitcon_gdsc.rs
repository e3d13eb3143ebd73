//! The SITCON@GDSC style of submission record.

use vstd::prelude::*;
use vstd::string::StrSliceExecFns;

use crate::types::{Author, Difficulty, Manuscript};

verus! {

/// The ASCII-lowercased code point of `c`: letters A through Z fold to their
/// lower-case counterparts, every other character is left alone.
pub open spec fn lower_code(c: char) -> int {
    if 65 <= c as int <= 90 {
        c as int + 32
    } else {
        c as int
    }
}

/// Whether `s`, ASCII-lowercased, spells exactly `t`.
pub open spec fn matches_lowered(s: Seq<char>, t: Seq<char>) -> bool {
    s.len() == t.len() && forall|i: int|
        0 <= i < s.len() ==> lower_code(s[i]) == #[trigger] t[i] as int
}

/// The difficulty a raw wording denotes, if it is recognized. Matching is
/// ASCII-case-insensitive, as the wordings come from hand-filled forms.
pub open spec fn difficulty_of(s: Seq<char>) -> Option<Difficulty> {
    if matches_lowered(s, "容易 easy"@) || matches_lowered(s, "beginner"@) || matches_lowered(
        s,
        "入門"@,
    ) || matches_lowered(s, "初級"@) {
        Some(Difficulty::Easy)
    } else if matches_lowered(s, "中等 medium"@) || matches_lowered(s, "intermediate"@)
        || matches_lowered(s, "中級"@) || matches_lowered(s, "中階"@) || matches_lowered(
        s,
        "中等"@,
    ) {
        Some(Difficulty::Medium)
    } else if matches_lowered(s, "困難 hard"@) || matches_lowered(s, "advanced"@)
        || matches_lowered(s, "進階"@) {
        Some(Difficulty::Hard)
    } else {
        None
    }
}

/// Does `s`, ASCII-lowercased, spell exactly `t`? (`t` is given already
/// lower-case.)
fn matches_lower(s: &str, t: &str) -> (r: bool)
    ensures
        r == matches_lowered(s@, t@),
{
    let n = s.unicode_len();
    let m = t.unicode_len();
    if n != m {
        return false;
    }
    let mut i: usize = 0;
    while i < n
        invariant
            n == s@.len(),
            n == t@.len(),
            i <= n,
            forall|j: int| 0 <= j < i ==> lower_code(s@[j]) == #[trigger] t@[j] as int,
        decreases n - i,
    {
        let a = s.get_char(i);
        let b = t.get_char(i);
        let ca = a as u32;
        let cb = b as u32;
        let la: u32 = if 65 <= ca && ca <= 90 {
            ca + 32
        } else {
            ca
        };
        if la != cb {
            return false;
        }
        i += 1;
    }
    true
}

/// The raw difficulty wording of a submission record.
#[derive(Debug, PartialEq, Eq)]
pub struct SitconGdscDifficulty(pub String);

impl SitconGdscDifficulty {
    /// The difficulty level this wording denotes, or nothing when the
    /// wording is not recognized.
    pub fn to_difficulty(&self) -> (r: Option<Difficulty>)
        ensures
            r == difficulty_of(self.0@),
    {
        let s = self.0.as_str();
        if matches_lower(s, "容易 easy") || matches_lower(s, "beginner") || matches_lower(
            s,
            "入門",
        ) || matches_lower(s, "初級") {
            Some(Difficulty::Easy)
        } else if matches_lower(s, "中等 medium") || matches_lower(s, "intermediate")
            || matches_lower(s, "中級") || matches_lower(s, "中階") || matches_lower(s, "中等") {
            Some(Difficulty::Medium)
        } else if matches_lower(s, "困難 hard") || matches_lower(s, "advanced") || matches_lower(
            s,
            "進階",
        ) {
            Some(Difficulty::Hard)
        } else {
            None
        }
    }
}

/// One raw submission record in the SITCON@GDSC column layout.
#[derive(Debug, PartialEq, Eq)]
pub struct SitconGdscFormat {
    /// 您的姓名 / 暱稱 Name
    pub name: String,
    /// 題目 Title
    pub title: String,
    /// 投稿類型 Type
    pub post_type: String,
    /// 摘要 Abstract
    pub abstract_: String,
    /// 自我介紹 Self Introduction
    pub self_introduction: String,
    /// 目標受眾 Target Audience
    pub target_audience: String,
    /// 內容難易度 Difficulty
    pub difficulty: SitconGdscDifficulty,
    /// 詳細說明 Description
    pub description: String,
    /// 其他投稿相關補充資料 Supplemental materials
    pub supplemental_materials: String,
}

impl SitconGdscFormat {
    /// Convert the raw record to a manuscript. Nothing when the difficulty
    /// wording is not recognized; every other column carries over verbatim.
    pub fn into_manuscript(self) -> (r: Option<Manuscript>)
        ensures
            match r {
                Some(m) => {
                    &&& difficulty_of(self.difficulty.0@) == Some(m.difficulty)
                    &&& m.title@ == self.title@
                    &&& m.type_@ == self.post_type@
                    &&& m.abstract_@ == self.abstract_@
                    &&& m.audience@ == self.target_audience@
                    &&& m.description@ == self.description@
                    &&& m.extra@ == self.supplemental_materials@
                    &&& m.author.name@ == self.name@
                    &&& m.author.description@ == self.self_introduction@
                },
                None => difficulty_of(self.difficulty.0@) is None,
            },
    {
        let difficulty = match self.difficulty.to_difficulty() {
            Some(d) => d,
            None => {
                return None;
            }
        };
        Some(
            Manuscript {
                title: self.title,
                type_: self.post_type,
                abstract_: self.abstract_,
                audience: self.target_audience,
                difficulty,
                description: self.description,
                extra: self.supplemental_materials,
                author: Author { name: self.name, description: self.self_introduction },
            },
        )
    }
}

} // verus!
