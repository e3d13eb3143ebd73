//! 稿件內容：知識分享、經驗案例、想法觀點是否獨特等。另外也包括稿件的結構及資料完整性是否充足。

use vstd::prelude::*;
use vstd::string::StringExecFns;

use crate::types::rank::{emoji_of, CommentableItemGroup, Item, ItemGroup, StandardChoice};

verus! {

/// 知識分享
#[derive(Debug, Clone, PartialEq, Eq, Hash)]
pub struct Knowledges {
    /// The free-text note attached to this criterion.
    pub comment: Option<String>,
    /// The grade given to this criterion.
    pub choice: StandardChoice,
}

/// 經驗案例
#[derive(Debug, Clone, PartialEq, Eq, Hash)]
pub struct Experiences {
    /// The free-text note attached to this criterion.
    pub comment: Option<String>,
    /// The grade given to this criterion.
    pub choice: StandardChoice,
}

/// 想法獨特
#[derive(Debug, Clone, PartialEq, Eq, Hash)]
pub struct Uniqueness {
    /// The free-text note attached to this criterion.
    pub comment: Option<String>,
    /// The grade given to this criterion.
    pub choice: StandardChoice,
}

/// 結構完整
#[derive(Debug, Clone, PartialEq, Eq, Hash)]
pub struct Structure {
    /// The free-text note attached to this criterion.
    pub comment: Option<String>,
    /// The grade given to this criterion.
    pub choice: StandardChoice,
}

/// 資料充足
#[derive(Debug, Clone, PartialEq, Eq, Hash)]
pub struct Completeness {
    /// The free-text note attached to this criterion.
    pub comment: Option<String>,
    /// The grade given to this criterion.
    pub choice: StandardChoice,
}

impl Item for Knowledges {
    open spec fn name_spec(&self) -> Seq<char> {
        "知識分享"@
    }

    open spec fn description_spec(&self) -> Option<Seq<char>> {
        None
    }

    open spec fn choice_spec(&self) -> StandardChoice {
        self.choice
    }

    open spec fn comment_spec(&self) -> Option<Seq<char>> {
        self.comment.deep_view()
    }

    fn name(&self) -> (r: &str) {
        "知識分享"
    }

    fn description(&self) -> (r: Option<&str>) {
        None
    }

    fn choice(&self) -> (r: StandardChoice) {
        self.choice
    }

    fn choice_mut(&mut self) -> (r: &mut StandardChoice) {
        &mut self.choice
    }

    fn comment(&self) -> (r: Option<&str>) {
        match &self.comment {
            Some(c) => Some(c.as_str()),
            None => None,
        }
    }

    fn comment_mut(&mut self) -> (r: &mut Option<String>) {
        &mut self.comment
    }
}

impl Item for Experiences {
    open spec fn name_spec(&self) -> Seq<char> {
        "經驗案例"@
    }

    open spec fn description_spec(&self) -> Option<Seq<char>> {
        None
    }

    open spec fn choice_spec(&self) -> StandardChoice {
        self.choice
    }

    open spec fn comment_spec(&self) -> Option<Seq<char>> {
        self.comment.deep_view()
    }

    fn name(&self) -> (r: &str) {
        "經驗案例"
    }

    fn description(&self) -> (r: Option<&str>) {
        None
    }

    fn choice(&self) -> (r: StandardChoice) {
        self.choice
    }

    fn choice_mut(&mut self) -> (r: &mut StandardChoice) {
        &mut self.choice
    }

    fn comment(&self) -> (r: Option<&str>) {
        match &self.comment {
            Some(c) => Some(c.as_str()),
            None => None,
        }
    }

    fn comment_mut(&mut self) -> (r: &mut Option<String>) {
        &mut self.comment
    }
}

impl Item for Uniqueness {
    open spec fn name_spec(&self) -> Seq<char> {
        "想法獨特"@
    }

    open spec fn description_spec(&self) -> Option<Seq<char>> {
        None
    }

    open spec fn choice_spec(&self) -> StandardChoice {
        self.choice
    }

    open spec fn comment_spec(&self) -> Option<Seq<char>> {
        self.comment.deep_view()
    }

    fn name(&self) -> (r: &str) {
        "想法獨特"
    }

    fn description(&self) -> (r: Option<&str>) {
        None
    }

    fn choice(&self) -> (r: StandardChoice) {
        self.choice
    }

    fn choice_mut(&mut self) -> (r: &mut StandardChoice) {
        &mut self.choice
    }

    fn comment(&self) -> (r: Option<&str>) {
        match &self.comment {
            Some(c) => Some(c.as_str()),
            None => None,
        }
    }

    fn comment_mut(&mut self) -> (r: &mut Option<String>) {
        &mut self.comment
    }
}

impl Item for Structure {
    open spec fn name_spec(&self) -> Seq<char> {
        "結構完整"@
    }

    open spec fn description_spec(&self) -> Option<Seq<char>> {
        None
    }

    open spec fn choice_spec(&self) -> StandardChoice {
        self.choice
    }

    open spec fn comment_spec(&self) -> Option<Seq<char>> {
        self.comment.deep_view()
    }

    fn name(&self) -> (r: &str) {
        "結構完整"
    }

    fn description(&self) -> (r: Option<&str>) {
        None
    }

    fn choice(&self) -> (r: StandardChoice) {
        self.choice
    }

    fn choice_mut(&mut self) -> (r: &mut StandardChoice) {
        &mut self.choice
    }

    fn comment(&self) -> (r: Option<&str>) {
        match &self.comment {
            Some(c) => Some(c.as_str()),
            None => None,
        }
    }

    fn comment_mut(&mut self) -> (r: &mut Option<String>) {
        &mut self.comment
    }
}

impl Item for Completeness {
    open spec fn name_spec(&self) -> Seq<char> {
        "資料充足"@
    }

    open spec fn description_spec(&self) -> Option<Seq<char>> {
        None
    }

    open spec fn choice_spec(&self) -> StandardChoice {
        self.choice
    }

    open spec fn comment_spec(&self) -> Option<Seq<char>> {
        self.comment.deep_view()
    }

    fn name(&self) -> (r: &str) {
        "資料充足"
    }

    fn description(&self) -> (r: Option<&str>) {
        None
    }

    fn choice(&self) -> (r: StandardChoice) {
        self.choice
    }

    fn choice_mut(&mut self) -> (r: &mut StandardChoice) {
        &mut self.choice
    }

    fn comment(&self) -> (r: Option<&str>) {
        match &self.comment {
            Some(c) => Some(c.as_str()),
            None => None,
        }
    }

    fn comment_mut(&mut self) -> (r: &mut Option<String>) {
        &mut self.comment
    }
}

/// 稿件內容: five criteria plus a group-level comment.
#[derive(Debug, Clone, PartialEq, Eq)]
pub struct Group {
    /// 知識分享
    pub knowledges: Knowledges,
    /// 經驗案例
    pub experiences: Experiences,
    /// 想法獨特
    pub uniqueness: Uniqueness,
    /// 結構完整
    pub structure: Structure,
    /// 資料充足
    pub completeness: Completeness,
    /// The group-level comment.
    pub comment: String,
}

/// The per-item weight of the three direction criteria (knowledge,
/// experience, uniqueness), in tenths of a point.
pub open spec fn direction_weight(c: StandardChoice) -> int {
    match c {
        StandardChoice::Full => 25,
        StandardChoice::Partial => 20,
        StandardChoice::Maybe => 10,
        StandardChoice::No => 0,
    }
}

/// The weight of the structure criterion, in tenths.
pub open spec fn structure_weight(c: StandardChoice) -> int {
    match c {
        StandardChoice::Full => 20,
        StandardChoice::Partial => 10,
        StandardChoice::Maybe => 5,
        StandardChoice::No => 0,
    }
}

/// The completeness bonus, in tenths: extra credit only for a Full grade.
pub open spec fn completeness_weight(c: StandardChoice) -> int {
    match c {
        StandardChoice::Full => 10,
        _ => 0,
    }
}

/// The group score in tenths: the three direction weights summed, rounded to
/// whole points (halves up) and capped at 7 points, plus the structure weight
/// and the completeness bonus.
pub open spec fn score_of(g: Group) -> int {
    let direction = direction_weight(g.knowledges.choice) + direction_weight(
        g.experiences.choice,
    ) + direction_weight(g.uniqueness.choice);
    let rounded = (direction + 5) / 10;
    (if rounded > 7 {
        7int
    } else {
        rounded
    }) * 10 + structure_weight(g.structure.choice) + completeness_weight(g.completeness.choice)
}

/// The rationale text: the fixed template with one glyph per criterion, in
/// declaration order.
pub open spec fn rationale_of(g: Group) -> Seq<char> {
    "知識分享 "@ + emoji_of(g.knowledges.choice) + "、經驗案例 "@ + emoji_of(
        g.experiences.choice,
    ) + "、想法觀點是否獨特 "@ + emoji_of(g.uniqueness.choice) + " 等。另外也包括稿件的結構 "@
        + emoji_of(g.structure.choice) + " 及資料完整性是否充足 "@ + emoji_of(
        g.completeness.choice,
    ) + "。"@
}

impl Group {
    /// Whether every criterion is at its default grade with no comment yet.
    pub open spec fn is_fresh(&self) -> bool {
        &&& self.knowledges.choice == StandardChoice::Full
        &&& self.experiences.choice == StandardChoice::Full
        &&& self.uniqueness.choice == StandardChoice::Full
        &&& self.structure.choice == StandardChoice::Full
        &&& self.completeness.choice == StandardChoice::Full
        &&& self.knowledges.comment is None
        &&& self.experiences.comment is None
        &&& self.uniqueness.comment is None
        &&& self.structure.comment is None
        &&& self.completeness.comment is None
        &&& self.comment@ == Seq::<char>::empty()
    }

    /// A default-valued group.
    pub fn new() -> (r: Self)
        ensures
            r.is_fresh(),
    {
        Group {
            knowledges: Knowledges { comment: None, choice: StandardChoice::Full },
            experiences: Experiences { comment: None, choice: StandardChoice::Full },
            uniqueness: Uniqueness { comment: None, choice: StandardChoice::Full },
            structure: Structure { comment: None, choice: StandardChoice::Full },
            completeness: Completeness { comment: None, choice: StandardChoice::Full },
            comment: String::new(),
        }
    }
}

fn direction_points(c: StandardChoice) -> (r: u64)
    ensures
        r as int == direction_weight(c),
{
    match c {
        StandardChoice::Full => 25,
        StandardChoice::Partial => 20,
        StandardChoice::Maybe => 10,
        StandardChoice::No => 0,
    }
}

fn structure_points(c: StandardChoice) -> (r: u64)
    ensures
        r as int == structure_weight(c),
{
    match c {
        StandardChoice::Full => 20,
        StandardChoice::Partial => 10,
        StandardChoice::Maybe => 5,
        StandardChoice::No => 0,
    }
}

fn completeness_points(c: StandardChoice) -> (r: u64)
    ensures
        r as int == completeness_weight(c),
{
    match c {
        StandardChoice::Full => 10,
        StandardChoice::Partial => 0,
        StandardChoice::Maybe => 0,
        StandardChoice::No => 0,
    }
}

impl ItemGroup for Group {
    open spec fn name_spec(&self) -> Seq<char> {
        "稿件內容"@
    }

    open spec fn description_spec(&self) -> Option<Seq<char>> {
        Some("知識分享、經驗案例、想法觀點是否獨特等。另外也包括稿件的結構及資料完整性是否充足。"@)
    }

    open spec fn score_spec(&self) -> int {
        score_of(*self)
    }

    open spec fn score_description_spec(&self) -> Option<Seq<char>> {
        Some(rationale_of(*self))
    }

    fn name(&self) -> (r: &str) {
        "稿件內容"
    }

    fn description(&self) -> (r: Option<&str>) {
        Some("知識分享、經驗案例、想法觀點是否獨特等。另外也包括稿件的結構及資料完整性是否充足。")
    }

    fn score_tenths(&self) -> (r: u64) {
        let direction = direction_points(self.knowledges.choice) + direction_points(
            self.experiences.choice,
        ) + direction_points(self.uniqueness.choice);
        let rounded = (direction + 5) / 10;
        let capped = if rounded > 7 {
            7
        } else {
            rounded
        };
        capped * 10 + structure_points(self.structure.choice) + completeness_points(
            self.completeness.choice,
        )
    }

    fn score_description(&self) -> (r: Option<String>) {
        let mut text = String::new();
        text.append("知識分享 ");
        text.append(self.knowledges.choice.as_emoji());
        text.append("、經驗案例 ");
        text.append(self.experiences.choice.as_emoji());
        text.append("、想法觀點是否獨特 ");
        text.append(self.uniqueness.choice.as_emoji());
        text.append(" 等。另外也包括稿件的結構 ");
        text.append(self.structure.choice.as_emoji());
        text.append(" 及資料完整性是否充足 ");
        text.append(self.completeness.choice.as_emoji());
        text.append("。");
        proof {
            assert(text@ =~= rationale_of(*self));
        }
        Some(text)
    }
}

impl CommentableItemGroup for Group {
    open spec fn group_comment_spec(&self) -> Seq<char> {
        self.comment@
    }

    fn comment(&self) -> (r: &str) {
        self.comment.as_str()
    }

    fn comment_mut(&mut self) -> (r: &mut String) {
        &mut self.comment
    }
}

} // verus!
