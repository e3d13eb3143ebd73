//! 主題相關：和學生、社群以及程式相關的議題，且與 FLOSS（自由/開放原始碼軟體）相關。

use vstd::prelude::*;
use vstd::string::StringExecFns;

use crate::types::rank::{emoji_of, CommentableItemGroup, Item, ItemGroup, StandardChoice};

verus! {

/// 和學生相關
#[derive(Debug, Clone, PartialEq, Eq, Hash)]
pub struct StudentRelated {
    /// The free-text note attached to this criterion.
    pub comment: Option<String>,
    /// The grade given to this criterion.
    pub choice: StandardChoice,
}

/// 和社群相關
#[derive(Debug, Clone, PartialEq, Eq, Hash)]
pub struct CommunityRelated {
    /// The free-text note attached to this criterion.
    pub comment: Option<String>,
    /// The grade given to this criterion.
    pub choice: StandardChoice,
}

/// 和程式相關
#[derive(Debug, Clone, PartialEq, Eq, Hash)]
pub struct CodingRelated {
    /// The free-text note attached to this criterion.
    pub comment: Option<String>,
    /// The grade given to this criterion.
    pub choice: StandardChoice,
}

/// 和開源相關
#[derive(Debug, Clone, PartialEq, Eq, Hash)]
pub struct FlossRelated {
    /// The free-text note attached to this criterion.
    pub comment: Option<String>,
    /// The grade given to this criterion.
    pub choice: StandardChoice,
}

impl Item for StudentRelated {
    open spec fn name_spec(&self) -> Seq<char> {
        "和學生相關"@
    }

    open spec fn description_spec(&self) -> Option<Seq<char>> {
        None
    }

    open spec fn choice_spec(&self) -> StandardChoice {
        self.choice
    }

    open spec fn comment_spec(&self) -> Option<Seq<char>> {
        self.comment.deep_view()
    }

    fn name(&self) -> (r: &str) {
        "和學生相關"
    }

    fn description(&self) -> (r: Option<&str>) {
        None
    }

    fn choice(&self) -> (r: StandardChoice) {
        self.choice
    }

    fn choice_mut(&mut self) -> (r: &mut StandardChoice) {
        &mut self.choice
    }

    fn comment(&self) -> (r: Option<&str>) {
        match &self.comment {
            Some(c) => Some(c.as_str()),
            None => None,
        }
    }

    fn comment_mut(&mut self) -> (r: &mut Option<String>) {
        &mut self.comment
    }
}

impl Item for CommunityRelated {
    open spec fn name_spec(&self) -> Seq<char> {
        "和社群相關"@
    }

    open spec fn description_spec(&self) -> Option<Seq<char>> {
        None
    }

    open spec fn choice_spec(&self) -> StandardChoice {
        self.choice
    }

    open spec fn comment_spec(&self) -> Option<Seq<char>> {
        self.comment.deep_view()
    }

    fn name(&self) -> (r: &str) {
        "和社群相關"
    }

    fn description(&self) -> (r: Option<&str>) {
        None
    }

    fn choice(&self) -> (r: StandardChoice) {
        self.choice
    }

    fn choice_mut(&mut self) -> (r: &mut StandardChoice) {
        &mut self.choice
    }

    fn comment(&self) -> (r: Option<&str>) {
        match &self.comment {
            Some(c) => Some(c.as_str()),
            None => None,
        }
    }

    fn comment_mut(&mut self) -> (r: &mut Option<String>) {
        &mut self.comment
    }
}

impl Item for CodingRelated {
    open spec fn name_spec(&self) -> Seq<char> {
        "和程式相關"@
    }

    open spec fn description_spec(&self) -> Option<Seq<char>> {
        None
    }

    open spec fn choice_spec(&self) -> StandardChoice {
        self.choice
    }

    open spec fn comment_spec(&self) -> Option<Seq<char>> {
        self.comment.deep_view()
    }

    fn name(&self) -> (r: &str) {
        "和程式相關"
    }

    fn description(&self) -> (r: Option<&str>) {
        None
    }

    fn choice(&self) -> (r: StandardChoice) {
        self.choice
    }

    fn choice_mut(&mut self) -> (r: &mut StandardChoice) {
        &mut self.choice
    }

    fn comment(&self) -> (r: Option<&str>) {
        match &self.comment {
            Some(c) => Some(c.as_str()),
            None => None,
        }
    }

    fn comment_mut(&mut self) -> (r: &mut Option<String>) {
        &mut self.comment
    }
}

impl Item for FlossRelated {
    open spec fn name_spec(&self) -> Seq<char> {
        "和開源相關"@
    }

    open spec fn description_spec(&self) -> Option<Seq<char>> {
        None
    }

    open spec fn choice_spec(&self) -> StandardChoice {
        self.choice
    }

    open spec fn comment_spec(&self) -> Option<Seq<char>> {
        self.comment.deep_view()
    }

    fn name(&self) -> (r: &str) {
        "和開源相關"
    }

    fn description(&self) -> (r: Option<&str>) {
        None
    }

    fn choice(&self) -> (r: StandardChoice) {
        self.choice
    }

    fn choice_mut(&mut self) -> (r: &mut StandardChoice) {
        &mut self.choice
    }

    fn comment(&self) -> (r: Option<&str>) {
        match &self.comment {
            Some(c) => Some(c.as_str()),
            None => None,
        }
    }

    fn comment_mut(&mut self) -> (r: &mut Option<String>) {
        &mut self.comment
    }
}

/// 主題相關性: four criteria plus a group-level comment.
#[derive(Debug, Clone, PartialEq, Eq)]
pub struct Group {
    /// 和學生相關
    pub student_related: StudentRelated,
    /// 和社群相關
    pub community_related: CommunityRelated,
    /// 和程式相關
    pub coding_related: CodingRelated,
    /// 和開源相關
    pub floss_related: FlossRelated,
    /// The group-level comment.
    pub comment: String,
}

/// The per-item weight of the three topic criteria, in tenths of a point.
pub open spec fn topic_weight(c: StandardChoice) -> int {
    match c {
        StandardChoice::Full => 35,
        StandardChoice::Partial => 30,
        StandardChoice::Maybe => 15,
        StandardChoice::No => 0,
    }
}

/// The weight of the FLOSS criterion: an independent bonus, in tenths.
pub open spec fn floss_weight(c: StandardChoice) -> int {
    match c {
        StandardChoice::Full => 30,
        StandardChoice::Partial => 15,
        StandardChoice::Maybe => 0,
        StandardChoice::No => 0,
    }
}

/// The group score in tenths: the three topic weights summed and capped at
/// 7.0 points, plus the uncapped FLOSS bonus.
pub open spec fn score_of(g: Group) -> int {
    let topic = topic_weight(g.student_related.choice) + topic_weight(g.community_related.choice)
        + topic_weight(g.coding_related.choice);
    (if topic > 70 {
        70int
    } else {
        topic
    }) + floss_weight(g.floss_related.choice)
}

/// The rationale text: the fixed template with one glyph per criterion, in
/// declaration order.
pub open spec fn rationale_of(g: Group) -> Seq<char> {
    "和學生"@ + emoji_of(g.student_related.choice) + "、社群"@ + emoji_of(
        g.community_related.choice,
    ) + "以及程式"@ + emoji_of(g.coding_related.choice)
        + "相關的議題，且與 FLOSS（自由/開放原始碼軟體）相關"@ + emoji_of(
        g.floss_related.choice,
    ) + "。"@
}

impl Group {
    /// Whether every criterion is at its default grade with no comment yet.
    pub open spec fn is_fresh(&self) -> bool {
        &&& self.student_related.choice == StandardChoice::Full
        &&& self.community_related.choice == StandardChoice::Full
        &&& self.coding_related.choice == StandardChoice::Full
        &&& self.floss_related.choice == StandardChoice::Full
        &&& self.student_related.comment is None
        &&& self.community_related.comment is None
        &&& self.coding_related.comment is None
        &&& self.floss_related.comment is None
        &&& self.comment@ == Seq::<char>::empty()
    }

    /// A default-valued group.
    pub fn new() -> (r: Self)
        ensures
            r.is_fresh(),
    {
        Group {
            student_related: StudentRelated { comment: None, choice: StandardChoice::Full },
            community_related: CommunityRelated { comment: None, choice: StandardChoice::Full },
            coding_related: CodingRelated { comment: None, choice: StandardChoice::Full },
            floss_related: FlossRelated { comment: None, choice: StandardChoice::Full },
            comment: String::new(),
        }
    }
}

/// When the three topic criteria together exceed the seven-point cap, the
/// group scores exactly the cap plus the independent FLOSS bonus on top: the
/// bonus is never re-capped away.
pub proof fn lemma_cap_boundary(g: Group)
    requires
        topic_weight(g.student_related.choice) + topic_weight(g.community_related.choice)
            + topic_weight(g.coding_related.choice) > 70,
    ensures
        score_of(g) == 70 + floss_weight(g.floss_related.choice),
{
}

fn topic_points(c: StandardChoice) -> (r: u64)
    ensures
        r as int == topic_weight(c),
{
    match c {
        StandardChoice::Full => 35,
        StandardChoice::Partial => 30,
        StandardChoice::Maybe => 15,
        StandardChoice::No => 0,
    }
}

fn floss_points(c: StandardChoice) -> (r: u64)
    ensures
        r as int == floss_weight(c),
{
    match c {
        StandardChoice::Full => 30,
        StandardChoice::Partial => 15,
        StandardChoice::Maybe => 0,
        StandardChoice::No => 0,
    }
}

impl ItemGroup for Group {
    open spec fn name_spec(&self) -> Seq<char> {
        "主題相關性"@
    }

    open spec fn description_spec(&self) -> Option<Seq<char>> {
        Some("和學生、社群以及程式相關的議題，且與 FLOSS（自由/開放原始碼軟體）相關。"@)
    }

    open spec fn score_spec(&self) -> int {
        score_of(*self)
    }

    open spec fn score_description_spec(&self) -> Option<Seq<char>> {
        Some(rationale_of(*self))
    }

    fn name(&self) -> (r: &str) {
        "主題相關性"
    }

    fn description(&self) -> (r: Option<&str>) {
        Some("和學生、社群以及程式相關的議題，且與 FLOSS（自由/開放原始碼軟體）相關。")
    }

    fn score_tenths(&self) -> (r: u64) {
        let topic = topic_points(self.student_related.choice) + topic_points(
            self.community_related.choice,
        ) + topic_points(self.coding_related.choice);
        let capped = if topic > 70 {
            70
        } else {
            topic
        };
        capped + floss_points(self.floss_related.choice)
    }

    fn score_description(&self) -> (r: Option<String>) {
        let mut text = String::new();
        text.append("和學生");
        text.append(self.student_related.choice.as_emoji());
        text.append("、社群");
        text.append(self.community_related.choice.as_emoji());
        text.append("以及程式");
        text.append(self.coding_related.choice.as_emoji());
        text.append("相關的議題，且與 FLOSS（自由/開放原始碼軟體）相關");
        text.append(self.floss_related.choice.as_emoji());
        text.append("。");
        proof {
            assert(text@ =~= rationale_of(*self));
        }
        Some(text)
    }
}

impl CommentableItemGroup for Group {
    open spec fn group_comment_spec(&self) -> Seq<char> {
        self.comment@
    }

    fn comment(&self) -> (r: &str) {
        self.comment.as_str()
    }

    fn comment_mut(&mut self) -> (r: &mut String) {
        &mut self.comment
    }
}

} // verus!
