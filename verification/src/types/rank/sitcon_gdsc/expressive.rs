//! 表達能力：提供的資料是否有條理、文句暢通，以及提供資料之完整度。完整的資料能讓審稿委員更清楚了解演講細節。

use vstd::prelude::*;
use vstd::string::StringExecFns;

use crate::types::rank::{emoji_of, CommentableItemGroup, Item, ItemGroup, StandardChoice};

verus! {

/// 資料有條理
#[derive(Debug, Clone, PartialEq, Eq, Hash)]
pub struct Organized {
    /// The free-text note attached to this criterion.
    pub comment: Option<String>,
    /// The grade given to this criterion.
    pub choice: StandardChoice,
}

/// 文句暢通
#[derive(Debug, Clone, PartialEq, Eq, Hash)]
pub struct Fluent {
    /// The free-text note attached to this criterion.
    pub comment: Option<String>,
    /// The grade given to this criterion.
    pub choice: StandardChoice,
}

/// 資料完整度
#[derive(Debug, Clone, PartialEq, Eq, Hash)]
pub struct Completeness {
    /// The free-text note attached to this criterion.
    pub comment: Option<String>,
    /// The grade given to this criterion.
    pub choice: StandardChoice,
}

impl Item for Organized {
    open spec fn name_spec(&self) -> Seq<char> {
        "資料有條理"@
    }

    open spec fn description_spec(&self) -> Option<Seq<char>> {
        None
    }

    open spec fn choice_spec(&self) -> StandardChoice {
        self.choice
    }

    open spec fn comment_spec(&self) -> Option<Seq<char>> {
        self.comment.deep_view()
    }

    fn name(&self) -> (r: &str) {
        "資料有條理"
    }

    fn description(&self) -> (r: Option<&str>) {
        None
    }

    fn choice(&self) -> (r: StandardChoice) {
        self.choice
    }

    fn choice_mut(&mut self) -> (r: &mut StandardChoice) {
        &mut self.choice
    }

    fn comment(&self) -> (r: Option<&str>) {
        match &self.comment {
            Some(c) => Some(c.as_str()),
            None => None,
        }
    }

    fn comment_mut(&mut self) -> (r: &mut Option<String>) {
        &mut self.comment
    }
}

impl Item for Fluent {
    open spec fn name_spec(&self) -> Seq<char> {
        "文句暢通"@
    }

    open spec fn description_spec(&self) -> Option<Seq<char>> {
        None
    }

    open spec fn choice_spec(&self) -> StandardChoice {
        self.choice
    }

    open spec fn comment_spec(&self) -> Option<Seq<char>> {
        self.comment.deep_view()
    }

    fn name(&self) -> (r: &str) {
        "文句暢通"
    }

    fn description(&self) -> (r: Option<&str>) {
        None
    }

    fn choice(&self) -> (r: StandardChoice) {
        self.choice
    }

    fn choice_mut(&mut self) -> (r: &mut StandardChoice) {
        &mut self.choice
    }

    fn comment(&self) -> (r: Option<&str>) {
        match &self.comment {
            Some(c) => Some(c.as_str()),
            None => None,
        }
    }

    fn comment_mut(&mut self) -> (r: &mut Option<String>) {
        &mut self.comment
    }
}

impl Item for Completeness {
    open spec fn name_spec(&self) -> Seq<char> {
        "資料完整度"@
    }

    open spec fn description_spec(&self) -> Option<Seq<char>> {
        None
    }

    open spec fn choice_spec(&self) -> StandardChoice {
        self.choice
    }

    open spec fn comment_spec(&self) -> Option<Seq<char>> {
        self.comment.deep_view()
    }

    fn name(&self) -> (r: &str) {
        "資料完整度"
    }

    fn description(&self) -> (r: Option<&str>) {
        None
    }

    fn choice(&self) -> (r: StandardChoice) {
        self.choice
    }

    fn choice_mut(&mut self) -> (r: &mut StandardChoice) {
        &mut self.choice
    }

    fn comment(&self) -> (r: Option<&str>) {
        match &self.comment {
            Some(c) => Some(c.as_str()),
            None => None,
        }
    }

    fn comment_mut(&mut self) -> (r: &mut Option<String>) {
        &mut self.comment
    }
}

/// 表達能力: three criteria plus a group-level comment.
#[derive(Debug, Clone, PartialEq, Eq)]
pub struct Group {
    /// 資料有條理
    pub organized: Organized,
    /// 文句暢通
    pub fluent: Fluent,
    /// 資料完整度
    pub completeness: Completeness,
    /// The group-level comment.
    pub comment: String,
}

/// The per-item weight, in tenths of a point: each criterion carries up to
/// 3.3 of the group's whole-number point budget.
pub open spec fn weight(c: StandardChoice) -> int {
    match c {
        StandardChoice::Full => 33,
        StandardChoice::Partial => 25,
        StandardChoice::Maybe => 15,
        StandardChoice::No => 0,
    }
}

/// The group score in tenths: the three weights summed and rounded to the
/// nearest whole point, halves up.
pub open spec fn score_of(g: Group) -> int {
    let total = weight(g.organized.choice) + weight(g.fluent.choice) + weight(
        g.completeness.choice,
    );
    ((total + 5) / 10) * 10
}

/// The rationale text: the fixed template with one glyph per criterion, in
/// declaration order.
pub open spec fn rationale_of(g: Group) -> Seq<char> {
    "提供的資料是否有條理 "@ + emoji_of(g.organized.choice) + "、文句暢通 "@ + emoji_of(
        g.fluent.choice,
    ) + "，以及提供資料之完整度 "@ + emoji_of(g.completeness.choice) + "。"@
}

impl Group {
    /// Whether every criterion is at its default grade with no comment yet.
    pub open spec fn is_fresh(&self) -> bool {
        &&& self.organized.choice == StandardChoice::Full
        &&& self.fluent.choice == StandardChoice::Full
        &&& self.completeness.choice == StandardChoice::Full
        &&& self.organized.comment is None
        &&& self.fluent.comment is None
        &&& self.completeness.comment is None
        &&& self.comment@ == Seq::<char>::empty()
    }

    /// A default-valued group.
    pub fn new() -> (r: Self)
        ensures
            r.is_fresh(),
    {
        Group {
            organized: Organized { comment: None, choice: StandardChoice::Full },
            fluent: Fluent { comment: None, choice: StandardChoice::Full },
            completeness: Completeness { comment: None, choice: StandardChoice::Full },
            comment: String::new(),
        }
    }
}

fn points(c: StandardChoice) -> (r: u64)
    ensures
        r as int == weight(c),
{
    match c {
        StandardChoice::Full => 33,
        StandardChoice::Partial => 25,
        StandardChoice::Maybe => 15,
        StandardChoice::No => 0,
    }
}

impl ItemGroup for Group {
    open spec fn name_spec(&self) -> Seq<char> {
        "表達能力"@
    }

    open spec fn description_spec(&self) -> Option<Seq<char>> {
        Some(
            "提供的資料是否有條理、文句暢通，以及提供資料之完整度。完整的資料能讓審稿委員更清楚了解演講細節。"@,
        )
    }

    open spec fn score_spec(&self) -> int {
        score_of(*self)
    }

    open spec fn score_description_spec(&self) -> Option<Seq<char>> {
        Some(rationale_of(*self))
    }

    fn name(&self) -> (r: &str) {
        "表達能力"
    }

    fn description(&self) -> (r: Option<&str>) {
        Some("提供的資料是否有條理、文句暢通，以及提供資料之完整度。完整的資料能讓審稿委員更清楚了解演講細節。")
    }

    fn score_tenths(&self) -> (r: u64) {
        let total = points(self.organized.choice) + points(self.fluent.choice) + points(
            self.completeness.choice,
        );
        ((total + 5) / 10) * 10
    }

    fn score_description(&self) -> (r: Option<String>) {
        let mut text = String::new();
        text.append("提供的資料是否有條理 ");
        text.append(self.organized.choice.as_emoji());
        text.append("、文句暢通 ");
        text.append(self.fluent.choice.as_emoji());
        text.append("，以及提供資料之完整度 ");
        text.append(self.completeness.choice.as_emoji());
        text.append("。");
        proof {
            assert(text@ =~= rationale_of(*self));
        }
        Some(text)
    }
}

impl CommentableItemGroup for Group {
    open spec fn group_comment_spec(&self) -> Seq<char> {
        self.comment@
    }

    fn comment(&self) -> (r: &str) {
        self.comment.as_str()
    }

    fn comment_mut(&mut self) -> (r: &mut String) {
        &mut self.comment
    }
}

} // verus!
