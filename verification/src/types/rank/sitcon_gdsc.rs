//! The rank items of SITCON x GDSC in Pan rules.

pub mod content;
pub mod expressive;
pub mod subject;

use vstd::prelude::*;

use super::MetaGroup;

verus! {

/// The complete rubric for one manuscript under this schema: three item
/// groups. This schema version has no togglable reviewed flag, so it always
/// reports "not reviewed".
#[derive(Debug, Clone, PartialEq, Eq)]
pub struct Group {
    /// 主題相關性
    pub subject: subject::Group,
    /// 表達能力
    pub expressive: expressive::Group,
    /// 稿件內容
    pub content: content::Group,
}

impl MetaGroup for Group {
    open spec fn reviewed_spec(&self) -> bool {
        false
    }

    open spec fn is_fresh(&self) -> bool {
        &&& self.subject.is_fresh()
        &&& self.expressive.is_fresh()
        &&& self.content.is_fresh()
    }

    fn reviewed(&self) -> (r: bool) {
        false
    }

    fn fresh() -> (r: Self) {
        Group {
            subject: subject::Group::new(),
            expressive: expressive::Group::new(),
            content: content::Group::new(),
        }
    }
}

} // verus!
