//! Core logic of a manuscript-review aid: a content-addressed, order-preserving
//! manuscript store with total prev/next navigation, a rubric model whose item
//! groups score themselves through fixed weight tables, and a review ledger
//! that maps manuscript identities to rubric instances and persists as text.

pub mod persist;
pub mod types;
pub mod ui;
