//! The record shapes a submission source supplies, and their conversion to
//! `Manuscript`. Reading the raw records (file handling, column mapping) is a
//! collaborator's concern; the conversion rules live here.

pub mod sitcon_gdsc;

pub use sitcon_gdsc::SitconGdscDifficulty;
pub use sitcon_gdsc::SitconGdscFormat;
