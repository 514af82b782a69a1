//! Release tags of GE compatibility tools: parsing tags into ordered semantic
//! versions, classifying tool families, and resolving the assets of a release.

pub mod canonical;
pub mod decimal;
pub mod download;
pub mod error;
pub mod number_runs;
pub mod semver;
pub mod tag;
pub mod text;
pub mod version_order;
