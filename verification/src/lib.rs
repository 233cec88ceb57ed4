//! Verified core of a ZenMoney personal-finance client: the entity models,
//! an in-memory store that merges records by key, transaction filtering,
//! grouping of server-side deletions and the application of a sync diff.

pub mod binary64;
pub mod cli;
pub mod date;
pub mod deletions;
pub mod error;
pub mod filter;
pub mod keyed;
pub mod laws;
pub mod models;
pub mod numeric;
pub mod queries;
pub mod report;
pub mod storage;
pub mod sync;
pub mod text;
