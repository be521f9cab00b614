//! Menu search: resolving a free-text query against several weeks of menu
//! data by merging per-week fetch results, building a disposable full-text
//! index over the retrieved items, and running a ranked query against it
//! with partial-failure tolerance.

pub mod dates;
pub mod fetch;
pub mod index;
pub mod lunch;
pub mod menu;
pub mod query;
pub mod search;
