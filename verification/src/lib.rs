//! Catalog engine for a query-driven command palette: entries drawn from
//! several sources are narrowed and ranked as the user types, and per-entry
//! usage statistics are kept in a frecency store whose only mutation is a
//! commutative merge, safe under concurrent writers.

pub mod codec;
pub mod entry;
pub mod history;
pub mod input_line;
pub mod listcontentprovider;
pub mod matching;
pub mod pathstring;
pub mod startappsprovider;
pub mod waitlist;

pub use listcontentprovider::ListContentProvider;
pub use listcontentprovider::ListItem;
pub use startappsprovider::StartAppsProvider;
