//! NKS library index: query building, scan bookkeeping and the debounce
//! state of the library watcher. The SQLite and filesystem work itself is
//! done by the caller with the values these functions produce.
pub mod query;
pub mod scan;
pub mod watch;

pub use query::{PresetRow, Query, QuerySql};
pub use scan::ScanStats;
