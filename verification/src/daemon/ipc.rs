//! Requests of the line-delimited JSON socket used by `msctl`.
use vstd::prelude::*;
use crate::index::query::Query;

verus! {

/// Arguments of a `browse` request; absent fields do not filter.
#[derive(Debug, Clone)]
pub struct BrowseArgs {
    pub text: Option<String>,
    pub vendor: Option<String>,
    /// Preset type (`type` on the wire).
    pub type_filter: Option<String>,
    pub limit: Option<u32>,
}

/// A client request.
#[derive(Debug, Clone)]
pub enum Op {
    Status,
    ScanLibraries,
    Browse(BrowseArgs),
    Load { preset_id: i64 },
}

/// Rows a browse returns when the request sets no limit.
pub const DEFAULT_BROWSE_LIMIT: u32 = 100;

impl BrowseArgs {
    /// The index query a browse runs: the request's filters, limited to
    /// 100 rows unless the request says otherwise.
    pub fn to_query(&self) -> (q: Query)
        ensures
            q.text == self.text,
            q.vendor == self.vendor,
            q.type_filter == self.type_filter,
            q.limit == match self.limit {
                Some(l) => Some(l),
                None => Some(DEFAULT_BROWSE_LIMIT),
            },
    {
        Query {
            text: self.text.clone(),
            vendor: self.vendor.clone(),
            type_filter: self.type_filter.clone(),
            limit: match self.limit {
                Some(l) => Some(l),
                None => Some(DEFAULT_BROWSE_LIMIT),
            },
        }
    }
}

} // verus!
