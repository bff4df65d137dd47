//! Filter parameters of a feature query.
use vstd::prelude::*;
use crate::assoc::{assoc_map, keys_unique};

verus! {

/// The view of an optional string.
pub open spec fn opt_view(o: Option<String>) -> Option<Seq<char>> {
    match o {
        Some(s) => Some(s@),
        None => None,
    }
}

/// The text map that a list of string pairs with distinct keys describes.
pub open spec fn string_map_view(v: Seq<(String, String)>) -> Map<Seq<char>, Seq<char>> {
    assoc_map(v).map_values(|s: String| s@)
}

/// Paging, spatial, temporal and attribute filters of a feature request.
/// `filters` holds the remaining query parameters, one pair per name.
#[derive(Clone, Debug)]
pub struct FilterParams {
    pub offset: Option<u64>,
    pub limit: Option<u64>,
    pub bbox: Option<String>,
    pub datetime: Option<String>,
    pub filters: Vec<(String, String)>,
    pub collections: Option<String>,
    pub intersects: Option<String>,
    pub ids: Option<String>,
}

/// The mathematical content of `FilterParams`.
pub struct FilterParamsView {
    pub offset: Option<u64>,
    pub limit: Option<u64>,
    pub bbox: Option<Seq<char>>,
    pub datetime: Option<Seq<char>>,
    pub filters: Map<Seq<char>, Seq<char>>,
    pub collections: Option<Seq<char>>,
    pub intersects: Option<Seq<char>>,
    pub ids: Option<Seq<char>>,
}

impl View for FilterParams {
    type V = FilterParamsView;

    open spec fn view(&self) -> FilterParamsView {
        FilterParamsView {
            offset: self.offset,
            limit: self.limit,
            bbox: opt_view(self.bbox),
            datetime: opt_view(self.datetime),
            filters: string_map_view(self.filters@),
            collections: opt_view(self.collections),
            intersects: opt_view(self.intersects),
            ids: opt_view(self.ids),
        }
    }
}

impl FilterParams {
    /// The remaining filters name each parameter once.
    pub open spec fn wf(&self) -> bool {
        keys_unique(self.filters@)
    }
}

} // verus!
