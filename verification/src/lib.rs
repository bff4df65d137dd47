//! Verified core of a geospatial web server: OGC API documents, feature
//! inventories, query-parameter parsing, error responses and tile-cache layout.
use vstd::prelude::*;

pub mod assoc;
pub mod config;
pub mod error;
pub mod feature_endpoints;
pub mod filter_params;
pub mod frontend;
pub mod httperror;
pub mod inventory;
pub mod ogcapi;
pub mod pg_ds;
pub mod service;
pub mod store;
pub mod text;

verus! {
} // verus!
