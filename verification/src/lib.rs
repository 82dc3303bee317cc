use vstd::prelude::*;

pub mod api;
pub mod cache;
pub mod dispatch;
pub mod errors;
pub mod http;
pub mod json;
pub mod messages;
pub mod rtcv_types;

verus! {

/// Numeric role identifier that marks an API key as having the
/// scraper capability.
pub const SCRAPER_ROLE: u64 = 1;

} // verus!
