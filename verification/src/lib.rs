//! Moonrise calendar library.
//!
//! The library computes, for a geographic coordinate and a window of days,
//! one moonrise instant per day (querying an external astronomical oracle
//! and correcting spurious near-duplicate answers), turns the accepted
//! instants into calendar events, and serializes them as an iCalendar
//! document.  A second, independent part decodes location records coming
//! back from a text-search index and builds the query sent to it.

pub mod calendar;
pub mod datetime;
pub mod julian;
pub mod location;
pub mod moonrise;
pub mod search;

pub use location::FeatureClass;
pub use location::LocationResponse;
pub use location::LocationSource;
pub use location::Location;
pub use location::SearchQuery;
pub use location::DBConnections;

use vstd::prelude::*;

verus! {

/// Body served for the crawler-policy route: all crawling is disallowed.
pub fn robots() -> (r: &'static str)
    ensures
        r@ == "User-Agent: *\nDisallow: /"@,
{
    "User-Agent: *\nDisallow: /"
}

} // verus!
