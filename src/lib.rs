//! Character-sheet claims and ability lookups for a tabletop chat bot.
//!
//! * [`claims`]: which member holds which character sheet, per community.
//! * [`ability`]: the query for an ability row and the resolution of its answer.
//! * [`fetch`]: the decisions of one authenticated, retried table query.
//! * [`roll`]: the small rules of a check roll.
//! * [`table_text`]: reading the endpoint's delimited text.
use vstd::prelude::*;

pub mod ability;
pub mod claims;
pub mod fetch;
pub mod roll;
pub mod table_text;

verus! {

} // verus!
