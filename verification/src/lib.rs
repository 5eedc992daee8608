//! A dating-service backend library: an in-memory relational store with
//! phone-keyed users, profiles with ordered images and prompts, a directed
//! interaction ledger, mutual-like match formation, per-match messaging with
//! cursor pagination, and a preference-filtered candidate feed.
//!
//! Identifiers travel as UUID strings at the boundary and as 128-bit values
//! inside; timestamps travel as RFC 3339 strings at the boundary and as
//! microsecond counts inside.

pub mod deletion;
pub mod errors;
pub mod feed;
pub mod ids;
pub mod images_queries;
pub mod inputs;
pub mod interact_queries;
pub mod interactions;
pub mod matches;
pub mod outputs;
pub mod profile;
pub mod profile_queries;
pub mod prompt_queries;
pub mod prompts;
pub mod seed;
pub mod store;
pub mod timefmt;
pub mod user;
pub mod user_queries;
pub mod util;

use vstd::prelude::*;

verus! {

} // verus!
