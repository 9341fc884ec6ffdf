//! A small user registry: an append-only table of users keyed by an
//! auto-assigned id, with find-or-create-by-name semantics, plain-text
//! JSON rendering, and the response bodies of the three HTTP endpoints
//! that serve it.

pub mod http;
pub mod json;
pub mod table;
pub mod timestamp;
pub mod user;

use vstd::prelude::*;

verus! {

} // verus!
