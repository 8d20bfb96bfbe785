//! A request blocker driven by filter lists.
//!
//! A rule set written in the filter-list syntax of ad and tracker blocking
//! lists is compiled once into an [`engine::Engine`]; the engine then answers,
//! for one network request at a time, whether the request is blocked.
//! Each function is proved to do what the mathematical description beside
//! it says; the few calls into other crates, whose results are believed,
//! stand in `bridge`.

use vstd::prelude::*;

pub mod text;
pub mod bridge;
pub mod pattern;
pub mod resource;
pub mod url;
pub mod request;
pub mod rule;
pub mod parser;
pub mod index;
pub mod matcher;
pub mod engine;
pub mod laws;

verus! {

} // verus!
