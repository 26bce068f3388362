//! Request-scoped code highlighting: given a snippet, an optional file
//! path or extension, and a theme name, resolve a language grammar from
//! the syntect catalog and render either colorized HTML or a structural
//! export of scope annotations.

use vstd::prelude::*;

pub mod engine;
pub mod export;
pub mod handler;
pub mod html;
pub mod lines;
pub mod resolve;
pub mod scope_table;

verus! {

/// Fixed liveness-probe marker, independent of the pipeline.
pub fn health() -> (r: &'static str)
    ensures
        r@ == "OK"@,
{
    "OK"
}

} // verus!
