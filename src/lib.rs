//! Incremental, content-addressed compilation of slide decks: frame
//! extraction, compile-unit construction and fingerprinting, run-history
//! diffing, output assembly and the pipeline's decision procedure.
use vstd::prelude::*;

pub mod text;
pub mod history;
pub mod extract;
pub mod fingerprint;
pub mod stitch;
pub mod plan;
pub mod pipeline;

verus! {

} // verus!
