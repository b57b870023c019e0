//! What the results page is sent.
use vstd::prelude::*;

verus! {

/// The form that carries a run's results, written as JSON, to the results page.
pub struct InputData {
    pub result: String,
}

} // verus!
