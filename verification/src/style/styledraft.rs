//! Style documents.
use vstd::prelude::*;

verus! {

#[derive(Debug, Clone)]
pub struct Metadata {
    pub Value: String,
}

impl Default for Metadata {
    fn default() -> (r: Self)
        ensures
            r.Value@ == Seq::<char>::empty(),
    {
        Metadata { Value: String::new() }
    }
}

} // verus!
