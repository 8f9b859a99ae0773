//! A component that carries an arbitrary JSON string for an entity.
//! Serialization and entity-store attachment live with the embedding
//! program; the core only holds the text.

use vstd::prelude::*;

verus! {

/// A JSON payload attached to a simulation entity.
pub struct JsonComp(pub String);

impl JsonComp {
    /// An empty JSON payload.
    pub fn new() -> (r: Self)
        ensures
            r.0@ == Seq::<char>::empty(),
    {
        JsonComp(String::new())
    }
}

} // verus!
