//! The envelope every top-level analysis returns, and helpers on sequences of optional values.
use vstd::prelude::*;

verus! {

/// A result with the methodology that produced it and the warnings raised on the way.
pub struct ComputationOutput<T> {
    pub methodology: String,
    pub warnings: Vec<String>,
    pub result: T,
}

/// Every entry is present.
pub open spec fn all_some<T>(s: Seq<Option<T>>) -> bool {
    forall|k: int| 0 <= k < s.len() ==> (#[trigger] s[k]) is Some
}

/// The entries without their `Some`.
pub open spec fn unwrap_all<T>(s: Seq<Option<T>>) -> Seq<T> {
    s.map_values(|o: Option<T>| o.unwrap())
}

} // verus!
