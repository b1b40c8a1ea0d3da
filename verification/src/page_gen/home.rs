use vstd::prelude::*;

verus! {

/// The home page; it shows no data of its own.
pub struct Home {}

} // verus!
