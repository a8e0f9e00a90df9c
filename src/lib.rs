use vstd::prelude::*;

pub mod ids;
pub mod review;
pub mod store;
pub mod service;
pub mod laws;

verus! {

} // verus!
