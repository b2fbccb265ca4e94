//! Temperature rise in layered absorbing media from closed-form Green's functions.
use vstd::prelude::*;

pub mod beam;
pub mod integration;
pub mod layers;
pub mod numeric;

verus! {

} // verus!
