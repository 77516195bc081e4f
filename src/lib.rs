use vstd::prelude::*;

pub mod fixed;
pub mod models;
pub mod risk;
pub mod window;
pub mod pairs;
pub mod basis;
pub mod triangular;
pub mod market_making;
pub mod learner;
pub mod exchange;
pub mod coordinator;

verus! {

} // verus!
