//! The decision logic of a dollar-cost-averaging vault contract.
use vstd::prelude::*;

pub mod dca_configuration;
pub mod debug_text;
pub mod disbursement;
pub mod error;
pub mod fees;
pub mod handlers;
pub mod laws;
pub mod math;
pub mod pricing;
pub mod schedule;
pub mod state;
pub mod text;
pub mod types;
pub mod validation;

verus! {

} // verus!
