//! The contract's message handlers, each a function from the stored state and a
//! message to the new state and a response.
pub mod admin;
pub mod delegation;
pub mod escrow;
pub mod events;
pub mod execution;
pub mod fin;
pub mod fin_orders;
pub mod vaults;
