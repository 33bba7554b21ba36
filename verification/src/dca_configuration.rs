//! The swap settings of a vault on a pair: which side of the pair it holds, and how much
//! it swaps at once.
use vstd::prelude::*;
use crate::math::Decimal;
use crate::types::{Coin, Pair, PositionType};

verus! {

/// What a vault holds and swaps on a pair, and on which side of the pair it stands.
#[derive(Debug, Clone, PartialEq, Eq)]
pub struct DCAConfiguration {
    pub balance: Coin,
    pub pair: Pair,
    pub swap_amount: u128,
    pub position_type: PositionType,
    pub slippage_tolerance: Option<Decimal>,
}

impl DCAConfiguration {
    /// Entering a position swaps the quote denomination; exiting swaps the base.
    pub open spec fn swap_denom_spec(self) -> String {
        if self.position_type == PositionType::Enter {
            self.pair.quote_denom
        } else {
            self.pair.base_denom
        }
    }

    /// Entering a position receives the base denomination; exiting receives the quote.
    pub open spec fn receive_denom_spec(self) -> String {
        if self.position_type == PositionType::Enter {
            self.pair.base_denom
        } else {
            self.pair.quote_denom
        }
    }

    pub open spec fn low_funds_spec(self) -> bool {
        self.balance.amount < self.swap_amount
    }

    pub fn get_swap_denom(&self) -> (d: String)
        ensures
            d == self.swap_denom_spec(),
    {
        if self.position_type == PositionType::Enter {
            return self.pair.quote_denom.clone();
        }
        self.pair.base_denom.clone()
    }

    pub fn get_receive_denom(&self) -> (d: String)
        ensures
            d == self.receive_denom_spec(),
    {
        if self.position_type == PositionType::Enter {
            return self.pair.base_denom.clone();
        }
        self.pair.quote_denom.clone()
    }

    /// What one swap takes: all of the balance where it holds less than the swap amount,
    /// the swap amount of the swapped denomination otherwise.
    pub fn get_swap_amount(&self) -> (c: Coin)
        ensures
            c == if self.low_funds_spec() {
                self.balance
            } else {
                Coin { denom: self.swap_denom_spec(), amount: self.swap_amount }
            },
    {
        if self.low_funds() {
            self.balance.copy()
        } else {
            Coin { denom: self.get_swap_denom(), amount: self.swap_amount }
        }
    }

    /// The balance no longer covers a full swap.
    pub fn low_funds(&self) -> (b: bool)
        ensures
            b == self.low_funds_spec(),
    {
        self.balance.amount < self.swap_amount
    }
}

} // verus!
