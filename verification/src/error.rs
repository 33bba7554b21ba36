//! Errors of the contract and the text each one shows.
use vstd::prelude::*;
use crate::text::{amount_text, decimal_text, join, join3};

verus! {

/// The chain's standard errors that the contract passes on.
#[derive(Debug, Clone, PartialEq, Eq)]
pub enum StdError {
    GenericErr { msg: String },
    NotFound { kind: String },
    Overflow { operation: String, operand1: String, operand2: String },
}

/// Errors of the contract.
#[derive(Debug, Clone, PartialEq, Eq)]
pub enum ContractError {
    Std(StdError),
    Unauthorized,
    CustomError { val: String },
}

impl StdError {
    pub open spec fn text(self) -> Seq<char> {
        match self {
            StdError::GenericErr { msg } => "Generic error: "@ + msg@,
            StdError::NotFound { kind } => kind@ + " not found"@,
            StdError::Overflow { operation, operand1, operand2 } => "Overflow: Cannot "@
                + operation@ + " with "@ + operand1@ + " and "@ + operand2@,
        }
    }

    /// The text of the error.
    pub fn message(&self) -> (s: String)
        ensures
            s@ == self.text(),
    {
        match self {
            StdError::GenericErr { msg } => join("Generic error: ", msg.as_str()),
            StdError::NotFound { kind } => join(kind.as_str(), " not found"),
            StdError::Overflow { operation, operand1, operand2 } => {
                let mut s = join3("Overflow: Cannot ", operation.as_str(), " with ");
                s.append(operand1.as_str());
                s.append(" and ");
                s.append(operand2.as_str());
                s
            },
        }
    }
}

impl ContractError {
    pub open spec fn text(self) -> Seq<char> {
        match self {
            ContractError::Std(e) => e.text(),
            ContractError::Unauthorized => "Unauthorized"@,
            ContractError::CustomError { val } => "Error: "@ + val@,
        }
    }

    /// The text of the error, as the contract reports it.
    pub fn message(&self) -> (s: String)
        ensures
            s@ == self.text(),
    {
        match self {
            ContractError::Std(e) => e.message(),
            ContractError::Unauthorized => String::from_str("Unauthorized"),
            ContractError::CustomError { val } => join("Error: ", val.as_str()),
        }
    }

    /// The standard error that a query answers with for this contract error.
    pub fn into_std(self) -> (r: StdError)
        ensures
            r.text() == self.std_text(),
            self is Std ==> r == self->Std_0,
    {
        match self {
            ContractError::Std(e) => e,
            ContractError::CustomError { val } => StdError::GenericErr { msg: val },
            ContractError::Unauthorized => StdError::GenericErr {
                msg: String::from_str("Unauthorized"),
            },
        }
    }

    /// The text of the standard error that a query answers with.
    pub open spec fn std_text(self) -> Seq<char> {
        match self {
            ContractError::Std(e) => e.text(),
            ContractError::CustomError { val } => "Generic error: "@ + val@,
            ContractError::Unauthorized => "Generic error: "@ + "Unauthorized"@,
        }
    }
}

/// A custom error with the given text.
pub fn custom(val: String) -> (e: ContractError)
    ensures
        e == (ContractError::CustomError { val }),
{
    ContractError::CustomError { val }
}

/// A custom error whose text is a literal.
pub fn custom_str(val: &str) -> (e: ContractError)
    ensures
        e matches ContractError::CustomError { val: v } && v@ == val@,
{
    ContractError::CustomError { val: String::from_str(val) }
}

/// A generic standard error whose text is a literal.
pub fn generic_str(msg: &str) -> (e: ContractError)
    ensures
        e matches ContractError::Std(StdError::GenericErr { msg: m }) && m@ == msg@,
{
    ContractError::Std(StdError::GenericErr { msg: String::from_str(msg) })
}

/// A standard overflow error of a subtraction.
pub fn sub_overflow(a: u128, b: u128) -> (e: ContractError)
    ensures
        e matches ContractError::Std(StdError::Overflow { operation, operand1, operand2 }) && operation@
            == "Sub"@ && operand1@ == decimal_text(a as nat) && operand2@ == decimal_text(
            b as nat,
        ),
{
    ContractError::Std(
        StdError::Overflow {
            operation: String::from_str("Sub"),
            operand1: amount_text(a),
            operand2: amount_text(b),
        },
    )
}

} // verus!
