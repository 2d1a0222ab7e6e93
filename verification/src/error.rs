//! The ways in which a request to the ledger can fail.

use vstd::prelude::*;

verus! {

/// A refusal by the ledger. The ledger is left as it was whenever one is
/// returned.
#[derive(Debug, Clone, Copy, PartialEq, Eq, Structural)]
pub enum CodexiError {
    /// A text that should hold a date does not.
    InvalidDate,
    /// The date of a new operation is on or before the latest closing, or
    /// before the latest opening balance or adjustment.
    DateConflict,
    /// A debit is larger than the current balance.
    InsufficientFunds,
    /// The ledger was to be opened but already holds operations.
    NotEmpty,
    /// No operation stands at the given index.
    OutOfBounds,
    /// The operation at the given index is a system anchor and stays.
    ProtectedOperation,
    /// The amounts of the ledger, taken together, would no longer fit in the
    /// range in which balances are held.
    AmountOverflow,
}

impl CodexiError {
    /// What the error says, in one sentence.
    pub open spec fn text(self) -> Seq<char> {
        match self {
            CodexiError::InvalidDate => "Invalid date format. Expected YYYY-MM-DD, YYYY-MM, or YYYY."@,
            CodexiError::DateConflict => "Date conflict with a period closure or a system anchor."@,
            CodexiError::InsufficientFunds => "Insufficient funds for this debit."@,
            CodexiError::NotEmpty => "The codexi is not empty. Cannot set initial balance."@,
            CodexiError::OutOfBounds => "Operation index is out of bounds."@,
            CodexiError::ProtectedOperation => "Operation cannot be deleted: it is a protected system entry (Initial Balance, Adjustment or Carried Forward Solde)."@,
            CodexiError::AmountOverflow => "The amounts of the codexi exceed the range of balances."@,
        }
    }

    /// What the error says, in one sentence.
    pub fn message(&self) -> (r: &'static str)
        ensures
            r@ == self.text(),
    {
        match self {
            CodexiError::InvalidDate => "Invalid date format. Expected YYYY-MM-DD, YYYY-MM, or YYYY.",
            CodexiError::DateConflict => "Date conflict with a period closure or a system anchor.",
            CodexiError::InsufficientFunds => "Insufficient funds for this debit.",
            CodexiError::NotEmpty => "The codexi is not empty. Cannot set initial balance.",
            CodexiError::OutOfBounds => "Operation index is out of bounds.",
            CodexiError::ProtectedOperation => "Operation cannot be deleted: it is a protected system entry (Initial Balance, Adjustment or Carried Forward Solde).",
            CodexiError::AmountOverflow => "The amounts of the codexi exceed the range of balances.",
        }
    }
}

} // verus!
