//! One dated entry of the ledger.

use vstd::prelude::*;
use vstd::string::*;
use crate::date::Date;
use crate::operation_flow::OperationFlow;
use crate::operation_kind::OperationKind;
use crate::regular_kind::RegularKind;
use crate::system_kind::SystemKind;
use crate::text::{chars_of, trim_bounds, trimmed};

verus! {

/// Why an operation could not be made.
#[derive(Debug, Clone, Copy, PartialEq, Eq, Structural)]
pub enum OperationError {
    /// The text of the date is not a calendar date of the form `YYYY-MM-DD`.
    InvalidDate,
}

/// An entry of the ledger: what it is, in which direction the money moves,
/// on which day, how much, and why. The amount is a magnitude in units of
/// one ten-thousandth; the direction is told by the flow alone.
#[derive(Debug)]
pub struct Operation {
    pub kind: OperationKind,
    pub flow: OperationFlow,
    pub date: Date,
    pub amount: u64,
    pub description: String,
}

/// The description that an operation keeps for a given text: the text
/// without surrounding white space, or a fixed placeholder where nothing
/// is left.
pub open spec fn normalized_description(text: Seq<char>) -> Seq<char> {
    if trimmed(text).len() == 0 {
        "no description"@
    } else {
        trimmed(text)
    }
}

impl Clone for Operation {
    fn clone(&self) -> (r: Self)
        ensures
            r == *self,
    {
        Operation {
            kind: self.kind,
            flow: self.flow,
            date: self.date,
            amount: self.amount,
            description: self.description.clone(),
        }
    }
}

impl Operation {
    /// Whether the operation is well formed: its date exists in the calendar.
    pub open spec fn wf(&self) -> bool {
        self.date.is_valid()
    }

    /// The amount with the sign of the flow: what the operation adds to a
    /// balance.
    pub open spec fn signed_amount(&self) -> int {
        match self.flow {
            OperationFlow::Credit => self.amount as int,
            OperationFlow::Debit => -(self.amount as int),
            OperationFlow::Neutral => 0,
        }
    }

    /// Whether the operation is the one described: of the given kind, flow,
    /// date and amount, and with the normalized form of the given text as
    /// its description.
    pub open spec fn is_entry(
        &self,
        kind: OperationKind,
        flow: OperationFlow,
        date: Date,
        amount: u64,
        description: Seq<char>,
    ) -> bool {
        &&& self.kind == kind
        &&& self.flow == flow
        &&& self.date == date
        &&& self.amount == amount
        &&& self.description@ == normalized_description(description)
    }

    /// Makes an operation on a date that is already known. The description
    /// is trimmed, and replaced by a placeholder if nothing is left of it.
    pub fn dated(
        kind: OperationKind,
        flow: OperationFlow,
        date: Date,
        amount: u64,
        desc: &str,
    ) -> (r: Operation)
        ensures
            r.is_entry(kind, flow, date, amount, desc@),
            r.description@.len() > 0,
    {
        let chars = chars_of(desc);
        let (start, end) = trim_bounds(&chars);
        let description = if start == end {
            proof {
                reveal_strlit("no description");
            }
            String::from_str("no description")
        } else {
            String::from_str(desc.substring_char(start, end))
        };
        Operation { kind, flow, date, amount, description }
    }

    /// Makes an operation from the text of its date, which must hold a
    /// calendar date of the form `YYYY-MM-DD`.
    pub fn new(kind: OperationKind, flow: OperationFlow, dt: &str, amount: u64, desc: &str) -> (r:
        Result<Operation, OperationError>)
        ensures
            match r {
                Ok(op) => Date::parsed(dt@) matches Some(date) && op.is_entry(
                    kind,
                    flow,
                    date,
                    amount,
                    desc@,
                ) && op.wf() && op.description@.len() > 0,
                Err(e) => Date::parsed(dt@) is None && e == OperationError::InvalidDate,
            },
    {
        match Date::parse(dt) {
            Some(date) => Ok(Operation::dated(kind, flow, date, amount, desc)),
            None => Err(OperationError::InvalidDate),
        }
    }

    /// Makes a system operation; see [`Operation::new`].
    pub fn new_system_operation(
        kind: SystemKind,
        flow: OperationFlow,
        dt: &str,
        amount: u64,
        desc: &str,
    ) -> (r: Result<Operation, OperationError>)
        ensures
            match r {
                Ok(op) => Date::parsed(dt@) matches Some(date) && op.is_entry(
                    OperationKind::System(kind),
                    flow,
                    date,
                    amount,
                    desc@,
                ) && op.wf() && op.description@.len() > 0,
                Err(e) => Date::parsed(dt@) is None && e == OperationError::InvalidDate,
            },
    {
        Operation::new(OperationKind::System(kind), flow, dt, amount, desc)
    }

    /// Makes a regular operation; see [`Operation::new`].
    pub fn new_regular_operation(
        kind: RegularKind,
        flow: OperationFlow,
        dt: &str,
        amount: u64,
        desc: &str,
    ) -> (r: Result<Operation, OperationError>)
        ensures
            match r {
                Ok(op) => Date::parsed(dt@) matches Some(date) && op.is_entry(
                    OperationKind::Regular(kind),
                    flow,
                    date,
                    amount,
                    desc@,
                ) && op.wf() && op.description@.len() > 0,
                Err(e) => Date::parsed(dt@) is None && e == OperationError::InvalidDate,
            },
    {
        Operation::new(OperationKind::Regular(kind), flow, dt, amount, desc)
    }
}

} // verus!
