//! The direction of an operation: money coming in, going out, or neither.

use vstd::prelude::*;
use vstd::string::*;
use crate::text::{ascii_lower, ascii_lower_range, chars_of, spells, trim_bounds, trimmed};

verus! {

/// Why a text was not accepted as an [`OperationFlow`].
#[derive(Debug)]
pub enum OperationFlowError {
    /// The text, as it was given, names no flow.
    Unknown(String),
}

impl OperationFlowError {
    /// The text that was refused.
    pub open spec fn input(&self) -> Seq<char> {
        match self {
            OperationFlowError::Unknown(text) => text@,
        }
    }

    /// A one-line description of the failure, naming the refused text.
    pub fn message(&self) -> (r: String)
        ensures
            r@ == "Unknown OperationFlow type: '"@ + self.input() + "'"@,
    {
        match self {
            OperationFlowError::Unknown(text) => {
                let mut r = String::from_str("Unknown OperationFlow type: '");
                r.append(text.as_str());
                r.append("'");
                r
            },
        }
    }
}

/// The flow of an operation. The sign of an amount is carried here, never by
/// the amount itself. `Neutral` (spelled `None` in text) contributes nothing
/// to any balance.
#[derive(Debug, Clone, Copy, PartialEq, Eq, Structural)]
pub enum OperationFlow {
    Debit,
    Credit,
    Neutral,
}

impl From<OperationFlow> for &'static str {
    fn from(flow: OperationFlow) -> (r: &'static str) {
        flow.as_str()
    }
}

impl vstd::std_specs::convert::FromSpecImpl<OperationFlow> for &'static str {
    open spec fn obeys_from_spec() -> bool {
        true
    }

    open spec fn from_spec(flow: OperationFlow) -> &'static str {
        flow.canonical()
    }
}

impl OperationFlow {
    /// The canonical name of the flow, as a text of the program.
    pub open spec fn canonical(self) -> &'static str {
        match self {
            OperationFlow::Debit => "Debit",
            OperationFlow::Credit => "Credit",
            OperationFlow::Neutral => "None",
        }
    }

    /// The canonical name of the flow.
    pub open spec fn name(self) -> Seq<char> {
        self.canonical()@
    }

    /// The flow that a trimmed, lower-case word names: the canonical names
    /// and the short forms `db`, `cr` and `no`.
    pub open spec fn from_keyword(word: Seq<char>) -> Option<OperationFlow> {
        if word == "debit"@ || word == "db"@ {
            Some(OperationFlow::Debit)
        } else if word == "credit"@ || word == "cr"@ {
            Some(OperationFlow::Credit)
        } else if word == "none"@ || word == "no"@ {
            Some(OperationFlow::Neutral)
        } else {
            Option::None
        }
    }

    /// The flow that a text names, ignoring surrounding white space and the
    /// case of ASCII letters.
    pub open spec fn parse(text: Seq<char>) -> Option<OperationFlow> {
        Self::from_keyword(ascii_lower(trimmed(text)))
    }

    /// The sign of the flow: `1` for a credit, `-1` for a debit, `0` for none.
    pub open spec fn sign(self) -> int {
        match self {
            OperationFlow::Debit => -1,
            OperationFlow::Credit => 1,
            OperationFlow::Neutral => 0,
        }
    }

    /// The flow of a signed quantity: credit if positive, debit if negative,
    /// none if zero.
    pub open spec fn of_sign(sign: int) -> OperationFlow {
        if sign > 0 {
            OperationFlow::Credit
        } else if sign < 0 {
            OperationFlow::Debit
        } else {
            OperationFlow::Neutral
        }
    }

    /// The flow that undoes this one.
    pub open spec fn reversed(self) -> OperationFlow {
        match self {
            OperationFlow::Debit => OperationFlow::Credit,
            OperationFlow::Credit => OperationFlow::Debit,
            OperationFlow::Neutral => OperationFlow::Neutral,
        }
    }

    /// The canonical name of the flow.
    pub fn as_str(&self) -> (r: &'static str)
        ensures
            r == self.canonical(),
            r@ == self.name(),
    {
        match self {
            OperationFlow::Debit => "Debit",
            OperationFlow::Credit => "Credit",
            OperationFlow::Neutral => "None",
        }
    }

    /// Reads a flow from a text. Surrounding white space and the case of ASCII
    /// letters are ignored; any text that names no flow is refused, and the
    /// error holds the text as given.
    pub fn try_from_str(s: &str) -> (r: Result<OperationFlow, OperationFlowError>)
        ensures
            match r {
                Ok(flow) => Self::parse(s@) == Some(flow),
                Err(e) => Self::parse(s@) is None && e.input() == s@,
            },
    {
        let chars = chars_of(s);
        let (start, end) = trim_bounds(&chars);
        let word = ascii_lower_range(&chars, start, end);
        match Self::lookup(&word) {
            Some(flow) => Ok(flow),
            None => Err(OperationFlowError::Unknown(String::from_str(s))),
        }
    }

    /// The flow named by a word that is already trimmed and in lower case.
    pub fn lookup(word: &Vec<char>) -> (r: Option<OperationFlow>)
        ensures
            r == Self::from_keyword(word@),
    {
        if spells(word, "debit") || spells(word, "db") {
            Some(OperationFlow::Debit)
        } else if spells(word, "credit") || spells(word, "cr") {
            Some(OperationFlow::Credit)
        } else if spells(word, "none") || spells(word, "no") {
            Some(OperationFlow::Neutral)
        } else {
            None
        }
    }

    /// Whether the flow is a debit.
    pub fn is_debit(&self) -> (b: bool)
        ensures
            b == (*self == OperationFlow::Debit),
    {
        matches!(self, OperationFlow::Debit)
    }

    /// Whether the flow is a credit.
    pub fn is_credit(&self) -> (b: bool)
        ensures
            b == (*self == OperationFlow::Credit),
    {
        matches!(self, OperationFlow::Credit)
    }

    /// Whether the flow is the neutral one.
    pub fn is_none(&self) -> (b: bool)
        ensures
            b == (*self == OperationFlow::Neutral),
    {
        matches!(self, OperationFlow::Neutral)
    }

    /// The flow that undoes this one; the neutral flow is its own opposite.
    pub fn opposite(&self) -> (r: OperationFlow)
        ensures
            r == self.reversed(),
    {
        match self {
            OperationFlow::Debit => OperationFlow::Credit,
            OperationFlow::Credit => OperationFlow::Debit,
            OperationFlow::Neutral => OperationFlow::Neutral,
        }
    }

    /// Replaces the flow by its opposite.
    pub fn toggle(&mut self)
        ensures
            *final(self) == old(self).reversed(),
    {
        *self = self.opposite();
    }

    /// The sign of the flow: `1` for a credit, `-1` for a debit, `0` for none.
    pub fn to_sign(&self) -> (r: i64)
        ensures
            r == self.sign(),
    {
        match self {
            OperationFlow::Debit => -1,
            OperationFlow::Credit => 1,
            OperationFlow::Neutral => 0,
        }
    }

    /// The flow of a signed quantity: credit if positive, debit if negative,
    /// none if exactly zero.
    pub fn from_sign(sign: i64) -> (r: OperationFlow)
        ensures
            r == Self::of_sign(sign as int),
    {
        if sign > 0 {
            OperationFlow::Credit
        } else if sign < 0 {
            OperationFlow::Debit
        } else {
            OperationFlow::Neutral
        }
    }
}

/// Reversing a flow twice gives it back, and reverses its sign once.
pub proof fn lemma_opposite_involution(flow: OperationFlow)
    ensures
        flow.reversed().reversed() == flow,
        flow.reversed().sign() == -flow.sign(),
        OperationFlow::of_sign(flow.sign()) == flow,
{
}

} // verus!
