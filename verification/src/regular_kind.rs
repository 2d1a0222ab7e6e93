//! The kinds of ordinary movements.

use vstd::prelude::*;
use vstd::string::*;
use crate::text::{ascii_lower, ascii_lower_range, chars_of, spells};

verus! {

/// Why a text was not accepted as a [`RegularKind`].
#[derive(Debug)]
pub enum RegularKindError {
    /// The text, as it was given, names no regular kind.
    Unknown(String),
}

impl RegularKindError {
    /// The text that was refused.
    pub open spec fn input(&self) -> Seq<char> {
        match self {
            RegularKindError::Unknown(text) => text@,
        }
    }

    /// A one-line description of the failure, naming the refused text.
    pub fn message(&self) -> (r: String)
        ensures
            r@ == "Unknown Regular type: '"@ + self.input() + "'"@,
    {
        match self {
            RegularKindError::Unknown(text) => {
                let mut r = String::from_str("Unknown Regular type: '");
                r.append(text.as_str());
                r.append("'");
                r
            },
        }
    }
}

/// An ordinary movement of money. Declared in the order in which they sort.
#[derive(Debug, Clone, Copy, PartialEq, Eq, Structural, PartialOrd, Ord)]
pub enum RegularKind {
    Transaction,
    Fee,
    Transfer,
    Refund,
}

impl From<RegularKind> for &'static str {
    fn from(kind: RegularKind) -> (r: &'static str) {
        kind.as_str()
    }
}

impl vstd::std_specs::convert::FromSpecImpl<RegularKind> for &'static str {
    open spec fn obeys_from_spec() -> bool {
        true
    }

    open spec fn from_spec(kind: RegularKind) -> &'static str {
        kind.canonical()
    }
}

impl RegularKind {
    /// The canonical name of the kind, as a text of the program.
    pub open spec fn canonical(self) -> &'static str {
        match self {
            RegularKind::Transaction => "Transaction",
            RegularKind::Fee => "Fee",
            RegularKind::Transfer => "Transfer",
            RegularKind::Refund => "Refund",
        }
    }

    /// The canonical name of the kind.
    pub open spec fn name(self) -> Seq<char> {
        self.canonical()@
    }

    /// The place of the kind in the declared order, from zero.
    pub open spec fn rank(self) -> int {
        match self {
            RegularKind::Transaction => 0,
            RegularKind::Fee => 1,
            RegularKind::Transfer => 2,
            RegularKind::Refund => 3,
        }
    }

    /// The kind that a lower-case word names: the canonical names and the
    /// short form `trans`.
    pub open spec fn from_keyword(word: Seq<char>) -> Option<RegularKind> {
        if word == "transaction"@ || word == "trans"@ {
            Some(RegularKind::Transaction)
        } else if word == "fee"@ {
            Some(RegularKind::Fee)
        } else if word == "transfer"@ {
            Some(RegularKind::Transfer)
        } else if word == "refund"@ {
            Some(RegularKind::Refund)
        } else {
            None
        }
    }

    /// The kind that a text names, ignoring the case of ASCII letters.
    pub open spec fn parse(text: Seq<char>) -> Option<RegularKind> {
        Self::from_keyword(ascii_lower(text))
    }

    /// The canonical name of the kind.
    pub fn as_str(&self) -> (r: &'static str)
        ensures
            r == self.canonical(),
            r@ == self.name(),
    {
        match self {
            RegularKind::Transaction => "Transaction",
            RegularKind::Fee => "Fee",
            RegularKind::Transfer => "Transfer",
            RegularKind::Refund => "Refund",
        }
    }

    /// The kind named by a word that is already in lower case.
    pub fn lookup(word: &Vec<char>) -> (r: Option<RegularKind>)
        ensures
            r == Self::from_keyword(word@),
    {
        if spells(word, "transaction") || spells(word, "trans") {
            Some(RegularKind::Transaction)
        } else if spells(word, "fee") {
            Some(RegularKind::Fee)
        } else if spells(word, "transfer") {
            Some(RegularKind::Transfer)
        } else if spells(word, "refund") {
            Some(RegularKind::Refund)
        } else {
            None
        }
    }

    /// Reads a regular kind from a text, ignoring the case of ASCII letters.
    /// Any text that names no regular kind is refused, and the error holds
    /// the text as given.
    pub fn try_from_str(s: &str) -> (r: Result<RegularKind, RegularKindError>)
        ensures
            match r {
                Ok(kind) => Self::parse(s@) == Some(kind),
                Err(e) => Self::parse(s@) is None && e.input() == s@,
            },
    {
        let chars = chars_of(s);
        assert(chars@.subrange(0, chars@.len() as int) =~= chars@);
        let word = ascii_lower_range(&chars, 0, chars.len());
        match Self::lookup(&word) {
            Some(kind) => Ok(kind),
            None => Err(RegularKindError::Unknown(String::from_str(s))),
        }
    }
}

} // verus!
