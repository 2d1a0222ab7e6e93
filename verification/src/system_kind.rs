//! The kinds of operations that the ledger itself creates to fix its balance.

use vstd::prelude::*;
use vstd::string::*;
use crate::text::{ascii_lower, ascii_lower_range, chars_of, spells};

verus! {

/// Why a text was not accepted as a [`SystemKind`].
#[derive(Debug)]
pub enum SystemKindError {
    /// The text, as it was given, names no system kind.
    Unknown(String),
}

impl SystemKindError {
    /// The text that was refused.
    pub open spec fn input(&self) -> Seq<char> {
        match self {
            SystemKindError::Unknown(text) => text@,
        }
    }

    /// A one-line description of the failure, naming the refused text.
    pub fn message(&self) -> (r: String)
        ensures
            r@ == "Unknown SystemKind type: '"@ + self.input() + "'"@,
    {
        match self {
            SystemKindError::Unknown(text) => {
                let mut r = String::from_str("Unknown SystemKind type: '");
                r.append(text.as_str());
                r.append("'");
                r
            },
        }
    }
}

/// An anchor of the ledger: the opening balance, a correction to a counted
/// balance, or the balance carried forward by a period closing. Declared in
/// the order in which they sort.
#[derive(Debug, Clone, Copy, PartialEq, Eq, Structural, PartialOrd, Ord)]
pub enum SystemKind {
    Init,
    Adjust,
    Close,
}

impl From<SystemKind> for &'static str {
    fn from(kind: SystemKind) -> (r: &'static str) {
        kind.as_str()
    }
}

impl vstd::std_specs::convert::FromSpecImpl<SystemKind> for &'static str {
    open spec fn obeys_from_spec() -> bool {
        true
    }

    open spec fn from_spec(kind: SystemKind) -> &'static str {
        kind.canonical()
    }
}

impl SystemKind {
    /// The canonical name of the kind, as a text of the program.
    pub open spec fn canonical(self) -> &'static str {
        match self {
            SystemKind::Init => "Initialize",
            SystemKind::Adjust => "Adjust",
            SystemKind::Close => "Close",
        }
    }

    /// The canonical name of the kind.
    pub open spec fn name(self) -> Seq<char> {
        self.canonical()@
    }

    /// The place of the kind in the declared order, from zero.
    pub open spec fn rank(self) -> int {
        match self {
            SystemKind::Init => 0,
            SystemKind::Adjust => 1,
            SystemKind::Close => 2,
        }
    }

    /// The kind that a lower-case word names: the canonical names and the
    /// short form `init`.
    pub open spec fn from_keyword(word: Seq<char>) -> Option<SystemKind> {
        if word == "init"@ || word == "initialize"@ {
            Some(SystemKind::Init)
        } else if word == "adjust"@ {
            Some(SystemKind::Adjust)
        } else if word == "close"@ {
            Some(SystemKind::Close)
        } else {
            None
        }
    }

    /// The kind that a text names, ignoring the case of ASCII letters.
    pub open spec fn parse(text: Seq<char>) -> Option<SystemKind> {
        Self::from_keyword(ascii_lower(text))
    }

    /// The canonical name of the kind.
    pub fn as_str(&self) -> (r: &'static str)
        ensures
            r == self.canonical(),
            r@ == self.name(),
    {
        match self {
            SystemKind::Init => "Initialize",
            SystemKind::Adjust => "Adjust",
            SystemKind::Close => "Close",
        }
    }

    /// The kind named by a word that is already in lower case.
    pub fn lookup(word: &Vec<char>) -> (r: Option<SystemKind>)
        ensures
            r == Self::from_keyword(word@),
    {
        if spells(word, "init") || spells(word, "initialize") {
            Some(SystemKind::Init)
        } else if spells(word, "adjust") {
            Some(SystemKind::Adjust)
        } else if spells(word, "close") {
            Some(SystemKind::Close)
        } else {
            None
        }
    }

    /// Reads a system kind from a text, ignoring the case of ASCII letters.
    /// Any text that names no system kind is refused, and the error holds the
    /// text as given.
    pub fn try_from_str(s: &str) -> (r: Result<SystemKind, SystemKindError>)
        ensures
            match r {
                Ok(kind) => Self::parse(s@) == Some(kind),
                Err(e) => Self::parse(s@) is None && e.input() == s@,
            },
    {
        let chars = chars_of(s);
        assert(chars@.subrange(0, chars@.len() as int) =~= chars@);
        let word = ascii_lower_range(&chars, 0, chars.len());
        match Self::lookup(&word) {
            Some(kind) => Ok(kind),
            None => Err(SystemKindError::Unknown(String::from_str(s))),
        }
    }
}

} // verus!
