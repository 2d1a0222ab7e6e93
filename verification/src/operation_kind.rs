//! The classification of an operation: a system anchor or a regular movement.

use vstd::prelude::*;
use vstd::string::*;
use crate::regular_kind::RegularKind;
use crate::system_kind::SystemKind;
use crate::text::{ascii_lower, ascii_lower_range, chars_of};

verus! {

/// Why a text was not accepted as an [`OperationKind`].
#[derive(Debug)]
pub enum OperationKindError {
    /// The text, as it was given, names no kind of operation.
    Unknown(String),
}

impl OperationKindError {
    /// The text that was refused.
    pub open spec fn input(&self) -> Seq<char> {
        match self {
            OperationKindError::Unknown(text) => text@,
        }
    }

    /// A one-line description of the failure, naming the refused text.
    pub fn message(&self) -> (r: String)
        ensures
            r@ == "Unknown OperationKind type: '"@ + self.input() + "'"@,
    {
        match self {
            OperationKindError::Unknown(text) => {
                let mut r = String::from_str("Unknown OperationKind type: '");
                r.append(text.as_str());
                r.append("'");
                r
            },
        }
    }
}

/// What an operation is: an anchor that the ledger protects, or a movement
/// that its owner may remove again. System kinds sort before regular kinds.
#[derive(Debug, Clone, Copy, PartialEq, Eq, Structural, PartialOrd, Ord)]
pub enum OperationKind {
    System(SystemKind),
    Regular(RegularKind),
}

impl From<OperationKind> for &'static str {
    fn from(kind: OperationKind) -> (r: &'static str) {
        kind.as_str()
    }
}

impl vstd::std_specs::convert::FromSpecImpl<OperationKind> for &'static str {
    open spec fn obeys_from_spec() -> bool {
        true
    }

    open spec fn from_spec(kind: OperationKind) -> &'static str {
        kind.canonical()
    }
}

impl OperationKind {
    /// The place of the kind in the declared order: the system kinds first,
    /// then the regular kinds, each group in its own order.
    pub open spec fn rank(self) -> int {
        match self {
            OperationKind::System(kind) => kind.rank(),
            OperationKind::Regular(kind) => 3 + kind.rank(),
        }
    }

    /// The canonical name of the specific kind, as a text of the program.
    pub open spec fn canonical(self) -> &'static str {
        match self {
            OperationKind::System(kind) => kind.canonical(),
            OperationKind::Regular(kind) => kind.canonical(),
        }
    }

    /// The canonical name of the specific kind.
    pub open spec fn name(self) -> Seq<char> {
        self.canonical()@
    }

    /// The name of the group that the kind belongs to.
    pub open spec fn group_name(self) -> Seq<char> {
        match self {
            OperationKind::System(_) => "System"@,
            OperationKind::Regular(_) => "Regular"@,
        }
    }

    /// Whether the kind resets the carried balance when a period is closed:
    /// an opening balance or an earlier closing.
    pub open spec fn is_reset_anchor(self) -> bool {
        self == OperationKind::System(SystemKind::Init) || self == OperationKind::System(
            SystemKind::Close,
        )
    }

    /// The kind that a lower-case word names; a word that names a system kind
    /// is read as that.
    pub open spec fn from_keyword(word: Seq<char>) -> Option<OperationKind> {
        match SystemKind::from_keyword(word) {
            Some(kind) => Some(OperationKind::System(kind)),
            None => match RegularKind::from_keyword(word) {
                Some(kind) => Some(OperationKind::Regular(kind)),
                None => None,
            },
        }
    }

    /// The kind that a text names, ignoring the case of ASCII letters.
    pub open spec fn parse(text: Seq<char>) -> Option<OperationKind> {
        Self::from_keyword(ascii_lower(text))
    }

    /// Whether the kind is a system anchor.
    pub fn is_system(&self) -> (b: bool)
        ensures
            b == (*self is System),
    {
        matches!(self, OperationKind::System(_))
    }

    /// Whether the kind is a regular movement.
    pub fn is_regular(&self) -> (b: bool)
        ensures
            b == (*self is Regular),
    {
        matches!(self, OperationKind::Regular(_))
    }

    /// The name of the group that the kind belongs to.
    pub fn kind_type(&self) -> (r: &'static str)
        ensures
            r@ == self.group_name(),
    {
        match self {
            OperationKind::System(_) => "System",
            OperationKind::Regular(_) => "Regular",
        }
    }

    /// The canonical name of the specific kind.
    pub fn as_str(&self) -> (r: &'static str)
        ensures
            r == self.canonical(),
            r@ == self.name(),
    {
        match self {
            OperationKind::System(kind) => kind.as_str(),
            OperationKind::Regular(kind) => kind.as_str(),
        }
    }

    /// The place of the kind in the declared order.
    pub fn order_rank(&self) -> (r: u8)
        ensures
            r == self.rank(),
            r <= 6,
    {
        match self {
            OperationKind::System(SystemKind::Init) => 0,
            OperationKind::System(SystemKind::Adjust) => 1,
            OperationKind::System(SystemKind::Close) => 2,
            OperationKind::Regular(RegularKind::Transaction) => 3,
            OperationKind::Regular(RegularKind::Fee) => 4,
            OperationKind::Regular(RegularKind::Transfer) => 5,
            OperationKind::Regular(RegularKind::Refund) => 6,
        }
    }

    /// Reads a kind from a text, ignoring the case of ASCII letters: a system
    /// kind where the text names one, else a regular kind. Any other text is
    /// refused, and the error holds the text as given.
    pub fn try_from_str(s: &str) -> (r: Result<OperationKind, OperationKindError>)
        ensures
            match r {
                Ok(kind) => Self::parse(s@) == Some(kind),
                Err(e) => Self::parse(s@) is None && e.input() == s@,
            },
    {
        let chars = chars_of(s);
        assert(chars@.subrange(0, chars@.len() as int) =~= chars@);
        let word = ascii_lower_range(&chars, 0, chars.len());
        if let Some(kind) = SystemKind::lookup(&word) {
            return Ok(OperationKind::System(kind));
        }
        if let Some(kind) = RegularKind::lookup(&word) {
            return Ok(OperationKind::Regular(kind));
        }
        Err(OperationKindError::Unknown(String::from_str(s)))
    }
}

/// The rank orders the kinds as declared: every system kind before every
/// regular kind, and distinct kinds have distinct ranks.
pub proof fn lemma_rank_orders_kinds(a: OperationKind, b: OperationKind)
    ensures
        0 <= a.rank() <= 6,
        a.rank() == b.rank() <==> a == b,
        a is System && b is Regular ==> a.rank() < b.rank(),
{
}

} // verus!
