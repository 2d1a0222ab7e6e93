//! A single-user ledger.
//!
//! A [`Codexi`] is an ordered history of dated [`Operation`]s: an opening
//! balance, adjustments to a counted balance, period closings, and the
//! regular movements in between. The ledger decides whether an operation
//! may be added, collapses the past into one carried-forward anchor when a
//! period is closed, and answers questions about balances and operations.
//!
//! Amounts are whole numbers of units of one ten-thousandth (see
//! [`amount`]); dates are plain year, month and day (see [`date`]). Every
//! function states what it returns and how it changes the ledger, and the
//! statements in [`laws`] relate the functions to each other.
//!
//! Reading and writing files, the command line and the terminal are left to
//! the program around this library.

pub mod amount;
pub mod append;
pub mod balance;
pub mod closing;
pub mod codexi;
pub mod date;
pub mod error;
pub mod helpers;
pub mod laws;
pub mod operation;
pub mod operation_flow;
pub mod operation_kind;
pub mod ordering;
pub mod regular_kind;
pub mod resume;
pub mod search;
pub mod system_kind;
pub mod text;

pub use balance::{BalanceFilter, BalanceResult};
pub use codexi::Codexi;
pub use date::Date;
pub use error::CodexiError;
pub use operation::{Operation, OperationError};
pub use operation_flow::{OperationFlow, OperationFlowError};
pub use operation_kind::{OperationKind, OperationKindError};
pub use regular_kind::{RegularKind, RegularKindError};
pub use resume::ResumeResult;
pub use search::{SearchFilter, SearchItem};
pub use system_kind::{SystemKind, SystemKindError};
