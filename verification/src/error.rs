//! The ways in which an operation on the ledger is turned down.

use vstd::prelude::*;

verus! {

/// Why an operation was turned down. Every one of them ends the whole
/// operation and leaves the records as they were.
#[derive(Clone, Copy, Debug, PartialEq, Eq, Structural)]
pub enum ErrorCode {
    /// The signer is not the authority that the record names.
    InvalidAuthority,
    /// A player belongs to another team than the one being updated.
    InvalidTeam,
    /// An account does not hold a record of the expected kind.
    InvalidAccountData,
    /// A record was to be created where one already is.
    AlreadyExists,
    /// The team's total would no longer fit its range.
    ScoreOverflow,
}

impl ErrorCode {
    /// The text that goes with the error.
    pub open spec fn message_text(self) -> Seq<char> {
        match self {
            ErrorCode::InvalidAuthority => "Invalid authority"@,
            ErrorCode::InvalidTeam => "Invalid team"@,
            ErrorCode::InvalidAccountData => "Invalid account data"@,
            ErrorCode::AlreadyExists => "Already exists"@,
            ErrorCode::ScoreOverflow => "Score overflow"@,
        }
    }

    /// The text that goes with the error, for a caller to show.
    pub fn message(&self) -> (text: String)
        ensures
            text@ == self.message_text(),
    {
        match self {
            ErrorCode::InvalidAuthority => "Invalid authority".to_owned(),
            ErrorCode::InvalidTeam => "Invalid team".to_owned(),
            ErrorCode::InvalidAccountData => "Invalid account data".to_owned(),
            ErrorCode::AlreadyExists => "Already exists".to_owned(),
            ErrorCode::ScoreOverflow => "Score overflow".to_owned(),
        }
    }
}

} // verus!
