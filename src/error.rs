use vstd::prelude::*;

verus! {

/// Every way an operation on a bet can be refused.
#[derive(Clone, Copy, Debug, PartialEq, Eq, Structural)]
pub enum ErrorCode {
    BetAlreadyResolved,
    WrongChallenger,
    BetAlreadyAccepted,
    BetNotAccepted,
    InvalidVote,
    NotAuthorizedToVote,
    AlreadyVoted,
    BetNotResolved,
    InvalidWinnerAccount,
    InvalidCreatorAccount,
    InsufficientFunds,
    IndexCollision,
    NotFound,
}

} // verus!
