use vstd::prelude::*;
use crate::bet::{claim_result, Bet, EscrowVault};
use crate::error::ErrorCode;
use crate::pubkey::Pubkey;
use crate::voting_state::Side;

verus! {

/// Pays the whole escrow of a resolved bet to its winner, returning the
/// amount paid. `creator` must name the bet's creator, who gets the closed
/// record back. On any failure the vault does not change.
pub fn handler(bet: &Bet, vault: &mut EscrowVault, winner: &Pubkey, creator: &Pubkey) -> (r: Result<
    u64,
    ErrorCode,
>)
    requires
        bet@.wf(),
        old(vault).balance == bet@.escrowed(),
    ensures
        r == claim_result(bet@, winner@, creator@),
        r.is_ok() ==> final(vault).balance == 0,
        r.is_err() ==> final(vault).balance == old(vault).balance,
{
    if !bet.voting_state.resolved {
        return Err(ErrorCode::BetNotResolved);
    }
    let side = match bet.voting_state.winner {
        Some(s) => s,
        None => return Err(ErrorCode::BetNotResolved),
    };
    let expected_winner = match side {
        Side::Creator => &bet.creator,
        Side::Challenger => &bet.challenger,
    };
    if *winner != *expected_winner {
        return Err(ErrorCode::InvalidWinnerAccount);
    }
    if *creator != bet.creator {
        return Err(ErrorCode::InvalidCreatorAccount);
    }
    let total = bet.creator_stake + bet.challenger_stake;
    vault.balance = 0;
    Ok(total)
}

} // verus!
