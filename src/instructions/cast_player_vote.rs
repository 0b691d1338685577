use vstd::prelude::*;
use crate::bet::{player_vote_result, Bet};
use crate::error::ErrorCode;
use crate::pubkey::Pubkey;
use crate::voting_state::Side;

verus! {

/// Records (or replaces) the caller's own ballot, then resolves the bet if
/// both players name the same winner.
pub fn handler(bet: &mut Bet, caller: &Pubkey, voted_winner: u8) -> (r: Result<(), ErrorCode>)
    requires
        old(bet)@.wf(),
    ensures
        final(bet)@.wf(),
        match player_vote_result(old(bet)@, caller@, voted_winner) {
            Ok(b) => r == Ok::<(), ErrorCode>(()) && final(bet)@ == b,
            Err(e) => r == Err::<(), ErrorCode>(e) && final(bet)@ == old(bet)@,
        },
{
    if !bet.accepted {
        return Err(ErrorCode::BetNotAccepted);
    }
    let side = match Side::from_u8(voted_winner) {
        Ok(s) => s,
        Err(e) => return Err(e),
    };
    if bet.voting_state.resolved {
        return Err(ErrorCode::BetAlreadyResolved);
    }
    if *caller == bet.creator {
        bet.voting_state.creator_vote = Some(side);
    } else if *caller == bet.challenger {
        bet.voting_state.challenger_vote = Some(side);
    } else {
        return Err(ErrorCode::NotAuthorizedToVote);
    }
    if let Some(w) = bet.voting_state.player_agreement() {
        bet.voting_state.winner = Some(w);
        bet.voting_state.resolved = true;
    }
    Ok(())
}

} // verus!
