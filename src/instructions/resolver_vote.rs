use vstd::prelude::*;
use crate::bet::{resolver_vote_result, lemma_first_index_unique, Bet};
use crate::error::ErrorCode;
use crate::pubkey::Pubkey;
use crate::voting_state::Side;

verus! {

/// Records the caller's one ballot as a resolver, then recounts every ballot
/// and resolves the bet if a side reached quorum.
pub fn handler(bet: &mut Bet, caller: &Pubkey, voted_winner: u8) -> (r: Result<(), ErrorCode>)
    requires
        old(bet)@.wf(),
    ensures
        final(bet)@.wf(),
        match resolver_vote_result(old(bet)@, caller@, voted_winner) {
            Ok(b) => r == Ok::<(), ErrorCode>(()) && final(bet)@ == b,
            Err(e) => r == Err::<(), ErrorCode>(e) && final(bet)@ == old(bet)@,
        },
{
    if !bet.accepted {
        return Err(ErrorCode::BetNotAccepted);
    }
    if bet.voting_state.resolved {
        return Err(ErrorCode::BetAlreadyResolved);
    }
    let side = match Side::from_u8(voted_winner) {
        Ok(s) => s,
        Err(e) => return Err(e),
    };
    let idx = match bet.resolver_position(caller) {
        Some(i) => i,
        None => return Err(ErrorCode::NotAuthorizedToVote),
    };
    proof {
        lemma_first_index_unique(bet@.resolver_group, caller@, idx as int);
    }
    if bet.voting_state.resolver_votes[idx].is_some() {
        return Err(ErrorCode::AlreadyVoted);
    }
    bet.voting_state.resolver_votes.set(idx, Some(side));
    let n = bet.resolver_group.len();
    if let Some(w) = bet.voting_state.resolver_majority(n) {
        bet.voting_state.winner = Some(w);
        bet.voting_state.resolved = true;
    }
    Ok(())
}

} // verus!
