use vstd::prelude::*;
use crate::bet::{accept_result, Bet, EscrowVault};
use crate::error::ErrorCode;
use crate::pubkey::Pubkey;

verus! {

/// The challenger joins the bet, moving their stake out of `caller_funds`
/// into the vault. On any failure neither the bet nor the vault changes.
pub fn handler(bet: &mut Bet, vault: &mut EscrowVault, caller: &Pubkey, caller_funds: u64) -> (r:
    Result<(), ErrorCode>)
    requires
        old(bet)@.wf(),
        old(vault).balance == old(bet)@.escrowed(),
    ensures
        final(bet)@.wf(),
        final(vault).balance == final(bet)@.escrowed(),
        match accept_result(old(bet)@, caller@, caller_funds) {
            Ok(b) => r == Ok::<(), ErrorCode>(()) && final(bet)@ == b,
            Err(e) => r == Err::<(), ErrorCode>(e) && final(bet)@ == old(bet)@ && final(vault).balance
                == old(vault).balance,
        },
{
    if *caller != bet.challenger {
        return Err(ErrorCode::WrongChallenger);
    }
    if bet.accepted {
        return Err(ErrorCode::BetAlreadyAccepted);
    }
    if bet.voting_state.resolved {
        return Err(ErrorCode::BetAlreadyResolved);
    }
    if caller_funds < bet.challenger_stake {
        return Err(ErrorCode::InsufficientFunds);
    }
    bet.accepted = true;
    vault.balance = vault.balance + bet.challenger_stake;
    Ok(())
}

} // verus!
