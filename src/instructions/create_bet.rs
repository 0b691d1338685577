use vstd::prelude::*;
use crate::bet::{create_result, Bet, EscrowVault};
use crate::error::ErrorCode;
use crate::pubkey::Pubkey;
use crate::voting_state::VotingState;

verus! {

/// Opens a bet for `creator` against `challenger`, moving the creator's
/// stake out of `creator_funds` into a new escrow vault.
pub fn handler(
    creator: Pubkey,
    resolver_group: Vec<Pubkey>,
    creator_stake: u64,
    expected_challenger_stake: u64,
    challenger: Pubkey,
    deadline: i64,
    creator_funds: u64,
) -> (r: Result<(Bet, EscrowVault), ErrorCode>)
    requires
        creator_stake + expected_challenger_stake <= u64::MAX,
    ensures
        match create_result(
            creator@,
            challenger@,
            resolver_group@.map_values(|k: Pubkey| k@),
            creator_stake,
            expected_challenger_stake,
            deadline,
            creator_funds,
        ) {
            Ok(b) => r.is_ok() && r.unwrap().0@ == b && r.unwrap().0@.wf()
                && r.unwrap().1.balance == b.escrowed(),
            Err(e) => r == Err::<(Bet, EscrowVault), ErrorCode>(e),
        },
{
    if creator_funds < creator_stake {
        return Err(ErrorCode::InsufficientFunds);
    }
    let n = resolver_group.len();
    let voting_state = VotingState::new(n);
    let bet = Bet {
        creator,
        challenger,
        resolver_group,
        creator_stake,
        challenger_stake: expected_challenger_stake,
        accepted: false,
        deadline,
        voting_state,
    };
    let mut vault = EscrowVault::new();
    vault.balance = creator_stake;
    Ok((bet, vault))
}

} // verus!
