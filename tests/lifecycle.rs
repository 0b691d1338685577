use p2p_bet::bet::Bet;
use p2p_bet::error::ErrorCode;
use p2p_bet::p2p_bet::{
    accept_bet, cast_player_vote, claim_winnings, create_bet, resolver_vote, BetStore,
};
use p2p_bet::pubkey::Pubkey;
use p2p_bet::voting_state::{quorum, Side, VotingState};

fn key(b: u8) -> Pubkey {
    Pubkey::new_from_array([b; 32])
}

const CREATOR: u8 = 1;
const CHALLENGER: u8 = 2;
const OUTSIDER: u8 = 9;

fn resolvers(n: u8) -> Vec<Pubkey> {
    (0..n).map(|i| key(100 + i)).collect()
}

/// Creates bet 7 (creator stakes 100, challenger 50) with `n` resolvers.
fn store_with_bet(n: u8) -> BetStore {
    let mut store = BetStore::new();
    let r = create_bet(
        &mut store,
        key(CREATOR),
        7,
        resolvers(n),
        100,
        50,
        key(CHALLENGER),
        1_700_000_000,
        1_000,
    );
    assert_eq!(r, Ok(()));
    store
}

fn accepted_store(n: u8) -> BetStore {
    let mut store = store_with_bet(n);
    assert_eq!(accept_bet(&mut store, &key(CHALLENGER), 7, 1_000), Ok(()));
    store
}

fn winner_of(store: &BetStore, index: u64) -> Option<Side> {
    store.get(index).unwrap().bet.voting_state.winner
}

fn resolved(store: &BetStore, index: u64) -> bool {
    store.get(index).unwrap().bet.voting_state.resolved
}

#[test]
fn quorum_is_two_thirds_rounded_up() {
    assert_eq!(quorum(0), 0);
    assert_eq!(quorum(1), 1);
    assert_eq!(quorum(2), 2);
    assert_eq!(quorum(3), 2);
    assert_eq!(quorum(4), 3);
    assert_eq!(quorum(5), 4);
    assert_eq!(quorum(6), 4);
    assert_eq!(quorum(usize::MAX), usize::MAX / 3 * 2);
    for n in 0..1000usize {
        let q = quorum(n);
        assert!(3 * q >= 2 * n);
        assert!(q == 0 || 3 * (q - 1) < 2 * n);
    }
}

#[test]
fn account_sizes() {
    assert_eq!(VotingState::size(0), 11);
    assert_eq!(VotingState::size(3), 17);
    assert_eq!(Bet::size(0), 112);
    assert_eq!(Bet::size(3), 214);
}

#[test]
fn side_codes() {
    assert_eq!(Side::from_u8(0), Ok(Side::Creator));
    assert_eq!(Side::from_u8(1), Ok(Side::Challenger));
    assert_eq!(Side::from_u8(2), Err(ErrorCode::InvalidVote));
}

#[test]
fn pubkey_equality() {
    let mut bytes = [5u8; 32];
    assert!(key(5) == Pubkey::new_from_array(bytes));
    bytes[31] = 6;
    assert!(key(5) != Pubkey::new_from_array(bytes));
    assert_eq!(Pubkey::new_from_array(bytes).to_bytes(), bytes);
}

#[test]
fn create_escrows_creator_stake() {
    let store = store_with_bet(3);
    let rec = store.get(7).unwrap();
    assert_eq!(rec.vault.balance, 100);
    assert!(!rec.bet.accepted);
    assert_eq!(rec.bet.voting_state.resolver_votes, vec![None, None, None]);
    assert!(!rec.bet.voting_state.resolved);
    assert_eq!(rec.bet.voting_state.winner, None);
    assert_eq!(rec.bet.challenger_stake, 50);
    assert_eq!(rec.bet.deadline, 1_700_000_000);
}

#[test]
fn create_rejects_index_collision_and_short_funds() {
    let mut store = store_with_bet(0);
    let r = create_bet(&mut store, key(3), 7, vec![], 10, 10, key(4), 0, 1_000);
    assert_eq!(r, Err(ErrorCode::IndexCollision));
    let r = create_bet(&mut store, key(3), 8, vec![], 10, 10, key(4), 0, 9);
    assert_eq!(r, Err(ErrorCode::InsufficientFunds));
    assert!(store.get(8).is_none());
    let r = create_bet(&mut store, key(3), 8, vec![], 10, 10, key(4), 0, 10);
    assert_eq!(r, Ok(()));
}

#[test]
fn accept_then_claim_is_not_resolved() {
    let mut store = accepted_store(3);
    assert_eq!(store.get(7).unwrap().vault.balance, 150);
    let r = claim_winnings(&mut store, &key(CHALLENGER), 7, &key(CREATOR));
    assert_eq!(r, Err(ErrorCode::BetNotResolved));
    let r = claim_winnings(&mut store, &key(CREATOR), 7, &key(CREATOR));
    assert_eq!(r, Err(ErrorCode::BetNotResolved));
}

#[test]
fn accept_twice_or_by_stranger_fails() {
    let mut store = store_with_bet(3);
    assert_eq!(
        accept_bet(&mut store, &key(OUTSIDER), 7, 1_000),
        Err(ErrorCode::WrongChallenger)
    );
    assert_eq!(
        accept_bet(&mut store, &key(CHALLENGER), 7, 49),
        Err(ErrorCode::InsufficientFunds)
    );
    assert!(!store.get(7).unwrap().bet.accepted);
    assert_eq!(store.get(7).unwrap().vault.balance, 100);
    assert_eq!(accept_bet(&mut store, &key(CHALLENGER), 7, 50), Ok(()));
    assert_eq!(
        accept_bet(&mut store, &key(CHALLENGER), 7, 1_000),
        Err(ErrorCode::BetAlreadyAccepted)
    );
    assert_eq!(store.get(7).unwrap().vault.balance, 150);
}

#[test]
fn operations_on_missing_bet() {
    let mut store = store_with_bet(1);
    assert_eq!(accept_bet(&mut store, &key(CHALLENGER), 8, 1_000), Err(ErrorCode::NotFound));
    assert_eq!(cast_player_vote(&mut store, &key(CREATOR), 8, 0), Err(ErrorCode::NotFound));
    assert_eq!(resolver_vote(&mut store, &key(100), 8, 0), Err(ErrorCode::NotFound));
    assert_eq!(
        claim_winnings(&mut store, &key(CREATOR), 8, &key(CREATOR)),
        Err(ErrorCode::NotFound)
    );
}

#[test]
fn votes_before_acceptance_are_refused() {
    let mut store = store_with_bet(3);
    assert_eq!(cast_player_vote(&mut store, &key(CREATOR), 7, 0), Err(ErrorCode::BetNotAccepted));
    assert_eq!(resolver_vote(&mut store, &key(100), 7, 0), Err(ErrorCode::BetNotAccepted));
}

#[test]
fn invalid_vote_codes_are_refused() {
    let mut store = accepted_store(3);
    assert_eq!(cast_player_vote(&mut store, &key(CREATOR), 7, 2), Err(ErrorCode::InvalidVote));
    assert_eq!(resolver_vote(&mut store, &key(100), 7, 255), Err(ErrorCode::InvalidVote));
}

#[test]
fn strangers_may_not_vote() {
    let mut store = accepted_store(3);
    assert_eq!(
        cast_player_vote(&mut store, &key(OUTSIDER), 7, 0),
        Err(ErrorCode::NotAuthorizedToVote)
    );
    assert_eq!(
        resolver_vote(&mut store, &key(OUTSIDER), 7, 0),
        Err(ErrorCode::NotAuthorizedToVote)
    );
    assert_eq!(
        resolver_vote(&mut store, &key(CREATOR), 7, 0),
        Err(ErrorCode::NotAuthorizedToVote)
    );
}

#[test]
fn resolver_votes_once_player_revotes() {
    let mut store = accepted_store(3);
    assert_eq!(resolver_vote(&mut store, &key(100), 7, 0), Ok(()));
    assert_eq!(resolver_vote(&mut store, &key(100), 7, 1), Err(ErrorCode::AlreadyVoted));
    assert_eq!(
        store.get(7).unwrap().bet.voting_state.resolver_votes,
        vec![Some(Side::Creator), None, None]
    );

    assert_eq!(cast_player_vote(&mut store, &key(CREATOR), 7, 0), Ok(()));
    assert_eq!(cast_player_vote(&mut store, &key(CREATOR), 7, 1), Ok(()));
    assert_eq!(
        store.get(7).unwrap().bet.voting_state.creator_vote,
        Some(Side::Challenger)
    );
    assert!(!resolved(&store, 7));
}

#[test]
fn resolver_quorum_then_challenger_claims() {
    let mut store = accepted_store(3);
    assert_eq!(store.get(7).unwrap().vault.balance, 150);
    assert_eq!(resolver_vote(&mut store, &key(100), 7, 1), Ok(()));
    assert!(!resolved(&store, 7));
    assert_eq!(resolver_vote(&mut store, &key(101), 7, 1), Ok(()));
    assert!(resolved(&store, 7));
    assert_eq!(winner_of(&store, 7), Some(Side::Challenger));
    assert_eq!(resolver_vote(&mut store, &key(102), 7, 0), Err(ErrorCode::BetAlreadyResolved));
    assert_eq!(winner_of(&store, 7), Some(Side::Challenger));

    let r = claim_winnings(&mut store, &key(CHALLENGER), 7, &key(CREATOR));
    assert_eq!(r, Ok(150));
    assert!(store.get(7).is_none());
    assert_eq!(
        claim_winnings(&mut store, &key(CHALLENGER), 7, &key(CREATOR)),
        Err(ErrorCode::NotFound)
    );
}

#[test]
fn player_agreement_resolves_without_resolvers() {
    let mut store = accepted_store(5);
    assert_eq!(cast_player_vote(&mut store, &key(CREATOR), 7, 0), Ok(()));
    assert!(!resolved(&store, 7));
    assert_eq!(cast_player_vote(&mut store, &key(CHALLENGER), 7, 0), Ok(()));
    assert!(resolved(&store, 7));
    assert_eq!(winner_of(&store, 7), Some(Side::Creator));
    assert_eq!(
        store.get(7).unwrap().bet.voting_state.resolver_votes,
        vec![None; 5]
    );
    assert_eq!(
        cast_player_vote(&mut store, &key(CHALLENGER), 7, 1),
        Err(ErrorCode::BetAlreadyResolved)
    );
    assert_eq!(winner_of(&store, 7), Some(Side::Creator));
}

#[test]
fn disagreeing_players_do_not_resolve() {
    let mut store = accepted_store(0);
    assert_eq!(cast_player_vote(&mut store, &key(CREATOR), 7, 0), Ok(()));
    assert_eq!(cast_player_vote(&mut store, &key(CHALLENGER), 7, 1), Ok(()));
    assert!(!resolved(&store, 7));
    assert_eq!(cast_player_vote(&mut store, &key(CHALLENGER), 7, 0), Ok(()));
    assert_eq!(winner_of(&store, 7), Some(Side::Creator));
}

#[test]
fn split_committee_short_of_quorum_stays_open() {
    let mut store = accepted_store(4);
    assert_eq!(resolver_vote(&mut store, &key(100), 7, 0), Ok(()));
    assert_eq!(resolver_vote(&mut store, &key(101), 7, 1), Ok(()));
    assert_eq!(resolver_vote(&mut store, &key(102), 7, 0), Ok(()));
    assert!(!resolved(&store, 7));
    assert_eq!(resolver_vote(&mut store, &key(103), 7, 0), Ok(()));
    assert!(resolved(&store, 7));
    assert_eq!(winner_of(&store, 7), Some(Side::Creator));
}

#[test]
fn loser_cannot_claim() {
    let mut store = accepted_store(3);
    assert_eq!(resolver_vote(&mut store, &key(100), 7, 1), Ok(()));
    assert_eq!(resolver_vote(&mut store, &key(101), 7, 1), Ok(()));
    assert_eq!(
        claim_winnings(&mut store, &key(CREATOR), 7, &key(CREATOR)),
        Err(ErrorCode::InvalidWinnerAccount)
    );
    assert_eq!(
        claim_winnings(&mut store, &key(CHALLENGER), 7, &key(OUTSIDER)),
        Err(ErrorCode::InvalidCreatorAccount)
    );
    assert_eq!(store.get(7).unwrap().vault.balance, 150);
    assert_eq!(claim_winnings(&mut store, &key(CHALLENGER), 7, &key(CREATOR)), Ok(150));
}

#[test]
fn asymmetric_stakes_pay_the_sum() {
    let mut store = BetStore::new();
    let r = create_bet(&mut store, key(CREATOR), 1, vec![key(50)], 7, 300, key(CHALLENGER), 0, 7);
    assert_eq!(r, Ok(()));
    assert_eq!(accept_bet(&mut store, &key(CHALLENGER), 1, 300), Ok(()));
    assert_eq!(resolver_vote(&mut store, &key(50), 1, 0), Ok(()));
    assert_eq!(winner_of(&store, 1), Some(Side::Creator));
    assert_eq!(claim_winnings(&mut store, &key(CREATOR), 1, &key(CREATOR)), Ok(307));
}

#[test]
fn bets_are_independent() {
    let mut store = accepted_store(1);
    let r = create_bet(&mut store, key(3), 8, vec![key(100)], 5, 5, key(4), 0, 5);
    assert_eq!(r, Ok(()));
    assert_eq!(resolver_vote(&mut store, &key(100), 7, 1), Ok(()));
    assert!(resolved(&store, 7));
    assert!(!resolved(&store, 8));
    assert_eq!(claim_winnings(&mut store, &key(CHALLENGER), 7, &key(CREATOR)), Ok(150));
    assert_eq!(store.get(8).unwrap().vault.balance, 5);
}
