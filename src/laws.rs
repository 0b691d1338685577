use vstd::prelude::*;
use crate::bet::{
    accept_result, claim_result, player_vote_result, resolver_vote_result,
    lemma_member_has_first_index, BetView,
};
use crate::error::ErrorCode;
use crate::voting_state::{count_cast, count_side, quorum_spec, side_of_code};

verus! {

/// A player vote resolves a bet only when both players have voted and name
/// the same side, and that side becomes the winner.
pub proof fn lemma_player_vote_resolves_only_on_agreement(bet: BetView, caller: Seq<u8>, code: u8)
    requires
        bet.wf(),
        player_vote_result(bet, caller, code).is_ok(),
        player_vote_result(bet, caller, code).unwrap().resolved,
    ensures
        !bet.resolved,
        ({
            let b = player_vote_result(bet, caller, code).unwrap();
            &&& b.creator_vote.is_some()
            &&& b.creator_vote == b.challenger_vote
            &&& b.winner == b.creator_vote
            &&& b.resolver_votes == bet.resolver_votes
        }),
{
}

/// A resolver vote resolves a bet only when the winning side holds a quorum
/// of the committee's ballots; the player ballots play no part.
pub proof fn lemma_resolver_vote_resolves_only_on_quorum(bet: BetView, caller: Seq<u8>, code: u8)
    requires
        bet.wf(),
        resolver_vote_result(bet, caller, code).is_ok(),
        resolver_vote_result(bet, caller, code).unwrap().resolved,
    ensures
        !bet.resolved,
        ({
            let b = resolver_vote_result(bet, caller, code).unwrap();
            let q = quorum_spec(b.resolver_group.len());
            &&& b.winner.is_some()
            &&& count_cast(b.resolver_votes) >= q
            &&& count_side(b.resolver_votes, b.winner.unwrap()) >= q
            &&& b.creator_vote == bet.creator_vote
            &&& b.challenger_vote == bet.challenger_vote
        }),
{
}

/// Once a bet is resolved, no vote of either kind is taken, so its winner
/// never changes.
pub proof fn lemma_resolved_bet_rejects_votes(bet: BetView, caller: Seq<u8>, code: u8)
    requires
        bet.wf(),
        bet.resolved,
    ensures
        player_vote_result(bet, caller, code).is_err(),
        resolver_vote_result(bet, caller, code).is_err(),
{
}

/// A bet that was just accepted cannot be claimed: nobody has voted yet.
pub proof fn lemma_claim_right_after_accept_fails(
    bet: BetView,
    challenger: Seq<u8>,
    funds: u64,
    claimer: Seq<u8>,
    creator_account: Seq<u8>,
)
    requires
        bet.wf(),
        accept_result(bet, challenger, funds).is_ok(),
    ensures
        claim_result(accept_result(bet, challenger, funds).unwrap(), claimer, creator_account)
            == Err::<u64, ErrorCode>(ErrorCode::BetNotResolved),
{
}

/// A bet is accepted at most once, and only by its challenger.
pub proof fn lemma_accept_once_by_challenger(
    bet: BetView,
    challenger: Seq<u8>,
    funds: u64,
    again_funds: u64,
    other: Seq<u8>,
)
    requires
        bet.wf(),
        accept_result(bet, challenger, funds).is_ok(),
        other != bet.challenger,
    ensures
        accept_result(accept_result(bet, challenger, funds).unwrap(), challenger, again_funds)
            == Err::<BetView, ErrorCode>(ErrorCode::BetAlreadyAccepted),
        accept_result(bet, other, funds) == Err::<BetView, ErrorCode>(ErrorCode::WrongChallenger),
{
}

/// A resolver's second ballot on a bet still open is refused.
pub proof fn lemma_resolver_votes_once(bet: BetView, resolver: Seq<u8>, code: u8, again: u8)
    requires
        bet.wf(),
        resolver_vote_result(bet, resolver, code).is_ok(),
        !resolver_vote_result(bet, resolver, code).unwrap().resolved,
        side_of_code(again).is_some(),
    ensures
        resolver_vote_result(resolver_vote_result(bet, resolver, code).unwrap(), resolver, again)
            == Err::<BetView, ErrorCode>(ErrorCode::AlreadyVoted),
{
    lemma_member_has_first_index(bet.resolver_group, resolver);
}

/// A player may vote again on a bet still open; the new ballot replaces
/// the old one.
pub proof fn lemma_player_revote_replaces(bet: BetView, player: Seq<u8>, code: u8, again: u8)
    requires
        bet.wf(),
        player_vote_result(bet, player, code).is_ok(),
        !player_vote_result(bet, player, code).unwrap().resolved,
        side_of_code(again).is_some(),
    ensures
        ({
            let first = player_vote_result(bet, player, code).unwrap();
            let r = player_vote_result(first, player, again);
            &&& r.is_ok()
            &&& player == bet.creator ==> r.unwrap().creator_vote == side_of_code(again)
            &&& player != bet.creator ==> r.unwrap().challenger_vote == side_of_code(again)
        }),
{
}

/// Once resolved, only the winner's identity may claim; anyone else is
/// refused as the wrong winner.
pub proof fn lemma_only_winner_claims(bet: BetView, claimer: Seq<u8>, creator_account: Seq<u8>)
    requires
        bet.wf(),
        bet.resolved,
        claimer != bet.winner_key(),
    ensures
        claim_result(bet, claimer, creator_account) == Err::<u64, ErrorCode>(
            ErrorCode::InvalidWinnerAccount,
        ),
{
}

} // verus!
