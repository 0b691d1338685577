use vstd::prelude::*;
use crate::error::ErrorCode;
use crate::pubkey::Pubkey;
use crate::voting_state::{
    count_side, player_decision, resolver_decision, side_of_code, Side, VotingState,
};

verus! {

/// A wager between a creator and a challenger, settled by the two of them or
/// by a committee of resolvers.
pub struct Bet {
    pub creator: Pubkey,
    pub challenger: Pubkey,
    pub resolver_group: Vec<Pubkey>,
    pub creator_stake: u64,
    pub challenger_stake: u64,
    pub accepted: bool,
    pub deadline: i64,
    pub voting_state: VotingState,
}

/// The mathematical value of a [`Bet`].
pub struct BetView {
    pub creator: Seq<u8>,
    pub challenger: Seq<u8>,
    pub resolver_group: Seq<Seq<u8>>,
    pub creator_stake: u64,
    pub challenger_stake: u64,
    pub accepted: bool,
    pub deadline: i64,
    pub creator_vote: Option<Side>,
    pub challenger_vote: Option<Side>,
    pub resolver_votes: Seq<Option<Side>>,
    pub resolved: bool,
    pub winner: Option<Side>,
}

impl View for Bet {
    type V = BetView;

    open spec fn view(&self) -> BetView {
        BetView {
            creator: self.creator@,
            challenger: self.challenger@,
            resolver_group: self.resolver_group@.map_values(|k: Pubkey| k@),
            creator_stake: self.creator_stake,
            challenger_stake: self.challenger_stake,
            accepted: self.accepted,
            deadline: self.deadline,
            creator_vote: self.voting_state.creator_vote,
            challenger_vote: self.voting_state.challenger_vote,
            resolver_votes: self.voting_state.resolver_votes@,
            resolved: self.voting_state.resolved,
            winner: self.voting_state.winner,
        }
    }
}

impl BetView {
    /// One ballot slot per resolver; a winner exactly when resolved; only an
    /// accepted bet gets resolved; the payout fits in a `u64`.
    pub open spec fn wf(&self) -> bool {
        &&& self.resolver_votes.len() == self.resolver_group.len()
        &&& (self.resolved <==> self.winner.is_some())
        &&& (self.resolved ==> self.accepted)
        &&& self.creator_stake + self.challenger_stake <= u64::MAX
    }

    /// Everything the parties staked.
    pub open spec fn total(&self) -> nat {
        (self.creator_stake + self.challenger_stake) as nat
    }

    /// What the escrow of this bet holds: the creator's stake, and the
    /// challenger's once accepted.
    pub open spec fn escrowed(&self) -> nat {
        if self.accepted {
            self.total()
        } else {
            self.creator_stake as nat
        }
    }

    /// The identity that may collect the payout once resolved.
    pub open spec fn winner_key(&self) -> Seq<u8> {
        if self.winner == Some(Side::Creator) {
            self.creator
        } else {
            self.challenger
        }
    }
}

/// `key` sits in `group`.
pub open spec fn is_member(group: Seq<Seq<u8>>, key: Seq<u8>) -> bool {
    exists|i: int| 0 <= i < group.len() && group[i] == key
}

/// `i` is the first position of `key` in `group`.
pub open spec fn is_first_index(group: Seq<Seq<u8>>, key: Seq<u8>, i: int) -> bool {
    &&& 0 <= i < group.len()
    &&& group[i] == key
    &&& forall|j: int| 0 <= j < i ==> group[j] != key
}

/// The first position of `key` in `group` (meaningful when it is a member).
pub open spec fn first_index(group: Seq<Seq<u8>>, key: Seq<u8>) -> int {
    choose|i: int| is_first_index(group, key, i)
}

pub proof fn lemma_first_index_unique(group: Seq<Seq<u8>>, key: Seq<u8>, i: int)
    requires
        is_first_index(group, key, i),
    ensures
        first_index(group, key) == i,
{
    let k = first_index(group, key);
    assert(is_first_index(group, key, k));
    if k < i {
        assert(group[k] != key);
    } else if i < k {
        assert(group[i] != key);
    }
}

/// A member of `group` has a first position in it.
pub proof fn lemma_member_has_first_index(group: Seq<Seq<u8>>, key: Seq<u8>)
    requires
        is_member(group, key),
    ensures
        is_first_index(group, key, first_index(group, key)),
{
    let i = choose|i: int| 0 <= i < group.len() && group[i] == key;
    lemma_first_index_from(group, key, i);
}

proof fn lemma_first_index_from(group: Seq<Seq<u8>>, key: Seq<u8>, i: int)
    requires
        0 <= i < group.len(),
        group[i] == key,
    ensures
        is_first_index(group, key, first_index(group, key)),
    decreases i,
{
    if exists|j: int| 0 <= j < i && group[j] == key {
        let j = choose|j: int| 0 <= j < i && group[j] == key;
        lemma_first_index_from(group, key, j);
    } else {
        assert(is_first_index(group, key, i));
    }
}

/// The bet a freshly created wager starts as.
pub open spec fn created_bet(
    creator: Seq<u8>,
    challenger: Seq<u8>,
    resolver_group: Seq<Seq<u8>>,
    creator_stake: u64,
    challenger_stake: u64,
    deadline: i64,
) -> BetView {
    BetView {
        creator,
        challenger,
        resolver_group,
        creator_stake,
        challenger_stake,
        accepted: false,
        deadline,
        creator_vote: None,
        challenger_vote: None,
        resolver_votes: Seq::new(resolver_group.len(), |i: int| None::<Side>),
        resolved: false,
        winner: None,
    }
}

/// Outcome of creating a bet whose creator holds `funds`.
pub open spec fn create_result(
    creator: Seq<u8>,
    challenger: Seq<u8>,
    resolver_group: Seq<Seq<u8>>,
    creator_stake: u64,
    challenger_stake: u64,
    deadline: i64,
    funds: u64,
) -> Result<BetView, ErrorCode> {
    if funds < creator_stake {
        Err(ErrorCode::InsufficientFunds)
    } else {
        Ok(created_bet(creator, challenger, resolver_group, creator_stake, challenger_stake, deadline))
    }
}

/// Outcome of `caller`, holding `funds`, accepting `bet`.
pub open spec fn accept_result(bet: BetView, caller: Seq<u8>, funds: u64) -> Result<BetView, ErrorCode> {
    if caller != bet.challenger {
        Err(ErrorCode::WrongChallenger)
    } else if bet.accepted {
        Err(ErrorCode::BetAlreadyAccepted)
    } else if bet.resolved {
        Err(ErrorCode::BetAlreadyResolved)
    } else if funds < bet.challenger_stake {
        Err(ErrorCode::InsufficientFunds)
    } else {
        Ok(BetView { accepted: true, ..bet })
    }
}

/// `bet` after the player ballots `cv` and `chv`, resolved if they agree.
pub open spec fn with_player_votes(bet: BetView, cv: Option<Side>, chv: Option<Side>) -> BetView {
    match player_decision(cv, chv) {
        Some(w) => BetView {
            creator_vote: cv,
            challenger_vote: chv,
            resolved: true,
            winner: Some(w),
            ..bet
        },
        None => BetView { creator_vote: cv, challenger_vote: chv, ..bet },
    }
}

/// Outcome of a player vote with ballot code `code` from `caller` on `bet`.
pub open spec fn player_vote_result(bet: BetView, caller: Seq<u8>, code: u8) -> Result<BetView, ErrorCode> {
    if !bet.accepted {
        Err(ErrorCode::BetNotAccepted)
    } else if side_of_code(code).is_none() {
        Err(ErrorCode::InvalidVote)
    } else if bet.resolved {
        Err(ErrorCode::BetAlreadyResolved)
    } else if caller == bet.creator {
        Ok(with_player_votes(bet, side_of_code(code), bet.challenger_vote))
    } else if caller == bet.challenger {
        Ok(with_player_votes(bet, bet.creator_vote, side_of_code(code)))
    } else {
        Err(ErrorCode::NotAuthorizedToVote)
    }
}

/// `bet` after the resolver ballots `votes`, resolved if a side reached quorum.
pub open spec fn with_resolver_votes(bet: BetView, votes: Seq<Option<Side>>) -> BetView {
    match resolver_decision(votes, bet.resolver_group.len()) {
        Some(w) => BetView { resolver_votes: votes, resolved: true, winner: Some(w), ..bet },
        None => BetView { resolver_votes: votes, ..bet },
    }
}

/// Outcome of a resolver vote with ballot code `code` from `caller` on `bet`.
pub open spec fn resolver_vote_result(bet: BetView, caller: Seq<u8>, code: u8) -> Result<BetView, ErrorCode> {
    if !bet.accepted {
        Err(ErrorCode::BetNotAccepted)
    } else if bet.resolved {
        Err(ErrorCode::BetAlreadyResolved)
    } else if side_of_code(code).is_none() {
        Err(ErrorCode::InvalidVote)
    } else if !is_member(bet.resolver_group, caller) {
        Err(ErrorCode::NotAuthorizedToVote)
    } else if bet.resolver_votes[first_index(bet.resolver_group, caller)].is_some() {
        Err(ErrorCode::AlreadyVoted)
    } else {
        let votes = bet.resolver_votes.update(
            first_index(bet.resolver_group, caller),
            side_of_code(code),
        );
        Ok(with_resolver_votes(bet, votes))
    }
}

/// Outcome of `caller` claiming the payout of `bet`, naming
/// `creator_account` as the creator: the amount paid out.
pub open spec fn claim_result(bet: BetView, caller: Seq<u8>, creator_account: Seq<u8>) -> Result<u64, ErrorCode> {
    if !bet.resolved || bet.winner.is_none() {
        Err(ErrorCode::BetNotResolved)
    } else if caller != bet.winner_key() {
        Err(ErrorCode::InvalidWinnerAccount)
    } else if creator_account != bet.creator {
        Err(ErrorCode::InvalidCreatorAccount)
    } else {
        Ok((bet.creator_stake + bet.challenger_stake) as u64)
    }
}

impl Bet {
    /// Bytes the serialized bet takes for `resolver_count` resolvers.
    pub fn size(resolver_count: usize) -> (r: usize)
        requires
            112 + 34 * resolver_count <= usize::MAX,
        ensures
            r == 112 + 34 * resolver_count,
    {
        8 + 32 + 32 + 8 + 8 + 1 + 8 + 4 + (32 * resolver_count) + VotingState::size(resolver_count)
    }

    /// The first position of `who` in the resolver group.
    pub fn resolver_position(&self, who: &Pubkey) -> (r: Option<usize>)
        ensures
            match r {
                Some(i) => is_first_index(self@.resolver_group, who@, i as int),
                None => !is_member(self@.resolver_group, who@),
            },
    {
        let group = &self.resolver_group;
        let mut i: usize = 0;
        while i < group.len()
            invariant
                i <= group@.len(),
                group@.len() == self@.resolver_group.len(),
                group == &self.resolver_group,
                forall|j: int| 0 <= j < i ==> self@.resolver_group[j] != who@,
            decreases group.len() - i,
        {
            assert(self@.resolver_group[i as int] == group@[i as int]@);
            if group[i] == *who {
                return Some(i);
            }
            i += 1;
        }
        None
    }
}

/// Funds held in escrow for one bet.
pub struct EscrowVault {
    pub balance: u64,
}

impl EscrowVault {
    /// An empty vault.
    pub fn new() -> (r: EscrowVault)
        ensures
            r.balance == 0,
    {
        EscrowVault { balance: 0 }
    }
}

} // verus!
