use vstd::prelude::*;
use crate::error::ErrorCode;

verus! {

/// The side a ballot names as the winner.
#[derive(Clone, Copy, Debug, PartialEq, Eq, Structural)]
pub enum Side {
    Creator,
    Challenger,
}

/// The wire encoding of a ballot: 0 names the creator, 1 the challenger.
pub open spec fn side_of_code(code: u8) -> Option<Side> {
    if code == 0 {
        Some(Side::Creator)
    } else if code == 1 {
        Some(Side::Challenger)
    } else {
        None
    }
}

impl Side {
    pub fn from_u8(code: u8) -> (r: Result<Side, ErrorCode>)
        ensures
            match side_of_code(code) {
                Some(s) => r == Ok::<Side, ErrorCode>(s),
                None => r == Err::<Side, ErrorCode>(ErrorCode::InvalidVote),
            },
    {
        if code == 0 {
            Ok(Side::Creator)
        } else if code == 1 {
            Ok(Side::Challenger)
        } else {
            Err(ErrorCode::InvalidVote)
        }
    }
}

/// Number of ballots in `votes` that name `side`.
pub open spec fn count_side(votes: Seq<Option<Side>>, side: Side) -> nat
    decreases votes.len(),
{
    if votes.len() == 0 {
        0
    } else {
        count_side(votes.drop_last(), side) + if votes.last() == Some(side) {
            1nat
        } else {
            0nat
        }
    }
}

/// Number of ballots cast in `votes`.
pub open spec fn count_cast(votes: Seq<Option<Side>>) -> nat
    decreases votes.len(),
{
    if votes.len() == 0 {
        0
    } else {
        count_cast(votes.drop_last()) + if votes.last().is_some() {
            1nat
        } else {
            0nat
        }
    }
}

/// Ballots a side needs out of a committee of `n`: two thirds, rounded up.
pub open spec fn quorum_spec(n: nat) -> nat {
    (2 * n + 2) / 3
}

/// The winner decided by a committee of `n` resolvers holding `votes`, if any.
pub open spec fn resolver_decision(votes: Seq<Option<Side>>, n: nat) -> Option<Side> {
    let q = quorum_spec(n);
    if count_cast(votes) >= q {
        if count_side(votes, Side::Creator) >= q {
            Some(Side::Creator)
        } else if count_side(votes, Side::Challenger) >= q {
            Some(Side::Challenger)
        } else {
            None
        }
    } else {
        None
    }
}

/// The winner the two players agree on, if both voted the same way.
pub open spec fn player_decision(creator_vote: Option<Side>, challenger_vote: Option<Side>) -> Option<Side> {
    match (creator_vote, challenger_vote) {
        (Some(a), Some(b)) => if a == b {
            Some(a)
        } else {
            None
        },
        _ => None,
    }
}

/// Quorum of a committee of `n`, computed without overflow.
pub fn quorum(n: usize) -> (q: usize)
    ensures
        q == quorum_spec(n as nat),
        q <= n,
{
    let k: usize = n / 3;
    let r: usize = n % 3;
    let q: usize = 2 * k + (2 * r + 2) / 3;
    assert(q == (2 * n + 2) / 3 && q <= n) by (nonlinear_arith)
        requires
            k == n / 3,
            r == n % 3,
            q == 2 * k + (2 * r + 2) / 3,
    ;
    q
}

/// The quorum `(2n + 2) / 3` is the ceiling of two thirds of `n`: it covers
/// two thirds of the committee, and one ballot fewer would not.
pub proof fn lemma_quorum_is_ceiling_of_two_thirds(n: nat)
    ensures
        3 * quorum_spec(n) >= 2 * n,
        quorum_spec(n) > 0 ==> 3 * (quorum_spec(n) - 1) < 2 * n,
{
    let q = quorum_spec(n);
    assert(3 * q >= 2 * n && (q > 0 ==> 3 * (q - 1) < 2 * n)) by (nonlinear_arith)
        requires
            q == (2 * n + 2) / 3,
    ;
}

proof fn lemma_counts_bounded(votes: Seq<Option<Side>>)
    ensures
        count_side(votes, Side::Creator) <= count_cast(votes),
        count_side(votes, Side::Challenger) <= count_cast(votes),
        count_cast(votes) <= votes.len(),
    decreases votes.len(),
{
    if votes.len() > 0 {
        lemma_counts_bounded(votes.drop_last());
    }
}

/// Player agreement and resolver ballots for one bet.
pub struct VotingState {
    pub creator_vote: Option<Side>,
    pub challenger_vote: Option<Side>,
    pub resolver_votes: Vec<Option<Side>>,
    pub resolved: bool,
    pub winner: Option<Side>,
}

impl VotingState {
    /// A winner is recorded exactly when the bet is resolved.
    pub open spec fn wf(&self) -> bool {
        self.resolved <==> self.winner.is_some()
    }

    /// A fresh state with `resolver_count` empty ballot slots.
    pub fn new(resolver_count: usize) -> (r: VotingState)
        ensures
            r.creator_vote.is_none(),
            r.challenger_vote.is_none(),
            r.resolver_votes@ == Seq::new(resolver_count as nat, |i: int| None::<Side>),
            !r.resolved,
            r.winner.is_none(),
            r.wf(),
    {
        let mut votes: Vec<Option<Side>> = Vec::new();
        let mut i: usize = 0;
        while i < resolver_count
            invariant
                i <= resolver_count,
                votes@ == Seq::new(i as nat, |j: int| None::<Side>),
            decreases resolver_count - i,
        {
            votes.push(None);
            i += 1;
            assert(votes@ =~= Seq::new(i as nat, |j: int| None::<Side>));
        }
        VotingState {
            creator_vote: None,
            challenger_vote: None,
            resolver_votes: votes,
            resolved: false,
            winner: None,
        }
    }

    /// Bytes the serialized state takes for `resolver_count` resolvers.
    pub fn size(resolver_count: usize) -> (r: usize)
        requires
            11 + 2 * resolver_count <= usize::MAX,
        ensures
            r == 11 + 2 * resolver_count,
    {
        1 + 1 + 1 + 1 + 1 + 1 + 1 + 4 + 2 * resolver_count
    }

    /// Scans every ballot and returns the ballots for the creator, for the
    /// challenger, and in all.
    pub fn tally(&self) -> (r: (usize, usize, usize))
        ensures
            r.0 == count_side(self.resolver_votes@, Side::Creator),
            r.1 == count_side(self.resolver_votes@, Side::Challenger),
            r.2 == count_cast(self.resolver_votes@),
    {
        let votes = &self.resolver_votes;
        let mut count_creator: usize = 0;
        let mut count_challenger: usize = 0;
        let mut total_votes: usize = 0;
        let mut i: usize = 0;
        while i < votes.len()
            invariant
                i <= votes@.len(),
                count_creator == count_side(votes@.take(i as int), Side::Creator),
                count_challenger == count_side(votes@.take(i as int), Side::Challenger),
                total_votes == count_cast(votes@.take(i as int)),
            decreases votes.len() - i,
        {
            proof {
                assert(votes@.take(i + 1).drop_last() =~= votes@.take(i as int));
                lemma_counts_bounded(votes@.take(i as int));
            }
            match votes[i] {
                Some(Side::Creator) => {
                    count_creator += 1;
                    total_votes += 1;
                },
                Some(Side::Challenger) => {
                    count_challenger += 1;
                    total_votes += 1;
                },
                None => {},
            }
            i += 1;
        }
        assert(votes@.take(votes@.len() as int) =~= votes@);
        (count_creator, count_challenger, total_votes)
    }

    /// The winner the committee decides on, scanning the whole ballot array.
    pub fn resolver_majority(&self, resolver_count: usize) -> (r: Option<Side>)
        ensures
            r == resolver_decision(self.resolver_votes@, resolver_count as nat),
    {
        let (count_creator, count_challenger, total_votes) = self.tally();
        let q = quorum(resolver_count);
        if total_votes >= q {
            if count_creator >= q {
                Some(Side::Creator)
            } else if count_challenger >= q {
                Some(Side::Challenger)
            } else {
                None
            }
        } else {
            None
        }
    }

    /// The winner both players voted for, if they agree.
    pub fn player_agreement(&self) -> (r: Option<Side>)
        ensures
            r == player_decision(self.creator_vote, self.challenger_vote),
    {
        match (self.creator_vote, self.challenger_vote) {
            (Some(a), Some(b)) => if a == b {
                Some(a)
            } else {
                None
            },
            _ => None,
        }
    }
}

} // verus!
