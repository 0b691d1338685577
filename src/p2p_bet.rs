use vstd::prelude::*;
use crate::bet::{
    accept_result, claim_result, create_result, player_vote_result, resolver_vote_result, Bet,
    BetView, EscrowVault,
};
use crate::error::ErrorCode;
use crate::instructions::{accept_bet, cast_player_vote, claim_winnings, create_bet, resolver_vote};
use crate::pubkey::Pubkey;

verus! {

/// A bet together with its index and the vault that backs it.
pub struct BetRecord {
    pub index: u64,
    pub bet: Bet,
    pub vault: EscrowVault,
}

/// All open bets, keyed by their index.
pub struct BetStore {
    records: Vec<BetRecord>,
}

/// `i` is a position of `recs` holding the bet with index `k`.
pub open spec fn holds_index(recs: Seq<BetRecord>, k: u64, i: int) -> bool {
    0 <= i < recs.len() && recs[i].index == k
}

impl BetStore {
    /// Each index at most once; each bet well formed and its vault holding
    /// exactly what was staked into it.
    pub closed spec fn wf(&self) -> bool {
        &&& forall|i: int, j: int|
            0 <= i < self.records@.len() && 0 <= j < self.records@.len() && i != j
                ==> self.records@[i].index != self.records@[j].index
        &&& forall|i: int|
            0 <= i < self.records@.len() ==> {
                &&& (#[trigger] self.records@[i]).bet@.wf()
                &&& self.records@[i].vault.balance == self.records@[i].bet@.escrowed()
            }
    }

    /// Every open bet with its vault balance, by index.
    pub closed spec fn view(&self) -> Map<u64, (BetView, u64)> {
        Map::new(
            |k: u64| exists|i: int| holds_index(self.records@, k, i),
            |k: u64|
                {
                    let i = choose|i: int| holds_index(self.records@, k, i);
                    (self.records@[i].bet@, self.records@[i].vault.balance)
                },
        )
    }

    proof fn lemma_view_at(&self, p: int)
        requires
            self.wf(),
            0 <= p < self.records@.len(),
        ensures
            self@.contains_key(self.records@[p].index),
            self@[self.records@[p].index] == (
                self.records@[p].bet@,
                self.records@[p].vault.balance,
            ),
    {
        let k = self.records@[p].index;
        assert(holds_index(self.records@, k, p));
        let i = choose|i: int| holds_index(self.records@, k, i);
        assert(i == p);
    }

    /// An empty store.
    pub fn new() -> (r: BetStore)
        ensures
            r.wf(),
            r@ == Map::<u64, (BetView, u64)>::empty(),
    {
        let r = BetStore { records: Vec::new() };
        assert(r@ =~= Map::<u64, (BetView, u64)>::empty());
        r
    }

    /// Position of the bet with index `k`, if it is open.
    fn find(&self, k: u64) -> (r: Option<usize>)
        requires
            self.wf(),
        ensures
            match r {
                Some(p) => holds_index(self.records@, k, p as int) && self@.contains_key(k),
                None => !self@.contains_key(k),
            },
    {
        let mut i: usize = 0;
        while i < self.records.len()
            invariant
                i <= self.records@.len(),
                forall|j: int| 0 <= j < i ==> self.records@[j].index != k,
            decreases self.records.len() - i,
        {
            if self.records[i].index == k {
                assert(holds_index(self.records@, k, i as int));
                return Some(i);
            }
            i += 1;
        }
        None
    }

    /// The bet with index `k`, if it is open.
    pub fn get(&self, k: u64) -> (r: Option<&BetRecord>)
        requires
            self.wf(),
        ensures
            match r {
                Some(rec) => self@.contains_key(k) && rec.index == k && self@[k] == (
                    rec.bet@,
                    rec.vault.balance,
                ),
                None => !self@.contains_key(k),
            },
    {
        match self.find(k) {
            Some(p) => {
                proof {
                    self.lemma_view_at(p as int);
                }
                Some(&self.records[p])
            },
            None => None,
        }
    }

    /// Adds a bet under an index not yet in use.
    pub fn insert(&mut self, k: u64, bet: Bet, vault: EscrowVault)
        requires
            old(self).wf(),
            !old(self)@.contains_key(k),
            bet@.wf(),
            vault.balance == bet@.escrowed(),
        ensures
            final(self).wf(),
            final(self)@ == old(self)@.insert(k, (bet@, vault.balance)),
    {
        let ghost old_self = *self;
        let ghost entry = (bet@, vault.balance);
        self.records.push(BetRecord { index: k, bet, vault });
        let ghost n = old_self.records@.len();
        assert(self.records@[n as int].index == k);
        assert forall|i: int| 0 <= i < n implies self.records@[i].index != k by {
            assert(holds_index(old_self.records@, self.records@[i].index, i));
        }
        assert(self.wf());
        assert forall|j: u64| #[trigger] self@.contains_key(j) == old_self@.insert(k, entry).contains_key(j)
            by {
            if old_self@.contains_key(j) {
                let i = choose|i: int| holds_index(old_self.records@, j, i);
                assert(holds_index(self.records@, j, i));
            }
            if j == k {
                assert(holds_index(self.records@, j, n as int));
            }
            if self@.contains_key(j) {
                let i = choose|i: int| holds_index(self.records@, j, i);
                if i < n {
                    assert(holds_index(old_self.records@, j, i));
                }
            }
        }
        assert forall|j: u64| #[trigger] self@.contains_key(j) implies self@[j] == old_self@.insert(k, entry)[j]
            by {
            let i = choose|i: int| holds_index(self.records@, j, i);
            self.lemma_view_at(i);
            if i < n {
                old_self.lemma_view_at(i);
            }
        }
        assert(self@ =~= old_self@.insert(k, entry));
    }

    proof fn lemma_replace(&self, new: &BetStore, p: int)
        requires
            self.wf(),
            0 <= p < self.records@.len(),
            new.records@ == self.records@.update(p, new.records@[p]),
            new.records@[p].index == self.records@[p].index,
            new.records@[p].bet@.wf(),
            new.records@[p].vault.balance == new.records@[p].bet@.escrowed(),
        ensures
            new.wf(),
            new@ == self@.insert(
                self.records@[p].index,
                (new.records@[p].bet@, new.records@[p].vault.balance),
            ),
    {
        let k = self.records@[p].index;
        let entry = (new.records@[p].bet@, new.records@[p].vault.balance);
        assert(new.wf());
        assert forall|j: u64| #[trigger] new@.contains_key(j) == self@.insert(k, entry).contains_key(j)
            by {
            if self@.contains_key(j) {
                let i = choose|i: int| holds_index(self.records@, j, i);
                assert(holds_index(new.records@, j, i));
            }
            if new@.contains_key(j) {
                let i = choose|i: int| holds_index(new.records@, j, i);
                assert(holds_index(self.records@, j, i));
            }
            if j == k {
                assert(holds_index(new.records@, j, p));
            }
        }
        assert forall|j: u64| #[trigger] new@.contains_key(j) implies new@[j] == self@.insert(k, entry)[j]
            by {
            let i = choose|i: int| holds_index(new.records@, j, i);
            new.lemma_view_at(i);
            if i != p {
                self.lemma_view_at(i);
            }
        }
        assert(new@ =~= self@.insert(k, entry));
    }

    proof fn lemma_remove(&self, new: &BetStore, p: int)
        requires
            self.wf(),
            0 <= p < self.records@.len(),
            new.records@ == self.records@.remove(p),
        ensures
            new.wf(),
            new@ == self@.remove(self.records@[p].index),
    {
        let k = self.records@[p].index;
        let old_recs = self.records@;
        assert forall|i: int| 0 <= i < new.records@.len() implies #[trigger] new.records@[i] == old_recs[
            if i < p {
                i
            } else {
                i + 1
            }
        ] by {}
        assert forall|i: int, j: int|
            0 <= i < new.records@.len() && 0 <= j < new.records@.len() && i != j
                implies new.records@[i].index != new.records@[j].index by {
            let oi = if i < p { i } else { i + 1 };
            let oj = if j < p { j } else { j + 1 };
            assert(new.records@[i] == old_recs[oi]);
            assert(new.records@[j] == old_recs[oj]);
        }
        assert forall|i: int| 0 <= i < new.records@.len() implies {
            &&& (#[trigger] new.records@[i]).bet@.wf()
            &&& new.records@[i].vault.balance == new.records@[i].bet@.escrowed()
        } by {
            let oi = if i < p { i } else { i + 1 };
            assert(new.records@[i] == old_recs[oi]);
        }
        assert(new.wf());
        assert forall|j: u64| #[trigger] new@.contains_key(j) == self@.remove(k).contains_key(j) by {
            if new@.contains_key(j) {
                let i = choose|i: int| holds_index(new.records@, j, i);
                let oi = if i < p { i } else { i + 1 };
                assert(new.records@[i] == old_recs[oi]);
                assert(holds_index(old_recs, j, oi));
                assert(oi != p);
            }
            if self@.remove(k).contains_key(j) {
                let oi = choose|i: int| holds_index(old_recs, j, i);
                assert(oi != p);
                let i = if oi < p { oi } else { oi - 1 };
                assert(new.records@[i] == old_recs[if i < p { i } else { i + 1 }]);
                assert(holds_index(new.records@, j, i));
            }
        }
        assert forall|j: u64| #[trigger] new@.contains_key(j) implies new@[j] == self@.remove(k)[j] by {
            let i = choose|i: int| holds_index(new.records@, j, i);
            let oi = if i < p { i } else { i + 1 };
            assert(new.records@[i] == old_recs[oi]);
            new.lemma_view_at(i);
            self.lemma_view_at(oi);
        }
        assert(new@ =~= self@.remove(k));
    }
}

/// Opens bet `bet_index` for `creator`, escrowing `creator_stake` out of
/// `creator_funds`. The index must be free.
pub fn create_bet(
    store: &mut BetStore,
    creator: Pubkey,
    bet_index: u64,
    resolver_group: Vec<Pubkey>,
    creator_stake: u64,
    expected_challenger_stake: u64,
    challenger: Pubkey,
    deadline: i64,
    creator_funds: u64,
) -> (r: Result<(), ErrorCode>)
    requires
        old(store).wf(),
        creator_stake + expected_challenger_stake <= u64::MAX,
    ensures
        final(store).wf(),
        old(store)@.contains_key(bet_index) ==> r == Err::<(), ErrorCode>(ErrorCode::IndexCollision)
            && final(store)@ == old(store)@,
        !old(store)@.contains_key(bet_index) ==> match create_result(
            creator@,
            challenger@,
            resolver_group@.map_values(|k: Pubkey| k@),
            creator_stake,
            expected_challenger_stake,
            deadline,
            creator_funds,
        ) {
            Ok(b) => r == Ok::<(), ErrorCode>(()) && final(store)@ == old(store)@.insert(
                bet_index,
                (b, creator_stake),
            ),
            Err(e) => r == Err::<(), ErrorCode>(e) && final(store)@ == old(store)@,
        },
{
    if store.find(bet_index).is_some() {
        return Err(ErrorCode::IndexCollision);
    }
    match create_bet::handler(
        creator,
        resolver_group,
        creator_stake,
        expected_challenger_stake,
        challenger,
        deadline,
        creator_funds,
    ) {
        Ok((bet, vault)) => {
            store.insert(bet_index, bet, vault);
            Ok(())
        },
        Err(e) => Err(e),
    }
}

/// The challenger of bet `bet_index` accepts it, escrowing their stake out
/// of `caller_funds`.
pub fn accept_bet(store: &mut BetStore, caller: &Pubkey, bet_index: u64, caller_funds: u64) -> (r:
    Result<(), ErrorCode>)
    requires
        old(store).wf(),
    ensures
        final(store).wf(),
        !old(store)@.contains_key(bet_index) ==> r == Err::<(), ErrorCode>(ErrorCode::NotFound)
            && final(store)@ == old(store)@,
        old(store)@.contains_key(bet_index) ==> match accept_result(
            old(store)@[bet_index].0,
            caller@,
            caller_funds,
        ) {
            Ok(b) => r == Ok::<(), ErrorCode>(()) && final(store)@ == old(store)@.insert(
                bet_index,
                (b, b.escrowed() as u64),
            ),
            Err(e) => r == Err::<(), ErrorCode>(e) && final(store)@ == old(store)@,
        },
{
    let p = match store.find(bet_index) {
        Some(p) => p,
        None => return Err(ErrorCode::NotFound),
    };
    proof {
        store.lemma_view_at(p as int);
    }
    let ghost before = *store;
    let rec = &mut store.records[p];
    let r = accept_bet::handler(&mut rec.bet, &mut rec.vault, caller, caller_funds);
    proof {
        before.lemma_replace(store, p as int);
        if r.is_err() {
            assert(store@ =~= before@);
        }
    }
    r
}

/// A player of bet `bet_index` records or replaces their ballot.
pub fn cast_player_vote(store: &mut BetStore, caller: &Pubkey, bet_index: u64, voted_winner: u8) -> (r:
    Result<(), ErrorCode>)
    requires
        old(store).wf(),
    ensures
        final(store).wf(),
        !old(store)@.contains_key(bet_index) ==> r == Err::<(), ErrorCode>(ErrorCode::NotFound)
            && final(store)@ == old(store)@,
        old(store)@.contains_key(bet_index) ==> match player_vote_result(
            old(store)@[bet_index].0,
            caller@,
            voted_winner,
        ) {
            Ok(b) => r == Ok::<(), ErrorCode>(()) && final(store)@ == old(store)@.insert(
                bet_index,
                (b, old(store)@[bet_index].1),
            ),
            Err(e) => r == Err::<(), ErrorCode>(e) && final(store)@ == old(store)@,
        },
{
    let p = match store.find(bet_index) {
        Some(p) => p,
        None => return Err(ErrorCode::NotFound),
    };
    proof {
        store.lemma_view_at(p as int);
    }
    let ghost before = *store;
    let rec = &mut store.records[p];
    let r = cast_player_vote::handler(&mut rec.bet, caller, voted_winner);
    proof {
        before.lemma_replace(store, p as int);
        if r.is_err() {
            assert(store@ =~= before@);
        }
    }
    r
}

/// A resolver of bet `bet_index` casts their one ballot.
pub fn resolver_vote(store: &mut BetStore, caller: &Pubkey, bet_index: u64, voted_winner: u8) -> (r:
    Result<(), ErrorCode>)
    requires
        old(store).wf(),
    ensures
        final(store).wf(),
        !old(store)@.contains_key(bet_index) ==> r == Err::<(), ErrorCode>(ErrorCode::NotFound)
            && final(store)@ == old(store)@,
        old(store)@.contains_key(bet_index) ==> match resolver_vote_result(
            old(store)@[bet_index].0,
            caller@,
            voted_winner,
        ) {
            Ok(b) => r == Ok::<(), ErrorCode>(()) && final(store)@ == old(store)@.insert(
                bet_index,
                (b, old(store)@[bet_index].1),
            ),
            Err(e) => r == Err::<(), ErrorCode>(e) && final(store)@ == old(store)@,
        },
{
    let p = match store.find(bet_index) {
        Some(p) => p,
        None => return Err(ErrorCode::NotFound),
    };
    proof {
        store.lemma_view_at(p as int);
    }
    let ghost before = *store;
    let rec = &mut store.records[p];
    let r = resolver_vote::handler(&mut rec.bet, caller, voted_winner);
    proof {
        before.lemma_replace(store, p as int);
        if r.is_err() {
            assert(store@ =~= before@);
        }
    }
    r
}

/// The winner of bet `bet_index` collects the whole escrow; the bet is
/// closed. Returns the amount paid out.
pub fn claim_winnings(store: &mut BetStore, winner: &Pubkey, bet_index: u64, creator: &Pubkey) -> (r:
    Result<u64, ErrorCode>)
    requires
        old(store).wf(),
    ensures
        final(store).wf(),
        !old(store)@.contains_key(bet_index) ==> r == Err::<u64, ErrorCode>(ErrorCode::NotFound)
            && final(store)@ == old(store)@,
        old(store)@.contains_key(bet_index) ==> {
            &&& r == claim_result(old(store)@[bet_index].0, winner@, creator@)
            &&& r.is_ok() ==> final(store)@ == old(store)@.remove(bet_index)
            &&& r.is_err() ==> final(store)@ == old(store)@
        },
{
    let p = match store.find(bet_index) {
        Some(p) => p,
        None => return Err(ErrorCode::NotFound),
    };
    proof {
        store.lemma_view_at(p as int);
    }
    let ghost before = *store;
    let r = {
        let rec = &mut store.records[p];
        claim_winnings::handler(&rec.bet, &mut rec.vault, winner, creator)
    };
    match r {
        Ok(total) => {
            let ghost mid = *store;
            store.records.remove(p);
            proof {
                before.lemma_view_at(p as int);
                assert(mid.records@.remove(p as int) =~= before.records@.remove(p as int));
                before.lemma_remove(store, p as int);
            }
            Ok(total)
        },
        Err(e) => {
            proof {
                before.lemma_replace(store, p as int);
                assert(store@ =~= before@);
            }
            Err(e)
        },
    }
}

} // verus!
