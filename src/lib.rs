//! A two-party wager with escrowed stakes, settled by the players' agreement
//! or by a two-thirds quorum of appointed resolvers.

pub mod error;
pub mod pubkey;
pub mod voting_state;
pub mod bet;
pub mod instructions;
pub mod p2p_bet;
pub mod laws;
