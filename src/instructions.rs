pub mod accept_bet;
pub mod cast_player_vote;
pub mod claim_winnings;
pub mod create_bet;
pub mod resolver_vote;
