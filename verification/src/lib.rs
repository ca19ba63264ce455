//! A ledger of teams, players and scores.
//!
//! Teams and players are records kept by a ledger runtime. Each record names
//! the authority that may change it. A team's total score grows only by
//! folding in the scores of players that were handed to the update as
//! untyped accounts and that passed validation.

pub mod aggregation;
pub mod codec;
pub mod error;
pub mod instructions;
pub mod laws;
pub mod pubkey;
pub mod state;
pub mod validator;

pub use error::ErrorCode;
pub use instructions::{
    create_player, create_team, update_player_score, update_team_score, Account, CreatePlayer,
    CreateTeam, UpdatePlayerScore, UpdateTeamScore,
};
pub use pubkey::{id, Pubkey, ID};
pub use state::{Player, Team};
pub use validator::RawAccount;
