//! The four operations of the ledger, each with the accounts it works on.
//!
//! The ledger runtime resolves the accounts that an operation names, makes
//! sure that the authority has signed, and hands both over. An operation
//! either succeeds and changes the records as its contract says, or fails
//! and leaves every record as it was.

use crate::aggregation::{add_scores, total_after};
use crate::error::ErrorCode;
use crate::pubkey::Pubkey;
use crate::state::{name_fits, Player, Team};
use crate::validator::{validate_players, validated_players, RawAccount};
use vstd::prelude::*;

verus! {

/// A record together with the address at which the ledger keeps it.
pub struct Account<T> {
    pub key: Pubkey,
    pub record: T,
}

/// The accounts of `create_team`.
pub struct CreateTeam {
    /// What the address of the new team holds: nothing while it is unused.
    pub team: Option<Team>,
    /// The signer, who becomes the team's authority.
    pub authority: Pubkey,
}

/// The accounts of `create_player`.
pub struct CreatePlayer {
    /// What the address of the new player holds: nothing while it is unused.
    pub player: Option<Player>,
    /// The team that the player joins.
    pub team: Account<Team>,
    /// The signer, who becomes the player's authority.
    pub authority: Pubkey,
}

/// The accounts of `update_player_score`.
pub struct UpdatePlayerScore {
    /// The player whose score is set.
    pub player: Player,
    /// The signer.
    pub authority: Pubkey,
}

/// The accounts of `update_team_score`.
pub struct UpdateTeamScore {
    /// The team whose total grows.
    pub team: Account<Team>,
    /// The signer.
    pub authority: Pubkey,
}

/// What `create_team` answers and how it leaves its accounts. An address
/// that is in use is not written again; an unused one gets a team of the
/// signer with the given name and no score.
pub open spec fn create_team_outcome(ctx: CreateTeam, name: String) -> (
    Result<(), ErrorCode>,
    CreateTeam,
) {
    if ctx.team is Some {
        (Err(ErrorCode::AlreadyExists), ctx)
    } else {
        (
            Ok(()),
            CreateTeam {
                team: Some(Team { authority: ctx.authority, name, total_score: 0 }),
                authority: ctx.authority,
            },
        )
    }
}

/// What `create_player` answers and how it leaves its accounts. An address
/// that is in use is not written again; an unused one gets a player of the
/// signer, bound to the team, with the given name and no score.
pub open spec fn create_player_outcome(ctx: CreatePlayer, name: String) -> (
    Result<(), ErrorCode>,
    CreatePlayer,
) {
    if ctx.player is Some {
        (Err(ErrorCode::AlreadyExists), ctx)
    } else {
        (
            Ok(()),
            CreatePlayer {
                player: Some(
                    Player { authority: ctx.authority, team: ctx.team.key, name, score: 0 },
                ),
                team: ctx.team,
                authority: ctx.authority,
            },
        )
    }
}

/// What `update_player_score` answers and how it leaves its accounts. Only
/// the player's own authority may set the score, to any value.
pub open spec fn update_player_score_outcome(ctx: UpdatePlayerScore, score: u8) -> (
    Result<(), ErrorCode>,
    UpdatePlayerScore,
) {
    if ctx.player.authority@ != ctx.authority@ {
        (Err(ErrorCode::InvalidAuthority), ctx)
    } else {
        (
            Ok(()),
            UpdatePlayerScore {
                player: Player {
                    authority: ctx.player.authority,
                    team: ctx.player.team,
                    name: ctx.player.name,
                    score,
                },
                authority: ctx.authority,
            },
        )
    }
}

/// What `update_team_score` answers. The signer must be the team's
/// authority. Every account must then pass validation, and the error of the
/// first that does not is the answer. The sum must then fit the total.
pub open spec fn update_team_score_result(
    ctx: UpdateTeamScore,
    remaining_accounts: Seq<RawAccount>,
) -> Result<u16, ErrorCode> {
    if ctx.team.record.authority@ != ctx.authority@ {
        Err(ErrorCode::InvalidAuthority)
    } else {
        match validated_players(remaining_accounts, ctx.authority@, ctx.team.key@) {
            Err(error) => Err(error),
            Ok(players) => match total_after(ctx.team.record.total_score, players) {
                None => Err(ErrorCode::ScoreOverflow),
                Some(total) => Ok(total),
            },
        }
    }
}

/// What `update_team_score` answers and how it leaves its accounts. On
/// success the total has grown by the sum of the players' scores and
/// nothing else has changed.
pub open spec fn update_team_score_outcome(
    ctx: UpdateTeamScore,
    remaining_accounts: Seq<RawAccount>,
) -> (Result<(), ErrorCode>, UpdateTeamScore) {
    match update_team_score_result(ctx, remaining_accounts) {
        Err(error) => (Err(error), ctx),
        Ok(total) => (
            Ok(()),
            UpdateTeamScore {
                team: Account {
                    key: ctx.team.key,
                    record: Team {
                        authority: ctx.team.record.authority,
                        name: ctx.team.record.name,
                        total_score: total,
                    },
                },
                authority: ctx.authority,
            },
        ),
    }
}

/// Creates a team of the signer at an unused address. Fails with
/// `AlreadyExists` where the address is in use. The name must be short
/// enough to be stored, which `is_valid_name` tells.
pub fn create_team(ctx: &mut CreateTeam, name: String) -> (done: Result<(), ErrorCode>)
    requires
        name_fits(name@),
    ensures
        (done, *final(ctx)) == create_team_outcome(*old(ctx), name),
{
    if ctx.team.is_some() {
        return Err(ErrorCode::AlreadyExists);
    }
    ctx.team = Some(Team { authority: ctx.authority, name, total_score: 0 });
    Ok(())
}

/// Creates a player of the signer at an unused address and binds it to the
/// team. Fails with `AlreadyExists` where the address is in use. The name
/// must be short enough to be stored, which `is_valid_name` tells.
pub fn create_player(ctx: &mut CreatePlayer, name: String) -> (done: Result<(), ErrorCode>)
    requires
        name_fits(name@),
    ensures
        (done, *final(ctx)) == create_player_outcome(*old(ctx), name),
{
    if ctx.player.is_some() {
        return Err(ErrorCode::AlreadyExists);
    }
    ctx.player = Some(Player { authority: ctx.authority, team: ctx.team.key, name, score: 0 });
    Ok(())
}

/// Sets the player's score. Fails with `InvalidAuthority` where the signer
/// is not the player's authority.
pub fn update_player_score(ctx: &mut UpdatePlayerScore, score: u8) -> (done: Result<
    (),
    ErrorCode,
>)
    ensures
        (done, *final(ctx)) == update_player_score_outcome(*old(ctx), score),
{
    if ctx.player.authority != ctx.authority {
        return Err(ErrorCode::InvalidAuthority);
    }
    ctx.player.score = score;
    Ok(())
}

/// Adds the scores of the players held by `remaining_accounts` to the
/// team's total. The accounts are validated first, all of them; only then is
/// anything added, so a call that fails has changed nothing. Fails with
/// `InvalidAuthority` where the signer is not the team's authority, with
/// the error of the first account that does not pass validation, and with
/// `ScoreOverflow` where the new total would be above 65535.
pub fn update_team_score(ctx: &mut UpdateTeamScore, remaining_accounts: &[RawAccount]) -> (done:
    Result<(), ErrorCode>)
    ensures
        (done, *final(ctx)) == update_team_score_outcome(*old(ctx), remaining_accounts@),
{
    if ctx.team.record.authority != ctx.authority {
        return Err(ErrorCode::InvalidAuthority);
    }
    let players = match validate_players(remaining_accounts, &ctx.authority, &ctx.team.key) {
        Err(error) => {
            return Err(error);
        },
        Ok(players) => players,
    };
    match add_scores(ctx.team.record.total_score, &players) {
        None => Err(ErrorCode::ScoreOverflow),
        Some(total) => {
            ctx.team.record.total_score = total;
            Ok(())
        },
    }
}

} // verus!
