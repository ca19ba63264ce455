//! Validation of accounts that a caller hands in without a declared kind.
//!
//! Such an account is only bytes and an owner until it has been read as a
//! player record and that record has been held against the signer and the
//! team. Nothing of an account is used before all of this has passed.

use crate::error::ErrorCode;
use crate::pubkey::{id, Pubkey, ID};
use crate::state::{parse_player, player_views, Player, PlayerView};
use vstd::prelude::*;

verus! {

/// An account as the ledger runtime hands it over: the program that owns it
/// and the bytes stored in it.
#[derive(Debug)]
pub struct RawAccount {
    pub owner: Pubkey,
    pub data: Vec<u8>,
}

impl Clone for RawAccount {
    fn clone(&self) -> (copy: RawAccount)
        ensures
            copy.owner == self.owner,
            copy.data@ == self.data@,
    {
        RawAccount { owner: self.owner, data: self.data.clone() }
    }
}

/// Whether the account belongs to this program and holds the given player.
pub open spec fn holds_player(account: RawAccount, player: PlayerView) -> bool {
    account.owner@ == ID@ && parse_player(account.data@) == Some(player)
}

/// What becomes of one account: the player it holds, or the reason why it
/// is turned down. The account must belong to this program and hold a
/// player; the player's authority must be the signer; the player's team must
/// be the team at hand. The first of these that fails decides the error.
pub open spec fn validated_player(account: RawAccount, signer: Seq<u8>, team: Seq<u8>) -> Result<
    PlayerView,
    ErrorCode,
> {
    if account.owner@ != ID@ {
        Err(ErrorCode::InvalidAccountData)
    } else {
        match parse_player(account.data@) {
            None => Err(ErrorCode::InvalidAccountData),
            Some(player) => if player.authority != signer {
                Err(ErrorCode::InvalidAuthority)
            } else if player.team != team {
                Err(ErrorCode::InvalidTeam)
            } else {
                Ok(player)
            },
        }
    }
}

/// What becomes of a list of accounts: the players they hold, in their
/// order, or the error of the first account that is turned down.
pub open spec fn validated_players(
    accounts: Seq<RawAccount>,
    signer: Seq<u8>,
    team: Seq<u8>,
) -> Result<Seq<PlayerView>, ErrorCode>
    decreases accounts.len(),
{
    if accounts.len() == 0 {
        Ok(Seq::empty())
    } else {
        match validated_players(accounts.drop_last(), signer, team) {
            Err(error) => Err(error),
            Ok(players) => match validated_player(accounts.last(), signer, team) {
                Err(error) => Err(error),
                Ok(player) => Ok(players.push(player)),
            },
        }
    }
}

/// Reads one account as a player of `team` whose authority is `signer`.
pub fn validate_player(account: &RawAccount, signer: &Pubkey, team: &Pubkey) -> (valid: Result<
    Player,
    ErrorCode,
>)
    ensures
        match validated_player(*account, signer@, team@) {
            Ok(player) => valid is Ok && valid.unwrap()@ == player,
            Err(error) => valid == Err::<Player, ErrorCode>(error),
        },
{
    if account.owner != id() {
        return Err(ErrorCode::InvalidAccountData);
    }
    match Player::try_deserialize(account.data.as_slice()) {
        Err(error) => Err(error),
        Ok(player) => {
            if player.authority != *signer {
                Err(ErrorCode::InvalidAuthority)
            } else if player.team != *team {
                Err(ErrorCode::InvalidTeam)
            } else {
                Ok(player)
            }
        },
    }
}

/// Reads every account as a player of `team` whose authority is `signer`.
/// Gives the players in the order of the accounts, or the error of the
/// first account that is turned down.
pub fn validate_players(accounts: &[RawAccount], signer: &Pubkey, team: &Pubkey) -> (valid:
    Result<Vec<Player>, ErrorCode>)
    ensures
        match validated_players(accounts@, signer@, team@) {
            Ok(players) => valid is Ok && player_views(valid.unwrap()@) == players,
            Err(error) => valid == Err::<Vec<Player>, ErrorCode>(error),
        },
{
    let mut players: Vec<Player> = Vec::new();
    let mut i: usize = 0;
    assert(accounts@.take(0) =~= Seq::<RawAccount>::empty());
    assert(player_views(players@) =~= Seq::<PlayerView>::empty());
    while i < accounts.len()
        invariant
            i <= accounts.len(),
            validated_players(accounts@.take(i as int), signer@, team@) == Ok::<
                Seq<PlayerView>,
                ErrorCode,
            >(player_views(players@)),
        decreases accounts.len() - i,
    {
        proof {
            assert(accounts@.take(i + 1).drop_last() =~= accounts@.take(i as int));
        }
        match validate_player(&accounts[i], signer, team) {
            Err(error) => {
                proof {
                    lemma_error_stays(accounts@, i + 1, signer@, team@);
                }
                return Err(error);
            },
            Ok(player) => {
                assert(player_views(players@.push(player)) =~= player_views(players@).push(
                    player@,
                ));
                players.push(player);
            },
        }
        i += 1;
    }
    assert(accounts@.take(i as int) =~= accounts@);
    Ok(players)
}

/// Once the first `n` accounts are turned down, so is the whole list, with
/// the same error.
pub proof fn lemma_error_stays(accounts: Seq<RawAccount>, n: int, signer: Seq<u8>, team: Seq<u8>)
    requires
        0 <= n <= accounts.len(),
        validated_players(accounts.take(n), signer, team) is Err,
    ensures
        validated_players(accounts, signer, team) == validated_players(
            accounts.take(n),
            signer,
            team,
        ),
    decreases accounts.len(),
{
    if n == accounts.len() {
        assert(accounts.take(n) =~= accounts);
    } else {
        assert(accounts.drop_last().take(n) =~= accounts.take(n));
        lemma_error_stays(accounts.drop_last(), n, signer, team);
    }
}

/// A list passes exactly when each of its accounts does, and the players
/// are then those of the accounts, one for one. A list that is turned down
/// has a first account that is, and the error is that account's.
pub proof fn lemma_validated_players_by_account(
    accounts: Seq<RawAccount>,
    signer: Seq<u8>,
    team: Seq<u8>,
)
    ensures
        match validated_players(accounts, signer, team) {
            Ok(players) => {
                &&& players.len() == accounts.len()
                &&& forall|i: int|
                    0 <= i < accounts.len() ==> #[trigger] validated_player(
                        accounts[i],
                        signer,
                        team,
                    ) == Ok::<PlayerView, ErrorCode>(players[i])
            },
            Err(error) => exists|i: int|
                {
                    &&& 0 <= i < accounts.len()
                    &&& #[trigger] validated_player(accounts[i], signer, team) == Err::<
                        PlayerView,
                        ErrorCode,
                    >(error)
                    &&& forall|j: int|
                        0 <= j < i ==> (#[trigger] validated_player(
                            accounts[j],
                            signer,
                            team,
                        )) is Ok
                },
        },
    decreases accounts.len(),
{
    if accounts.len() > 0 {
        let front = accounts.drop_last();
        lemma_validated_players_by_account(front, signer, team);
        match validated_players(front, signer, team) {
            Err(error) => {
                let i = choose|i: int|
                    {
                        &&& 0 <= i < front.len()
                        &&& #[trigger] validated_player(front[i], signer, team) == Err::<
                            PlayerView,
                            ErrorCode,
                        >(error)
                        &&& forall|j: int|
                            0 <= j < i ==> (#[trigger] validated_player(
                                front[j],
                                signer,
                                team,
                            )) is Ok
                    };
                assert(accounts[i] == front[i]);
                assert forall|j: int| 0 <= j < i implies (#[trigger] validated_player(
                    accounts[j],
                    signer,
                    team,
                )) is Ok by {
                    assert(accounts[j] == front[j]);
                }
            },
            Ok(players) => {
                assert forall|j: int| 0 <= j < front.len() implies #[trigger] validated_player(
                    accounts[j],
                    signer,
                    team,
                ) == Ok::<PlayerView, ErrorCode>(players[j]) by {
                    assert(accounts[j] == front[j]);
                }
                match validated_player(accounts.last(), signer, team) {
                    Err(error) => {
                        let i = accounts.len() - 1;
                        assert(validated_player(accounts[i], signer, team) == Err::<
                            PlayerView,
                            ErrorCode,
                        >(error));
                    },
                    Ok(player) => {},
                }
            },
        }
    }
}

} // verus!
