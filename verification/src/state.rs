//! The two kinds of record that the ledger keeps, and how each is laid out
//! in the bytes of its account.
//!
//! An account's bytes begin with eight bytes that tell the kind of record.
//! The fields follow in the order of their declaration: an identity as its
//! 32 bytes, a text as `codec` stores it, a number in little-endian order.
//! Bytes after the last field are not part of the record.

use crate::codec::{
    leading_string, leading_string_size, lemma_string_is_prefix, lemma_string_round_trip,
    read_string, starts_with_string, string_bytes, text_is_storable, write_string, LEN_PREFIX,
};
use crate::error::ErrorCode;
use crate::pubkey::{Pubkey, PUBKEY_BYTES};
use vstd::bytes::*;
use vstd::prelude::*;
use vstd::slice::*;
use vstd::string::*;
use vstd::utf8::*;

verus! {

/// The longest name of a team or player, in bytes of UTF-8.
pub const MAX_NAME_LEN: usize = 128;

/// Number of bytes at the front of an account that tell the record's kind.
pub const DISCRIMINATOR_LEN: usize = 8;

/// The bytes that mark an account as a team.
pub const TEAM_DISCRIMINATOR: [u8; 8] = [140, 218, 177, 140, 193, 241, 199, 106];

/// The bytes that mark an account as a player.
pub const PLAYER_DISCRIMINATOR: [u8; 8] = [205, 222, 112, 7, 165, 155, 206, 218];

/// A team: who may change it, its name, and the scores gathered so far.
#[derive(Debug)]
pub struct Team {
    pub authority: Pubkey,
    pub name: String,
    pub total_score: u16,
}

/// A player: who may change it, the address of its team, its name, and its
/// score.
#[derive(Debug)]
pub struct Player {
    pub authority: Pubkey,
    pub team: Pubkey,
    pub name: String,
    pub score: u8,
}

/// What a team record says.
pub struct TeamView {
    pub authority: Seq<u8>,
    pub name: Seq<char>,
    pub total_score: u16,
}

/// What a player record says.
pub struct PlayerView {
    pub authority: Seq<u8>,
    pub team: Seq<u8>,
    pub name: Seq<char>,
    pub score: u8,
}

/// Whether a name is short enough to be stored.
pub open spec fn name_fits(name: Seq<char>) -> bool {
    encode_utf8(name).len() <= MAX_NAME_LEN
}

/// Whether a name is short enough to be stored.
pub fn is_valid_name(name: &str) -> (fits: bool)
    ensures
        fits == name_fits(name@),
{
    name.as_bytes().len() <= MAX_NAME_LEN
}

impl TeamView {
    /// The identity has its 32 bytes and the name is short enough.
    pub open spec fn well_formed(self) -> bool {
        &&& self.authority.len() == PUBKEY_BYTES
        &&& name_fits(self.name)
    }

    /// The identity has its 32 bytes and the name can be stored, be it
    /// longer than a team's name should be.
    pub open spec fn storable(self) -> bool {
        &&& self.authority.len() == PUBKEY_BYTES
        &&& text_is_storable(self.name)
    }

    /// The bytes of an account that holds this team.
    pub open spec fn bytes(self) -> Seq<u8> {
        TEAM_DISCRIMINATOR@ + self.authority + string_bytes(self.name) + spec_u16_to_le_bytes(
            self.total_score,
        )
    }
}

impl PlayerView {
    /// The identities have their 32 bytes and the name is short enough.
    pub open spec fn well_formed(self) -> bool {
        &&& self.authority.len() == PUBKEY_BYTES
        &&& self.team.len() == PUBKEY_BYTES
        &&& name_fits(self.name)
    }

    /// The identities have their 32 bytes and the name can be stored, be it
    /// longer than a player's name should be.
    pub open spec fn storable(self) -> bool {
        &&& self.authority.len() == PUBKEY_BYTES
        &&& self.team.len() == PUBKEY_BYTES
        &&& text_is_storable(self.name)
    }

    /// The bytes of an account that holds this player.
    pub open spec fn bytes(self) -> Seq<u8> {
        PLAYER_DISCRIMINATOR@ + self.authority + self.team + string_bytes(self.name) + seq![
            self.score,
        ]
    }
}

impl Clone for Team {
    fn clone(&self) -> (copy: Team)
        ensures
            copy == *self,
    {
        Team {
            authority: self.authority,
            name: self.name.clone(),
            total_score: self.total_score,
        }
    }
}

impl Clone for Player {
    fn clone(&self) -> (copy: Player)
        ensures
            copy == *self,
    {
        Player {
            authority: self.authority,
            team: self.team,
            name: self.name.clone(),
            score: self.score,
        }
    }
}

impl View for Team {
    type V = TeamView;

    open spec fn view(&self) -> TeamView {
        TeamView { authority: self.authority@, name: self.name@, total_score: self.total_score }
    }
}

impl View for Player {
    type V = PlayerView;

    open spec fn view(&self) -> PlayerView {
        PlayerView {
            authority: self.authority@,
            team: self.team@,
            name: self.name@,
            score: self.score,
        }
    }
}

/// What each of the players says, in their order.
pub open spec fn player_views(players: Seq<Player>) -> Seq<PlayerView> {
    players.map_values(|player: Player| player@)
}

/// The team that the front of `data` holds, if it holds one.
pub open spec fn parse_team(data: Seq<u8>) -> Option<TeamView> {
    let name_at = (DISCRIMINATOR_LEN + PUBKEY_BYTES) as int;
    let score_at = name_at + leading_string_size(data.skip(name_at));
    if data.len() >= name_at && data.subrange(0, DISCRIMINATOR_LEN as int) == TEAM_DISCRIMINATOR@
        && starts_with_string(data.skip(name_at)) && data.len() >= score_at + 2 {
        Some(
            TeamView {
                authority: data.subrange(DISCRIMINATOR_LEN as int, name_at),
                name: leading_string(data.skip(name_at)),
                total_score: spec_u16_from_le_bytes(data.subrange(score_at, score_at + 2)),
            },
        )
    } else {
        None
    }
}

/// The player that the front of `data` holds, if it holds one.
pub open spec fn parse_player(data: Seq<u8>) -> Option<PlayerView> {
    let team_at = (DISCRIMINATOR_LEN + PUBKEY_BYTES) as int;
    let name_at = team_at + PUBKEY_BYTES;
    let score_at = name_at + leading_string_size(data.skip(name_at));
    if data.len() >= name_at && data.subrange(0, DISCRIMINATOR_LEN as int)
        == PLAYER_DISCRIMINATOR@ && starts_with_string(data.skip(name_at)) && data.len()
        >= score_at + 1 {
        Some(
            PlayerView {
                authority: data.subrange(DISCRIMINATOR_LEN as int, team_at),
                team: data.subrange(team_at, name_at),
                name: leading_string(data.skip(name_at)),
                score: data[score_at],
            },
        )
    } else {
        None
    }
}

/// A team that was written is read back, whatever follows it in the
/// account. With a name that is short enough it takes no more room than an
/// account of a team has.
pub proof fn law_team_round_trip(team: TeamView, rest: Seq<u8>)
    requires
        team.storable(),
    ensures
        parse_team(team.bytes() + rest) == Some(team),
        team.bytes().len() == DISCRIMINATOR_LEN + PUBKEY_BYTES + LEN_PREFIX + encode_utf8(
            team.name,
        ).len() + 2,
        team.well_formed() ==> team.bytes().len() <= DISCRIMINATOR_LEN + Team::INIT_SPACE,
{
    let data = team.bytes() + rest;
    let name_at = (DISCRIMINATOR_LEN + PUBKEY_BYTES) as int;
    let score = spec_u16_to_le_bytes(team.total_score);
    lemma_auto_spec_u16_to_from_le_bytes();
    lemma_string_round_trip(team.name, score + rest);
    assert(data.skip(name_at) =~= string_bytes(team.name) + (score + rest));
    let score_at = name_at + leading_string_size(data.skip(name_at));
    assert(data.subrange(0, DISCRIMINATOR_LEN as int) =~= TEAM_DISCRIMINATOR@);
    assert(data.subrange(DISCRIMINATOR_LEN as int, name_at) =~= team.authority);
    assert(data.subrange(score_at, score_at + 2) =~= score);
}

/// A player that was written is read back, whatever follows it in the
/// account. With a name that is short enough it takes no more room than an
/// account of a player has.
pub proof fn law_player_round_trip(player: PlayerView, rest: Seq<u8>)
    requires
        player.storable(),
    ensures
        parse_player(player.bytes() + rest) == Some(player),
        player.bytes().len() == DISCRIMINATOR_LEN + 2 * PUBKEY_BYTES + LEN_PREFIX + encode_utf8(
            player.name,
        ).len() + 1,
        player.well_formed() ==> player.bytes().len() <= DISCRIMINATOR_LEN + Player::INIT_SPACE,
{
    let data = player.bytes() + rest;
    let team_at = (DISCRIMINATOR_LEN + PUBKEY_BYTES) as int;
    let name_at = team_at + PUBKEY_BYTES;
    let score = seq![player.score];
    lemma_string_round_trip(player.name, score + rest);
    assert(data.skip(name_at) =~= string_bytes(player.name) + (score + rest));
    assert(data.subrange(0, DISCRIMINATOR_LEN as int) =~= PLAYER_DISCRIMINATOR@);
    assert(data.subrange(DISCRIMINATOR_LEN as int, team_at) =~= player.authority);
    assert(data.subrange(team_at, name_at) =~= player.team);
}

/// A team that is read from an account is the team whose bytes the account
/// begins with.
pub proof fn law_parsed_team_is_prefix(data: Seq<u8>)
    requires
        parse_team(data) is Some,
    ensures
        parse_team(data).unwrap().storable(),
        parse_team(data).unwrap().bytes().len() <= data.len(),
        parse_team(data).unwrap().bytes() == data.subrange(
            0,
            parse_team(data).unwrap().bytes().len() as int,
        ),
{
    let team = parse_team(data).unwrap();
    let name_at = (DISCRIMINATOR_LEN + PUBKEY_BYTES) as int;
    let tail = data.skip(name_at);
    let score_at = name_at + leading_string_size(tail);
    lemma_string_is_prefix(tail);
    lemma_auto_spec_u16_to_from_le_bytes();
    assert(tail.subrange(0, leading_string_size(tail)) =~= data.subrange(name_at, score_at));
    assert(team.bytes() =~= data.subrange(0, score_at + 2));
}

/// A player that is read from an account is the player whose bytes the
/// account begins with.
pub proof fn law_parsed_player_is_prefix(data: Seq<u8>)
    requires
        parse_player(data) is Some,
    ensures
        parse_player(data).unwrap().storable(),
        parse_player(data).unwrap().bytes().len() <= data.len(),
        parse_player(data).unwrap().bytes() == data.subrange(
            0,
            parse_player(data).unwrap().bytes().len() as int,
        ),
{
    let player = parse_player(data).unwrap();
    let team_at = (DISCRIMINATOR_LEN + PUBKEY_BYTES) as int;
    let name_at = team_at + PUBKEY_BYTES;
    let tail = data.skip(name_at);
    let score_at = name_at + leading_string_size(tail);
    lemma_string_is_prefix(tail);
    assert(tail.subrange(0, leading_string_size(tail)) =~= data.subrange(name_at, score_at));
    assert(player.bytes() =~= data.subrange(0, score_at + 1));
}

/// Whether `data` begins with the eight bytes of `kind`.
fn has_discriminator(data: &[u8], kind: &[u8; 8]) -> (found: bool)
    ensures
        found == (data@.len() >= DISCRIMINATOR_LEN && data@.subrange(0, DISCRIMINATOR_LEN as int)
            == kind@),
{
    if data.len() < DISCRIMINATOR_LEN {
        return false;
    }
    let mut i: usize = 0;
    while i < DISCRIMINATOR_LEN
        invariant
            i <= DISCRIMINATOR_LEN <= data.len(),
            forall|j: int| 0 <= j < i ==> data@[j] == kind@[j],
        decreases DISCRIMINATOR_LEN - i,
    {
        if data[i] != kind[i] {
            assert(data@.subrange(0, DISCRIMINATOR_LEN as int)[i as int] != kind@[i as int]);
            return false;
        }
        i += 1;
    }
    assert(data@.subrange(0, DISCRIMINATOR_LEN as int) =~= kind@);
    true
}

impl Team {
    /// Bytes that the fields of a team take at most, the kind not counted.
    pub const INIT_SPACE: usize = PUBKEY_BYTES + LEN_PREFIX + MAX_NAME_LEN + 2;

    /// The bytes of an account that holds this team.
    pub fn serialize(&self) -> (data: Vec<u8>)
        requires
            self@.storable(),
        ensures
            data@ == self@.bytes(),
    {
        let mut data: Vec<u8> = Vec::new();
        data.extend_from_slice(TEAM_DISCRIMINATOR.as_slice());
        data.extend_from_slice(self.authority.bytes.as_slice());
        write_string(&mut data, self.name.as_str());
        let mut score = u16_to_le_bytes(self.total_score);
        data.append(&mut score);
        data
    }

    /// Reads a team from the bytes of an account. Fails with
    /// `InvalidAccountData` where the account is not marked as a team or is
    /// too short for the fields of one, or its name is not UTF-8.
    pub fn try_deserialize(data: &[u8]) -> (read: Result<Team, ErrorCode>)
        ensures
            match parse_team(data@) {
                Some(team) => read is Ok && read.unwrap()@ == team,
                None => read == Err::<Team, ErrorCode>(ErrorCode::InvalidAccountData),
            },
    {
        let name_at: usize = DISCRIMINATOR_LEN + PUBKEY_BYTES;
        if !has_discriminator(data, &TEAM_DISCRIMINATOR) || data.len() < name_at {
            return Err(ErrorCode::InvalidAccountData);
        }
        let authority = Pubkey::read_from(data, DISCRIMINATOR_LEN);
        let tail = slice_subrange(data, name_at, data.len());
        match read_string(tail) {
            None => Err(ErrorCode::InvalidAccountData),
            Some((name, used)) => {
                if data.len() - name_at - used < 2 {
                    return Err(ErrorCode::InvalidAccountData);
                }
                let score_at: usize = name_at + used;
                let total_score = u16_from_le_bytes(slice_subrange(data, score_at, score_at + 2));
                Ok(Team { authority, name, total_score })
            },
        }
    }
}

impl Player {
    /// Bytes that the fields of a player take at most, the kind not counted.
    pub const INIT_SPACE: usize = 2 * PUBKEY_BYTES + LEN_PREFIX + MAX_NAME_LEN + 1;

    /// The bytes of an account that holds this player.
    pub fn serialize(&self) -> (data: Vec<u8>)
        requires
            self@.storable(),
        ensures
            data@ == self@.bytes(),
    {
        let mut data: Vec<u8> = Vec::new();
        data.extend_from_slice(PLAYER_DISCRIMINATOR.as_slice());
        data.extend_from_slice(self.authority.bytes.as_slice());
        data.extend_from_slice(self.team.bytes.as_slice());
        write_string(&mut data, self.name.as_str());
        data.push(self.score);
        data
    }

    /// Reads a player from the bytes of an account. Fails with
    /// `InvalidAccountData` where the account is not marked as a player or is
    /// too short for the fields of one, or its name is not UTF-8.
    pub fn try_deserialize(data: &[u8]) -> (read: Result<Player, ErrorCode>)
        ensures
            match parse_player(data@) {
                Some(player) => read is Ok && read.unwrap()@ == player,
                None => read == Err::<Player, ErrorCode>(ErrorCode::InvalidAccountData),
            },
    {
        let team_at: usize = DISCRIMINATOR_LEN + PUBKEY_BYTES;
        let name_at: usize = team_at + PUBKEY_BYTES;
        if !has_discriminator(data, &PLAYER_DISCRIMINATOR) || data.len() < name_at {
            return Err(ErrorCode::InvalidAccountData);
        }
        let authority = Pubkey::read_from(data, DISCRIMINATOR_LEN);
        let team = Pubkey::read_from(data, team_at);
        let tail = slice_subrange(data, name_at, data.len());
        match read_string(tail) {
            None => Err(ErrorCode::InvalidAccountData),
            Some((name, used)) => {
                if data.len() - name_at - used < 1 {
                    return Err(ErrorCode::InvalidAccountData);
                }
                let score = data[name_at + used];
                Ok(Player { authority, team, name, score })
            },
        }
    }
}

} // verus!
