use anchor_lang::prelude::Pubkey as LedgerPubkey;
use anchor_lang::solana_program::hash::hash;
use anchor_lang::{AnchorDeserialize, AnchorSerialize};
use remaining_accounts::codec::{read_string, write_string};
use remaining_accounts::pubkey::ID;
use remaining_accounts::state::{Player, Team, PLAYER_DISCRIMINATOR, TEAM_DISCRIMINATOR};
use remaining_accounts::Pubkey;
use std::str::FromStr;

#[test]
fn discriminators_are_the_hashed_names() {
    assert_eq!(&hash(b"account:Team").to_bytes()[..8], &TEAM_DISCRIMINATOR[..]);
    assert_eq!(&hash(b"account:Player").to_bytes()[..8], &PLAYER_DISCRIMINATOR[..]);
}

#[test]
fn program_id_is_the_published_address() {
    let published = LedgerPubkey::from_str("4NUxYa3SFp4XTPqvuh6Twt4EdkRrVN5G9gBNZUxyzapc").unwrap();
    assert_eq!(published.to_bytes(), ID);
}

#[test]
fn strings_are_written_as_borsh_writes_them() {
    for text in ["", "Bo", "Alpha", "Zoë ✓", &"n".repeat(128), &"x".repeat(300)] {
        let mut written = Vec::new();
        write_string(&mut written, text);
        assert_eq!(written, text.to_string().try_to_vec().unwrap());
    }
}

#[test]
fn strings_are_read_as_borsh_reads_them() {
    let inputs: [&[u8]; 8] = [
        &[],
        &[1, 0, 0],
        &[0, 0, 0, 0],
        &[0, 0, 0, 0, 7],
        &[2, 0, 0, 0, b'B', b'o', 40],
        &[3, 0, 0, 0, b'B', b'o'],
        &[2, 0, 0, 0, 0xc3, 0x28],
        &[4, 0, 0, 0, 0xf0, 0x9f, 0x8e, 0xb2, 1, 2, 3],
    ];
    for input in inputs {
        let mut rest: &[u8] = input;
        let expected = match String::deserialize(&mut rest) {
            Ok(text) => Some((text, input.len() - rest.len())),
            Err(_) => None,
        };
        assert_eq!(read_string(input), expected);
    }
}

#[test]
fn records_are_laid_out_field_by_field() {
    let authority = [3u8; 32];
    let team_key = [4u8; 32];
    let player = Player {
        authority: Pubkey::new_from_array(authority),
        team: Pubkey::new_from_array(team_key),
        name: "Bo".to_string(),
        score: 40,
    };
    let mut expected = PLAYER_DISCRIMINATOR.to_vec();
    authority.serialize(&mut expected).unwrap();
    team_key.serialize(&mut expected).unwrap();
    "Bo".to_string().serialize(&mut expected).unwrap();
    40u8.serialize(&mut expected).unwrap();
    assert_eq!(player.serialize(), expected);

    let team = Team {
        authority: Pubkey::new_from_array(authority),
        name: "Alpha".to_string(),
        total_score: 513,
    };
    let mut expected = TEAM_DISCRIMINATOR.to_vec();
    authority.serialize(&mut expected).unwrap();
    "Alpha".to_string().serialize(&mut expected).unwrap();
    513u16.serialize(&mut expected).unwrap();
    assert_eq!(team.serialize(), expected);
}
