use remaining_accounts::codec::{read_string, write_string};
use remaining_accounts::error::ErrorCode;
use remaining_accounts::pubkey::{id, Pubkey, ID, PUBKEY_BYTES};
use remaining_accounts::state::{
    is_valid_name, Player, Team, DISCRIMINATOR_LEN, MAX_NAME_LEN, PLAYER_DISCRIMINATOR,
    TEAM_DISCRIMINATOR,
};

fn key(byte: u8) -> Pubkey {
    Pubkey::new_from_array([byte; 32])
}

fn bo() -> Player {
    Player { authority: key(1), team: key(2), name: "Bo".to_string(), score: 40 }
}

fn bo_bytes() -> Vec<u8> {
    let mut bytes = vec![205, 222, 112, 7, 165, 155, 206, 218];
    bytes.extend_from_slice(&[1u8; 32]);
    bytes.extend_from_slice(&[2u8; 32]);
    bytes.extend_from_slice(&[2, 0, 0, 0]);
    bytes.extend_from_slice(b"Bo");
    bytes.push(40);
    bytes
}

fn alpha() -> Team {
    Team { authority: key(1), name: "Alpha".to_string(), total_score: 0x1234 }
}

fn alpha_bytes() -> Vec<u8> {
    let mut bytes = vec![140, 218, 177, 140, 193, 241, 199, 106];
    bytes.extend_from_slice(&[1u8; 32]);
    bytes.extend_from_slice(&[5, 0, 0, 0]);
    bytes.extend_from_slice(b"Alpha");
    bytes.extend_from_slice(&[0x34, 0x12]);
    bytes
}

#[test]
fn pubkey_keeps_its_bytes() {
    let mut bytes = [0u8; 32];
    for (i, byte) in bytes.iter_mut().enumerate() {
        *byte = i as u8;
    }
    let key = Pubkey::new_from_array(bytes);
    assert_eq!(key.to_bytes(), bytes);
    assert_eq!(PUBKEY_BYTES, 32);
}

#[test]
fn pubkeys_are_equal_when_their_bytes_are() {
    assert_eq!(key(7), key(7));
    assert_ne!(key(7), key(8));
    let mut last = [7u8; 32];
    last[31] = 8;
    assert_ne!(key(7), Pubkey::new_from_array(last));
    let mut first = [7u8; 32];
    first[0] = 8;
    assert_ne!(key(7), Pubkey::new_from_array(first));
}

#[test]
fn pubkey_is_read_at_an_offset() {
    let mut data = vec![9u8; 3];
    data.extend_from_slice(&[4u8; 32]);
    data.push(9);
    assert_eq!(Pubkey::read_from(&data, 3), key(4));
    let mut expected = [4u8; 32];
    expected[0] = 9;
    assert_eq!(Pubkey::read_from(&data, 2), Pubkey::new_from_array(expected));
}

#[test]
fn program_id_is_the_declared_one() {
    assert_eq!(id().to_bytes(), ID);
    assert_eq!(ID[0], 50);
    assert_eq!(ID[31], 245);
}

#[test]
fn string_is_stored_with_its_length_first() {
    let mut out = vec![7u8];
    write_string(&mut out, "Bo");
    assert_eq!(out, vec![7, 2, 0, 0, 0, b'B', b'o']);
}

#[test]
fn empty_string_is_stored_as_its_length() {
    let mut out = Vec::new();
    write_string(&mut out, "");
    assert_eq!(out, vec![0, 0, 0, 0]);
    assert_eq!(read_string(&out), Some((String::new(), 4)));
}

#[test]
fn string_length_is_little_endian() {
    let text = "x".repeat(258);
    let mut out = Vec::new();
    write_string(&mut out, &text);
    assert_eq!(&out[..4], &[2, 1, 0, 0]);
    assert_eq!(out.len(), 262);
    assert_eq!(read_string(&out), Some((text, 262)));
}

#[test]
fn string_is_read_back_and_the_rest_is_left() {
    let data = vec![2, 0, 0, 0, b'B', b'o', 40, 0, 0];
    assert_eq!(read_string(&data), Some(("Bo".to_string(), 6)));
}

#[test]
fn string_of_several_bytes_a_letter_is_read_back() {
    let text = "Zoë ✓";
    let mut data = Vec::new();
    write_string(&mut data, text);
    assert_eq!(data.len(), 4 + 8);
    assert_eq!(data[0], 8);
    assert_eq!(read_string(&data), Some((text.to_string(), 12)));
}

#[test]
fn string_without_its_whole_length_is_not_read() {
    assert_eq!(read_string(&[]), None);
    assert_eq!(read_string(&[2, 0, 0]), None);
}

#[test]
fn string_shorter_than_announced_is_not_read() {
    assert_eq!(read_string(&[3, 0, 0, 0, b'B', b'o']), None);
    assert_eq!(read_string(&[255, 255, 255, 255, b'B', b'o']), None);
}

#[test]
fn string_that_is_not_utf8_is_not_read() {
    assert_eq!(read_string(&[2, 0, 0, 0, 0xff, 0xfe]), None);
    assert_eq!(read_string(&[1, 0, 0, 0, 0xc3]), None);
    assert_eq!(read_string(&[3, 0, 0, 0, 0xed, 0xa0, 0x80]), None);
}

#[test]
fn name_fits_up_to_128_bytes() {
    assert_eq!(MAX_NAME_LEN, 128);
    assert!(is_valid_name(""));
    assert!(is_valid_name(&"a".repeat(128)));
    assert!(!is_valid_name(&"a".repeat(129)));
    assert!(is_valid_name(&"é".repeat(64)));
    assert!(!is_valid_name(&"é".repeat(65)));
}

#[test]
fn player_bytes_follow_the_layout() {
    assert_eq!(bo().serialize(), bo_bytes());
    assert_eq!(bo_bytes().len(), 8 + 32 + 32 + 4 + 2 + 1);
}

#[test]
fn team_bytes_follow_the_layout() {
    assert_eq!(alpha().serialize(), alpha_bytes());
    assert_eq!(alpha_bytes().len(), 8 + 32 + 4 + 5 + 2);
}

#[test]
fn discriminators_take_eight_bytes() {
    assert_eq!(DISCRIMINATOR_LEN, 8);
    assert_eq!(TEAM_DISCRIMINATOR, [140, 218, 177, 140, 193, 241, 199, 106]);
    assert_eq!(PLAYER_DISCRIMINATOR, [205, 222, 112, 7, 165, 155, 206, 218]);
}

#[test]
fn player_is_read_back() {
    let player = Player::try_deserialize(&bo_bytes()).unwrap();
    assert_eq!(player.authority, key(1));
    assert_eq!(player.team, key(2));
    assert_eq!(player.name, "Bo");
    assert_eq!(player.score, 40);
}

#[test]
fn team_is_read_back() {
    let team = Team::try_deserialize(&alpha_bytes()).unwrap();
    assert_eq!(team.authority, key(1));
    assert_eq!(team.name, "Alpha");
    assert_eq!(team.total_score, 0x1234);
}

#[test]
fn records_are_read_from_accounts_with_room_to_spare() {
    let mut data = bo_bytes();
    data.resize(DISCRIMINATOR_LEN + Player::INIT_SPACE, 0);
    let player = Player::try_deserialize(&data).unwrap();
    assert_eq!(player.name, "Bo");
    assert_eq!(player.score, 40);
    let mut data = alpha_bytes();
    data.resize(DISCRIMINATOR_LEN + Team::INIT_SPACE, 0);
    let team = Team::try_deserialize(&data).unwrap();
    assert_eq!(team.name, "Alpha");
    assert_eq!(team.total_score, 0x1234);
}

#[test]
fn longest_names_fill_the_accounts() {
    assert_eq!(Team::INIT_SPACE, 166);
    assert_eq!(Player::INIT_SPACE, 197);
    let name = "n".repeat(MAX_NAME_LEN);
    let team = Team { authority: key(1), name: name.clone(), total_score: 65535 };
    let data = team.serialize();
    assert_eq!(data.len(), DISCRIMINATOR_LEN + Team::INIT_SPACE);
    let read = Team::try_deserialize(&data).unwrap();
    assert_eq!(read.name, name);
    assert_eq!(read.total_score, 65535);
    let player = Player { authority: key(1), team: key(2), name: name.clone(), score: 255 };
    let data = player.serialize();
    assert_eq!(data.len(), DISCRIMINATOR_LEN + Player::INIT_SPACE);
    let read = Player::try_deserialize(&data).unwrap();
    assert_eq!(read.name, name);
    assert_eq!(read.score, 255);
}

#[test]
fn clone_keeps_every_field() {
    let player = bo().clone();
    assert_eq!(player.authority, key(1));
    assert_eq!(player.team, key(2));
    assert_eq!(player.name, "Bo");
    assert_eq!(player.score, 40);
    let team = alpha().clone();
    assert_eq!(team.authority, key(1));
    assert_eq!(team.name, "Alpha");
    assert_eq!(team.total_score, 0x1234);
}

#[test]
fn team_is_not_read_as_player() {
    let error = Player::try_deserialize(&alpha_bytes()).unwrap_err();
    assert_eq!(error, ErrorCode::InvalidAccountData);
    let error = Team::try_deserialize(&bo_bytes()).unwrap_err();
    assert_eq!(error, ErrorCode::InvalidAccountData);
}

#[test]
fn short_accounts_are_not_read() {
    let whole = bo_bytes();
    for len in 0..whole.len() {
        let error = Player::try_deserialize(&whole[..len]).unwrap_err();
        assert_eq!(error, ErrorCode::InvalidAccountData);
    }
    let whole = alpha_bytes();
    for len in 0..whole.len() {
        let error = Team::try_deserialize(&whole[..len]).unwrap_err();
        assert_eq!(error, ErrorCode::InvalidAccountData);
    }
}

#[test]
fn empty_account_is_not_read() {
    assert_eq!(Player::try_deserialize(&[]).unwrap_err(), ErrorCode::InvalidAccountData);
    assert_eq!(Player::try_deserialize(&[0u8; 205]).unwrap_err(), ErrorCode::InvalidAccountData);
    assert_eq!(Team::try_deserialize(&[0u8; 174]).unwrap_err(), ErrorCode::InvalidAccountData);
}

#[test]
fn name_that_is_not_utf8_is_not_read() {
    let mut data = bo_bytes();
    data[76] = 0xff;
    assert_eq!(Player::try_deserialize(&data).unwrap_err(), ErrorCode::InvalidAccountData);
    let mut data = alpha_bytes();
    data[44] = 0xff;
    assert_eq!(Team::try_deserialize(&data).unwrap_err(), ErrorCode::InvalidAccountData);
}

#[test]
fn one_wrong_byte_of_the_kind_is_enough() {
    for at in 0..8 {
        let mut data = bo_bytes();
        data[at] ^= 1;
        assert_eq!(Player::try_deserialize(&data).unwrap_err(), ErrorCode::InvalidAccountData);
    }
}

#[test]
fn errors_have_their_messages() {
    assert_eq!(ErrorCode::InvalidAuthority.message(), "Invalid authority");
    assert_eq!(ErrorCode::InvalidTeam.message(), "Invalid team");
    assert_eq!(ErrorCode::InvalidAccountData.message(), "Invalid account data");
    assert_eq!(ErrorCode::AlreadyExists.message(), "Already exists");
    assert_eq!(ErrorCode::ScoreOverflow.message(), "Score overflow");
}

#[test]
fn records_with_longer_names_are_written_and_read() {
    let name = "n".repeat(200);
    let player = Player { authority: key(1), team: key(2), name: name.clone(), score: 9 };
    let data = player.serialize();
    assert_eq!(data.len(), 8 + 32 + 32 + 4 + 200 + 1);
    assert_eq!(&data[72..76], &[200, 0, 0, 0]);
    let read = Player::try_deserialize(&data).unwrap();
    assert_eq!(read.name, name);
    assert_eq!(read.score, 9);
    let team = Team { authority: key(1), name: name.clone(), total_score: 258 };
    let data = team.serialize();
    assert_eq!(data.len(), 8 + 32 + 4 + 200 + 2);
    assert_eq!(&data[244..], &[2, 1]);
    let read = Team::try_deserialize(&data).unwrap();
    assert_eq!(read.name, name);
    assert_eq!(read.total_score, 258);
}

#[test]
fn records_that_are_read_are_the_front_of_their_accounts() {
    let mut data = bo_bytes();
    data.extend_from_slice(&[7, 8, 9]);
    let written = Player::try_deserialize(&data).unwrap().serialize();
    assert_eq!(written.len(), data.len() - 3);
    assert_eq!(&written[..], &data[..written.len()]);
    let mut data = alpha_bytes();
    data.extend_from_slice(&[7, 8, 9]);
    let written = Team::try_deserialize(&data).unwrap().serialize();
    assert_eq!(written.len(), data.len() - 3);
    assert_eq!(&written[..], &data[..written.len()]);
}
