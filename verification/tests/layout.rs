use anchor_lang::AnchorSerialize;
use vinci_portal::gifportal::{pay_tournament, ItemStruct};
use vinci_portal::keys::{Pubkey, SignerInfo};
use vinci_portal::layout::{decode_base_account, encode_base_account, write_base_account};
use vinci_portal::model::ProgramError;

fn key(b: u8) -> Pubkey {
    Pubkey::new_from_array([b; 32])
}

fn items() -> Vec<ItemStruct> {
    vec![
        ItemStruct { ammount: "héllo".to_string(), user_address: key(2) },
        ItemStruct { ammount: String::new(), user_address: key(3) },
    ]
}

fn stored(total: u64, owner: u8, len: usize) -> Vec<u8> {
    let mut data = vec![0xAAu8; len];
    write_base_account(&mut data, total, &key(owner), &items()).unwrap();
    data
}

#[test]
fn discriminator_is_anchors() {
    let h = anchor_lang::solana_program::hash::hash(b"account:BaseAccount").to_bytes();
    let enc = encode_base_account(0, &key(1), &Vec::new()).unwrap();
    assert_eq!(&enc[..8], &h[..8]);
}

#[test]
fn encoding_is_borsh() {
    let enc = encode_base_account(77, &key(1), &items()).unwrap();
    let fields: (u64, [u8; 32], Vec<(String, [u8; 32])>) = (
        77,
        [1u8; 32],
        vec![("héllo".to_string(), [2u8; 32]), (String::new(), [3u8; 32])],
    );
    let borsh = fields.try_to_vec().unwrap();
    assert_eq!(&enc[8..], &borsh[..]);
}

#[test]
fn decode_reads_back_what_was_written() {
    let data = stored(77, 1, 300);
    let (total, owner, list) = decode_base_account(&data).unwrap();
    assert_eq!(total, 77);
    assert!(owner == key(1));
    assert_eq!(list.len(), 2);
    assert_eq!(list[0].ammount, "héllo");
    assert!(list[1].user_address == key(3));
}

#[test]
fn write_keeps_the_bytes_after_the_encoding() {
    let data = stored(1, 1, 300);
    let enc = encode_base_account(1, &key(1), &items()).unwrap();
    assert_eq!(&data[..enc.len()], &enc[..]);
    assert!(data[enc.len()..].iter().all(|b| *b == 0xAA));
    assert_eq!(data.len(), 300);
}

#[test]
fn write_fails_when_the_encoding_does_not_fit() {
    let mut data = vec![5u8; 20];
    assert_eq!(
        write_base_account(&mut data, 1, &key(1), &items()),
        Err(ProgramError::AccountDidNotSerialize)
    );
    assert_eq!(data, vec![5u8; 20]);
}

#[test]
fn decode_errors() {
    assert_eq!(decode_base_account(&[16, 90, 130]).err(), Some(ProgramError::AccountDiscriminatorNotFound));
    let mut data = stored(1, 1, 200);
    data[0] = 0;
    assert_eq!(decode_base_account(&data).err(), Some(ProgramError::AccountDiscriminatorMismatch));
    let data = stored(1, 1, 200);
    assert_eq!(decode_base_account(&data[..60]).err(), Some(ProgramError::AccountDidNotDeserialize));
    let mut bad = stored(1, 1, 200);
    // the first item's text starts at 56; make its first byte invalid UTF-8
    bad[56] = 0xFF;
    assert_eq!(decode_base_account(&bad).err(), Some(ProgramError::AccountDidNotDeserialize));
}

#[test]
fn pay_tournament_credits_the_signing_owner() {
    let mut accounts = vec![stored(10, 1, 300)];
    let user = SignerInfo { key: key(1), is_signer: true };
    assert_eq!(pay_tournament(&user, &mut accounts, 5), Ok(()));
    let (total, owner, list) = decode_base_account(&accounts[0]).unwrap();
    assert_eq!(total, 15);
    assert!(owner == key(1));
    assert_eq!(list.len(), 2);
}

#[test]
fn pay_tournament_leaves_other_accounts_byte_for_byte() {
    let before = stored(10, 1, 300);
    let mut accounts = vec![before.clone()];
    let stranger = SignerInfo { key: key(9), is_signer: true };
    assert_eq!(pay_tournament(&stranger, &mut accounts, 5), Ok(()));
    assert_eq!(accounts[0], before);
    let unsigned = SignerInfo { key: key(1), is_signer: false };
    assert_eq!(pay_tournament(&unsigned, &mut accounts, 5), Ok(()));
    assert_eq!(accounts[0], before);
}
