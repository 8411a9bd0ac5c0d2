use anchor_lang::prelude::Pubkey as SolanaPubkey;
use vinci_portal::gifportal::{
    add_ammount, add_gif, burn_token, claim_tokens, mint_token, remove_ammount, remove_gif,
    reset_base_account, start_stuff_off, try_remove_gif, winning_accounts, BaseAccount, ItemStruct,
};
use vinci_portal::keys::{admin_key, Pubkey, ADMIN_KEY};
use vinci_portal::model::ProgramError;
use vinci_portal::token::TokenInstruction;

fn key(b: u8) -> Pubkey {
    Pubkey::new_from_array([b; 32])
}

fn text_of(k: &Pubkey) -> String {
    SolanaPubkey::new_from_array(k.to_bytes()).to_string()
}

fn account(total: u64, owner: u8, users: &[u8]) -> BaseAccount {
    BaseAccount {
        total_gifs: total,
        owner: key(owner),
        gif_list: users
            .iter()
            .map(|u| ItemStruct { ammount: format!("gif-{}", u), user_address: key(*u) })
            .collect(),
    }
}

fn users(a: &BaseAccount) -> Vec<u8> {
    a.gif_list.iter().map(|it| it.user_address.to_bytes()[0]).collect()
}

#[test]
fn admin_key_parses_to_its_bytes() {
    let k = admin_key().expect("the administrator key parses");
    let expected = [
        137u8, 246, 86, 146, 120, 11, 2, 129, 251, 87, 41, 177, 14, 150, 19, 63, 29, 11, 97, 78,
        26, 124, 190, 85, 123, 159, 23, 123, 152, 95, 95, 167,
    ];
    assert_eq!(k.to_bytes(), expected);
    assert_eq!(text_of(&k), ADMIN_KEY);
}

#[test]
fn key_equality_compares_all_bytes() {
    let mut b = [7u8; 32];
    assert!(Pubkey::new_from_array(b) == Pubkey::new_from_array(b));
    b[31] = 8;
    assert!(Pubkey::new_from_array(b) != key(7));
}

#[test]
fn start_stuff_off_resets_total_and_owner() {
    let mut a = account(42, 1, &[2, 3]);
    assert_eq!(start_stuff_off(&mut a), Ok(()));
    assert_eq!(a.total_gifs, 0);
    assert!(a.owner == admin_key().unwrap());
    assert_eq!(users(&a), vec![2, 3]);
}

#[test]
fn reset_base_account_installs_owner() {
    let mut a = account(9, 1, &[]);
    reset_base_account(&mut a, key(5));
    assert_eq!(a.total_gifs, 0);
    assert!(a.owner == key(5));
}

#[test]
fn add_gif_appends_and_counts() {
    let mut a = account(3, 1, &[2]);
    assert_eq!(add_gif(&mut a, key(4), "https://example.org/cat.gif".to_string()), Ok(()));
    assert_eq!(a.total_gifs, 4);
    assert_eq!(users(&a), vec![2, 4]);
    assert_eq!(a.gif_list[1].ammount, "https://example.org/cat.gif");
}

#[test]
fn remove_gif_removes_a_last_item_of_the_user() {
    let mut a = account(2, 1, &[2, 3]);
    let who = text_of(&key(3));
    assert_eq!(remove_gif(&mut a, who), Ok(()));
    assert_eq!(users(&a), vec![2]);
    assert_eq!(a.total_gifs, 1);
}

#[test]
fn remove_gif_without_match_changes_nothing() {
    let mut a = account(2, 1, &[2, 3]);
    assert_eq!(remove_gif(&mut a, text_of(&key(9))), Ok(()));
    assert_eq!(users(&a), vec![2, 3]);
    assert_eq!(a.total_gifs, 2);
}

#[test]
fn try_remove_gif_aborts_on_an_earlier_match() {
    let mut a = account(5, 1, &[3, 2]);
    assert_eq!(try_remove_gif(&mut a, text_of(&key(3))), Err(ProgramError::Aborted));
    assert_eq!(users(&a), vec![3, 2]);
    assert_eq!(a.total_gifs, 5);
}

#[test]
fn try_remove_gif_aborts_when_the_count_would_drop_below_zero() {
    let mut a = account(0, 1, &[2, 3]);
    assert_eq!(try_remove_gif(&mut a, text_of(&key(3))), Err(ProgramError::Aborted));
    assert_eq!(users(&a), vec![2, 3]);
}

#[test]
fn try_remove_gif_completes_like_remove_gif() {
    let mut a = account(4, 1, &[2, 3]);
    assert_eq!(try_remove_gif(&mut a, text_of(&key(3))), Ok(()));
    assert_eq!(users(&a), vec![2]);
    assert_eq!(a.total_gifs, 3);
}

#[test]
fn remove_after_add_restores_the_account() {
    let mut a = account(7, 1, &[2, 3]);
    add_gif(&mut a, key(4), "x".to_string()).unwrap();
    try_remove_gif(&mut a, text_of(&key(4))).unwrap();
    assert_eq!(users(&a), vec![2, 3]);
    assert_eq!(a.total_gifs, 7);
}

#[test]
fn token_calls_carry_the_amount() {
    assert_eq!(mint_token(12), TokenInstruction::MintTo { amount: 12 });
    assert_eq!(burn_token(13), TokenInstruction::Burn { amount: 13 });
}

#[test]
fn claim_by_owner_mints_the_total() {
    let mut a = account(30, 1, &[]);
    assert_eq!(claim_tokens(&mut a, key(1)), Some(TokenInstruction::MintTo { amount: 30 }));
    assert_eq!(a.total_gifs, 0);
    assert_eq!(claim_tokens(&mut a, key(1)), None);
}

#[test]
fn claim_by_someone_else_or_of_nothing_mints_nothing() {
    let mut a = account(30, 1, &[]);
    assert_eq!(claim_tokens(&mut a, key(2)), None);
    assert_eq!(a.total_gifs, 30);
    let mut b = account(0, 1, &[]);
    assert_eq!(claim_tokens(&mut b, key(1)), None);
}

#[test]
fn amounts_add_and_remove_with_a_floor_of_zero() {
    let mut a = account(10, 1, &[]);
    add_ammount(&mut a, 5).unwrap();
    assert_eq!(a.total_gifs, 15);
    remove_ammount(&mut a, 5).unwrap();
    assert_eq!(a.total_gifs, 10);
    remove_ammount(&mut a, 10).unwrap();
    assert_eq!(a.total_gifs, 0);
    add_ammount(&mut a, 3).unwrap();
    remove_ammount(&mut a, 100).unwrap();
    assert_eq!(a.total_gifs, 0);
}

#[test]
fn winners_by_tournament_size() {
    assert_eq!(winning_accounts(0), 10);
    assert_eq!(winning_accounts(1), 1);
    assert_eq!(winning_accounts(10), 1);
    assert_eq!(winning_accounts(11), 6);
    assert_eq!(winning_accounts(24), 6);
    assert_eq!(winning_accounts(25), 10);
}
