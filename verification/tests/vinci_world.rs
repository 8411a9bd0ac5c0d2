use vinci_portal::gifportal::ItemStruct;
use vinci_portal::keys::{admin_key, Pubkey, SignerInfo};
use vinci_portal::model::ProgramError;
use vinci_portal::token::TokenInstruction;
use vinci_portal::vinci_world::{
    add_ammount, add_gif, add_tournament_participant, claim_tokens, remove_ammount, remove_gif,
    start_stuff_off, start_tournament, try_remove_gif, BaseAccount, Tournament,
};

fn key(b: u8) -> Pubkey {
    Pubkey::new_from_array([b; 32])
}

fn text_of(k: &Pubkey) -> String {
    anchor_lang::prelude::Pubkey::new_from_array(k.to_bytes()).to_string()
}

fn vinci_account(total: u64, owner: u8) -> BaseAccount {
    BaseAccount { total_amount: total, owner: key(owner), gif_list: Vec::new() }
}

#[test]
fn vinci_start_stuff_off_resets() {
    let mut a = vinci_account(8, 1);
    assert_eq!(start_stuff_off(&mut a), Ok(()));
    assert_eq!(a.total_amount, 0);
    assert!(a.owner == admin_key().unwrap());
}

#[test]
fn vinci_posts_and_removes() {
    let mut a = vinci_account(0, 1);
    add_gif(&mut a, key(2), "a".to_string()).unwrap();
    add_gif(&mut a, key(3), "b".to_string()).unwrap();
    assert_eq!(a.total_amount, 2);
    assert_eq!(remove_gif(&mut a, text_of(&key(3))), Ok(()));
    assert_eq!(a.gif_list.len(), 1);
    assert_eq!(a.total_amount, 1);
    a.gif_list.push(ItemStruct { ammount: "c".to_string(), user_address: key(4) });
    assert_eq!(try_remove_gif(&mut a, text_of(&key(2))), Err(ProgramError::Aborted));
    assert_eq!(a.gif_list.len(), 2);
}

#[test]
fn vinci_amounts_and_claims() {
    let mut a = vinci_account(4, 1);
    add_ammount(&mut a, 6).unwrap();
    remove_ammount(&mut a, 3).unwrap();
    assert_eq!(a.total_amount, 7);
    assert_eq!(claim_tokens(&mut a, key(2)), None);
    assert_eq!(claim_tokens(&mut a, key(1)), Some(TokenInstruction::MintTo { amount: 7 }));
    assert_eq!(a.total_amount, 0);
}

#[test]
fn start_tournament_empties_the_list() {
    let mut t = Tournament { tournament_list: vec![key(5)], owner: key(1) };
    assert_eq!(start_tournament(&mut t), Ok(()));
    assert!(t.tournament_list.is_empty());
    assert!(t.owner == admin_key().unwrap());
}

#[test]
fn only_the_signing_owner_enrols() {
    let mut t = Tournament { tournament_list: Vec::new(), owner: key(1) };
    let owner = SignerInfo { key: key(1), is_signer: true };
    let stranger = SignerInfo { key: key(2), is_signer: true };
    let unsigned = SignerInfo { key: key(1), is_signer: false };
    assert_eq!(add_tournament_participant(&mut t, &stranger, key(7)), Ok(()));
    assert_eq!(add_tournament_participant(&mut t, &unsigned, key(7)), Ok(()));
    assert!(t.tournament_list.is_empty());
    assert_eq!(add_tournament_participant(&mut t, &owner, key(7)), Ok(()));
    assert_eq!(add_tournament_participant(&mut t, &owner, key(8)), Ok(()));
    assert_eq!(t.tournament_list.len(), 2);
    assert!(t.tournament_list[0] == key(7));
    assert!(t.tournament_list[1] == key(8));
}
