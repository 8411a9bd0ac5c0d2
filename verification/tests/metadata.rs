use vinci_portal::gifportal::{mint_nft, MintNftAccounts};
use vinci_portal::keys::Pubkey;
use vinci_portal::token::TokenInstruction;

fn key(b: u8) -> Pubkey {
    Pubkey::new_from_array([b; 32])
}

fn accounts() -> MintNftAccounts {
    MintNftAccounts {
        mint_authority: key(1),
        mint: key(2),
        metadata: key(3),
        token_metadata_program: key(4),
        payer: key(5),
        master_edition: key(6),
    }
}

fn borsh_string(s: &str, out: &mut Vec<u8>) {
    out.extend_from_slice(&(s.len() as u32).to_le_bytes());
    out.extend_from_slice(s.as_bytes());
}

#[test]
fn mint_nft_mints_one_token() {
    let plan = mint_nft(&accounts(), key(9), "https://x/1.json".to_string(), "Art".to_string());
    assert_eq!(plan.mint, TokenInstruction::MintTo { amount: 1 });
}

#[test]
fn metadata_instruction_accounts_and_data() {
    let plan = mint_nft(&accounts(), key(9), "https://x/1.json".to_string(), "Art".to_string());
    let ix = plan.metadata;
    assert!(ix.program_id == key(4));
    let metas: Vec<(u8, bool, bool)> =
        ix.accounts.iter().map(|a| (a.pubkey.to_bytes()[0], a.is_signer, a.is_writable)).collect();
    assert_eq!(metas, vec![(3, false, true), (2, false, false), (1, true, false), (5, true, true), (5, true, false), (0, false, false)]);
    assert_eq!(ix.accounts[5].pubkey.to_bytes(), [0u8; 32]);
    let mut expected = vec![33u8];
    borsh_string("Art", &mut expected);
    borsh_string("VINCI", &mut expected);
    borsh_string("https://x/1.json", &mut expected);
    expected.extend_from_slice(&500u16.to_le_bytes());
    expected.push(1);
    expected.extend_from_slice(&2u32.to_le_bytes());
    expected.extend_from_slice(&[9u8; 32]);
    expected.extend_from_slice(&[0, 100]);
    expected.extend_from_slice(&[1u8; 32]);
    expected.extend_from_slice(&[0, 0]);
    expected.extend_from_slice(&[0, 0, 0, 0]);
    assert_eq!(ix.data, expected);
}

#[test]
fn master_edition_instruction_accounts_and_data() {
    let plan = mint_nft(&accounts(), key(9), "u".to_string(), "t".to_string());
    let ix = plan.master_edition;
    assert!(ix.program_id == key(4));
    let metas: Vec<(u8, bool, bool)> =
        ix.accounts.iter().map(|a| (a.pubkey.to_bytes()[0], a.is_signer, a.is_writable)).collect();
    assert_eq!(
        metas,
        vec![(6, false, true), (2, false, true), (5, true, false), (1, true, false), (5, true, true), (3, false, true), (6, false, false), (0, false, false)]
    );
    let token_program: Vec<u8> = anchor_spl::token::ID.to_bytes().to_vec();
    assert_eq!(ix.accounts[6].pubkey.to_bytes().to_vec(), token_program);
    let mut expected = vec![17u8, 1];
    expected.extend_from_slice(&0u64.to_le_bytes());
    assert_eq!(ix.data, expected);
}
