//! Instructions for the token metadata program, built with the instruction
//! builders of mpl_token_metadata, and the plain form in which the library
//! holds them: a program key, a list of account entries and data bytes.
use vstd::prelude::*;
use vstd::bytes::{spec_u16_to_le_bytes, spec_u32_to_le_bytes, spec_u64_to_le_bytes};
use vstd::utf8::encode_utf8;
use anchor_lang::prelude::Pubkey as SolanaPubkey;
use mpl_token_metadata::instruction::{create_master_edition_v3, create_metadata_accounts_v3};
use mpl_token_metadata::state::Creator as MplCreator;
use crate::keys::Pubkey;

verus! {

/// One account entry of an instruction.
#[derive(Clone, Copy, Debug)]
pub struct AccountMetaData {
    pub pubkey: Pubkey,
    pub is_signer: bool,
    pub is_writable: bool,
}

impl AccountMetaData {
    /// The entry for the key with bytes `key`.
    pub fn new(key: [u8; 32], is_signer: bool, is_writable: bool) -> (m: AccountMetaData)
        ensures
            m@ == meta(key@, is_signer, is_writable),
    {
        AccountMetaData { pubkey: Pubkey { bytes: key }, is_signer, is_writable }
    }
}

/// The model of an account entry: key bytes, signer flag, writable flag.
pub struct AccountMetaModel {
    pub key: Seq<u8>,
    pub is_signer: bool,
    pub is_writable: bool,
}

impl View for AccountMetaData {
    type V = AccountMetaModel;

    open spec fn view(&self) -> AccountMetaModel {
        AccountMetaModel { key: self.pubkey@, is_signer: self.is_signer, is_writable: self.is_writable }
    }
}

/// An instruction for another program: the program's key, the accounts it
/// is given and its data bytes.
pub struct InstructionData {
    pub program_id: Pubkey,
    pub accounts: Vec<AccountMetaData>,
    pub data: Vec<u8>,
}

/// The model of an instruction.
pub struct InstructionModel {
    pub program_id: Seq<u8>,
    pub accounts: Seq<AccountMetaModel>,
    pub data: Seq<u8>,
}

impl View for InstructionData {
    type V = InstructionModel;

    open spec fn view(&self) -> InstructionModel {
        InstructionModel {
            program_id: self.program_id@,
            accounts: self.accounts@.map_values(|a: AccountMetaData| a@),
            data: self.data@,
        }
    }
}

/// A creator of an asset: its key, whether it has signed off, and its
/// share in percent.
#[derive(Clone, Copy, Debug)]
pub struct Creator {
    pub address: Pubkey,
    pub verified: bool,
    pub share: u8,
}

/// The model of a creator.
pub struct CreatorModel {
    pub address: Seq<u8>,
    pub verified: bool,
    pub share: u8,
}

impl View for Creator {
    type V = CreatorModel;

    open spec fn view(&self) -> CreatorModel {
        CreatorModel { address: self.address@, verified: self.verified, share: self.share }
    }
}

/// The key of the system program: 32 zero bytes.
pub open spec fn system_program_id() -> Seq<u8> {
    Seq::new(32, |i: int| 0u8)
}

/// The key of the SPL token program,
/// `TokenkegQfeZyiNwAJbNbGKPFXCWuBvf9Ss623VQ5DA`.
pub open spec fn token_program_id() -> Seq<u8> {
    seq![
        6u8, 221u8, 246u8, 225u8, 215u8, 101u8, 161u8, 147u8, 217u8, 203u8, 225u8, 70u8, 206u8,
        235u8, 121u8, 172u8, 28u8, 180u8, 133u8, 237u8, 95u8, 91u8, 55u8, 145u8, 58u8, 140u8,
        245u8, 133u8, 126u8, 255u8, 0u8, 169u8,
    ]
}

/// An account entry.
pub open spec fn meta(key: Seq<u8>, is_signer: bool, is_writable: bool) -> AccountMetaModel {
    AccountMetaModel { key, is_signer, is_writable }
}

/// Borsh bytes of a `bool`.
pub open spec fn borsh_bool(b: bool) -> Seq<u8> {
    seq![if b { 1u8 } else { 0u8 }]
}

/// Borsh bytes of a string: its UTF-8 length as a little-endian `u32`, then
/// its UTF-8 bytes.
pub open spec fn borsh_string(s: Seq<char>) -> Seq<u8> {
    spec_u32_to_le_bytes(encode_utf8(s).len() as u32) + encode_utf8(s)
}

/// Borsh bytes of creators, one after another.
pub open spec fn creators_bytes(cs: Seq<CreatorModel>) -> Seq<u8>
    decreases cs.len(),
{
    if cs.len() == 0 {
        Seq::empty()
    } else {
        cs[0].address + borsh_bool(cs[0].verified) + seq![cs[0].share] + creators_bytes(cs.drop_first())
    }
}

/// Borsh bytes of an optional list of creators.
pub open spec fn borsh_creators(cs: Option<Seq<CreatorModel>>) -> Seq<u8> {
    match cs {
        None => seq![0u8],
        Some(v) => seq![1u8] + spec_u32_to_le_bytes(v.len() as u32) + creators_bytes(v),
    }
}

/// The data of a `CreateMetadataAccountV3` instruction (variant 33 of the
/// metadata program's instructions) with no collection, no uses and no
/// collection details.
pub open spec fn metadata_v3_data(
    name: Seq<char>,
    symbol: Seq<char>,
    uri: Seq<char>,
    creators: Option<Seq<CreatorModel>>,
    seller_fee_basis_points: u16,
    is_mutable: bool,
) -> Seq<u8> {
    seq![33u8] + borsh_string(name) + borsh_string(symbol) + borsh_string(uri) + spec_u16_to_le_bytes(
        seller_fee_basis_points,
    ) + borsh_creators(creators) + seq![0u8, 0u8] + borsh_bool(is_mutable) + seq![0u8]
}

/// The `CreateMetadataAccountV3` instruction that creates the metadata
/// account of a mint.
pub open spec fn metadata_v3_instruction(
    program_id: Seq<u8>,
    metadata_account: Seq<u8>,
    mint: Seq<u8>,
    mint_authority: Seq<u8>,
    payer: Seq<u8>,
    update_authority: Seq<u8>,
    name: Seq<char>,
    symbol: Seq<char>,
    uri: Seq<char>,
    creators: Option<Seq<CreatorModel>>,
    seller_fee_basis_points: u16,
    update_authority_is_signer: bool,
    is_mutable: bool,
) -> InstructionModel {
    InstructionModel {
        program_id,
        accounts: seq![
            meta(metadata_account, false, true),
            meta(mint, false, false),
            meta(mint_authority, true, false),
            meta(payer, true, true),
            meta(update_authority, update_authority_is_signer, false),
            meta(system_program_id(), false, false),
        ],
        data: metadata_v3_data(name, symbol, uri, creators, seller_fee_basis_points, is_mutable),
    }
}

/// The data of a `CreateMasterEditionV3` instruction (variant 17).
pub open spec fn master_edition_v3_data(max_supply: Option<u64>) -> Seq<u8> {
    seq![17u8] + match max_supply {
        None => seq![0u8],
        Some(n) => seq![1u8] + spec_u64_to_le_bytes(n),
    }
}

/// The `CreateMasterEditionV3` instruction that makes a mint's metadata a
/// master edition.
pub open spec fn master_edition_v3_instruction(
    program_id: Seq<u8>,
    edition: Seq<u8>,
    mint: Seq<u8>,
    update_authority: Seq<u8>,
    mint_authority: Seq<u8>,
    metadata: Seq<u8>,
    payer: Seq<u8>,
    max_supply: Option<u64>,
) -> InstructionModel {
    InstructionModel {
        program_id,
        accounts: seq![
            meta(edition, false, true),
            meta(mint, false, true),
            meta(update_authority, true, false),
            meta(mint_authority, true, false),
            meta(payer, true, true),
            meta(metadata, false, true),
            meta(token_program_id(), false, false),
            meta(system_program_id(), false, false),
        ],
        data: master_edition_v3_data(max_supply),
    }
}

/// Builds the instruction with `create_metadata_accounts_v3` of
/// mpl_token_metadata, passing no collection, no uses and no collection
/// details. Claims what the builder's source shows: the six account entries
/// in its order and the Borsh bytes of its arguments. Borsh refuses, and
/// the builder panics on, strings or lists longer than a `u32` counts;
/// those are left out.
#[verifier::external_body]
pub(crate) fn metadata_accounts_v3(
    program_id: &Pubkey,
    metadata_account: &Pubkey,
    mint: &Pubkey,
    mint_authority: &Pubkey,
    payer: &Pubkey,
    update_authority: &Pubkey,
    name: String,
    symbol: String,
    uri: String,
    creators: Option<Vec<Creator>>,
    seller_fee_basis_points: u16,
    update_authority_is_signer: bool,
    is_mutable: bool,
) -> (ix: InstructionData)
    requires
        encode_utf8(name@).len() <= u32::MAX,
        encode_utf8(symbol@).len() <= u32::MAX,
        encode_utf8(uri@).len() <= u32::MAX,
        creators matches Some(cs) ==> cs@.len() <= u32::MAX,
    ensures
        ix@ == metadata_v3_instruction(
            program_id@,
            metadata_account@,
            mint@,
            mint_authority@,
            payer@,
            update_authority@,
            name@,
            symbol@,
            uri@,
            match creators {
                None => None,
                Some(cs) => Some(cs@.map_values(|c: Creator| c@)),
            },
            seller_fee_basis_points,
            update_authority_is_signer,
            is_mutable,
        ),
{
    let k = |p: &Pubkey| SolanaPubkey::new_from_array(p.bytes);
    let cs = creators.map(|v| v.iter().map(|c| MplCreator { address: k(&c.address), verified: c.verified, share: c.share }).collect());
    let ix = create_metadata_accounts_v3(k(program_id), k(metadata_account), k(mint), k(mint_authority), k(payer), k(update_authority), name, symbol, uri, cs, seller_fee_basis_points, update_authority_is_signer, is_mutable, None, None, None);
    let accounts = ix.accounts.iter().map(|a| AccountMetaData::new(a.pubkey.to_bytes(), a.is_signer, a.is_writable)).collect();
    InstructionData { program_id: Pubkey { bytes: ix.program_id.to_bytes() }, accounts, data: ix.data }
}

/// Builds the instruction with `create_master_edition_v3` of
/// mpl_token_metadata. Claims what the builder's source shows: the eight
/// account entries in its order and the Borsh bytes of its argument.
#[verifier::external_body]
pub(crate) fn master_edition_v3(
    program_id: &Pubkey,
    edition: &Pubkey,
    mint: &Pubkey,
    update_authority: &Pubkey,
    mint_authority: &Pubkey,
    metadata: &Pubkey,
    payer: &Pubkey,
    max_supply: Option<u64>,
) -> (ix: InstructionData)
    ensures
        ix@ == master_edition_v3_instruction(
            program_id@,
            edition@,
            mint@,
            update_authority@,
            mint_authority@,
            metadata@,
            payer@,
            max_supply,
        ),
{
    let k = |p: &Pubkey| SolanaPubkey::new_from_array(p.bytes);
    let ix = create_master_edition_v3(k(program_id), k(edition), k(mint), k(update_authority), k(mint_authority), k(metadata), k(payer), max_supply);
    let accounts = ix.accounts.iter().map(|a| AccountMetaData::new(a.pubkey.to_bytes(), a.is_signer, a.is_writable)).collect();
    InstructionData { program_id: Pubkey { bytes: ix.program_id.to_bytes() }, accounts, data: ix.data }
}

} // verus!
