//! The GIF portal program: a base account that collects posted links and
//! a token balance, and the decision each instruction makes on it.
use vstd::prelude::*;
use crate::keys::{admin_key, base58_key, base58_text, pubkey_text, Pubkey, SignerInfo, ADMIN_KEY};
use crate::layout::{
    decode_base_account, encode_account, lemma_decode_encode_account, lemma_encode_decode_account,
    lemma_parsed_fields,
    parse_account, write_base_account,
};
use crate::model::{
    can_claim, claim, lemma_owner_claims_total, lemma_removal_drops_last_match,
    lemma_removal_without_matches, lemma_reset_fields, credit, debit_saturating, pay_account, post_item, posted_by,
    removal_completes, removal_result, reset_account, tournament_pays, winners_for, AccountModel,
    ItemModel, ProgramError,
};
use crate::metadata::{
    master_edition_v3, master_edition_v3_instruction, metadata_accounts_v3, metadata_v3_instruction,
    Creator, CreatorModel, InstructionData,
};
use crate::token::TokenInstruction;
use vstd::slice::slice_to_vec;

verus! {

/// A posted item: the text that was posted and the key of its poster.
pub struct ItemStruct {
    pub ammount: String,
    pub user_address: Pubkey,
}

impl View for ItemStruct {
    type V = ItemModel;

    open spec fn view(&self) -> ItemModel {
        ItemModel { text: self.ammount@, user: self.user_address@ }
    }
}

/// The models of a list of items.
pub open spec fn items_model(items: Seq<ItemStruct>) -> Seq<ItemModel> {
    items.map_values(|it: ItemStruct| it@)
}

/// The base account of the portal.
pub struct BaseAccount {
    pub total_gifs: u64,
    pub owner: Pubkey,
    pub gif_list: Vec<ItemStruct>,
}

impl View for BaseAccount {
    type V = AccountModel;

    open spec fn view(&self) -> AccountModel {
        AccountModel {
            total: self.total_gifs,
            owner: self.owner@,
            items: items_model(self.gif_list@),
        }
    }
}

/// Initialises the account for `owner`: zero total, items kept.
pub fn reset_base_account(base_account: &mut BaseAccount, owner: Pubkey)
    ensures
        final(base_account)@ == reset_account(old(base_account)@, owner@),
{
    base_account.total_gifs = 0;
    base_account.owner = owner;
}

/// Initialises the account for the administrator key. Fails, leaving the
/// account as it was, only where the administrator key text does not parse.
pub fn start_stuff_off(base_account: &mut BaseAccount) -> (r: Result<(), ProgramError>)
    ensures
        match base58_key(ADMIN_KEY@) {
            Some(k) => r is Ok && final(base_account)@ == reset_account(old(base_account)@, k),
            None => r == Err::<(), ProgramError>(ProgramError::InvalidOwnerKey)
                && final(base_account)@ == old(base_account)@,
        },
        r is Ok ==> final(base_account).total_gifs == 0 && base58_key(ADMIN_KEY@) == Some(
            final(base_account).owner@,
        ) && final(base_account)@.items == old(base_account)@.items,
{
    proof {
        lemma_reset_fields(base_account@, base_account@.owner);
    }
    match admin_key() {
        Some(k) => {
            reset_base_account(base_account, k);
            Ok(())
        },
        None => Err(ProgramError::InvalidOwnerKey),
    }
}

/// Posts `gif_link` for `user`: the item goes at the end of the list and
/// the total grows by one.
pub fn add_gif(base_account: &mut BaseAccount, user: Pubkey, gif_link: String) -> (r: Result<(), ProgramError>)
    requires
        old(base_account).total_gifs < u64::MAX,
    ensures
        r is Ok,
        final(base_account)@ == post_item(old(base_account)@, user@, gif_link@),
        final(base_account).gif_list@.len() == old(base_account).gif_list@.len() + 1,
        final(base_account).gif_list@.last().ammount@ == gif_link@,
        final(base_account).gif_list@.last().user_address@ == user@,
        final(base_account).total_gifs == old(base_account).total_gifs + 1,
{
    let ghost before = base_account.gif_list@;
    let item = ItemStruct { ammount: gif_link, user_address: user };
    base_account.gif_list.push(item);
    base_account.total_gifs = base_account.total_gifs + 1;
    assert(items_model(base_account.gif_list@) =~= items_model(before).push(
        ItemModel { text: gif_link@, user: user@ },
    ));
    Ok(())
}

/// Removes the items posted by the user whose key has the base58 text
/// `user_address`, walking the positions of the list as it was while the
/// list shrinks. That walk runs to its end only where no item but the last
/// is the user's; it then removes that last item if it is the user's.
pub fn remove_gif(base_account: &mut BaseAccount, user_address: String) -> (r: Result<(), ProgramError>)
    requires
        removal_completes(old(base_account)@, user_address@),
    ensures
        r is Ok,
        final(base_account)@ == removal_result(old(base_account)@, user_address@),
        old(base_account)@.items.len() > 0 && base58_text(old(base_account)@.items.last().user)
            == user_address@ ==> final(base_account)@.items == old(base_account)@.items.drop_last()
            && final(base_account).total_gifs == old(base_account).total_gifs - 1,
        !(old(base_account)@.items.len() > 0 && base58_text(old(base_account)@.items.last().user)
            == user_address@) ==> final(base_account)@ == old(base_account)@,
        final(base_account).owner@ == old(base_account).owner@,
{
    proof {
        lemma_removal_drops_last_match(base_account@, user_address@);
    }
    let ghost start = base_account@;
    let len = base_account.gif_list.len();
    let mut n: usize = 0;
    while n < len
        invariant
            n <= len,
            len == start.items.len(),
            removal_completes(start, user_address@),
            n < len ==> base_account@ == start,
            n == len ==> base_account@ == removal_result(start, user_address@),
        decreases len - n,
    {
        assert(base_account.gif_list@[n as int]@ == start.items[n as int]);
        let text = pubkey_text(&base_account.gif_list[n].user_address);
        if user_address == text {
            assert(posted_by(start.items[n as int], user_address@));
            assert(n + 1 == len);
            let ghost before = base_account.gif_list@;
            base_account.total_gifs = base_account.total_gifs - 1;
            base_account.gif_list.remove(n);
            assert(items_model(base_account.gif_list@) =~= start.items.drop_last());
        } else {
            assert(n + 1 == len ==> !posted_by(start.items.last(), user_address@));
        }
        n = n + 1;
    }
    Ok(())
}

/// Removes the items of `user_address` where the removal runs to its end,
/// as `remove_gif` does; elsewhere the program aborts, and the account
/// stays as it was.
pub fn try_remove_gif(base_account: &mut BaseAccount, user_address: String) -> (r: Result<(), ProgramError>)
    ensures
        removal_completes(old(base_account)@, user_address@) ==> r is Ok && final(base_account)@
            == removal_result(old(base_account)@, user_address@),
        !removal_completes(old(base_account)@, user_address@) ==> r == Err::<(), ProgramError>(
            ProgramError::Aborted,
        ) && final(base_account)@ == old(base_account)@,
        (forall|i: int|
            0 <= i < old(base_account).gif_list@.len() ==> base58_text(
                #[trigger] old(base_account).gif_list@[i].user_address@,
            ) != user_address@) ==> r is Ok && final(base_account)@ == old(base_account)@,
{
    proof {
        if forall|i: int|
            0 <= i < base_account.gif_list@.len() ==> base58_text(
                #[trigger] base_account.gif_list@[i].user_address@,
            ) != user_address@ {
            assert forall|i: int| 0 <= i < base_account@.items.len() implies base58_text(
                #[trigger] base_account@.items[i].user,
            ) != user_address@ by {
                assert(base_account@.items[i] == base_account.gif_list@[i]@);
            }
            lemma_removal_without_matches(base_account@, user_address@);
        }
    }
    let len = base_account.gif_list.len();
    let mut i: usize = 0;
    while i < len
        invariant
            i <= len,
            len == base_account@.items.len(),
            forall|j: int|
                0 <= j < i && posted_by(#[trigger] base_account@.items[j], user_address@) ==> j == len - 1
                    && base_account.total_gifs > 0,
        decreases len - i,
    {
        assert(base_account.gif_list@[i as int]@ == base_account@.items[i as int]);
        let text = pubkey_text(&base_account.gif_list[i].user_address);
        if user_address == text {
            if i + 1 < len {
                assert(!removal_completes(base_account@, user_address@));
                return Err(ProgramError::Aborted);
            }
            if base_account.total_gifs == 0 {
                assert(!removal_completes(base_account@, user_address@));
                return Err(ProgramError::Aborted);
            }
        }
        i = i + 1;
    }
    assert(len > 0 ==> base_account@.items.last() == base_account@.items[len - 1]);
    remove_gif(base_account, user_address)
}

/// The call that mints `ammount` tokens.
pub fn mint_token(ammount: u64) -> (r: TokenInstruction)
    ensures
        r == (TokenInstruction::MintTo { amount: ammount }),
{
    TokenInstruction::MintTo { amount: ammount }
}

/// The call that burns `ammount` tokens.
pub fn burn_token(ammount: u64) -> (r: TokenInstruction)
    ensures
        r == (TokenInstruction::Burn { amount: ammount }),
{
    TokenInstruction::Burn { amount: ammount }
}

/// Lets the owner claim the account's total: where `payer` owns the account
/// and the total is not zero, the total is minted to it and drops to zero.
/// Returns the mint to make, if any.
pub fn claim_tokens(base_account: &mut BaseAccount, payer: Pubkey) -> (r: Option<TokenInstruction>)
    ensures
        final(base_account)@ == claim(old(base_account)@, payer@),
        r == (if can_claim(old(base_account)@, payer@) {
            Some(TokenInstruction::MintTo { amount: old(base_account)@.total })
        } else {
            None
        }),
        old(base_account).owner@ == payer@ && old(base_account).total_gifs != 0 ==> r == Some(
            TokenInstruction::MintTo { amount: old(base_account).total_gifs },
        ) && final(base_account).total_gifs == 0,
        !(old(base_account).owner@ == payer@ && old(base_account).total_gifs != 0) ==> r is None
            && final(base_account)@ == old(base_account)@,
{
    proof {
        lemma_owner_claims_total(base_account@, payer@);
    }
    if base_account.owner == payer && base_account.total_gifs != 0 {
        let amount = base_account.total_gifs;
        base_account.total_gifs = 0;
        Some(TokenInstruction::MintTo { amount })
    } else {
        None
    }
}

/// Adds `ammount` to the total.
pub fn add_ammount(base_account: &mut BaseAccount, ammount: u64) -> (r: Result<(), ProgramError>)
    requires
        old(base_account).total_gifs + ammount <= u64::MAX,
    ensures
        r is Ok,
        final(base_account)@ == credit(old(base_account)@, ammount),
        final(base_account).total_gifs == old(base_account).total_gifs + ammount,
{
    base_account.total_gifs = base_account.total_gifs + ammount;
    Ok(())
}

/// Takes `ammount` from the total, stopping at zero.
pub fn remove_ammount(base_account: &mut BaseAccount, ammount: u64) -> (r: Result<(), ProgramError>)
    ensures
        r is Ok,
        final(base_account)@ == debit_saturating(old(base_account)@, ammount),
        final(base_account).total_gifs == if ammount < old(base_account).total_gifs {
            old(base_account).total_gifs - ammount
        } else {
            0
        },
{
    if ammount < base_account.total_gifs {
        base_account.total_gifs = base_account.total_gifs - ammount;
    } else {
        base_account.total_gifs = 0;
    }
    Ok(())
}

/// How many accounts a tournament with `total_accounts` accounts pays.
pub fn winning_accounts(total_accounts: usize) -> (w: usize)
    ensures
        w == winners_for(total_accounts as int),
{
    if total_accounts >= 1 && total_accounts <= 10 {
        1
    } else if total_accounts > 10 && total_accounts <= 24 {
        6
    } else {
        10
    }
}

/// Pays a tournament prize of `ammount` into the base account stored in the
/// one remaining account: the stored bytes are read, the total grows by
/// `ammount` where `user` signed and owns the account, and the account is
/// written back over the front of its bytes. The program aborts on any
/// other number of accounts and on bytes that do not read as a base
/// account, so those inputs are left out.
pub fn pay_tournament(user: &SignerInfo, remaining_accounts: &mut Vec<Vec<u8>>, ammount: u64) -> (r: Result<(), ProgramError>)
    requires
        old(remaining_accounts)@.len() == 1,
        parse_account(old(remaining_accounts)@[0]@) is Ok,
        tournament_pays(parse_account(old(remaining_accounts)@[0]@).unwrap(), user.key@, user.is_signer)
            ==> parse_account(old(remaining_accounts)@[0]@).unwrap().total + ammount <= u64::MAX,
    ensures
        r is Ok,
        final(remaining_accounts)@.len() == 1,
        ({
            let before = old(remaining_accounts)@[0]@;
            let after = final(remaining_accounts)@[0]@;
            let m = pay_account(parse_account(before).unwrap(), user.key@, user.is_signer, ammount);
            &&& after == encode_account(m) + before.skip(encode_account(m).len() as int)
            &&& parse_account(after) == Ok::<AccountModel, ProgramError>(m)
            &&& !tournament_pays(parse_account(before).unwrap(), user.key@, user.is_signer) ==> after == before
        }),
        user.is_signer && user.key@ == old(remaining_accounts)@[0]@.subrange(16, 48) ==> parse_account(
            final(remaining_accounts)@[0]@,
        ).unwrap().total == parse_account(old(remaining_accounts)@[0]@).unwrap().total + ammount,
        !(user.is_signer && user.key@ == old(remaining_accounts)@[0]@.subrange(16, 48))
            ==> final(remaining_accounts)@[0]@ == old(remaining_accounts)@[0]@,
{
    proof {
        lemma_parsed_fields(old(remaining_accounts)@[0]@);
    }
    let ghost before = remaining_accounts@[0]@;
    let ghost m0 = parse_account(before).unwrap();
    let total_accounts = remaining_accounts.len();
    let win_accounts = winning_accounts(total_accounts);
    let mut awarded_accounts: usize = 0;
    let mut i: usize = 0;
    while i < total_accounts
        invariant
            total_accounts == 1,
            win_accounts == 1,
            i <= 1,
            remaining_accounts@.len() == 1,
            i == 0 ==> awarded_accounts == 0 && remaining_accounts@[0]@ == before,
            before == old(remaining_accounts)@[0]@,
            m0 == parse_account(before).unwrap(),
            parse_account(before) is Ok,
            tournament_pays(m0, user.key@, user.is_signer) ==> m0.total + ammount <= u64::MAX,
            i == 1 ==> ({
                let m = pay_account(m0, user.key@, user.is_signer, ammount);
                &&& remaining_accounts@[0]@ == encode_account(m) + before.skip(encode_account(m).len() as int)
                &&& parse_account(remaining_accounts@[0]@) == Ok::<AccountModel, ProgramError>(m)
                &&& !tournament_pays(m0, user.key@, user.is_signer) ==> remaining_accounts@[0]@ == before
            }),
        decreases total_accounts - i,
    {
        let mut data = slice_to_vec(remaining_accounts[i].as_slice());
        let (mut total, owner, items) = match decode_base_account(data.as_slice()) {
            Ok(fields) => fields,
            Err(e) => return Err(e),
        };
        if user.is_signer && user.key == owner {
            if awarded_accounts != win_accounts {
                total = total + ammount;
                awarded_accounts = awarded_accounts + 1;
            }
        }
        let ghost m = AccountModel { total, owner: owner@, items: items_model(items@) };
        proof {
            lemma_encode_decode_account(before);
            vstd::bytes::lemma_auto_spec_u64_to_from_le_bytes();
            assert(m == pay_account(m0, user.key@, user.is_signer, ammount));
            assert(encode_account(m).len() == encode_account(m0).len());
            lemma_decode_encode_account(m, before.skip(encode_account(m).len() as int));
        }
        match write_base_account(&mut data, total, &owner, &items) {
            Ok(()) => {},
            Err(e) => return Err(e),
        }
        remaining_accounts[i] = data;
        i = i + 1;
    }
    Ok(())
}

/// The accounts that minting an NFT names.
#[derive(Clone, Copy, Debug)]
pub struct MintNftAccounts {
    pub mint_authority: Pubkey,
    pub mint: Pubkey,
    pub metadata: Pubkey,
    pub token_metadata_program: Pubkey,
    pub payer: Pubkey,
    pub master_edition: Pubkey,
}

/// The three calls that mint an NFT, in order: mint one token, create its
/// metadata account, make it a master edition.
pub struct NftMint {
    pub mint: TokenInstruction,
    pub metadata: InstructionData,
    pub master_edition: InstructionData,
}

/// The symbol that every minted NFT carries.
pub open spec fn nft_symbol() -> Seq<char> {
    seq!['V', 'I', 'N', 'C', 'I']
}

/// Plans the minting of an NFT titled `title` with metadata at `uri`: one
/// token is minted; the metadata names `creator_key` (unverified, all of
/// the share) and the mint authority (unverified, no share), the symbol
/// `VINCI`, a 5% seller fee, the payer as update authority, which signs,
/// and cannot be changed later; the master edition allows no prints.
pub fn mint_nft(accounts: &MintNftAccounts, creator_key: Pubkey, uri: String, title: String) -> (r: NftMint)
    requires
        vstd::utf8::encode_utf8(uri@).len() <= u32::MAX,
        vstd::utf8::encode_utf8(title@).len() <= u32::MAX,
    ensures
        r.mint == (TokenInstruction::MintTo { amount: 1 }),
        r.metadata@ == metadata_v3_instruction(
            accounts.token_metadata_program@,
            accounts.metadata@,
            accounts.mint@,
            accounts.mint_authority@,
            accounts.payer@,
            accounts.payer@,
            title@,
            nft_symbol(),
            uri@,
            Some(
                seq![
                    CreatorModel { address: creator_key@, verified: false, share: 100 },
                    CreatorModel { address: accounts.mint_authority@, verified: false, share: 0 },
                ],
            ),
            500,
            true,
            false,
        ),
        r.master_edition@ == master_edition_v3_instruction(
            accounts.token_metadata_program@,
            accounts.master_edition@,
            accounts.mint@,
            accounts.payer@,
            accounts.mint_authority@,
            accounts.metadata@,
            accounts.payer@,
            Some(0),
        ),
{
    let mint = mint_token(1);
    let mut creator: Vec<Creator> = Vec::new();
    creator.push(Creator { address: creator_key, verified: false, share: 100 });
    creator.push(Creator { address: accounts.mint_authority, verified: false, share: 0 });
    let symbol = "VINCI".to_string();
    proof {
        reveal_strlit("VINCI");
    }
    assert(symbol@ =~= nft_symbol());
    assert(vstd::utf8::is_ascii_chars(symbol@));
    proof {
        vstd::utf8::is_ascii_chars_encode_utf8(symbol@);
    }
    let ghost creators = creator@.map_values(|c: Creator| c@);
    assert(creators =~= seq![
        CreatorModel { address: creator_key@, verified: false, share: 100 },
        CreatorModel { address: accounts.mint_authority@, verified: false, share: 0 },
    ]);
    let metadata = metadata_accounts_v3(
        &accounts.token_metadata_program,
        &accounts.metadata,
        &accounts.mint,
        &accounts.mint_authority,
        &accounts.payer,
        &accounts.payer,
        title,
        symbol,
        uri,
        Some(creator),
        500,
        true,
        false,
    );
    let master_edition = master_edition_v3(
        &accounts.token_metadata_program,
        &accounts.master_edition,
        &accounts.mint,
        &accounts.payer,
        &accounts.mint_authority,
        &accounts.metadata,
        &accounts.payer,
        Some(0),
    );
    NftMint { mint, metadata, master_edition }
}

} // verus!
