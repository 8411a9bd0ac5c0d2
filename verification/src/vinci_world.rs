//! The Vinci World program: the base account of the GIF portal with its
//! total kept as an amount, and a tournament account that lists its
//! participants.
use vstd::prelude::*;
use crate::gifportal::{items_model, ItemStruct};
use crate::keys::{admin_key, base58_key, base58_text, pubkey_text, Pubkey, SignerInfo, ADMIN_KEY};
use crate::model::{
    can_claim, claim, lemma_owner_claims_total, lemma_removal_drops_last_match,
    lemma_removal_without_matches, lemma_reset_fields, credit, debit_saturating, post_item, posted_by, removal_completes,
    removal_result, reset_account, AccountModel, ItemModel, ProgramError,
};
use crate::token::TokenInstruction;

pub use crate::gifportal::{
    burn_token, mint_nft, mint_token, pay_tournament, winning_accounts, MintNftAccounts, NftMint,
};

verus! {

/// The base account of Vinci World.
pub struct BaseAccount {
    pub total_amount: u64,
    pub owner: Pubkey,
    pub gif_list: Vec<ItemStruct>,
}

impl View for BaseAccount {
    type V = AccountModel;

    open spec fn view(&self) -> AccountModel {
        AccountModel {
            total: self.total_amount,
            owner: self.owner@,
            items: items_model(self.gif_list@),
        }
    }
}

/// Initialises the account for `owner`: zero total, items kept.
pub fn reset_base_account(base_account: &mut BaseAccount, owner: Pubkey)
    ensures
        final(base_account)@ == reset_account(old(base_account)@, owner@),
{
    base_account.total_amount = 0;
    base_account.owner = owner;
}

/// Initialises the account for the administrator key. Fails, leaving the
/// account as it was, only where the administrator key text does not parse.
pub fn start_stuff_off(base_account: &mut BaseAccount) -> (r: Result<(), ProgramError>)
    ensures
        match base58_key(ADMIN_KEY@) {
            Some(k) => r is Ok && final(base_account)@ == reset_account(old(base_account)@, k),
            None => r == Err::<(), ProgramError>(ProgramError::InvalidOwnerKey)
                && final(base_account)@ == old(base_account)@,
        },
        r is Ok ==> final(base_account).total_amount == 0 && base58_key(ADMIN_KEY@) == Some(
            final(base_account).owner@,
        ) && final(base_account)@.items == old(base_account)@.items,
{
    proof {
        lemma_reset_fields(base_account@, base_account@.owner);
    }
    match admin_key() {
        Some(k) => {
            reset_base_account(base_account, k);
            Ok(())
        },
        None => Err(ProgramError::InvalidOwnerKey),
    }
}

/// Posts `gif_link` for `user`: the item goes at the end of the list and
/// the total grows by one.
pub fn add_gif(base_account: &mut BaseAccount, user: Pubkey, gif_link: String) -> (r: Result<(), ProgramError>)
    requires
        old(base_account).total_amount < u64::MAX,
    ensures
        r is Ok,
        final(base_account)@ == post_item(old(base_account)@, user@, gif_link@),
        final(base_account).gif_list@.len() == old(base_account).gif_list@.len() + 1,
        final(base_account).gif_list@.last().ammount@ == gif_link@,
        final(base_account).gif_list@.last().user_address@ == user@,
        final(base_account).total_amount == old(base_account).total_amount + 1,
{
    let ghost before = base_account.gif_list@;
    let item = ItemStruct { ammount: gif_link, user_address: user };
    base_account.gif_list.push(item);
    base_account.total_amount = base_account.total_amount + 1;
    assert(items_model(base_account.gif_list@) =~= items_model(before).push(
        ItemModel { text: gif_link@, user: user@ },
    ));
    Ok(())
}

/// Removes the items posted by the user whose key has the base58 text
/// `user_address`, walking the positions of the list as it was while the
/// list shrinks. That walk runs to its end only where no item but the last
/// is the user's; it then removes that last item if it is the user's.
pub fn remove_gif(base_account: &mut BaseAccount, user_address: String) -> (r: Result<(), ProgramError>)
    requires
        removal_completes(old(base_account)@, user_address@),
    ensures
        r is Ok,
        final(base_account)@ == removal_result(old(base_account)@, user_address@),
        old(base_account)@.items.len() > 0 && base58_text(old(base_account)@.items.last().user)
            == user_address@ ==> final(base_account)@.items == old(base_account)@.items.drop_last()
            && final(base_account).total_amount == old(base_account).total_amount - 1,
        !(old(base_account)@.items.len() > 0 && base58_text(old(base_account)@.items.last().user)
            == user_address@) ==> final(base_account)@ == old(base_account)@,
        final(base_account).owner@ == old(base_account).owner@,
{
    proof {
        lemma_removal_drops_last_match(base_account@, user_address@);
    }
    let ghost start = base_account@;
    let len = base_account.gif_list.len();
    let mut n: usize = 0;
    while n < len
        invariant
            n <= len,
            len == start.items.len(),
            removal_completes(start, user_address@),
            n < len ==> base_account@ == start,
            n == len ==> base_account@ == removal_result(start, user_address@),
        decreases len - n,
    {
        assert(base_account.gif_list@[n as int]@ == start.items[n as int]);
        let text = pubkey_text(&base_account.gif_list[n].user_address);
        if user_address == text {
            assert(posted_by(start.items[n as int], user_address@));
            assert(n + 1 == len);
            let ghost before = base_account.gif_list@;
            base_account.total_amount = base_account.total_amount - 1;
            base_account.gif_list.remove(n);
            assert(items_model(base_account.gif_list@) =~= start.items.drop_last());
        } else {
            assert(n + 1 == len ==> !posted_by(start.items.last(), user_address@));
        }
        n = n + 1;
    }
    Ok(())
}

/// Removes the items of `user_address` where the removal runs to its end,
/// as `remove_gif` does; elsewhere the program aborts, and the account
/// stays as it was.
pub fn try_remove_gif(base_account: &mut BaseAccount, user_address: String) -> (r: Result<(), ProgramError>)
    ensures
        removal_completes(old(base_account)@, user_address@) ==> r is Ok && final(base_account)@
            == removal_result(old(base_account)@, user_address@),
        !removal_completes(old(base_account)@, user_address@) ==> r == Err::<(), ProgramError>(
            ProgramError::Aborted,
        ) && final(base_account)@ == old(base_account)@,
        (forall|i: int|
            0 <= i < old(base_account).gif_list@.len() ==> base58_text(
                #[trigger] old(base_account).gif_list@[i].user_address@,
            ) != user_address@) ==> r is Ok && final(base_account)@ == old(base_account)@,
{
    proof {
        if forall|i: int|
            0 <= i < base_account.gif_list@.len() ==> base58_text(
                #[trigger] base_account.gif_list@[i].user_address@,
            ) != user_address@ {
            assert forall|i: int| 0 <= i < base_account@.items.len() implies base58_text(
                #[trigger] base_account@.items[i].user,
            ) != user_address@ by {
                assert(base_account@.items[i] == base_account.gif_list@[i]@);
            }
            lemma_removal_without_matches(base_account@, user_address@);
        }
    }
    let len = base_account.gif_list.len();
    let mut i: usize = 0;
    while i < len
        invariant
            i <= len,
            len == base_account@.items.len(),
            forall|j: int|
                0 <= j < i && posted_by(#[trigger] base_account@.items[j], user_address@) ==> j == len - 1
                    && base_account.total_amount > 0,
        decreases len - i,
    {
        assert(base_account.gif_list@[i as int]@ == base_account@.items[i as int]);
        let text = pubkey_text(&base_account.gif_list[i].user_address);
        if user_address == text {
            if i + 1 < len {
                assert(!removal_completes(base_account@, user_address@));
                return Err(ProgramError::Aborted);
            }
            if base_account.total_amount == 0 {
                assert(!removal_completes(base_account@, user_address@));
                return Err(ProgramError::Aborted);
            }
        }
        i = i + 1;
    }
    assert(len > 0 ==> base_account@.items.last() == base_account@.items[len - 1]);
    remove_gif(base_account, user_address)
}

/// Lets the owner claim the account's total: where `payer` owns the account
/// and the total is not zero, the total is minted to it and drops to zero.
/// Returns the mint to make, if any.
pub fn claim_tokens(base_account: &mut BaseAccount, payer: Pubkey) -> (r: Option<TokenInstruction>)
    ensures
        final(base_account)@ == claim(old(base_account)@, payer@),
        r == (if can_claim(old(base_account)@, payer@) {
            Some(TokenInstruction::MintTo { amount: old(base_account)@.total })
        } else {
            None
        }),
        old(base_account).owner@ == payer@ && old(base_account).total_amount != 0 ==> r == Some(
            TokenInstruction::MintTo { amount: old(base_account).total_amount },
        ) && final(base_account).total_amount == 0,
        !(old(base_account).owner@ == payer@ && old(base_account).total_amount != 0) ==> r is None
            && final(base_account)@ == old(base_account)@,
{
    proof {
        lemma_owner_claims_total(base_account@, payer@);
    }
    if base_account.owner == payer && base_account.total_amount != 0 {
        let amount = base_account.total_amount;
        base_account.total_amount = 0;
        Some(TokenInstruction::MintTo { amount })
    } else {
        None
    }
}

/// Adds `ammount` to the total.
pub fn add_ammount(base_account: &mut BaseAccount, ammount: u64) -> (r: Result<(), ProgramError>)
    requires
        old(base_account).total_amount + ammount <= u64::MAX,
    ensures
        r is Ok,
        final(base_account)@ == credit(old(base_account)@, ammount),
        final(base_account).total_amount == old(base_account).total_amount + ammount,
{
    base_account.total_amount = base_account.total_amount + ammount;
    Ok(())
}

/// Takes `ammount` from the total, stopping at zero.
pub fn remove_ammount(base_account: &mut BaseAccount, ammount: u64) -> (r: Result<(), ProgramError>)
    ensures
        r is Ok,
        final(base_account)@ == debit_saturating(old(base_account)@, ammount),
        final(base_account).total_amount == if ammount < old(base_account).total_amount {
            old(base_account).total_amount - ammount
        } else {
            0
        },
{
    if ammount < base_account.total_amount {
        base_account.total_amount = base_account.total_amount - ammount;
    } else {
        base_account.total_amount = 0;
    }
    Ok(())
}

/// The model of a tournament: the keys of its participants, in the order
/// they joined, and its owner's key.
pub struct TournamentModel {
    pub participants: Seq<Seq<u8>>,
    pub owner: Seq<u8>,
}

/// A tournament account.
pub struct Tournament {
    pub tournament_list: Vec<Pubkey>,
    pub owner: Pubkey,
}

impl View for Tournament {
    type V = TournamentModel;

    open spec fn view(&self) -> TournamentModel {
        TournamentModel {
            participants: self.tournament_list@.map_values(|k: Pubkey| k@),
            owner: self.owner@,
        }
    }
}

/// Initialises the tournament for `owner`: no participants.
pub fn reset_tournament(tournament: &mut Tournament, owner: Pubkey)
    ensures
        final(tournament)@ == (TournamentModel { participants: Seq::empty(), owner: owner@ }),
{
    tournament.tournament_list = Vec::new();
    tournament.owner = owner;
    assert(tournament@.participants =~= Seq::<Seq<u8>>::empty());
}

/// Initialises the tournament for the administrator key. Fails, leaving the
/// tournament as it was, only where the administrator key text does not
/// parse.
pub fn start_tournament(tournament: &mut Tournament) -> (r: Result<(), ProgramError>)
    ensures
        match base58_key(ADMIN_KEY@) {
            Some(k) => r is Ok && final(tournament)@ == (TournamentModel { participants: Seq::empty(), owner: k }),
            None => r == Err::<(), ProgramError>(ProgramError::InvalidOwnerKey)
                && final(tournament)@ == old(tournament)@,
        },
{
    match admin_key() {
        Some(k) => {
            reset_tournament(tournament, k);
            Ok(())
        },
        None => Err(ProgramError::InvalidOwnerKey),
    }
}

/// Whether `user` may add participants: it signed and owns the tournament.
pub open spec fn may_enrol(t: TournamentModel, user_key: Seq<u8>, user_is_signer: bool) -> bool {
    user_is_signer && user_key == t.owner
}

/// Adds the account `participant` to the end of the tournament's list
/// where `user` signed and owns the tournament; otherwise nothing changes.
pub fn add_tournament_participant(tournament: &mut Tournament, user: &SignerInfo, participant: Pubkey) -> (r: Result<(), ProgramError>)
    ensures
        r is Ok,
        final(tournament)@ == (if may_enrol(old(tournament)@, user.key@, user.is_signer) {
            TournamentModel {
                participants: old(tournament)@.participants.push(participant@),
                owner: old(tournament)@.owner,
            }
        } else {
            old(tournament)@
        }),
        user.is_signer && user.key@ == old(tournament).owner@ ==> final(tournament).tournament_list@.len()
            == old(tournament).tournament_list@.len() + 1 && final(tournament).tournament_list@.last()@
            == participant@,
        !(user.is_signer && user.key@ == old(tournament).owner@) ==> final(tournament)@ == old(tournament)@,
{
    proof {
        lemma_enrolment(tournament@, user.key@, user.is_signer);
    }
    let ghost before = tournament@;
    if user.is_signer && user.key == tournament.owner {
        tournament.tournament_list.push(participant);
        assert(tournament@.participants =~= before.participants.push(participant@));
    }
    Ok(())
}

/// Enrolment depends on the signature and the owner alone: the signing
/// owner may always add a participant, whatever the list holds, and no one
/// else may.
pub proof fn lemma_enrolment(t: TournamentModel, user_key: Seq<u8>, user_is_signer: bool)
    ensures
        may_enrol(t, user_key, user_is_signer) <==> (user_is_signer && user_key == t.owner),
        may_enrol(t, t.owner, true),
{
}

} // verus!
