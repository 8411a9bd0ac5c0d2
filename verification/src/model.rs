//! The mathematical model of an account of the two programs: a running
//! total, an owner key, and a list of posted items, each a text and the key
//! of the user who posted it.
use vstd::prelude::*;
use crate::keys::base58_text;

verus! {

/// Why an instruction of the two programs fails.
#[derive(Clone, Copy, Debug, PartialEq, Eq, Structural)]
pub enum ProgramError {
    /// The administrator key text does not parse as a key.
    InvalidOwnerKey,
    /// Stored account bytes are shorter than a discriminator.
    AccountDiscriminatorNotFound,
    /// Stored account bytes start with another type's discriminator.
    AccountDiscriminatorMismatch,
    /// Stored account bytes are not a Borsh encoding of the account.
    AccountDidNotDeserialize,
    /// The account's encoding does not fit its storage, or Borsh cannot
    /// write it.
    AccountDidNotSerialize,
    /// The instruction aborts: the program panics on this input.
    Aborted,
}

/// A posted item: its text and the bytes of the poster's key.
pub struct ItemModel {
    pub text: Seq<char>,
    pub user: Seq<u8>,
}

/// An account: the running total, the owner's key bytes and the items.
pub struct AccountModel {
    pub total: u64,
    pub owner: Seq<u8>,
    pub items: Seq<ItemModel>,
}

/// The account after initialisation: the total is zero, `owner` owns it,
/// and the items stay.
pub open spec fn reset_account(m: AccountModel, owner: Seq<u8>) -> AccountModel {
    AccountModel { total: 0, owner, items: m.items }
}

/// The account after `user` posts `text`: the item goes at the end of the
/// list and the total grows by one.
pub open spec fn post_item(m: AccountModel, user: Seq<u8>, text: Seq<char>) -> AccountModel {
    AccountModel {
        total: (m.total + 1) as u64,
        owner: m.owner,
        items: m.items.push(ItemModel { text, user }),
    }
}

/// The account with `amount` added to its total.
pub open spec fn credit(m: AccountModel, amount: u64) -> AccountModel {
    AccountModel { total: (m.total + amount) as u64, owner: m.owner, items: m.items }
}

/// The account with `amount` taken from its total, stopping at zero.
pub open spec fn debit_saturating(m: AccountModel, amount: u64) -> AccountModel {
    AccountModel {
        total: if amount < m.total { (m.total - amount) as u64 } else { 0 },
        owner: m.owner,
        items: m.items,
    }
}

/// Whether the holder of `signer` may claim the account's total: it owns
/// the account and the total is not zero.
pub open spec fn can_claim(m: AccountModel, signer: Seq<u8>) -> bool {
    m.owner == signer && m.total != 0
}

/// The account after a claim by `signer`: emptied where the claim is
/// allowed, unchanged otherwise.
pub open spec fn claim(m: AccountModel, signer: Seq<u8>) -> AccountModel {
    if can_claim(m, signer) {
        AccountModel { total: 0, owner: m.owner, items: m.items }
    } else {
        m
    }
}

/// Whether an item was posted by the user whose key has the base58 text
/// `user_text`.
pub open spec fn posted_by(it: ItemModel, user_text: Seq<char>) -> bool {
    base58_text(it.user) == user_text
}

/// Whether removing the items of `user_text` runs to its end. The removal
/// walks the positions of the list as it was while the list shrinks, so it
/// completes only when no item but the last is the user's, and a last item
/// of the user's needs a total above zero to count down.
pub open spec fn removal_completes(m: AccountModel, user_text: Seq<char>) -> bool {
    &&& forall|i: int| 0 <= i < m.items.len() - 1 ==> !posted_by(#[trigger] m.items[i], user_text)
    &&& m.items.len() > 0 && posted_by(m.items.last(), user_text) ==> m.total > 0
}

/// The account after a completed removal: the last item goes, and the
/// total counts down, where that item is the user's.
pub open spec fn removal_result(m: AccountModel, user_text: Seq<char>) -> AccountModel {
    if m.items.len() > 0 && posted_by(m.items.last(), user_text) {
        AccountModel { total: (m.total - 1) as u64, owner: m.owner, items: m.items.drop_last() }
    } else {
        m
    }
}

/// How many accounts a tournament with `total_accounts` accounts pays:
/// one up to ten accounts, six up to 24, ten beyond (and for none).
pub open spec fn winners_for(total_accounts: int) -> int {
    if 1 <= total_accounts <= 10 {
        1
    } else if 10 < total_accounts <= 24 {
        6
    } else {
        10
    }
}

/// Whether a tournament payment by `user_key` reaches the account: the user
/// signed and owns it.
pub open spec fn tournament_pays(m: AccountModel, user_key: Seq<u8>, user_is_signer: bool) -> bool {
    user_is_signer && user_key == m.owner
}

/// The account after a tournament payment of `amount` by `user_key`.
pub open spec fn pay_account(m: AccountModel, user_key: Seq<u8>, user_is_signer: bool, amount: u64) -> AccountModel {
    if tournament_pays(m, user_key, user_is_signer) {
        credit(m, amount)
    } else {
        m
    }
}

/// Adding an amount and then removing the same amount gives back the
/// account.
pub proof fn lemma_debit_undoes_credit(m: AccountModel, amount: u64)
    requires
        m.total + amount <= u64::MAX,
    ensures
        debit_saturating(credit(m, amount), amount) == m,
{
}

/// Removing an amount never raises the total, and removing at least the
/// whole total empties it.
pub proof fn lemma_debit_bounded(m: AccountModel, amount: u64)
    ensures
        debit_saturating(m, amount).total <= m.total,
        amount >= m.total ==> debit_saturating(m, amount).total == 0,
        amount < m.total ==> debit_saturating(m, amount).total == m.total - amount,
{
}

/// A claim conserves the total: what is minted plus what stays is what
/// there was.
pub proof fn lemma_claim_conserves(m: AccountModel, signer: Seq<u8>)
    ensures
        claim(m, signer).total + (if can_claim(m, signer) { m.total } else { 0 }) == m.total,
        claim(m, signer).owner == m.owner,
        claim(m, signer).items == m.items,
{
}

/// A second claim right after a claim mints nothing and changes nothing.
pub proof fn lemma_claim_twice(m: AccountModel, signer: Seq<u8>)
    ensures
        !can_claim(claim(m, signer), signer),
        claim(claim(m, signer), signer) == claim(m, signer),
{
}

/// A freshly initialised account has nothing to claim.
pub proof fn lemma_reset_leaves_nothing_to_claim(m: AccountModel, owner: Seq<u8>, signer: Seq<u8>)
    ensures
        !can_claim(reset_account(m, owner), signer),
{
}

/// Posting an item and then removing the poster's items, where no earlier
/// item is the poster's, gives back the account.
pub proof fn lemma_remove_undoes_post(m: AccountModel, user: Seq<u8>, text: Seq<char>)
    requires
        m.total < u64::MAX,
        forall|i: int| 0 <= i < m.items.len() ==> !posted_by(#[trigger] m.items[i], base58_text(user)),
    ensures
        removal_completes(post_item(m, user, text), base58_text(user)),
        removal_result(post_item(m, user, text), base58_text(user)) == m,
{
    let p = post_item(m, user, text);
    assert forall|i: int| 0 <= i < p.items.len() - 1 implies !posted_by(#[trigger] p.items[i], base58_text(user)) by {
        assert(p.items[i] == m.items[i]);
    }
    assert(p.items.drop_last() =~= m.items);
}

/// Every instruction on the base account but the initialisation keeps its
/// owner, and none but posting and removing touches its items.
pub proof fn lemma_owner_kept(m: AccountModel, user: Seq<u8>, text: Seq<char>, amount: u64, is_signer: bool)
    ensures
        post_item(m, user, text).owner == m.owner,
        removal_result(m, text).owner == m.owner,
        credit(m, amount).owner == m.owner && credit(m, amount).items == m.items,
        debit_saturating(m, amount).owner == m.owner && debit_saturating(m, amount).items == m.items,
        claim(m, user).owner == m.owner && claim(m, user).items == m.items,
        pay_account(m, user, is_signer, amount).owner == m.owner,
        pay_account(m, user, is_signer, amount).items == m.items,
{
}

/// A tournament payment reaches only the owner, with its signature.
pub proof fn lemma_pay_only_owner(m: AccountModel, user: Seq<u8>, is_signer: bool, amount: u64)
    ensures
        !(is_signer && user == m.owner) ==> pay_account(m, user, is_signer, amount) == m,
        is_signer && user == m.owner && m.total + amount <= u64::MAX ==> pay_account(
            m,
            user,
            is_signer,
            amount,
        ).total == m.total + amount,
{
}

/// Posting stores exactly what was posted: the list grows by one item at
/// its end, that item holds the posted text and the poster's key, the items
/// before it stay, and the count grows by one.
pub proof fn lemma_post_stores_item(m: AccountModel, user: Seq<u8>, text: Seq<char>)
    requires
        m.total < u64::MAX,
    ensures
        post_item(m, user, text).items.len() == m.items.len() + 1,
        post_item(m, user, text).items.last() == (ItemModel { text, user }),
        post_item(m, user, text).items.last().text == text,
        post_item(m, user, text).items.last().user == user,
        post_item(m, user, text).items.take(m.items.len() as int) == m.items,
        post_item(m, user, text).total == m.total + 1,
        post_item(m, user, text).owner == m.owner,
{
    assert(post_item(m, user, text).items.take(m.items.len() as int) =~= m.items);
}

/// Claiming depends on the owner and the total alone: the signing owner of
/// a non-zero total may always claim it, whatever the items, and the claim
/// empties the total; anyone else, or a zero total, changes nothing.
pub proof fn lemma_owner_claims_total(m: AccountModel, signer: Seq<u8>)
    ensures
        (m.owner == signer && m.total != 0) <==> can_claim(m, signer),
        m.owner == signer && m.total != 0 ==> claim(m, signer).total == 0 && claim(m, signer).owner
            == m.owner && claim(m, signer).items == m.items,
        !(m.owner == signer && m.total != 0) ==> claim(m, signer) == m,
{
}

/// Removing for a user none of whose keys' base58 text matches any item
/// runs to its end and leaves the account as it was.
pub proof fn lemma_removal_without_matches(m: AccountModel, user_text: Seq<char>)
    requires
        forall|i: int| 0 <= i < m.items.len() ==> base58_text(#[trigger] m.items[i].user) != user_text,
    ensures
        removal_completes(m, user_text),
        removal_result(m, user_text) == m,
{
    assert forall|i: int| 0 <= i < m.items.len() - 1 implies !posted_by(#[trigger] m.items[i], user_text) by {
        assert(base58_text(m.items[i].user) != user_text);
    }
    if m.items.len() > 0 {
        assert(base58_text(m.items[m.items.len() - 1].user) != user_text);
    }
}

/// Removing for a user whose item is not last aborts: the walk cannot run
/// to its end once an item before the last is the user's.
pub proof fn lemma_removal_aborts_on_earlier_match(m: AccountModel, user_text: Seq<char>, i: int)
    requires
        0 <= i < m.items.len() - 1,
        base58_text(m.items[i].user) == user_text,
    ensures
        !removal_completes(m, user_text),
{
    assert(posted_by(m.items[i], user_text));
}

/// A completed removal for the poster of the last item drops exactly that
/// item and counts down by one; otherwise nothing changes.
pub proof fn lemma_removal_drops_last_match(m: AccountModel, user_text: Seq<char>)
    ensures
        m.items.len() > 0 && base58_text(m.items.last().user) == user_text ==> removal_result(m, user_text)
            == (AccountModel { total: (m.total - 1) as u64, owner: m.owner, items: m.items.drop_last() }),
        !(m.items.len() > 0 && base58_text(m.items.last().user) == user_text) ==> removal_result(
            m,
            user_text,
        ) == m,
{
}

/// Adding an amount raises the total by it, and removing an amount lowers
/// the total by it or to zero, whichever is higher.
pub proof fn lemma_amounts(m: AccountModel, amount: u64)
    ensures
        m.total + amount <= u64::MAX ==> credit(m, amount).total == m.total + amount,
        debit_saturating(m, amount).total == if amount < m.total { m.total - amount } else { 0 },
        credit(m, amount).owner == m.owner && credit(m, amount).items == m.items,
{
}

/// Initialising sets the total to zero and the owner to the given key, and
/// keeps the items.
pub proof fn lemma_reset_fields(m: AccountModel, owner: Seq<u8>)
    ensures
        reset_account(m, owner).total == 0,
        reset_account(m, owner).owner == owner,
        reset_account(m, owner).items == m.items,
{
}

} // verus!
