//! The byte layout in which a base account is stored in its Solana account:
//! an 8-byte discriminator, then the Borsh encoding of the fields (the total
//! as a little-endian `u64`, the 32 owner bytes, and the item list as a
//! little-endian `u32` count followed by each item: the UTF-8 length as a
//! `u32`, the UTF-8 bytes, and the 32 key bytes).
use vstd::prelude::*;
use vstd::bytes::{
    spec_u32_from_le_bytes, spec_u32_to_le_bytes, spec_u64_from_le_bytes, spec_u64_to_le_bytes,
    u32_from_le_bytes, u32_to_le_bytes, u64_from_le_bytes, u64_to_le_bytes,
    lemma_auto_spec_u32_to_from_le_bytes, lemma_auto_spec_u64_to_from_le_bytes,
};
use vstd::slice::{slice_subrange, slice_to_vec};
use vstd::utf8::{decode_utf8, encode_utf8, valid_utf8};
use crate::gifportal::{items_model, ItemStruct};
use crate::keys::Pubkey;
use crate::model::{AccountModel, ItemModel, ProgramError};

verus! {

/// The first 8 bytes of the SHA-256 digest of `account:BaseAccount`, which
/// anchor's `#[account]` attribute puts in front of every base account.
pub open spec fn base_account_discriminator() -> Seq<u8> {
    seq![16u8, 90u8, 130u8, 242u8, 159u8, 10u8, 232u8, 133u8]
}

/// Reads a little-endian `u32` at the front of `b`.
pub open spec fn parse_u32(b: Seq<u8>) -> Option<(u32, Seq<u8>)> {
    if b.len() >= 4 {
        Some((spec_u32_from_le_bytes(b.take(4)), b.skip(4)))
    } else {
        None
    }
}

/// Reads one item at the front of `b`: a length-prefixed UTF-8 string,
/// then 32 key bytes.
pub open spec fn parse_item(b: Seq<u8>) -> Option<(ItemModel, Seq<u8>)> {
    match parse_u32(b) {
        None => None,
        Some((n, r)) => if r.len() >= n + 32 && valid_utf8(r.take(n as int)) {
            Some(
                (
                    ItemModel { text: decode_utf8(r.take(n as int)), user: r.subrange(n as int, n + 32) },
                    r.skip(n + 32),
                ),
            )
        } else {
            None
        },
    }
}

/// Puts `pre` in front of the items of a parse result.
pub open spec fn prepend(pre: Seq<ItemModel>, r: Option<(Seq<ItemModel>, Seq<u8>)>) -> Option<
    (Seq<ItemModel>, Seq<u8>),
> {
    match r {
        None => None,
        Some((its, rest)) => Some((pre + its, rest)),
    }
}

/// Reads `n` items one after another at the front of `b`.
pub open spec fn parse_items(b: Seq<u8>, n: nat) -> Option<(Seq<ItemModel>, Seq<u8>)>
    decreases n,
{
    if n == 0 {
        Some((Seq::empty(), b))
    } else {
        match parse_item(b) {
            None => None,
            Some((it, r)) => prepend(seq![it], parse_items(r, (n - 1) as nat)),
        }
    }
}

/// Reads a base account from stored bytes, as anchor's `try_deserialize`
/// does: bytes after the encoding are ignored.
pub open spec fn parse_account(data: Seq<u8>) -> Result<AccountModel, ProgramError> {
    if data.len() < 8 {
        Err(ProgramError::AccountDiscriminatorNotFound)
    } else if data.take(8) != base_account_discriminator() {
        Err(ProgramError::AccountDiscriminatorMismatch)
    } else if data.len() < 48 {
        Err(ProgramError::AccountDidNotDeserialize)
    } else {
        match parse_u32(data.skip(48)) {
            None => Err(ProgramError::AccountDidNotDeserialize),
            Some((n, r)) => match parse_items(r, n as nat) {
                None => Err(ProgramError::AccountDidNotDeserialize),
                Some((items, _)) => Ok(
                    AccountModel {
                        total: spec_u64_from_le_bytes(data.subrange(8, 16)),
                        owner: data.subrange(16, 48),
                        items,
                    },
                ),
            },
        }
    }
}

/// The bytes of one item.
pub open spec fn encode_item(it: ItemModel) -> Seq<u8> {
    spec_u32_to_le_bytes(encode_utf8(it.text).len() as u32) + encode_utf8(it.text) + it.user
}

/// The bytes of a list of items, one after another.
pub open spec fn encode_items(items: Seq<ItemModel>) -> Seq<u8>
    decreases items.len(),
{
    if items.len() == 0 {
        Seq::empty()
    } else {
        encode_item(items[0]) + encode_items(items.drop_first())
    }
}

/// The stored bytes of an account.
pub open spec fn encode_account(m: AccountModel) -> Seq<u8> {
    base_account_discriminator() + spec_u64_to_le_bytes(m.total) + m.owner + spec_u32_to_le_bytes(
        m.items.len() as u32,
    ) + encode_items(m.items)
}

/// An item that Borsh can write: its text fits a `u32` length and its key
/// has 32 bytes.
pub open spec fn item_encodable(it: ItemModel) -> bool {
    &&& encode_utf8(it.text).len() <= u32::MAX
    &&& it.user.len() == 32
}

/// An account that Borsh can write.
pub open spec fn account_encodable(m: AccountModel) -> bool {
    &&& m.owner.len() == 32
    &&& m.items.len() <= u32::MAX
    &&& forall|i: int| 0 <= i < m.items.len() ==> item_encodable(#[trigger] m.items[i])
}

/// Reads a little-endian `u32` at `pos`.
fn read_u32(data: &[u8], pos: usize) -> (r: Option<u32>)
    requires
        pos <= data@.len(),
    ensures
        r == match parse_u32(data@.skip(pos as int)) {
            Some((n, _)) => Some(n),
            None => None::<u32>,
        },
        r is Some ==> pos + 4 <= data.len(),
{
    if data.len() - pos < 4 {
        None
    } else {
        let s = slice_subrange(data, pos, pos + 4);
        assert(s@ =~= data@.skip(pos as int).take(4));
        Some(u32_from_le_bytes(s))
    }
}

/// Decodes UTF-8 text with `std::str::from_utf8`. Claims what its
/// documentation says: the bytes are accepted exactly when they are valid
/// UTF-8, and then the text is the characters they encode.
#[verifier::external_body]
fn utf8_text(bytes: &[u8]) -> (r: Option<String>)
    ensures
        r is Some <==> valid_utf8(bytes@),
        r matches Some(s) ==> s@ == decode_utf8(bytes@),
{
    match std::str::from_utf8(bytes) {
        Ok(s) => Some(s.to_string()),
        Err(_) => None,
    }
}

/// Copies 32 bytes at `pos` into a key.
fn read_key(data: &[u8], pos: usize) -> (k: Pubkey)
    requires
        pos + 32 <= data.len(),
    ensures
        k@ == data@.subrange(pos as int, pos + 32),
{
    let mut bytes = [0u8; 32];
    let mut j: usize = 0;
    while j < 32
        invariant
            j <= 32,
            pos + 32 <= data.len(),
            bytes@.len() == 32,
            forall|i: int| 0 <= i < j ==> bytes@[i] == data@[pos + i],
        decreases 32 - j,
    {
        bytes[j] = data[pos + j];
        j = j + 1;
    }
    let k = Pubkey { bytes };
    assert(k@ =~= data@.subrange(pos as int, pos + 32));
    k
}

/// Reads one item at `pos`, returning it and the position after it.
fn read_item(data: &[u8], pos: usize) -> (r: Option<(ItemStruct, usize)>)
    requires
        pos <= data@.len(),
    ensures
        match r {
            Some((it, next)) => pos <= next <= data@.len() && parse_item(data@.skip(pos as int))
                == Some((it@, data@.skip(next as int))),
            None => parse_item(data@.skip(pos as int)) is None,
        },
{
    let n = match read_u32(data, pos) {
        None => return None,
        Some(n) => n,
    };
    let start = pos + 4;
    let len = n as usize;
    if data.len() - start < len || data.len() - start - len < 32 {
        return None;
    }
    let ghost r = data@.skip(start as int);
    assert(data@.skip(pos as int).skip(4) =~= r);
    assert(r.take(n as int) =~= data@.subrange(start as int, start + len));
    let text = match utf8_text(slice_subrange(data, start, start + len)) {
        None => return None,
        Some(t) => t,
    };
    let user = read_key(data, start + len);
    let next = start + len + 32;
    assert(r.subrange(n as int, n + 32) =~= data@.subrange(start + len, start + len + 32));
    assert(r.skip(n + 32) =~= data@.skip(next as int));
    Some((ItemStruct { ammount: text, user_address: user }, next))
}

/// Reads `n` items one after another from `pos`, returning them and the
/// position after the last.
fn read_items(data: &[u8], pos: usize, n: u32) -> (r: Option<(Vec<ItemStruct>, usize)>)
    requires
        pos <= data@.len(),
    ensures
        match r {
            Some((items, next)) => pos <= next <= data@.len() && parse_items(
                data@.skip(pos as int),
                n as nat,
            ) == Some((items_model(items@), data@.skip(next as int))),
            None => parse_items(data@.skip(pos as int), n as nat) is None,
        },
{
    let mut items: Vec<ItemStruct> = Vec::new();
    let mut cur = pos;
    let mut i: u32 = 0;
    while i < n
        invariant
            i <= n,
            pos <= cur <= data@.len(),
            parse_items(data@.skip(pos as int), n as nat) == prepend(
                items_model(items@),
                parse_items(data@.skip(cur as int), (n - i) as nat),
            ),
        decreases n - i,
    {
        let ghost before = items_model(items@);
        match read_item(data, cur) {
            None => {
                assert(parse_items(data@.skip(cur as int), (n - i) as nat) is None);
                return None;
            },
            Some((it, next)) => {
                let ghost tail = parse_items(data@.skip(next as int), (n - i - 1) as nat);
                items.push(it);
                assert(items_model(items@) =~= before + seq![it@]);
                proof {
                    match tail {
                        None => {},
                        Some((its, rest)) => {
                            assert(before + (seq![it@] + its) =~= (before + seq![it@]) + its);
                        },
                    }
                }
                cur = next;
                i = i + 1;
            },
        }
    }
    assert(parse_items(data@.skip(cur as int), 0) == Some((Seq::<ItemModel>::empty(), data@.skip(cur as int))));
    assert(items_model(items@) + Seq::<ItemModel>::empty() =~= items_model(items@));
    Some((items, cur))
}

/// Reads a base account from the bytes stored in its Solana account, as
/// anchor's `try_deserialize` does, and returns its total, owner and items.
pub fn decode_base_account(data: &[u8]) -> (r: Result<(u64, Pubkey, Vec<ItemStruct>), ProgramError>)
    ensures
        match r {
            Ok((total, owner, items)) => parse_account(data@) == Ok::<AccountModel, ProgramError>(
                AccountModel { total, owner: owner@, items: items_model(items@) },
            ),
            Err(e) => parse_account(data@) == Err::<AccountModel, ProgramError>(e),
        },
        r matches Ok((total, owner, items)) ==> owner@ == data@.subrange(16, 48) && total
            == spec_u64_from_le_bytes(data@.subrange(8, 16)) && data@.take(8)
            == base_account_discriminator(),
{
    if data.len() < 8 {
        return Err(ProgramError::AccountDiscriminatorNotFound);
    }
    let disc: [u8; 8] = [16, 90, 130, 242, 159, 10, 232, 133];
    let mut j: usize = 0;
    while j < 8
        invariant
            j <= 8,
            8 <= data@.len(),
            disc@ == base_account_discriminator(),
            forall|i: int| 0 <= i < j ==> data@[i] == disc@[i],
        decreases 8 - j,
    {
        if data[j] != disc[j] {
            assert(data@.take(8)[j as int] != base_account_discriminator()[j as int]);
            return Err(ProgramError::AccountDiscriminatorMismatch);
        }
        j = j + 1;
    }
    assert(data@.take(8) =~= base_account_discriminator());
    if data.len() < 48 {
        return Err(ProgramError::AccountDidNotDeserialize);
    }
    let total = u64_from_le_bytes(slice_subrange(data, 8, 16));
    let owner = read_key(data, 16);
    let n = match read_u32(data, 48) {
        None => return Err(ProgramError::AccountDidNotDeserialize),
        Some(n) => n,
    };
    assert(data@.skip(48).skip(4) =~= data@.skip(52));
    match read_items(data, 52, n) {
        None => Err(ProgramError::AccountDidNotDeserialize),
        Some((items, _)) => {
            proof {
                lemma_parsed_fields(data@);
            }
            Ok((total, owner, items))
        },
    }
}

/// Appends the bytes of a slice.
fn push_bytes(out: &mut Vec<u8>, bytes: &[u8])
    ensures
        final(out)@ == old(out)@ + bytes@,
{
    let mut b = slice_to_vec(bytes);
    out.append(&mut b);
}

/// Appends the 32 bytes of a key.
fn push_key(out: &mut Vec<u8>, k: &Pubkey)
    ensures
        final(out)@ == old(out)@ + k@,
{
    let ghost start = out@;
    let mut j: usize = 0;
    while j < 32
        invariant
            j <= 32,
            k@.len() == 32,
            out@ == start + k@.take(j as int),
        decreases 32 - j,
    {
        out.push(k.bytes[j]);
        assert(k@.take(j + 1) =~= k@.take(j as int).push(k@[j as int]));
        j = j + 1;
    }
    assert(k@.take(32) =~= k@);
}

/// Appends the bytes of one item, if Borsh can write it.
fn push_item(out: &mut Vec<u8>, it: &ItemStruct) -> (ok: bool)
    ensures
        ok == item_encodable(it@),
        ok ==> final(out)@ == old(out)@ + encode_item(it@),
        !ok ==> final(out)@ == old(out)@,
{
    let text = it.ammount.as_str().as_bytes();
    if text.len() > 0xffff_ffffusize {
        return false;
    }
    let len = u32_to_le_bytes(text.len() as u32);
    push_bytes(out, len.as_slice());
    push_bytes(out, text);
    push_key(out, &it.user_address);
    true
}

/// `encode_items` of a list grown by one item.
pub proof fn lemma_encode_items_push(items: Seq<ItemModel>, it: ItemModel)
    ensures
        encode_items(items.push(it)) == encode_items(items) + encode_item(it),
    decreases items.len(),
{
    if items.len() == 0 {
        assert(items.push(it).drop_first() =~= Seq::<ItemModel>::empty());
        assert(encode_items(items.push(it).drop_first()) == Seq::<u8>::empty());
        assert(items.push(it)[0] == it);
        assert(encode_items(items.push(it)) =~= encode_items(items) + encode_item(it));
    } else {
        lemma_encode_items_push(items.drop_first(), it);
        assert(items.push(it).drop_first() =~= items.drop_first().push(it));
        assert(items.push(it)[0] == items[0]);
        assert(encode_items(items.push(it)) == encode_item(items[0]) + (encode_items(items.drop_first()) + encode_item(it)));
        assert(encode_items(items.push(it)) =~= encode_items(items) + encode_item(it));
    }
}

/// Encodes an account as the bytes that anchor's `try_serialize` writes:
/// `None` where Borsh refuses it.
pub fn encode_base_account(total: u64, owner: &Pubkey, items: &Vec<ItemStruct>) -> (r: Option<Vec<u8>>)
    ensures
        r is Some <==> account_encodable(AccountModel { total, owner: owner@, items: items_model(items@) }),
        r matches Some(v) ==> v@ == encode_account(
            AccountModel { total, owner: owner@, items: items_model(items@) },
        ),
        r matches Some(v) ==> v@.take(8) == base_account_discriminator() && v@.subrange(16, 48)
            == owner@ && spec_u64_from_le_bytes(v@.subrange(8, 16)) == total,
{
    let ghost m = AccountModel { total, owner: owner@, items: items_model(items@) };
    if items.len() > 0xffff_ffffusize {
        return None;
    }
    let mut out: Vec<u8> = Vec::new();
    out.push(16u8);
    out.push(90u8);
    out.push(130u8);
    out.push(242u8);
    out.push(159u8);
    out.push(10u8);
    out.push(232u8);
    out.push(133u8);
    assert(out@ =~= base_account_discriminator());
    let t = u64_to_le_bytes(total);
    push_bytes(&mut out, t.as_slice());
    push_key(&mut out, owner);
    let c = u32_to_le_bytes(items.len() as u32);
    push_bytes(&mut out, c.as_slice());
    let ghost header = out@;
    assert(header == base_account_discriminator() + spec_u64_to_le_bytes(total) + owner@
        + spec_u32_to_le_bytes(m.items.len() as u32));
    let mut i: usize = 0;
    while i < items.len()
        invariant
            i <= items@.len(),
            m.items == items_model(items@),
            out@ == header + encode_items(m.items.take(i as int)),
            forall|j: int| 0 <= j < i ==> item_encodable(#[trigger] m.items[j]),
        decreases items@.len() - i,
    {
        assert(m.items[i as int] == items@[i as int]@);
        if !push_item(&mut out, &items[i]) {
            assert(!item_encodable(m.items[i as int]));
            return None;
        }
        proof {
            lemma_encode_items_push(m.items.take(i as int), m.items[i as int]);
            assert(m.items.take(i + 1) =~= m.items.take(i as int).push(m.items[i as int]));
        }
        i = i + 1;
    }
    assert(m.items.take(i as int) =~= m.items);
    assert(owner@.len() == 32);
    proof {
        lemma_encoded_fields(m);
    }
    Some(out)
}

/// Writes an account into its storage as anchor's `try_serialize` does:
/// the encoding overwrites the front of `data` and the bytes after it stay.
/// Fails, leaving `data` as it was, where Borsh refuses the account or the
/// encoding is longer than `data`.
pub fn write_base_account(data: &mut Vec<u8>, total: u64, owner: &Pubkey, items: &Vec<ItemStruct>) -> (r: Result<(), ProgramError>)
    ensures
        ({
            let m = AccountModel { total, owner: owner@, items: items_model(items@) };
            match r {
                Ok(()) => account_encodable(m) && encode_account(m).len() <= old(data)@.len()
                    && final(data)@ == encode_account(m) + old(data)@.skip(encode_account(m).len() as int),
                Err(e) => e == ProgramError::AccountDidNotSerialize && final(data)@ == old(data)@
                    && !(account_encodable(m) && encode_account(m).len() <= old(data)@.len()),
            }
        }),
{
    let enc = match encode_base_account(total, owner, items) {
        None => return Err(ProgramError::AccountDidNotSerialize),
        Some(e) => e,
    };
    if enc.len() > data.len() {
        return Err(ProgramError::AccountDidNotSerialize);
    }
    let ghost start = data@;
    let mut j: usize = 0;
    while j < enc.len()
        invariant
            j <= enc@.len(),
            enc@.len() <= start.len(),
            data@ == enc@.take(j as int) + start.skip(j as int),
        decreases enc@.len() - j,
    {
        data[j] = enc[j];
        assert(data@ =~= enc@.take(j + 1) + start.skip(j + 1));
        j = j + 1;
    }
    assert(enc@.take(j as int) =~= enc@);
    Ok(())
}

/// Reading the bytes of an item that Borsh can write gives the item back,
/// with the bytes that follow it.
pub proof fn lemma_parse_encode_item(it: ItemModel, tail: Seq<u8>)
    requires
        item_encodable(it),
    ensures
        parse_item(encode_item(it) + tail) == Some((it, tail)),
{
    broadcast use vstd::utf8::encode_utf8_valid_utf8, vstd::utf8::encode_utf8_decode_utf8;

    lemma_auto_spec_u32_to_from_le_bytes();
    let text = encode_utf8(it.text);
    let n = text.len() as u32;
    let b = encode_item(it) + tail;
    let r = text + it.user + tail;
    assert(spec_u32_to_le_bytes(n).len() == 4);
    assert(b.take(4) =~= spec_u32_to_le_bytes(n));
    assert(b.skip(4) =~= r);
    assert(r.take(n as int) =~= text);
    assert(r.subrange(n as int, n + 32) =~= it.user);
    assert(r.skip(n + 32) =~= tail);
}

/// Reading the bytes of items that Borsh can write gives the items back.
pub proof fn lemma_parse_encode_items(items: Seq<ItemModel>, tail: Seq<u8>)
    requires
        forall|i: int| 0 <= i < items.len() ==> item_encodable(#[trigger] items[i]),
    ensures
        parse_items(encode_items(items) + tail, items.len()) == Some((items, tail)),
    decreases items.len(),
{
    if items.len() == 0 {
        assert(Seq::<u8>::empty() + tail =~= tail);
    } else {
        let rest = items.drop_first();
        assert forall|i: int| 0 <= i < rest.len() implies item_encodable(#[trigger] rest[i]) by {
            assert(rest[i] == items[i + 1]);
        }
        lemma_parse_encode_items(rest, tail);
        assert(item_encodable(items[0]));
        lemma_parse_encode_item(items[0], encode_items(rest) + tail);
        assert(encode_items(items) + tail =~= encode_item(items[0]) + (encode_items(rest) + tail));
        assert(seq![items[0]] + rest =~= items);
    }
}

/// Round trip of the stored layout: reading the bytes that an account that
/// Borsh can write is stored as, followed by any bytes, gives the account.
pub proof fn lemma_decode_encode_account(m: AccountModel, tail: Seq<u8>)
    requires
        account_encodable(m),
    ensures
        parse_account(encode_account(m) + tail) == Ok::<AccountModel, ProgramError>(m),
{
    lemma_auto_spec_u32_to_from_le_bytes();
    lemma_auto_spec_u64_to_from_le_bytes();
    let d = encode_account(m) + tail;
    let n = m.items.len() as u32;
    assert(spec_u64_to_le_bytes(m.total).len() == 8);
    assert(spec_u32_to_le_bytes(n).len() == 4);
    assert(d.take(8) =~= base_account_discriminator());
    assert(d.subrange(8, 16) =~= spec_u64_to_le_bytes(m.total));
    assert(d.subrange(16, 48) =~= m.owner);
    assert(d.skip(48) =~= spec_u32_to_le_bytes(n) + (encode_items(m.items) + tail));
    assert((spec_u32_to_le_bytes(n) + (encode_items(m.items) + tail)).take(4) =~= spec_u32_to_le_bytes(n));
    assert((spec_u32_to_le_bytes(n) + (encode_items(m.items) + tail)).skip(4) =~= encode_items(m.items) + tail);
    lemma_parse_encode_items(m.items, tail);
}

/// Items read from bytes can be written, and their bytes are exactly the
/// ones they were read from.
pub proof fn lemma_encode_parse_item(b: Seq<u8>)
    requires
        parse_item(b) is Some,
    ensures
        ({
            let (it, rest) = parse_item(b).unwrap();
            item_encodable(it) && b == encode_item(it) + rest
        }),
{
    broadcast use vstd::utf8::decode_utf8_encode_utf8;

    lemma_auto_spec_u32_to_from_le_bytes();
    let (n, r) = parse_u32(b).unwrap();
    let (it, rest) = parse_item(b).unwrap();
    assert(encode_utf8(it.text) == r.take(n as int));
    assert(b.take(4).len() == 4);
    assert(spec_u32_to_le_bytes(n) == b.take(4));
    assert(b =~= spec_u32_to_le_bytes(n) + r.take(n as int) + r.subrange(n as int, n + 32) + rest);
}

/// Lists of items read from bytes can be written, and their bytes are
/// exactly the ones they were read from.
pub proof fn lemma_encode_parse_items(b: Seq<u8>, n: nat)
    requires
        parse_items(b, n) is Some,
    ensures
        ({
            let (items, rest) = parse_items(b, n).unwrap();
            &&& items.len() == n
            &&& forall|i: int| 0 <= i < items.len() ==> item_encodable(#[trigger] items[i])
            &&& b == encode_items(items) + rest
        }),
    decreases n,
{
    if n == 0 {
        assert(b =~= Seq::<u8>::empty() + b);
    } else {
        lemma_encode_parse_item(b);
        let (it, r) = parse_item(b).unwrap();
        lemma_encode_parse_items(r, (n - 1) as nat);
        let (its, rest) = parse_items(r, (n - 1) as nat).unwrap();
        let items = seq![it] + its;
        assert(items.drop_first() =~= its);
        assert(items[0] == it);
        assert forall|i: int| 0 <= i < items.len() implies item_encodable(#[trigger] items[i]) by {
            if i > 0 {
                assert(items[i] == its[i - 1]);
            }
        }
        assert(b =~= encode_items(items) + rest);
    }
}

/// The stored layout is canonical: an account read from bytes can be
/// written, and writing it gives back exactly the bytes it was read from,
/// up to the bytes that reading ignored.
pub proof fn lemma_encode_decode_account(data: Seq<u8>)
    requires
        parse_account(data) is Ok,
    ensures
        ({
            let m = parse_account(data).unwrap();
            &&& account_encodable(m)
            &&& data == encode_account(m) + data.skip(encode_account(m).len() as int)
        }),
{
    lemma_auto_spec_u32_to_from_le_bytes();
    lemma_auto_spec_u64_to_from_le_bytes();
    let m = parse_account(data).unwrap();
    let (n, r) = parse_u32(data.skip(48)).unwrap();
    lemma_encode_parse_items(r, n as nat);
    let (items, rest) = parse_items(r, n as nat).unwrap();
    assert(data.subrange(8, 16).len() == 8);
    assert(spec_u64_to_le_bytes(m.total) == data.subrange(8, 16));
    assert(data.skip(48).take(4).len() == 4);
    assert(spec_u32_to_le_bytes(n) == data.skip(48).take(4));
    assert(m.items.len() as u32 == n);
    let e = encode_account(m);
    assert(r == data.skip(48).skip(4));
    assert(data =~= data.take(8) + data.subrange(8, 16) + data.subrange(16, 48) + data.skip(48).take(4) + r);
    assert(r == encode_items(items) + rest);
    assert(m.items == items);
    assert(data == base_account_discriminator() + spec_u64_to_le_bytes(m.total) + m.owner + spec_u32_to_le_bytes(n) + (encode_items(m.items) + rest));
    assert(data =~= e + rest);
    assert(rest =~= data.skip(e.len() as int));
}

/// The stored layout in place: after the 8 discriminator bytes come the
/// total as 8 little-endian bytes, then the owner's 32 key bytes in order,
/// then the item count as 4 little-endian bytes, then the items.
pub proof fn lemma_encoded_fields(m: AccountModel)
    requires
        account_encodable(m),
    ensures
        encode_account(m).take(8) == base_account_discriminator(),
        encode_account(m).subrange(8, 16) == spec_u64_to_le_bytes(m.total),
        encode_account(m).subrange(16, 48) == m.owner,
        encode_account(m).subrange(48, 52) == spec_u32_to_le_bytes(m.items.len() as u32),
        spec_u64_from_le_bytes(encode_account(m).subrange(8, 16)) == m.total,
{
    lemma_auto_spec_u32_to_from_le_bytes();
    lemma_auto_spec_u64_to_from_le_bytes();
    let e = encode_account(m);
    assert(e.take(8) =~= base_account_discriminator());
    assert(e.subrange(8, 16) =~= spec_u64_to_le_bytes(m.total));
    assert(e.subrange(16, 48) =~= m.owner);
    assert(e.subrange(48, 52) =~= spec_u32_to_le_bytes(m.items.len() as u32));
}

/// Reading takes the fields from their places: the owner is the 32 bytes
/// after the total, in order, the total is the little-endian value of the 8
/// bytes after the discriminator, and the discriminator is the base
/// account's.
pub proof fn lemma_parsed_fields(data: Seq<u8>)
    requires
        parse_account(data) is Ok,
    ensures
        data.len() >= 52,
        data.take(8) == base_account_discriminator(),
        parse_account(data).unwrap().owner == data.subrange(16, 48),
        parse_account(data).unwrap().total == spec_u64_from_le_bytes(data.subrange(8, 16)),
        parse_account(data).unwrap().items.len() == spec_u32_from_le_bytes(data.subrange(48, 52)),
{
    let (n, r) = parse_u32(data.skip(48)).unwrap();
    lemma_encode_parse_items(r, n as nat);
    assert(data.skip(48).take(4) =~= data.subrange(48, 52));
}

/// An item's stored bytes hold its text: the UTF-8 length, then the UTF-8
/// bytes of the text, then the poster's 32 key bytes in order.
pub proof fn lemma_encoded_item_fields(it: ItemModel)
    requires
        item_encodable(it),
    ensures
        encode_item(it).len() == 4 + encode_utf8(it.text).len() + 32,
        encode_item(it).subrange(4, 4 + encode_utf8(it.text).len() as int) == encode_utf8(it.text),
        encode_item(it).skip(4 + encode_utf8(it.text).len() as int) == it.user,
{
    lemma_auto_spec_u32_to_from_le_bytes();
    let t = encode_utf8(it.text);
    assert(spec_u32_to_le_bytes(t.len() as u32).len() == 4);
    assert(encode_item(it).subrange(4, 4 + t.len() as int) =~= t);
    assert(encode_item(it).skip(4 + t.len() as int) =~= it.user);
}

} // verus!
