//! Account keys: the 32-byte public keys that name every Solana account,
//! with their base58 text form.
use std::str::FromStr;
use vstd::prelude::*;

verus! {

/// A 32-byte public key, as the program stores and compares it.
#[derive(Clone, Copy, Debug)]
pub struct Pubkey {
    pub bytes: [u8; 32],
}

impl View for Pubkey {
    type V = Seq<u8>;

    open spec fn view(&self) -> Seq<u8> {
        self.bytes@
    }
}

impl Pubkey {
    /// The key whose bytes are `bytes`.
    pub fn new_from_array(bytes: [u8; 32]) -> (k: Pubkey)
        ensures
            k@ == bytes@,
    {
        Pubkey { bytes }
    }

    /// The key's 32 bytes.
    pub fn to_bytes(&self) -> (b: [u8; 32])
        ensures
            b@ == self@,
    {
        self.bytes
    }
}

/// The account that signs an instruction, as the program sees it: its key
/// and whether its signature is present.
#[derive(Clone, Copy, Debug)]
pub struct SignerInfo {
    pub key: Pubkey,
    pub is_signer: bool,
}

impl PartialEq for Pubkey {
    fn eq(&self, other: &Pubkey) -> (r: bool) {
        let mut i: usize = 0;
        while i < 32
            invariant
                i <= 32,
                self@.len() == 32,
                other@.len() == 32,
                forall|j: int| 0 <= j < i ==> self@[j] == other@[j],
            decreases 32 - i,
        {
            if self.bytes[i] != other.bytes[i] {
                return false;
            }
            i = i + 1;
        }
        assert(self@ =~= other@);
        true
    }
}

impl vstd::std_specs::cmp::PartialEqSpecImpl for Pubkey {
    open spec fn obeys_eq_spec() -> bool {
        true
    }

    open spec fn eq_spec(&self, other: &Pubkey) -> bool {
        self@ == other@
    }
}

impl Eq for Pubkey {
}

/// The 32 bytes that base58 text decodes to, where it names a key: what
/// `Pubkey::from_str` of solana_program (re-exported by anchor_lang) returns.
pub uninterp spec fn base58_key(text: Seq<char>) -> Option<Seq<u8>>;

/// The base58 text of a key: what the `Display` impl of solana_program's
/// `Pubkey` (re-exported by anchor_lang) writes.
pub uninterp spec fn base58_text(key: Seq<u8>) -> Seq<char>;

/// Parses base58 text into a key with `Pubkey::from_str` of anchor_lang.
/// Claims that the result is the named function `base58_key` of the text,
/// and, as the source shows, that text of more than 44 bytes is refused.
#[verifier::external_body]
pub(crate) fn parse_pubkey(text: &str) -> (r: Option<Pubkey>)
    ensures
        match r {
            Some(k) => base58_key(text@) == Some(k@),
            None => base58_key(text@) is None,
        },
        vstd::utf8::encode_utf8(text@).len() > 44 ==> r is None,
{
    match anchor_lang::prelude::Pubkey::from_str(text) {
        Ok(k) => Some(Pubkey { bytes: k.to_bytes() }),
        Err(_) => None,
    }
}

/// Writes a key as base58 text with the `to_string` of anchor_lang's
/// `Pubkey`. Claims that the text is the named function `base58_text` of
/// the key's bytes.
#[verifier::external_body]
pub(crate) fn pubkey_text(key: &Pubkey) -> (s: String)
    ensures
        s@ == base58_text(key@),
{
    anchor_lang::prelude::Pubkey::new_from_array(key.bytes).to_string()
}

/// The base58 text of the key that both programs install as the owner of
/// the accounts they initialise.
pub const ADMIN_KEY: &'static str = "AHYic562KhgtAEkb1rSesqS87dFYRcfXb4WwWus3Zc9C";

/// Parses the administrator key of `ADMIN_KEY`.
pub fn admin_key() -> (r: Option<Pubkey>)
    ensures
        match r {
            Some(k) => base58_key(ADMIN_KEY@) == Some(k@),
            None => base58_key(ADMIN_KEY@) is None,
        },
{
    parse_pubkey(ADMIN_KEY)
}

} // verus!
