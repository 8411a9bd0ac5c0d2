//! The token-program calls that the programs make: what to mint or burn.
use vstd::prelude::*;

verus! {

/// A call into the token program, with the program's mint, token account
/// and payer as its accounts.
#[derive(Clone, Copy, Debug, PartialEq, Eq, Structural)]
pub enum TokenInstruction {
    /// Mint `amount` tokens into the token account.
    MintTo { amount: u64 },
    /// Burn `amount` tokens from the token account.
    Burn { amount: u64 },
}

} // verus!
