//! Account logic of two Solana programs, the GIF portal and Vinci World:
//! their accounts, the decisions of each instruction, and the byte layout in
//! which accounts are stored.
pub mod gifportal;
pub mod keys;
pub mod layout;
pub mod metadata;
pub mod model;
pub mod numbers;
pub mod token;
pub mod vinci_world;
