//! A proposal-voting state machine, a secp256k1 key wallet and the fee
//! polynomial of the parachain runtime that hosts the voting pallet.

pub mod hex_codec;
pub mod runtime;
pub mod voting;
pub mod wallet;
pub mod voting_laws;
