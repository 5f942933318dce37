//! Verified core of an on-chain oracle that accepts Ethereum-signed messages:
//! address text codec, `personal_sign` preimage construction, signature
//! recovery, and an at-most-once message verification registry.
pub mod address;
pub mod crypto;
pub mod pallet;
pub mod registry;
