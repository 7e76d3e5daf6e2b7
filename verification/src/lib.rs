//! A verified core for a fungible-token ledger and a single-asset
//! ownership registry.
//!
//! Both components hold their state in plain, in-memory structures and take
//! the authenticated caller as an explicit argument; identity, persistence
//! and payment execution belong to the host around the library.

pub mod nft;
pub mod store;
pub mod token;

pub use nft::{RegistryError, ValueTransferRequest, NFT};
pub use token::{Token, TokenError, TokenStorage};
