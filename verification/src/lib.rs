//! Ownership, breeding and trading of collectible kitties, as one explicit
//! state container whose every transition is proved against a mathematical
//! model of the registry.

pub mod types;
pub mod index;
pub mod genesis;
pub mod genome;
pub mod laws;
pub mod lists;
pub mod pallet;
pub mod random;
pub mod restore;
pub mod state;

pub use crate::genesis::GenesisConfig;
pub use crate::pallet::Pallet;
pub use crate::types::{AccountId, Balance, Error, Event, Kitty, KittyIndex, Payment, Seed};
