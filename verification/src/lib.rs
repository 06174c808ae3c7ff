//! Verified building blocks of a few small chain modules.
//!
//! The kitties registry is the heart of the crate: `links` and `laws` hold
//! the ownership index as mathematics and what its operations mean,
//! `ownership` keeps the index in one flat map, `dna` mixes the genes of two
//! parents, `seed` draws sixteen bytes for a call, `kitties` ties them into
//! the module's calls, and `exclusivity` states what holds of its storage
//! between calls. Beside it stand a token ledger (`erc20`, over `table`), a
//! proof-of-existence module (`poe`) and a greeter that counts to five
//! (`hello`).

pub mod dna;
pub mod erc20;
pub mod exclusivity;
pub mod hello;
pub mod kitties;
pub mod laws;
pub mod links;
pub mod ownership;
pub mod poe;
pub mod seed;
pub mod table;
