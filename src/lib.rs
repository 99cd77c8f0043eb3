//! Transaction authorization and proof composition for a private ledger.
//!
//! A Schnorr-style signature scheme authorizes the input records of a state
//! transition; execution then runs the program, encrypts the output records
//! and composes an inner and an outer proof into a transaction. All of it is
//! generic over a `Network`, which supplies the group, hashing, record and
//! proving machinery; `testnet::Testnet` is a small instance of it.
pub mod authorization;
pub mod error;
pub mod execute;
pub mod network;
pub mod packing;
pub mod pipeline;
pub mod signature;
pub mod testnet;
