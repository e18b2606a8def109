//! Core of an Albatross proof-of-stake node: the block calendar, keys and transactions with
//! their signature proofs and wire format, tagged signatures, the peaks-only history store and
//! the validity store, the full and the light block pipelines with fork choice and equivocation
//! reports, the macro-block consensus of one height, and the decisions of the zero-knowledge
//! prover.

pub mod account;
pub mod blockchain;
pub mod chain;
pub mod codec;
pub mod database;
pub mod equivocation;
pub mod history;
pub mod keys;
pub mod messages;
pub mod mmr;
pub mod policy;
pub mod primitives;
pub mod signature_proof;
pub mod tagged_signing;
pub mod tendermint;
pub mod transaction;
pub mod validity;
pub mod webauthn;
pub mod wire;
pub mod zkp;
