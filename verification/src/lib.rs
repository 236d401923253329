//! Core of a STARK proving pipeline for a stack-machine VM: the master-table
//! machinery that turns an algebraic execution trace into low-degree-extended,
//! Merkle-committed columns, and the Fiat-Shamir proof stream that serialises
//! the prover-verifier transcript non-interactively.

pub mod arithmetic_domain;
pub mod bfield;
pub mod codec;
pub mod master_table;
pub mod merkle;
pub mod proof_item;
pub mod proof_stream;
pub mod table_column;
pub mod tip5;
pub mod xfield;
