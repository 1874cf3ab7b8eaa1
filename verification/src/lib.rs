//! Proof object of a STARK-style argument system together with an estimator
//! of the conjectured security level that the proof's parameters provide.
//!
//! Every executable function in this crate carries a contract stated over
//! mathematical integers and sequences, and is proved against it.

pub mod errors;
pub mod modulus;
pub mod options;
pub mod powers;
pub mod security;
pub mod stark_proof;

pub use errors::ProofError;
pub use modulus::{checked_num_modulus_bits, get_num_modulus_bits};
pub use options::{FieldExtension, HashFunction, ProofOptions};
pub use powers::is_power_of_two;
pub use security::get_conjectured_security;
pub use stark_proof::{Commitments, Context, OodFrame, Queries, StarkProof};
