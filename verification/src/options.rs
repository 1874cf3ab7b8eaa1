//! Parameters under which a proof was generated.

use vstd::arithmetic::power2::is_pow2;
use vstd::prelude::*;

use crate::errors::ProofError;
use crate::powers::is_power_of_two;

verus! {

/// Degree of the extension of the base field in which the protocol draws its
/// random values.
#[derive(Clone, Copy, Debug, PartialEq, Eq, Structural)]
pub enum FieldExtension {
    /// The base field itself.
    Base,
    /// A quadratic extension.
    Quadratic,
    /// A cubic extension.
    Cubic,
}

impl FieldExtension {
    /// Degree of the extension as a number: 1, 2 or 3.
    pub open spec fn degree_spec(self) -> u32 {
        match self {
            FieldExtension::Base => 1,
            FieldExtension::Quadratic => 2,
            FieldExtension::Cubic => 3,
        }
    }

    /// Returns the extension degree.
    #[verifier::when_used_as_spec(degree_spec)]
    pub fn degree(self) -> (d: u32)
        ensures
            d == self.degree_spec(),
    {
        match self {
            FieldExtension::Base => 1,
            FieldExtension::Quadratic => 2,
            FieldExtension::Cubic => 3,
        }
    }
}

/// Hash function used to build commitments and to draw challenges.
#[allow(non_camel_case_types)]
#[derive(Clone, Copy, Debug, PartialEq, Eq, Structural)]
pub enum HashFunction {
    /// BLAKE3 with 256-bit output.
    Blake3_256,
    /// SHA-3 with 256-bit output.
    Sha3_256,
}

impl HashFunction {
    /// Collision resistance of the hash function in bits.
    pub open spec fn collision_resistance_spec(self) -> u32 {
        match self {
            HashFunction::Blake3_256 => 128,
            HashFunction::Sha3_256 => 128,
        }
    }

    /// Returns the collision resistance of the hash function in bits.
    #[verifier::when_used_as_spec(collision_resistance_spec)]
    pub fn collision_resistance(self) -> (bits: u32)
        ensures
            bits == self.collision_resistance_spec(),
    {
        match self {
            HashFunction::Blake3_256 => 128,
            HashFunction::Sha3_256 => 128,
        }
    }
}

/// Whether `blowup_factor` is admissible: a power of two that is at least 2.
pub open spec fn valid_blowup_factor(blowup_factor: int) -> bool {
    blowup_factor >= 2 && is_pow2(blowup_factor)
}

/// Protocol parameters. A value of this type always holds an admissible
/// blowup factor.
#[derive(Clone, Copy, Debug, PartialEq, Eq, Structural)]
pub struct ProofOptions {
    num_queries: usize,
    blowup_factor: usize,
    grinding_factor: u32,
    hash_fn: HashFunction,
    field_extension: FieldExtension,
}

impl ProofOptions {
    #[verifier::type_invariant]
    spec fn well_formed(self) -> bool {
        valid_blowup_factor(self.blowup_factor as int)
    }

    /// Number of query rounds.
    pub closed spec fn num_queries_spec(&self) -> usize {
        self.num_queries
    }

    /// Ratio between the size of the extended domain and the trace length.
    pub closed spec fn blowup_factor_spec(&self) -> usize {
        self.blowup_factor
    }

    /// Proof-of-work difficulty in bits.
    pub closed spec fn grinding_factor_spec(&self) -> u32 {
        self.grinding_factor
    }

    /// The configured hash function.
    pub closed spec fn hash_fn_spec(&self) -> HashFunction {
        self.hash_fn
    }

    /// The configured field extension.
    pub closed spec fn field_extension_spec(&self) -> FieldExtension {
        self.field_extension
    }

    /// Builds a parameter set, rejecting a blowup factor that is not a power
    /// of two or is smaller than 2.
    pub fn new(
        num_queries: usize,
        blowup_factor: usize,
        grinding_factor: u32,
        hash_fn: HashFunction,
        field_extension: FieldExtension,
    ) -> (r: Result<ProofOptions, ProofError>)
        ensures
            match r {
                Ok(options) => {
                    &&& valid_blowup_factor(blowup_factor as int)
                    &&& options.num_queries() == num_queries
                    &&& options.blowup_factor() == blowup_factor
                    &&& options.grinding_factor() == grinding_factor
                    &&& options.hash_fn() == hash_fn
                    &&& options.field_extension() == field_extension
                },
                Err(e) => e == ProofError::InvalidInput && !valid_blowup_factor(blowup_factor as int),
            },
    {
        if blowup_factor >= 2 && is_power_of_two(blowup_factor as u64) {
            Ok(ProofOptions { num_queries, blowup_factor, grinding_factor, hash_fn, field_extension })
        } else {
            Err(ProofError::InvalidInput)
        }
    }

    /// Returns the number of query rounds.
    #[verifier::when_used_as_spec(num_queries_spec)]
    pub fn num_queries(&self) -> (n: usize)
        ensures
            n == self.num_queries(),
    {
        self.num_queries
    }

    /// Returns the blowup factor, a power of two that is at least 2.
    #[verifier::when_used_as_spec(blowup_factor_spec)]
    pub fn blowup_factor(&self) -> (b: usize)
        ensures
            b == self.blowup_factor(),
            valid_blowup_factor(b as int),
    {
        proof {
            use_type_invariant(self);
        }
        self.blowup_factor
    }

    /// Returns the proof-of-work difficulty in bits.
    #[verifier::when_used_as_spec(grinding_factor_spec)]
    pub fn grinding_factor(&self) -> (g: u32)
        ensures
            g == self.grinding_factor(),
    {
        self.grinding_factor
    }

    /// Returns the configured hash function.
    #[verifier::when_used_as_spec(hash_fn_spec)]
    pub fn hash_fn(&self) -> (h: HashFunction)
        ensures
            h == self.hash_fn(),
    {
        self.hash_fn
    }

    /// Returns the configured field extension.
    #[verifier::when_used_as_spec(field_extension_spec)]
    pub fn field_extension(&self) -> (e: FieldExtension)
        ensures
            e == self.field_extension(),
    {
        self.field_extension
    }
}

} // verus!
