//! The proof object: its context, the artifacts it carries, and the sizes and
//! security level derived from its parameters.

use vstd::arithmetic::logarithm::log;
use vstd::arithmetic::power2::pow2;
use vstd::bits::{lemma_u64_pow2_no_overflow, lemma_u64_shl_is_mul};
use vstd::prelude::*;

use crate::errors::ProofError;
use crate::modulus::{bit_length, checked_num_modulus_bits, le_value};
use crate::options::{valid_blowup_factor, ProofOptions};
use crate::powers::{lemma_log2_of_pow2, lemma_pow2_divides, lemma_pow2_is_pow2};
use crate::security::{
    conjectured_security_outcome, estimator_inputs_valid, get_conjectured_security,
    lemma_security_monotone_in_queries,
};

verus! {

/// The proof of the low-degree test, produced and consumed by `winter_fri`.
/// Its contents are not inspected here.
#[verifier::external_type_specification]
#[verifier::external_body]
pub struct ExFriProof(winter_fri::FriProof);

/// `Clone` is derived for `winter_fri::FriProof`; the derived `StarkProof`
/// clone calls it. Nothing is claimed of the copy.
pub assume_specification[ <winter_fri::FriProof as Clone>::clone ](
    fri_proof: &winter_fri::FriProof,
) -> winter_fri::FriProof
;

/// Largest domain depth whose domain size fits in 64 bits.
pub const MAX_LDE_DOMAIN_DEPTH: u8 = 63;

/// Commitments made by the prover, in serialized form.
#[derive(Clone, Debug)]
pub struct Commitments {
    pub bytes: Vec<u8>,
}

/// Answers to the queries against one committed domain, in serialized form.
#[derive(Clone, Debug)]
pub struct Queries {
    pub paths: Vec<u8>,
    pub values: Vec<u8>,
}

/// Evaluations at the out-of-domain point, in serialized form.
#[derive(Clone, Debug)]
pub struct OodFrame {
    pub trace_frame: Vec<u8>,
    pub evaluations: Vec<u8>,
}

/// Parameters of the computation that a proof describes.
#[derive(Clone, Debug)]
pub struct Context {
    /// Base-2 logarithm of the size of the low-degree extension domain.
    pub lde_domain_depth: u8,
    /// Modulus of the base field, in little-endian byte order.
    pub field_modulus_bytes: Vec<u8>,
    /// Protocol parameters used to generate the proof.
    pub options: ProofOptions,
}

/// A proof together with the context needed to interpret it.
#[derive(Clone, Debug)]
pub struct StarkProof {
    pub context: Context,
    pub commitments: Commitments,
    pub trace_queries: Queries,
    pub constraint_queries: Queries,
    pub ood_frame: OodFrame,
    pub fri_proof: winter_fri::FriProof,
    pub pow_nonce: u64,
}

impl Context {
    /// Size of the low-degree extension domain, `2^lde_domain_depth`, where
    /// it fits in 64 bits.
    pub open spec fn lde_domain_size_spec(&self) -> Result<u64, ProofError> {
        if self.lde_domain_depth <= MAX_LDE_DOMAIN_DEPTH {
            Ok(pow2(self.lde_domain_depth as nat) as u64)
        } else {
            Err(ProofError::InvalidInput)
        }
    }

    /// Length of the execution trace: the domain size divided by the blowup
    /// factor, where that division is exact.
    pub open spec fn trace_length_spec(&self) -> Result<u64, ProofError> {
        match self.lde_domain_size_spec() {
            Ok(lde_domain_size) => {
                if lde_domain_size as int % self.options.blowup_factor() as int == 0 {
                    Ok((lde_domain_size as int / self.options.blowup_factor() as int) as u64)
                } else {
                    Err(ProofError::InvalidInput)
                }
            },
            Err(e) => Err(e),
        }
    }

    /// Conjectured security level of a proof with this context.
    pub open spec fn conjectured_security_spec(&self) -> Result<u32, ProofError> {
        match (self.lde_domain_size_spec(), self.trace_length_spec()) {
            (Ok(lde_domain_size), Ok(trace_length)) => {
                let num_bits = bit_length(le_value(self.field_modulus_bytes@));
                if num_bits > u32::MAX {
                    Err(ProofError::Overflow)
                } else {
                    conjectured_security_outcome(
                        self.options,
                        num_bits as u32,
                        lde_domain_size,
                        trace_length,
                    )
                }
            },
            _ => Err(ProofError::InvalidInput),
        }
    }

    /// A context is valid where its blowup factor is admissible, its domain
    /// size fits in 64 bits and holds at least one blowup factor, and its
    /// modulus is non-zero and no longer than `u32::MAX` bits.
    pub open spec fn is_valid(&self) -> bool {
        &&& valid_blowup_factor(self.options.blowup_factor() as int)
        &&& self.lde_domain_depth <= MAX_LDE_DOMAIN_DEPTH
        &&& self.options.blowup_factor() <= pow2(self.lde_domain_depth as nat)
        &&& 0 < bit_length(le_value(self.field_modulus_bytes@)) <= u32::MAX
    }

    /// Builds a context, rejecting parameters that are not valid together.
    pub fn new(
        lde_domain_depth: u8,
        field_modulus_bytes: Vec<u8>,
        options: ProofOptions,
    ) -> (r: Result<Context, ProofError>)
        ensures
            match r {
                Ok(context) => {
                    &&& context.is_valid()
                    &&& context.lde_domain_depth == lde_domain_depth
                    &&& context.field_modulus_bytes == field_modulus_bytes
                    &&& context.options == options
                },
                Err(e) => {
                    &&& e == ProofError::InvalidInput
                    &&& !(Context { lde_domain_depth, field_modulus_bytes, options }).is_valid()
                },
            },
    {
        let blowup_factor: usize = options.blowup_factor();
        if lde_domain_depth > MAX_LDE_DOMAIN_DEPTH {
            return Err(ProofError::InvalidInput);
        }
        let lde_domain_size = domain_size_of_depth(lde_domain_depth);
        if blowup_factor as u64 > lde_domain_size {
            return Err(ProofError::InvalidInput);
        }
        match checked_num_modulus_bits(field_modulus_bytes.as_slice()) {
            Some(num_bits) => {
                if num_bits == 0 {
                    return Err(ProofError::InvalidInput);
                }
            },
            None => {
                return Err(ProofError::InvalidInput);
            },
        }
        Ok(Context { lde_domain_depth, field_modulus_bytes, options })
    }
}

/// Returns `2^depth`.
fn domain_size_of_depth(depth: u8) -> (size: u64)
    requires
        depth <= MAX_LDE_DOMAIN_DEPTH,
    ensures
        size == pow2(depth as nat),
{
    proof {
        lemma_u64_pow2_no_overflow(depth as nat);
        lemma_u64_shl_is_mul(1, depth as u64);
    }
    1u64 << (depth as u64)
}

/// In a valid context the domain size is `2^lde_domain_depth`, the trace
/// length times the blowup factor gives the domain size back, and the base-2
/// logarithm of that product is the depth.
pub proof fn lemma_trace_length_round_trip(context: Context)
    requires
        context.is_valid(),
    ensures
        context.lde_domain_size_spec() matches Ok(lde_domain_size)
            && context.trace_length_spec() matches Ok(trace_length) && {
            &&& lde_domain_size == pow2(context.lde_domain_depth as nat)
            &&& trace_length * context.options.blowup_factor() == lde_domain_size
            &&& log(2, trace_length * context.options.blowup_factor())
                == context.lde_domain_depth
            &&& 0 < trace_length < lde_domain_size
        },
{
    let depth = context.lde_domain_depth as nat;
    let blowup_factor = context.options.blowup_factor() as int;
    let size = pow2(depth) as int;
    lemma_u64_pow2_no_overflow(depth);
    lemma_pow2_is_pow2(depth);
    lemma_pow2_divides(blowup_factor, size);
    lemma_log2_of_pow2(depth);
    let length = size / blowup_factor;
    assert(length * blowup_factor == size && 0 < length < size) by (nonlinear_arith)
        requires
            2 <= blowup_factor <= size,
            size % blowup_factor == 0,
            length == size / blowup_factor,
    ;
}

/// A valid context is never reported as invalid: the estimator is reached
/// with sizes that it accepts, and decides the outcome.
pub proof fn lemma_valid_context_is_accepted(context: Context)
    requires
        context.is_valid(),
    ensures
        context.lde_domain_size_spec() matches Ok(lde_domain_size)
            && context.trace_length_spec() matches Ok(trace_length) && {
            let num_bits = bit_length(le_value(context.field_modulus_bytes@)) as u32;
            &&& estimator_inputs_valid(num_bits, lde_domain_size, trace_length)
            &&& context.conjectured_security_spec() == conjectured_security_outcome(
                context.options,
                num_bits,
                lde_domain_size,
                trace_length,
            )
            &&& context.conjectured_security_spec() != Err::<u32, ProofError>(
                ProofError::InvalidInput,
            )
        },
{
    lemma_trace_length_round_trip(context);
    lemma_pow2_is_pow2(context.lde_domain_depth as nat);
    let size = pow2(context.lde_domain_depth as nat) as int;
    let blowup_factor = context.options.blowup_factor() as int;
    let length = size / blowup_factor;
    assert(size % length == 0) by (nonlinear_arith)
        requires
            length * blowup_factor == size,
            length > 0,
    ;
}

/// An all-zero modulus and a domain depth above 63 are each reported as
/// invalid input.
pub proof fn lemma_degenerate_context_is_rejected(context: Context)
    requires
        le_value(context.field_modulus_bytes@) == 0 || context.lde_domain_depth > 63,
    ensures
        context.conjectured_security_spec() == Err::<u32, ProofError>(ProofError::InvalidInput),
{
}

/// Between two contexts that differ in the number of queries only, the one
/// with more queries has at least the conjectured security level of the
/// other, wherever the other has one.
pub proof fn lemma_security_level_monotone_in_queries(fewer: Context, more: Context)
    requires
        fewer.lde_domain_depth == more.lde_domain_depth,
        fewer.field_modulus_bytes@ == more.field_modulus_bytes@,
        fewer.options.blowup_factor() == more.options.blowup_factor(),
        fewer.options.grinding_factor() == more.options.grinding_factor(),
        fewer.options.hash_fn() == more.options.hash_fn(),
        fewer.options.field_extension() == more.options.field_extension(),
        fewer.options.num_queries() <= more.options.num_queries(),
    ensures
        fewer.conjectured_security_spec() matches Ok(low) ==> (more.conjectured_security_spec()
            matches Ok(high) && low <= high),
{
    if fewer.conjectured_security_spec() is Ok {
        let lde_domain_size = fewer.lde_domain_size_spec()->Ok_0;
        let trace_length = fewer.trace_length_spec()->Ok_0;
        let num_bits = bit_length(le_value(fewer.field_modulus_bytes@)) as u32;
        lemma_security_monotone_in_queries(
            fewer.options,
            more.options,
            num_bits,
            lde_domain_size,
            trace_length,
        );
    }
}

impl StarkProof {
    /// Returns the proof options which were used to generate this proof.
    pub fn options(&self) -> (options: &ProofOptions)
        ensures
            *options == self.context.options,
    {
        &self.context.options
    }

    /// Returns the size of the low-degree extension domain for the
    /// computation described by this proof: `2^lde_domain_depth`, or
    /// `InvalidInput` where the depth exceeds 63.
    pub fn lde_domain_size(&self) -> (r: Result<u64, ProofError>)
        ensures
            r == self.context.lde_domain_size_spec(),
            self.context.lde_domain_depth <= 63 ==> (r matches Ok(size) && size == pow2(
                self.context.lde_domain_depth as nat,
            )),
            self.context.lde_domain_depth > 63 ==> r == Err::<u64, ProofError>(
                ProofError::InvalidInput,
            ),
    {
        if self.context.lde_domain_depth > MAX_LDE_DOMAIN_DEPTH {
            return Err(ProofError::InvalidInput);
        }
        Ok(domain_size_of_depth(self.context.lde_domain_depth))
    }

    /// Returns the trace length for the computation described by this proof:
    /// the domain size divided by the blowup factor, or `InvalidInput` where
    /// the domain size is not available or the division is not exact.
    pub fn trace_length(&self) -> (r: Result<u64, ProofError>)
        ensures
            r == self.context.trace_length_spec(),
            r matches Ok(trace_length) ==> trace_length * self.context.options.blowup_factor()
                == pow2(self.context.lde_domain_depth as nat),
    {
        let lde_domain_size = match self.lde_domain_size() {
            Ok(size) => size,
            Err(e) => {
                return Err(e);
            },
        };
        let blowup_factor: u64 = self.context.options.blowup_factor() as u64;
        if lde_domain_size % blowup_factor != 0 {
            return Err(ProofError::InvalidInput);
        }
        let trace_length = lde_domain_size / blowup_factor;
        assert(trace_length * blowup_factor == lde_domain_size) by (nonlinear_arith)
            requires
                blowup_factor > 0,
                lde_domain_size % blowup_factor == 0,
                trace_length == lde_domain_size / blowup_factor,
        ;
        Ok(trace_length)
    }

    /// What `security_level` reports: `Unsupported` for the provable level,
    /// otherwise the conjectured level of the proof's context.
    pub open spec fn security_level_spec(&self, conjectured: bool) -> Result<u32, ProofError> {
        if conjectured {
            self.context.conjectured_security_spec()
        } else {
            Err(ProofError::Unsupported)
        }
    }

    /// Returns the security level of this proof in bits.
    ///
    /// With `conjectured` set, the conjectured security level is estimated
    /// from the proof's context. The provable security level has no
    /// estimator: asking for it always yields `Unsupported`.
    pub fn security_level(&self, conjectured: bool) -> (r: Result<u32, ProofError>)
        ensures
            r == self.security_level_spec(conjectured),
            !conjectured ==> r == Err::<u32, ProofError>(ProofError::Unsupported),
            conjectured && (le_value(self.context.field_modulus_bytes@) == 0
                || self.context.lde_domain_depth > 63) ==> r == Err::<u32, ProofError>(
                ProofError::InvalidInput,
            ),
    {
        if !conjectured {
            return Err(ProofError::Unsupported);
        }
        let lde_domain_size = match self.lde_domain_size() {
            Ok(size) => size,
            Err(e) => {
                return Err(e);
            },
        };
        let trace_length = match self.trace_length() {
            Ok(length) => length,
            Err(e) => {
                return Err(e);
            },
        };
        let base_field_size_bits = match checked_num_modulus_bits(
            self.context.field_modulus_bytes.as_slice(),
        ) {
            Some(num_bits) => num_bits,
            None => {
                return Err(ProofError::Overflow);
            },
        };
        get_conjectured_security(
            &self.context.options,
            base_field_size_bits,
            lde_domain_size,
            trace_length,
        )
    }
}

} // verus!
