//! Conjectured security level of a proof, derived from its parameters.

use vstd::arithmetic::logarithm::{lemma_log_nonnegative, lemma_log_s, log};
use vstd::arithmetic::power2::is_pow2;
use vstd::prelude::*;

use crate::errors::ProofError;
use crate::options::ProofOptions;
use crate::powers::{exact_log2, is_power_of_two, lemma_pow2_exact_quotient};

verus! {

/// Query security below which the proof-of-work contributes nothing.
pub const GRINDING_CONTRIBUTION_FLOOR: u32 = 80;

/// The smallest of three integers.
pub open spec fn min3(a: int, b: int, c: int) -> int {
    if a <= b && a <= c {
        a
    } else if b <= c {
        b
    } else {
        c
    }
}

/// Whether the estimator accepts the sizes it is given: a non-zero field
/// size, a domain that is a power of two, and a non-zero trace length that
/// is smaller than the domain and divides it.
pub open spec fn estimator_inputs_valid(
    base_field_size: u32,
    lde_domain_size: u64,
    trace_length: u64,
) -> bool {
    &&& base_field_size > 0
    &&& is_pow2(lde_domain_size as int)
    &&& 0 < trace_length < lde_domain_size
    &&& lde_domain_size % trace_length == 0
}

/// Security that the size of the extension field allows: its bit size less
/// the base-2 logarithm of the domain size.
pub open spec fn field_security(
    options: ProofOptions,
    base_field_size: u32,
    lde_domain_size: u64,
) -> int {
    base_field_size * options.field_extension().degree() - log(2, lde_domain_size as int)
}

/// Security gained per query round: the base-2 logarithm of the inverse code
/// rate, rounded down.
pub open spec fn security_per_query(lde_domain_size: u64, trace_length: u64) -> int {
    log(2, lde_domain_size as int / trace_length as int)
}

/// Security from all query rounds; the grinding factor is credited only when
/// the rounds alone reach the floor.
pub open spec fn query_security(
    options: ProofOptions,
    lde_domain_size: u64,
    trace_length: u64,
) -> int {
    let rounds = security_per_query(lde_domain_size, trace_length) * options.num_queries();
    if rounds >= GRINDING_CONTRIBUTION_FLOOR {
        rounds + options.grinding_factor()
    } else {
        rounds
    }
}

/// The conjectured security level in bits: the weakest of field, hash and
/// query security, less a one-bit margin. Negative where one of them is zero
/// or the domain has more points than the field.
pub open spec fn conjectured_security(
    options: ProofOptions,
    base_field_size: u32,
    lde_domain_size: u64,
    trace_length: u64,
) -> int {
    min3(
        field_security(options, base_field_size, lde_domain_size),
        options.hash_fn().collision_resistance() as int,
        query_security(options, lde_domain_size, trace_length),
    ) - 1
}

/// The most that any number of queries can reach: the weaker of field and
/// hash security.
pub open spec fn security_cap(
    options: ProofOptions,
    base_field_size: u32,
    lde_domain_size: u64,
) -> int {
    vstd::math::min(
        field_security(options, base_field_size, lde_domain_size),
        options.hash_fn().collision_resistance() as int,
    )
}

/// What the estimator reports for each input.
pub open spec fn conjectured_security_outcome(
    options: ProofOptions,
    base_field_size: u32,
    lde_domain_size: u64,
    trace_length: u64,
) -> Result<u32, ProofError> {
    let level = conjectured_security(options, base_field_size, lde_domain_size, trace_length);
    if !estimator_inputs_valid(base_field_size, lde_domain_size, trace_length) {
        Err(ProofError::InvalidInput)
    } else if level < 0 {
        Err(ProofError::Overflow)
    } else {
        Ok(level as u32)
    }
}

/// The security gained per query round is never negative, and is at least
/// one bit where the trace is shorter than the domain and divides it.
pub proof fn lemma_security_per_query_bounds(lde_domain_size: u64, trace_length: u64)
    ensures
        security_per_query(lde_domain_size, trace_length) >= 0,
        0 < trace_length < lde_domain_size && lde_domain_size % trace_length == 0
            ==> security_per_query(lde_domain_size, trace_length) >= 1,
{
    let ratio = lde_domain_size as int / trace_length as int;
    if ratio >= 0 {
        lemma_log_nonnegative(2, ratio);
    } else {
        reveal(log);
    }
    if 0 < trace_length < lde_domain_size && lde_domain_size % trace_length == 0 {
        assert(ratio >= 2) by (nonlinear_arith)
            requires
                0 < trace_length < lde_domain_size,
                lde_domain_size % trace_length == 0,
                ratio == lde_domain_size as int / trace_length as int,
        ;
        lemma_log_s(2, ratio);
        lemma_log_nonnegative(2, ratio / 2);
    }
}

/// With everything else fixed, the conjectured security level does not
/// decrease as the number of queries grows; and where the estimator reports
/// a level for the smaller number, it reports one for the larger as well.
pub proof fn lemma_security_monotone_in_queries(
    fewer: ProofOptions,
    more: ProofOptions,
    base_field_size: u32,
    lde_domain_size: u64,
    trace_length: u64,
)
    requires
        fewer.num_queries() <= more.num_queries(),
        fewer.grinding_factor() == more.grinding_factor(),
        fewer.hash_fn() == more.hash_fn(),
        fewer.field_extension() == more.field_extension(),
    ensures
        conjectured_security(fewer, base_field_size, lde_domain_size, trace_length)
            <= conjectured_security(more, base_field_size, lde_domain_size, trace_length),
        conjectured_security_outcome(
            fewer,
            base_field_size,
            lde_domain_size,
            trace_length,
        ) matches Ok(low) ==> (conjectured_security_outcome(
            more,
            base_field_size,
            lde_domain_size,
            trace_length,
        ) matches Ok(high) && low <= high),
{
    let per_query = security_per_query(lde_domain_size, trace_length);
    lemma_security_per_query_bounds(lde_domain_size, trace_length);
    assert(per_query * fewer.num_queries() <= per_query * more.num_queries())
        by (nonlinear_arith)
        requires
            per_query >= 0,
            fewer.num_queries() <= more.num_queries(),
    ;
}

/// The conjectured security level never exceeds what field and hash allow,
/// less the one-bit margin, and equals that bound once the query security
/// reaches it.
pub proof fn lemma_security_saturates(
    options: ProofOptions,
    base_field_size: u32,
    lde_domain_size: u64,
    trace_length: u64,
)
    ensures
        ({
            let cap = security_cap(options, base_field_size, lde_domain_size);
            let level = conjectured_security(
                options,
                base_field_size,
                lde_domain_size,
                trace_length,
            );
            &&& level <= cap - 1
            &&& query_security(options, lde_domain_size, trace_length) >= cap ==> level == cap - 1
        }),
{
}

/// Where the inputs are valid, the field is larger than the domain and at
/// least one query is made, a level is reported: the weakest of the three
/// securities less one, which is not negative.
pub proof fn lemma_security_of_sound_parameters(
    options: ProofOptions,
    base_field_size: u32,
    lde_domain_size: u64,
    trace_length: u64,
)
    requires
        estimator_inputs_valid(base_field_size, lde_domain_size, trace_length),
        field_security(options, base_field_size, lde_domain_size) > 0,
        options.num_queries() > 0,
    ensures
        conjectured_security(options, base_field_size, lde_domain_size, trace_length) >= 0,
        conjectured_security_outcome(options, base_field_size, lde_domain_size, trace_length)
            == Ok::<u32, ProofError>(
            (min3(
                field_security(options, base_field_size, lde_domain_size),
                options.hash_fn().collision_resistance() as int,
                query_security(options, lde_domain_size, trace_length),
            ) - 1) as u32,
        ),
{
    let per_query = security_per_query(lde_domain_size, trace_length);
    lemma_security_per_query_bounds(lde_domain_size, trace_length);
    assert(per_query * options.num_queries() >= 1) by (nonlinear_arith)
        requires
            per_query >= 1,
            options.num_queries() >= 1,
    ;
}

/// Computes the conjectured security level, in bits, of a proof generated
/// with `options` over a base field of `base_field_size` bits, for the given
/// domain size and trace length.
pub fn get_conjectured_security(
    options: &ProofOptions,
    base_field_size: u32,
    lde_domain_size: u64,
    trace_length: u64,
) -> (r: Result<u32, ProofError>)
    ensures
        r == conjectured_security_outcome(*options, base_field_size, lde_domain_size, trace_length),
        base_field_size == 0 || lde_domain_size <= trace_length ==> r == Err::<u32, ProofError>(
            ProofError::InvalidInput,
        ),
{
    if base_field_size == 0 || trace_length == 0 || lde_domain_size <= trace_length
        || !is_power_of_two(lde_domain_size) || lde_domain_size % trace_length != 0 {
        return Err(ProofError::InvalidInput);
    }
    // security that the field size allows
    let degree: u32 = options.field_extension().degree();
    assert(base_field_size as int * degree as int <= 0xffff_ffff * 3) by (nonlinear_arith)
        requires
            0 <= base_field_size as int <= 0xffff_ffff,
            0 <= degree as int <= 3,
    ;
    let field_size: u64 = base_field_size as u64 * degree as u64;
    let domain_bits: u32 = exact_log2(lde_domain_size);

    // security that the hash function allows
    let hash_fn_security: u32 = options.hash_fn().collision_resistance();

    // security from the query rounds
    let one_over_rho: u64 = lde_domain_size / trace_length;
    proof {
        lemma_pow2_exact_quotient(lde_domain_size as int, trace_length as int);
    }
    let per_query: u32 = exact_log2(one_over_rho);
    proof {
        assert(per_query as int * options.num_queries() as int <= 0xffff_ffff * 0xffff_ffff_ffff_ffff)
            by (nonlinear_arith)
            requires
                0 <= per_query as int <= 0xffff_ffff,
                0 <= options.num_queries() as int <= 0xffff_ffff_ffff_ffff,
        ;
    }
    let mut query_security: u128 = per_query as u128 * options.num_queries() as u128;
    if query_security >= GRINDING_CONTRIBUTION_FLOOR as u128 {
        query_security = query_security + options.grinding_factor() as u128;
    }
    if field_size < domain_bits as u64 {
        return Err(ProofError::Overflow);
    }
    let field_security: u64 = field_size - domain_bits as u64;

    let mut weakest: u128 = hash_fn_security as u128;
    if (field_security as u128) < weakest {
        weakest = field_security as u128;
    }
    if query_security < weakest {
        weakest = query_security;
    }
    if weakest == 0 {
        return Err(ProofError::Overflow);
    }
    Ok((weakest - 1) as u32)
}

} // verus!
