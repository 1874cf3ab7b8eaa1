use stark_proof::security::GRINDING_CONTRIBUTION_FLOOR;
use stark_proof::{
    get_conjectured_security, FieldExtension, HashFunction, ProofError, ProofOptions,
};

fn options(num_queries: usize, grinding_factor: u32, extension: FieldExtension) -> ProofOptions {
    ProofOptions::new(num_queries, 2, grinding_factor, HashFunction::Blake3_256, extension).unwrap()
}

#[test]
fn grinding_floor_is_80() {
    assert_eq!(GRINDING_CONTRIBUTION_FLOOR, 80);
}

#[test]
fn grinding_is_not_credited_below_the_floor() {
    // one bit per query, 79 queries: the grinding factor of 20 is left out
    let o = options(79, 20, FieldExtension::Base);
    assert_eq!(get_conjectured_security(&o, 128, 1024, 512), Ok(78));
}

#[test]
fn grinding_is_credited_at_the_floor() {
    // one bit per query, 80 queries: 80 + 20, less the margin
    let o = options(80, 20, FieldExtension::Base);
    assert_eq!(get_conjectured_security(&o, 128, 1024, 512), Ok(99));
}

#[test]
fn grinding_floor_with_several_bits_per_query() {
    // 2^15 / 2^12 = 8: three bits per query
    let o = options(26, 20, FieldExtension::Base);
    assert_eq!(get_conjectured_security(&o, 128, 1 << 15, 1 << 12), Ok(77));
    let o = options(27, 20, FieldExtension::Base);
    assert_eq!(get_conjectured_security(&o, 128, 1 << 15, 1 << 12), Ok(100));
    let o = options(28, 16, FieldExtension::Base);
    assert_eq!(get_conjectured_security(&o, 128, 1 << 15, 1 << 12), Ok(99));
}

#[test]
fn field_security_caps_the_level() {
    // 62-bit field, quadratic extension, domain of 2^20: 124 - 20 = 104
    let o = options(42, 0, FieldExtension::Quadratic);
    assert_eq!(get_conjectured_security(&o, 62, 1 << 20, 1 << 17), Ok(103));
    // base field alone: 62 - 20 = 42
    let o = options(42, 0, FieldExtension::Base);
    assert_eq!(get_conjectured_security(&o, 62, 1 << 20, 1 << 17), Ok(41));
    // cubic extension: 186 - 20 = 166, so queries (126) decide
    let o = options(42, 0, FieldExtension::Cubic);
    assert_eq!(get_conjectured_security(&o, 62, 1 << 20, 1 << 17), Ok(125));
}

#[test]
fn hash_security_caps_the_level() {
    let o = options(1000, 32, FieldExtension::Cubic);
    assert_eq!(get_conjectured_security(&o, 64, 1 << 10, 1 << 9), Ok(127));
    let o = ProofOptions::new(1000, 2, 32, HashFunction::Sha3_256, FieldExtension::Cubic).unwrap();
    assert_eq!(get_conjectured_security(&o, 64, 1 << 10, 1 << 9), Ok(127));
}

#[test]
fn level_is_monotone_in_the_number_of_queries() {
    let mut last: Option<u32> = None;
    for num_queries in 0..400usize {
        let o = options(num_queries, 20, FieldExtension::Base);
        let r = get_conjectured_security(&o, 128, 1 << 12, 1 << 11);
        match (last, r) {
            (None, Err(e)) => assert_eq!(e, ProofError::Overflow),
            (None, Ok(level)) => last = Some(level),
            (Some(before), Ok(level)) => {
                assert!(before <= level);
                last = Some(level);
            }
            (Some(_), Err(_)) => panic!("a level was lost at {} queries", num_queries),
        }
    }
    // saturated at min(128 - 12, 128) - 1
    assert_eq!(last, Some(115));
}

#[test]
fn level_saturates_at_field_and_hash_security() {
    for num_queries in [116usize, 117, 200, 5000, usize::MAX] {
        let o = options(num_queries, 0, FieldExtension::Base);
        assert_eq!(get_conjectured_security(&o, 128, 1 << 12, 1 << 11), Ok(115));
    }
    let o = options(115, 0, FieldExtension::Base);
    assert_eq!(get_conjectured_security(&o, 128, 1 << 12, 1 << 11), Ok(114));
}

#[test]
fn zero_field_size_is_invalid() {
    let o = options(80, 20, FieldExtension::Base);
    assert_eq!(get_conjectured_security(&o, 0, 1024, 512), Err(ProofError::InvalidInput));
}

#[test]
fn domain_must_exceed_the_trace() {
    let o = options(80, 20, FieldExtension::Base);
    assert_eq!(get_conjectured_security(&o, 128, 1024, 1024), Err(ProofError::InvalidInput));
    assert_eq!(get_conjectured_security(&o, 128, 1024, 2048), Err(ProofError::InvalidInput));
    assert_eq!(get_conjectured_security(&o, 128, 1, 1), Err(ProofError::InvalidInput));
    assert_eq!(get_conjectured_security(&o, 128, 0, 0), Err(ProofError::InvalidInput));
}

#[test]
fn zero_trace_length_is_invalid() {
    let o = options(80, 20, FieldExtension::Base);
    assert_eq!(get_conjectured_security(&o, 128, 1024, 0), Err(ProofError::InvalidInput));
}

#[test]
fn domain_must_be_a_power_of_two() {
    let o = options(80, 20, FieldExtension::Base);
    assert_eq!(get_conjectured_security(&o, 128, 1000, 500), Err(ProofError::InvalidInput));
    assert_eq!(get_conjectured_security(&o, 128, 12, 4), Err(ProofError::InvalidInput));
    assert_eq!(get_conjectured_security(&o, 128, u64::MAX, 1), Err(ProofError::InvalidInput));
}

#[test]
fn trace_must_divide_the_domain() {
    let o = options(80, 20, FieldExtension::Base);
    assert_eq!(get_conjectured_security(&o, 128, 1024, 3), Err(ProofError::InvalidInput));
    assert_eq!(get_conjectured_security(&o, 128, 1024, 1000), Err(ProofError::InvalidInput));
    assert_eq!(get_conjectured_security(&o, 128, 16, 5), Err(ProofError::InvalidInput));
}

#[test]
fn field_smaller_than_domain_overflows() {
    let o = options(80, 20, FieldExtension::Base);
    assert_eq!(get_conjectured_security(&o, 4, 1024, 512), Err(ProofError::Overflow));
    assert_eq!(get_conjectured_security(&o, 9, 1024, 512), Err(ProofError::Overflow));
    // field security of zero leaves nothing for the margin
    assert_eq!(get_conjectured_security(&o, 10, 1024, 512), Err(ProofError::Overflow));
    assert_eq!(get_conjectured_security(&o, 11, 1024, 512), Ok(0));
    assert_eq!(get_conjectured_security(&o, 12, 1024, 512), Ok(1));
}

#[test]
fn no_queries_overflow() {
    let o = options(0, 20, FieldExtension::Base);
    assert_eq!(get_conjectured_security(&o, 128, 1024, 512), Err(ProofError::Overflow));
    let o = options(1, 20, FieldExtension::Base);
    assert_eq!(get_conjectured_security(&o, 128, 1024, 512), Ok(0));
    let o = options(2, 20, FieldExtension::Base);
    assert_eq!(get_conjectured_security(&o, 128, 1024, 512), Ok(1));
}

#[test]
fn logarithms_are_taken_of_domain_and_rate() {
    // field security 64 - log2(domain); queries 10 * log2(domain / trace)
    let o = options(10, 0, FieldExtension::Base);
    assert_eq!(get_conjectured_security(&o, 64, 1 << 4, 1 << 3), Ok(9));
    assert_eq!(get_conjectured_security(&o, 64, 1 << 4, 1 << 2), Ok(19));
    assert_eq!(get_conjectured_security(&o, 64, 1 << 4, 1 << 1), Ok(29));
    assert_eq!(get_conjectured_security(&o, 64, 1 << 4, 1), Ok(39));
    assert_eq!(get_conjectured_security(&o, 64, 1 << 40, 1 << 32), Ok(23));
    assert_eq!(get_conjectured_security(&o, 64, 1 << 62, 1 << 61), Ok(1));
    assert_eq!(get_conjectured_security(&o, 64, 1 << 63, 1 << 62), Ok(0));
    assert_eq!(get_conjectured_security(&o, 65, 1 << 63, 1), Ok(1));
    assert_eq!(get_conjectured_security(&o, 63, 1 << 63, 1), Err(ProofError::Overflow));
}

#[test]
fn large_values_do_not_wrap() {
    let o = ProofOptions::new(
        usize::MAX,
        2,
        u32::MAX,
        HashFunction::Blake3_256,
        FieldExtension::Cubic,
    )
    .unwrap();
    assert_eq!(get_conjectured_security(&o, u32::MAX, 1 << 63, 1), Ok(127));
    assert_eq!(get_conjectured_security(&o, u32::MAX, 2, 1), Ok(127));
    let o = options(79, u32::MAX, FieldExtension::Base);
    assert_eq!(get_conjectured_security(&o, u32::MAX, 2, 1), Ok(78));
    let o = options(80, u32::MAX, FieldExtension::Base);
    assert_eq!(get_conjectured_security(&o, u32::MAX, 2, 1), Ok(127));
}

#[test]
fn blowup_factor_of_the_options_is_not_consulted() {
    let narrow =
        ProofOptions::new(10, 2, 0, HashFunction::Blake3_256, FieldExtension::Base).unwrap();
    let wide =
        ProofOptions::new(10, 64, 0, HashFunction::Blake3_256, FieldExtension::Base).unwrap();
    assert_eq!(
        get_conjectured_security(&narrow, 64, 1 << 8, 1 << 5),
        get_conjectured_security(&wide, 64, 1 << 8, 1 << 5)
    );
    assert_eq!(get_conjectured_security(&wide, 64, 1 << 8, 1 << 5), Ok(29));
}
