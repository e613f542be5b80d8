use cairo_fuzzer::native::argument_type::{map_argument_type, ArgumentType};
use cairo_fuzzer::native::fuzzer::{
    argument_types_of, generate_params, is_crash, is_proptest_entry_point, max_iterations,
    mutate_parameters, needs_more_arguments, proptest_entry_points, should_print_statistics,
    FuzzerStats,
};
use cairo_fuzzer::native::mutator::{
    copy_bytes, flip_bit_bytes, inter_splice_bytes, magic_insert_bytes, magic_overwrite_bytes,
    random_overwrite_bytes, reduce_felt, repeat_insert_bytes, repeat_overwrite_bytes, shift_felt,
    subtract_felt, swap_bytes, Mutation, Mutator,
};
use cairo_fuzzer::native::utils::{decimal, get_cairo_native_version, init_message};

fn counting() -> [u8; 32] {
    let mut b = [0u8; 32];
    for i in 0..32 {
        b[i] = i as u8;
    }
    b
}

fn prime_minus_one() -> [u8; 32] {
    let mut b = [0u8; 32];
    b[0] = 0x08;
    b[7] = 0x11;
    b
}

fn small(v: u8) -> [u8; 32] {
    let mut b = [0u8; 32];
    b[31] = v;
    b
}

#[test]
fn flip_bit_flips_one_bit_of_the_indexed_byte() {
    let b = [0u8; 32];
    let r = flip_bit_bytes(&b, 0);
    assert_eq!(r[0], 1);
    let r = flip_bit_bytes(&b, 13);
    assert_eq!(r[1], 1 << 5);
    assert_eq!(r.iter().filter(|x| **x != 0).count(), 1);
    let again = flip_bit_bytes(&r, 13);
    assert_eq!(again, b);
}

#[test]
fn swap_copy_and_splice_ranges() {
    let b = counting();
    let s = swap_bytes(&b, 0, 4, 2);
    assert_eq!(&s[0..6], &[4, 5, 2, 3, 0, 1]);
    let c = copy_bytes(&b, 0, 10, 3);
    assert_eq!(&c[10..13], &[0, 1, 2]);
    assert_eq!(c[13], 13);
    let sp = inter_splice_bytes(&b, 30, 1, 2);
    assert_eq!(&sp[0..5], &[0, 30, 31, 1, 2]);
    assert_eq!(sp[31], 29);
}

#[test]
fn magic_and_random_overwrites() {
    let b = counting();
    let m = magic_overwrite_bytes(&b, &vec![0xff, 0xfe]);
    assert_eq!(&m[0..3], &[0xff, 0xfe, 2]);
    let long = vec![7u8; 40];
    assert_eq!(magic_overwrite_bytes(&b, &long), [7u8; 32]);
    let ins = magic_insert_bytes(&b, &vec![0xaa], 2);
    assert_eq!(&ins[0..4], &[0, 1, 0xaa, 2]);
    assert_eq!(ins[31], 30);
    let short = [1u8; 32];
    let at_end = magic_insert_bytes(&short, &vec![9, 9], 32);
    assert_eq!(at_end, short);
    let ro = random_overwrite_bytes(&b, 30, &vec![5, 6]);
    assert_eq!(&ro[28..32], &[28, 29, 5, 6]);
}

#[test]
fn byte_repeats() {
    let b = counting();
    let ri = repeat_insert_bytes(&b, 1, 3, 0x42);
    assert_eq!(&ri[0..6], &[0, 0x42, 0x42, 0x42, 1, 2]);
    let ro = repeat_overwrite_bytes(&b, 4, 3);
    assert_eq!(&ro[3..8], &[3, 4, 4, 4, 7]);
}

#[test]
fn felt_reduction_and_field_shifts() {
    let mut p = prime_minus_one();
    p[31] = 1;
    assert_eq!(reduce_felt(&p), [0u8; 32]);
    let mut p5 = prime_minus_one();
    p5[31] = 6;
    assert_eq!(reduce_felt(&p5), small(5));
    assert_eq!(reduce_felt(&small(9)), small(9));
    assert_eq!(shift_felt(&[0u8; 32], -1), prime_minus_one());
    assert_eq!(shift_felt(&prime_minus_one(), 1), [0u8; 32]);
    assert_eq!(shift_felt(&small(3), 4), small(7));
    assert_eq!(subtract_felt(&[0u8; 32], 1), prime_minus_one());
    assert_eq!(subtract_felt(&small(9), 4), small(5));
}

#[test]
fn mutator_changes_one_felt_at_a_time() {
    let mut m = Mutator::new();
    let before = vec![small(1), small(2), small(3)];
    let mut params = before.clone();
    let draws = mutate_parameters(&mut m, &mut params);
    assert_eq!(params.len(), 3);
    assert_eq!(draws.len(), 3);
    for i in 0..3 {
        assert_eq!(m.apply_mutation(before[i], &draws[i]), params[i]);
    }
    let mut m = Mutator::new().with_magic_values(vec![vec![1, 2, 3]]);
    for _ in 0..200 {
        let _ = m.mutate(counting());
    }
}

#[test]
fn generate_params_and_unknown_count() {
    let (params, unknown) = generate_params(&vec![ArgumentType::Felt, ArgumentType::Felt], false);
    assert_eq!(params, vec![[0u8; 32], [0u8; 32]]);
    assert!(!unknown);
    let (params, unknown) = generate_params(&vec![ArgumentType::FeltArray], false);
    assert_eq!(params.len(), 1);
    assert!(unknown);
    let (params, unknown) = generate_params(&vec![], true);
    assert!(params.is_empty());
    assert!(unknown);
}

#[test]
fn crash_and_argument_count_decisions() {
    let deser1 = Some("Failed to deserialize param #1".to_string());
    let deser2 = Some("Failed to deserialize param #2".to_string());
    let other = Some("assert failed".to_string());
    assert!(!is_crash(false, &other));
    assert!(!is_crash(true, &deser1));
    assert!(is_crash(true, &deser2));
    assert!(is_crash(true, &other));
    assert!(is_crash(true, &None));
    assert!(needs_more_arguments(true, &deser1));
    assert!(needs_more_arguments(true, &deser2));
    assert!(!needs_more_arguments(false, &deser1));
    assert!(!needs_more_arguments(true, &other));
    assert!(!needs_more_arguments(true, &None));
}

#[test]
fn iteration_limits_and_statistics_cadence() {
    assert_eq!(max_iterations(-1), i32::MAX);
    assert_eq!(max_iterations(10), 10);
    assert_eq!(max_iterations(0), 0);
    assert!(!should_print_statistics(0));
    assert!(should_print_statistics(1000));
    assert!(should_print_statistics(-2000));
    assert!(!should_print_statistics(999));
}

#[test]
fn fuzzer_stats_count_executions() {
    let mut stats = FuzzerStats::default();
    assert_eq!(stats.total_executions, 0);
    assert_eq!(stats.crashes, 0);
    stats.count_execution(false);
    stats.count_execution(false);
    stats.count_execution(true);
    assert_eq!(stats.total_executions, 2);
    assert_eq!(stats.crashes, 1);
}

#[test]
fn argument_types_keep_felt252_parameters() {
    let names = vec![
        Some("felt252".to_string()),
        None,
        Some("core::integer::u8".to_string()),
        Some("felt252".to_string()),
    ];
    assert_eq!(argument_types_of(&names), vec![ArgumentType::Felt, ArgumentType::Felt]);
    assert_eq!(map_argument_type("felt252"), Some(ArgumentType::Felt));
    assert_eq!(map_argument_type("u8"), None);
}

#[test]
fn proptest_entry_point_names() {
    assert!(is_proptest_entry_point("contract::tests::fuzz_transfer"));
    assert!(is_proptest_entry_point("a::__wrapper__fuzz_x"));
    assert!(is_proptest_entry_point("a::__wrapper____wrapper__fuzz_x"));
    assert!(is_proptest_entry_point("fuzz_alone"));
    assert!(!is_proptest_entry_point("contract::fuzz_a::helper"));
    assert!(!is_proptest_entry_point("contract::tests::test_transfer"));
    // separators are found from the left, without overlapping
    assert!(is_proptest_entry_point("a:::fuzz_b") == false);
    assert!(is_proptest_entry_point("a::::fuzz_b"));
    let all = vec![
        "m::fuzz_one".to_string(),
        "m::other".to_string(),
        "m::__wrapper__fuzz_two".to_string(),
    ];
    assert_eq!(
        proptest_entry_points(&all),
        vec!["m::fuzz_one".to_string(), "m::__wrapper__fuzz_two".to_string()]
    );
}

#[test]
fn decimal_and_banner() {
    assert_eq!(decimal(0), "0");
    assert_eq!(decimal(7), "7");
    assert_eq!(decimal(1234567890), "1234567890");
    assert_eq!(decimal(u64::MAX), u64::MAX.to_string());
    assert_eq!(get_cairo_native_version(), "0.2.5-rc1");
    let banner = init_message(42);
    assert!(banner.contains("| Seed -- 42\n"));
    assert!(banner.contains("| cairo-native version -- 0.2.5-rc1\n"));
    assert!(!banner.contains("{}"));
}

#[test]
fn mutations_keep_felts_below_the_prime() {
    let mut prime = prime_minus_one();
    prime[31] = 1;
    let mut m = Mutator::new().with_magic_values(vec![vec![0xff; 40], vec![0x09]]);
    let mut f = prime_minus_one();
    for _ in 0..2000 {
        f = m.mutate(f);
        assert!(f < prime, "{:?}", f);
    }
}

#[test]
fn drawn_mutations_apply_exactly() {
    let m = Mutator::new().with_magic_values(vec![vec![0x05]]);
    assert_eq!(m.apply_mutation(small(1), &Mutation::AddSmall(3)), small(4));
    assert_eq!(m.apply_mutation(small(9), &Mutation::SubtractSmall(4)), small(5));
    assert_eq!(m.apply_mutation(small(9), &Mutation::IncByte), small(10));
    assert_eq!(m.apply_mutation(small(9), &Mutation::DecByte), small(8));
    assert_eq!(m.apply_mutation(small(9), &Mutation::AddSub(90)), prime_minus_one());
    assert_eq!(m.apply_mutation(small(9), &Mutation::AddSub(105)), small(14));
    assert_eq!(m.apply_mutation(small(9), &Mutation::FlipBit(248)), small(8));
    assert_eq!(m.apply_mutation(small(9), &Mutation::Keep), small(9));
    let mut expected = [0u8; 32];
    expected[0] = 0x05;
    expected[31] = 9;
    assert_eq!(m.apply_mutation(small(9), &Mutation::MagicOverwrite(Some(0))), expected);
    let empty = Mutator::new();
    assert_eq!(empty.apply_mutation(small(9), &Mutation::MagicOverwrite(None)), small(9));
}
