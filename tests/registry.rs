use option_registry::{
    call, create_option, exercise_option, option_exercised_key, option_expiry_key, option_key,
    option_strike_key, StoredValue, CONTRACT_ACCESS_KEY, CONTRACT_KEY, CONTRACT_PACKAGE_KEY,
};

#[test]
fn test_contract_installation() {
    let registry = call();
    assert!(
        registry.is_bound(&String::from(CONTRACT_KEY)),
        "Contract should be installed"
    );
}

#[test]
fn test_initial_option_count_is_zero() {
    let registry = call();
    assert_eq!(registry.option_count(), 0, "Initial option count should be 0");
}

#[test]
fn test_create_single_option() {
    let mut registry = call();
    create_option(&mut registry, 1, 1000000u64, 1735689600u64);
    assert!(registry.is_bound(&option_key(1)), "Option 1 should exist");
    assert_eq!(registry.option_count(), 1, "Option count should be 1");
}

#[test]
fn test_exercise_option() {
    let mut registry = call();
    create_option(&mut registry, 1, 1000000u64, 1735689600u64);
    exercise_option(&mut registry, 1);
    assert!(
        registry.get(&option_exercised_key(1)) == Some(StoredValue::Bool(true)),
        "Option 1 should be exercised"
    );
}

#[test]
fn test_create_multiple_options() {
    let mut registry = call();
    for i in 0..5u64 {
        create_option(&mut registry, i, 1000000u64 * (i + 1), 1735689600u64 + i * 86400);
    }
    assert_eq!(registry.option_count(), 5, "Option count should be 5");
    for i in 0..5u64 {
        assert!(registry.is_bound(&option_key(i)), "Option {} should exist", i);
    }
}

#[test]
fn test_edge_case_zero_strike_price() {
    let mut registry = call();
    create_option(&mut registry, 1, 0, 1735689600u64);
    assert!(
        registry.is_bound(&option_key(1)),
        "Option with zero strike price should exist"
    );
}

#[test]
fn test_edge_case_max_values() {
    let mut registry = call();
    create_option(&mut registry, u64::MAX - 1, u64::MAX, u64::MAX);
    assert!(
        registry.is_bound(&option_key(u64::MAX - 1)),
        "Option with max values should exist"
    );
}

#[test]
fn single_option_fields_hold_their_values() {
    let mut registry = call();
    create_option(&mut registry, 1, 1_000_000, 1_735_689_600);
    assert_eq!(registry.get(&option_key(1)), Some(StoredValue::U64(1)));
    assert_eq!(registry.get(&option_strike_key(1)), Some(StoredValue::U64(1_000_000)));
    assert_eq!(registry.get(&option_expiry_key(1)), Some(StoredValue::U64(1_735_689_600)));
    assert_eq!(registry.get(&option_exercised_key(1)), Some(StoredValue::Bool(false)));
    assert_eq!(registry.option_count(), 1);
}

#[test]
fn zero_strike_price_is_stored() {
    let mut registry = call();
    create_option(&mut registry, 7, 0, 1_735_689_600);
    assert_eq!(registry.get(&option_strike_key(7)), Some(StoredValue::U64(0)));
}

#[test]
fn max_values_are_stored() {
    let mut registry = call();
    create_option(&mut registry, u64::MAX - 1, u64::MAX, u64::MAX);
    assert_eq!(registry.get(&option_key(u64::MAX - 1)), Some(StoredValue::U64(u64::MAX - 1)));
    assert_eq!(registry.get(&option_strike_key(u64::MAX - 1)), Some(StoredValue::U64(u64::MAX)));
    assert_eq!(registry.get(&option_expiry_key(u64::MAX - 1)), Some(StoredValue::U64(u64::MAX)));
}

#[test]
fn multiple_options_keep_their_own_values() {
    let mut registry = call();
    for i in 0..5u64 {
        create_option(&mut registry, i, 1_000_000 * (i + 1), 1_735_689_600 + i * 86_400);
    }
    for i in 0..5u64 {
        assert_eq!(registry.get(&option_key(i)), Some(StoredValue::U64(i)));
        assert_eq!(registry.get(&option_strike_key(i)), Some(StoredValue::U64(1_000_000 * (i + 1))));
        assert_eq!(
            registry.get(&option_expiry_key(i)),
            Some(StoredValue::U64(1_735_689_600 + i * 86_400))
        );
    }
}

#[test]
fn count_reads_previous_creations_before_each_call() {
    let mut registry = call();
    for i in 0..10u64 {
        assert_eq!(registry.option_count(), i);
        create_option(&mut registry, 3, i, i);
    }
    assert_eq!(registry.option_count(), 10);
}

#[test]
fn exercise_repeatedly_stays_true() {
    let mut registry = call();
    create_option(&mut registry, 9, 5, 6);
    for _ in 0..3 {
        exercise_option(&mut registry, 9);
        assert_eq!(registry.get(&option_exercised_key(9)), Some(StoredValue::Bool(true)));
    }
    assert_eq!(registry.get(&option_strike_key(9)), Some(StoredValue::U64(5)));
    assert_eq!(registry.option_count(), 1);
}

#[test]
fn exercise_without_create_binds_only_the_flag() {
    let mut registry = call();
    exercise_option(&mut registry, 42);
    assert_eq!(registry.get(&option_exercised_key(42)), Some(StoredValue::Bool(true)));
    assert!(!registry.is_bound(&option_key(42)));
    assert!(!registry.is_bound(&option_strike_key(42)));
    assert_eq!(registry.option_count(), 0);
}

#[test]
fn repeated_id_overwrites_and_counts_again() {
    let mut registry = call();
    create_option(&mut registry, 4, 100, 200);
    exercise_option(&mut registry, 4);
    create_option(&mut registry, 4, 300, 400);
    assert_eq!(registry.option_count(), 2);
    assert_eq!(registry.get(&option_strike_key(4)), Some(StoredValue::U64(300)));
    assert_eq!(registry.get(&option_expiry_key(4)), Some(StoredValue::U64(400)));
    assert_eq!(registry.get(&option_exercised_key(4)), Some(StoredValue::Bool(false)));
}

#[test]
fn ids_sharing_a_decimal_prefix_stay_apart() {
    let mut registry = call();
    create_option(&mut registry, 1, 10, 20);
    create_option(&mut registry, 11, 30, 40);
    create_option(&mut registry, 111, 50, 60);
    exercise_option(&mut registry, 11);
    assert_eq!(registry.get(&option_strike_key(1)), Some(StoredValue::U64(10)));
    assert_eq!(registry.get(&option_strike_key(11)), Some(StoredValue::U64(30)));
    assert_eq!(registry.get(&option_strike_key(111)), Some(StoredValue::U64(50)));
    assert_eq!(registry.get(&option_exercised_key(1)), Some(StoredValue::Bool(false)));
    assert_eq!(registry.get(&option_exercised_key(11)), Some(StoredValue::Bool(true)));
    assert_eq!(registry.get(&option_exercised_key(111)), Some(StoredValue::Bool(false)));
}

#[test]
fn installation_binds_handles_and_not_cells() {
    let registry = call();
    assert!(registry.is_bound(&String::from(CONTRACT_PACKAGE_KEY)));
    assert!(registry.is_bound(&String::from(CONTRACT_ACCESS_KEY)));
    assert_eq!(registry.get(&String::from(CONTRACT_KEY)), None);
    assert!(!registry.is_bound(&option_key(0)));
}
