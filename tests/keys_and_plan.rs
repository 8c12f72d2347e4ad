use option_registry::{
    create_option_actions, entry_points, exercise_option_action, next_option_count,
    option_exercised_key, option_expiry_key, option_key, option_strike_key, Action, ArgType,
    StoredValue,
};

#[test]
fn keys_render_ids_in_decimal() {
    assert_eq!(option_key(0), "option_0");
    assert_eq!(option_key(1), "option_1");
    assert_eq!(option_key(10), "option_10");
    assert_eq!(option_key(1234567890), "option_1234567890");
    assert_eq!(option_key(u64::MAX), "option_18446744073709551615");
}

#[test]
fn field_keys_append_their_suffix() {
    assert_eq!(option_strike_key(7), "option_7_strike");
    assert_eq!(option_expiry_key(7), "option_7_expiry");
    assert_eq!(option_exercised_key(7), "option_7_exercised");
    assert_eq!(option_exercised_key(u64::MAX - 1), "option_18446744073709551614_exercised");
}

#[test]
fn distinct_ids_give_distinct_keys() {
    assert_ne!(option_key(1), option_key(11));
    assert_ne!(option_exercised_key(1), option_exercised_key(10));
}

#[test]
fn create_plan_binds_four_cells_in_order() {
    let plan = create_option_actions(3, 1_000_000, 1_735_689_600);
    assert_eq!(
        plan,
        vec![
            Action::BindNew { key: "option_3".to_string(), value: StoredValue::U64(3) },
            Action::BindNew {
                key: "option_3_strike".to_string(),
                value: StoredValue::U64(1_000_000)
            },
            Action::BindNew {
                key: "option_3_expiry".to_string(),
                value: StoredValue::U64(1_735_689_600)
            },
            Action::BindNew {
                key: "option_3_exercised".to_string(),
                value: StoredValue::Bool(false)
            },
        ]
    );
}

#[test]
fn exercise_plan_writes_or_binds() {
    assert_eq!(
        exercise_option_action(5, true),
        Action::Write { key: "option_5_exercised".to_string(), value: StoredValue::Bool(true) }
    );
    assert_eq!(
        exercise_option_action(5, false),
        Action::BindNew { key: "option_5_exercised".to_string(), value: StoredValue::Bool(true) }
    );
}

#[test]
fn count_increments_and_wraps() {
    assert_eq!(next_option_count(0), 1);
    assert_eq!(next_option_count(41), 42);
    assert_eq!(next_option_count(u64::MAX), 0);
}

#[test]
fn entry_point_table_lists_both_entry_points() {
    let table = entry_points();
    assert_eq!(table.len(), 2);
    assert_eq!(table[0].name, "create_option");
    let names: Vec<&str> = table[0].params.iter().map(|p| p.name.as_str()).collect();
    assert_eq!(names, vec!["id", "strike_price", "expiry"]);
    assert!(table[0].params.iter().all(|p| p.ty == ArgType::U64));
    assert_eq!(table[1].name, "exercise_option");
    assert_eq!(table[1].params.len(), 1);
    assert_eq!(table[1].params[0].name, "id");
    assert_eq!(table[1].params[0].ty, ArgType::U64);
}
