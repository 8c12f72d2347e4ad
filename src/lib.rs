//! A registry of option records kept in a flat string-keyed namespace: each
//! option id owns four named keys, exercising an option sets its flag, and a
//! counter records how many `create_option` calls were made.
pub mod keys;
pub mod laws;
pub mod plan;
pub mod registry;

pub use keys::{
    option_key, option_strike_key, option_expiry_key, option_exercised_key, CONTRACT_KEY,
    CONTRACT_PACKAGE_KEY, CONTRACT_ACCESS_KEY, OPTION_COUNT_KEY,
};
pub use plan::{
    Action, ArgType, EntryPointDef, Param, StoredValue, create_option_actions, entry_points,
    exercise_option_action, next_option_count,
};
pub use registry::{Binding, Registry, call, create_option, exercise_option};
