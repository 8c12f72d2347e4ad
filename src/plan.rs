//! What each entry point does to storage, as plain values: the host (or the
//! in-memory model of it) carries the actions out.
use vstd::prelude::*;
use crate::keys::{
    option_key, option_strike_key, option_expiry_key, option_exercised_key, option_key_spec,
    strike_key_spec, expiry_key_spec, exercised_key_spec,
};

verus! {

/// The content of one storage cell.
#[derive(Clone, Copy, Debug, PartialEq, Eq, Structural)]
pub enum StoredValue {
    U64(u64),
    Bool(bool),
}

/// One step on the key namespace.
#[derive(Clone, Debug, PartialEq, Eq)]
pub enum Action {
    /// Allocate a fresh cell holding `value` and bind it under `key`,
    /// replacing whatever `key` was bound to.
    BindNew { key: String, value: StoredValue },
    /// Write `value` into the cell already bound under `key`.
    Write { key: String, value: StoredValue },
}

/// `a` binds a fresh cell holding `v` under `k`.
pub open spec fn is_bind_new(a: Action, k: Seq<char>, v: StoredValue) -> bool {
    match a {
        Action::BindNew { key, value } => key@ == k && value == v,
        _ => false,
    }
}

/// `a` writes `v` into the cell bound under `k`.
pub open spec fn is_write(a: Action, k: Seq<char>, v: StoredValue) -> bool {
    match a {
        Action::Write { key, value } => key@ == k && value == v,
        _ => false,
    }
}

/// The bindings that `create_option(id, strike_price, expiry)` makes, in order:
/// the id, the strike price, the expiry, and an exercised flag that is false.
pub fn create_option_actions(id: u64, strike_price: u64, expiry: u64) -> (r: Vec<Action>)
    ensures
        r@.len() == 4,
        is_bind_new(r@[0], option_key_spec(id), StoredValue::U64(id)),
        is_bind_new(r@[1], strike_key_spec(id), StoredValue::U64(strike_price)),
        is_bind_new(r@[2], expiry_key_spec(id), StoredValue::U64(expiry)),
        is_bind_new(r@[3], exercised_key_spec(id), StoredValue::Bool(false)),
{
    let mut r: Vec<Action> = Vec::new();
    r.push(Action::BindNew { key: option_key(id), value: StoredValue::U64(id) });
    r.push(Action::BindNew { key: option_strike_key(id), value: StoredValue::U64(strike_price) });
    r.push(Action::BindNew { key: option_expiry_key(id), value: StoredValue::U64(expiry) });
    r.push(Action::BindNew { key: option_exercised_key(id), value: StoredValue::Bool(false) });
    r
}

/// What `exercise_option(id)` does, given whether `option_<id>_exercised` is
/// already bound: write `true` into that cell, or bind a fresh cell holding `true`.
pub fn exercise_option_action(id: u64, flag_bound: bool) -> (r: Action)
    ensures
        flag_bound ==> is_write(r, exercised_key_spec(id), StoredValue::Bool(true)),
        !flag_bound ==> is_bind_new(r, exercised_key_spec(id), StoredValue::Bool(true)),
{
    let key = option_exercised_key(id);
    if flag_bound {
        Action::Write { key, value: StoredValue::Bool(true) }
    } else {
        Action::BindNew { key, value: StoredValue::Bool(true) }
    }
}

/// The counter after one more created option: the increment wraps at 2^64.
pub open spec fn next_count_spec(count: u64) -> u64 {
    if count == u64::MAX {
        0
    } else {
        (count + 1) as u64
    }
}

/// The value `option_count` takes after a `create_option` call.
pub fn next_option_count(count: u64) -> (r: u64)
    ensures
        r == next_count_spec(count),
{
    count.wrapping_add(1)
}

/// Name of the entry point that creates an option.
pub const ENTRY_POINT_CREATE_OPTION: &'static str = "create_option";

/// Name of the entry point that exercises an option.
pub const ENTRY_POINT_EXERCISE_OPTION: &'static str = "exercise_option";

/// Named argument: the option id.
pub const ARG_ID: &'static str = "id";

/// Named argument: the strike price.
pub const ARG_STRIKE_PRICE: &'static str = "strike_price";

/// Named argument: the expiry timestamp.
pub const ARG_EXPIRY: &'static str = "expiry";

/// The type of an entry point's argument.
#[derive(Clone, Copy, Debug, PartialEq, Eq, Structural)]
pub enum ArgType {
    U64,
}

/// A named, typed argument of an entry point.
#[derive(Clone, Debug, PartialEq, Eq)]
pub struct Param {
    pub name: String,
    pub ty: ArgType,
}

/// One entry of the contract's entry-point table. Every entry returns unit, is
/// public, and is called on the contract itself.
#[derive(Clone, Debug, PartialEq, Eq)]
pub struct EntryPointDef {
    pub name: String,
    pub params: Vec<Param>,
}

pub open spec fn is_param(p: Param, name: Seq<char>) -> bool {
    p.name@ == name && p.ty == ArgType::U64
}

fn param(name: &str) -> (r: Param)
    ensures
        is_param(r, name@),
{
    Param { name: String::from_str(name), ty: ArgType::U64 }
}

/// The entry-point table: `create_option(id, strike_price, expiry)` and
/// `exercise_option(id)`, every argument a u64.
pub fn entry_points() -> (r: Vec<EntryPointDef>)
    ensures
        r@.len() == 2,
        r@[0].name@ == ENTRY_POINT_CREATE_OPTION@,
        r@[0].params@.len() == 3,
        is_param(r@[0].params@[0], ARG_ID@),
        is_param(r@[0].params@[1], ARG_STRIKE_PRICE@),
        is_param(r@[0].params@[2], ARG_EXPIRY@),
        r@[1].name@ == ENTRY_POINT_EXERCISE_OPTION@,
        r@[1].params@.len() == 1,
        is_param(r@[1].params@[0], ARG_ID@),
{
    let mut create_params: Vec<Param> = Vec::new();
    create_params.push(param(ARG_ID));
    create_params.push(param(ARG_STRIKE_PRICE));
    create_params.push(param(ARG_EXPIRY));
    let mut exercise_params: Vec<Param> = Vec::new();
    exercise_params.push(param(ARG_ID));
    let mut r: Vec<EntryPointDef> = Vec::new();
    r.push(
        EntryPointDef { name: String::from_str(ENTRY_POINT_CREATE_OPTION), params: create_params },
    );
    r.push(
        EntryPointDef {
            name: String::from_str(ENTRY_POINT_EXERCISE_OPTION),
            params: exercise_params,
        },
    );
    r
}

} // verus!
