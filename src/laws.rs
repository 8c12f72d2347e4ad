//! Properties of the registry across calls, stated over its state model.
use vstd::prelude::*;
use crate::keys::{
    option_key_spec, strike_key_spec, expiry_key_spec, exercised_key_spec, exercised_suffix,
    lemma_keys_disjoint, lemma_option_keys_not_reserved,
};
use crate::plan::StoredValue;
use crate::registry::{
    RegistryState, BindingView, state_wf, value_of, installed_spec, bind_new_spec, write_spec,
    create_spec, exercise_spec,
};

verus! {

/// The state after `create_option` is called with each triple of `ops`, in order.
pub open spec fn creations_spec(s: RegistryState, ops: Seq<(u64, u64, u64)>) -> RegistryState
    decreases ops.len(),
{
    if ops.len() == 0 {
        s
    } else {
        let (id, strike_price, expiry) = ops.last();
        create_spec(creations_spec(s, ops.drop_last()), id, strike_price, expiry)
    }
}

/// The state after `n` calls of `exercise_option(id)`.
pub open spec fn exercises_spec(s: RegistryState, id: u64, n: nat) -> RegistryState
    decreases n,
{
    if n == 0 {
        s
    } else {
        exercise_spec(exercises_spec(s, id, (n - 1) as nat), id)
    }
}

proof fn lemma_bind_new(s: RegistryState, k: Seq<char>, v: StoredValue, k2: Seq<char>)
    requires
        state_wf(s),
    ensures
        state_wf(bind_new_spec(s, k, v)),
        value_of(bind_new_spec(s, k, v), k2) == if k2 == k {
            Some(v)
        } else {
            value_of(s, k2)
        },
{
    let t = bind_new_spec(s, k, v);
    assert forall|k3: Seq<char>| #[trigger] t.names.contains_key(k3) implies match t.names[k3] {
        BindingView::Cell(i) => i < t.cells.len(),
        BindingView::Contract => k3 == crate::keys::CONTRACT_KEY@,
        BindingView::Package => k3 == crate::keys::CONTRACT_PACKAGE_KEY@,
        BindingView::Access => k3 == crate::keys::CONTRACT_ACCESS_KEY@,
    } by {
        if k3 != k {
            assert(s.names.contains_key(k3));
        }
    }
    if k2 != k && s.names.contains_key(k2) {
        assert(s.names.contains_key(k2));
    }
}

proof fn lemma_write(s: RegistryState, k: Seq<char>, v: StoredValue)
    requires
        state_wf(s),
    ensures
        state_wf(write_spec(s, k, v)),
        write_spec(s, k, v).names == s.names,
        forall|k2: Seq<char>|
            k2 != k ==> #[trigger] value_of(write_spec(s, k, v), k2) == value_of(s, k2),
        s.names.contains_key(k) && s.names[k] is Cell ==> value_of(write_spec(s, k, v), k) == Some(
            v,
        ),
{
    let t = write_spec(s, k, v);
    assert forall|k3: Seq<char>| #[trigger] t.names.contains_key(k3) implies match t.names[k3] {
        BindingView::Cell(i) => i < t.cells.len(),
        BindingView::Contract => k3 == crate::keys::CONTRACT_KEY@,
        BindingView::Package => k3 == crate::keys::CONTRACT_PACKAGE_KEY@,
        BindingView::Access => k3 == crate::keys::CONTRACT_ACCESS_KEY@,
    } by {
        assert(s.names.contains_key(k3));
    }
    if s.names.contains_key(k) {
        assert(s.names.contains_key(k));
    }
    assert forall|k2: Seq<char>| k2 != k implies #[trigger] value_of(t, k2) == value_of(s, k2) by {
        if s.names.contains_key(k2) && s.names.contains_key(k) {
            assert(s.names.contains_key(k2));
            assert(s.names.contains_key(k));
        }
    }
}

/// The installed state is well formed.
pub proof fn lemma_installed_wf()
    ensures
        state_wf(installed_spec()),
{
}

/// `create_option` keeps the state well formed.
pub proof fn lemma_create_wf(s: RegistryState, id: u64, strike_price: u64, expiry: u64)
    requires
        state_wf(s),
    ensures
        state_wf(create_spec(s, id, strike_price, expiry)),
{
    let e = Seq::<char>::empty();
    let s1 = bind_new_spec(s, option_key_spec(id), StoredValue::U64(id));
    let s2 = bind_new_spec(s1, strike_key_spec(id), StoredValue::U64(strike_price));
    let s3 = bind_new_spec(s2, expiry_key_spec(id), StoredValue::U64(expiry));
    lemma_bind_new(s, option_key_spec(id), StoredValue::U64(id), e);
    lemma_bind_new(s1, strike_key_spec(id), StoredValue::U64(strike_price), e);
    lemma_bind_new(s2, expiry_key_spec(id), StoredValue::U64(expiry), e);
    lemma_bind_new(s3, exercised_key_spec(id), StoredValue::Bool(false), e);
    let t = create_spec(s, id, strike_price, expiry);
    let s4 = bind_new_spec(s3, exercised_key_spec(id), StoredValue::Bool(false));
    assert forall|k: Seq<char>| #[trigger] t.names.contains_key(k) implies match t.names[k] {
        BindingView::Cell(i) => i < t.cells.len(),
        BindingView::Contract => k == crate::keys::CONTRACT_KEY@,
        BindingView::Package => k == crate::keys::CONTRACT_PACKAGE_KEY@,
        BindingView::Access => k == crate::keys::CONTRACT_ACCESS_KEY@,
    } by {
        assert(s4.names.contains_key(k));
    }
}

/// After `create_option(id, strike_price, expiry)`, the option's four keys are
/// bound to cells holding the id, the strike price, the expiry and false; every
/// other key reads as before; and the counter has advanced by one.
pub proof fn lemma_create_persists(s: RegistryState, id: u64, strike_price: u64, expiry: u64)
    requires
        state_wf(s),
    ensures
        ({
            let t = create_spec(s, id, strike_price, expiry);
            &&& value_of(t, option_key_spec(id)) == Some(StoredValue::U64(id))
            &&& value_of(t, strike_key_spec(id)) == Some(StoredValue::U64(strike_price))
            &&& value_of(t, expiry_key_spec(id)) == Some(StoredValue::U64(expiry))
            &&& value_of(t, exercised_key_spec(id)) == Some(StoredValue::Bool(false))
            &&& forall|k: Seq<char>|
                !crate::keys::keys_of(id).contains(k) ==> #[trigger] value_of(t, k) == value_of(
                    s,
                    k,
                )
            &&& t.count == if s.count == u64::MAX {
                0
            } else {
                s.count + 1
            }
        }),
{
    lemma_keys_disjoint(id, id);
    let ok = option_key_spec(id);
    let sk = strike_key_spec(id);
    let ek = expiry_key_spec(id);
    let xk = exercised_key_spec(id);
    let s1 = bind_new_spec(s, ok, StoredValue::U64(id));
    let s2 = bind_new_spec(s1, sk, StoredValue::U64(strike_price));
    let s3 = bind_new_spec(s2, ek, StoredValue::U64(expiry));
    let s4 = bind_new_spec(s3, xk, StoredValue::Bool(false));
    let t = create_spec(s, id, strike_price, expiry);
    assert forall|k: Seq<char>| true implies #[trigger] value_of(t, k) == value_of(s4, k) by {}
    assert forall|k: Seq<char>|
        true implies #[trigger] value_of(s4, k) == (if k == xk {
        Some(StoredValue::Bool(false))
    } else if k == ek {
        Some(StoredValue::U64(expiry))
    } else if k == sk {
        Some(StoredValue::U64(strike_price))
    } else if k == ok {
        Some(StoredValue::U64(id))
    } else {
        value_of(s, k)
    }) by {
        lemma_bind_new(s, ok, StoredValue::U64(id), k);
        lemma_bind_new(s1, sk, StoredValue::U64(strike_price), k);
        lemma_bind_new(s2, ek, StoredValue::U64(expiry), k);
        lemma_bind_new(s3, xk, StoredValue::Bool(false), k);
    }
    assert(value_of(t, ok) == value_of(s4, ok));
    assert(value_of(t, sk) == value_of(s4, sk));
    assert(value_of(t, ek) == value_of(s4, ek));
    assert(value_of(t, xk) == value_of(s4, xk));
}

/// After `k` calls of `create_option` on a freshly installed registry, the
/// counter reads `k`; so before the `i`-th call it reads `i - 1`.
pub proof fn lemma_count_after_creations(ops: Seq<(u64, u64, u64)>)
    requires
        ops.len() <= u64::MAX,
    ensures
        creations_spec(installed_spec(), ops).count == ops.len(),
    decreases ops.len(),
{
    if ops.len() > 0 {
        lemma_count_after_creations(ops.drop_last());
    }
}

/// `exercise_option` keeps the state well formed, and leaves the exercised
/// flag of the option true.
pub proof fn lemma_exercise_sets_flag(s: RegistryState, id: u64)
    requires
        state_wf(s),
    ensures
        state_wf(exercise_spec(s, id)),
        value_of(exercise_spec(s, id), exercised_key_spec(id)) == Some(StoredValue::Bool(true)),
{
    let k = exercised_key_spec(id);
    lemma_option_keys_not_reserved(id, exercised_suffix());
    if s.names.contains_key(k) {
        assert(s.names.contains_key(k));
        lemma_write(s, k, StoredValue::Bool(true));
    } else {
        lemma_bind_new(s, k, StoredValue::Bool(true), k);
    }
}

/// `exercise_option(id)` changes the value of no key but the option's
/// exercised flag, and leaves the counter as it was; so no flag that holds
/// true is ever turned back to false by it.
pub proof fn lemma_exercise_touches_only_flag(s: RegistryState, id: u64)
    requires
        state_wf(s),
    ensures
        exercise_spec(s, id).count == s.count,
        forall|k: Seq<char>|
            k != exercised_key_spec(id) ==> #[trigger] value_of(exercise_spec(s, id), k)
                == value_of(s, k),
        forall|k: Seq<char>|
            value_of(s, k) == Some(StoredValue::Bool(true)) ==> #[trigger] value_of(
                exercise_spec(s, id),
                k,
            ) == Some(StoredValue::Bool(true)),
{
    let xk = exercised_key_spec(id);
    lemma_exercise_sets_flag(s, id);
    if s.names.contains_key(xk) {
        lemma_write(s, xk, StoredValue::Bool(true));
    } else {
        assert forall|k: Seq<char>| k != xk implies #[trigger] value_of(exercise_spec(s, id), k)
            == value_of(s, k) by {
            lemma_bind_new(s, xk, StoredValue::Bool(true), k);
        }
    }
}

/// Exercising an option twice leaves the registry as exercising it once.
pub proof fn lemma_exercise_idempotent(s: RegistryState, id: u64)
    requires
        state_wf(s),
    ensures
        exercise_spec(exercise_spec(s, id), id) == exercise_spec(s, id),
{
    let k = exercised_key_spec(id);
    let t = exercise_spec(s, id);
    lemma_exercise_sets_flag(s, id);
    assert(t.names.contains_key(k));
    if let BindingView::Cell(i) = t.names[k] {
        assert(t.cells[i as int] == StoredValue::Bool(true));
        assert(t.cells.update(i as int, StoredValue::Bool(true)) =~= t.cells);
    }
}

/// After `create_option(id, ..)` and then `n >= 1` calls of
/// `exercise_option(id)`, the option's exercised flag holds true.
pub proof fn lemma_exercise_after_create(
    s: RegistryState,
    id: u64,
    strike_price: u64,
    expiry: u64,
    n: nat,
)
    requires
        state_wf(s),
        n >= 1,
    ensures
        value_of(
            exercises_spec(create_spec(s, id, strike_price, expiry), id, n),
            exercised_key_spec(id),
        ) == Some(StoredValue::Bool(true)),
{
    let c = create_spec(s, id, strike_price, expiry);
    lemma_create_wf(s, id, strike_price, expiry);
    lemma_exercises_once(c, id, n);
    lemma_exercise_sets_flag(c, id);
}

/// `n >= 1` calls of `exercise_option(id)` leave the state that one call leaves.
pub proof fn lemma_exercises_once(s: RegistryState, id: u64, n: nat)
    requires
        state_wf(s),
        n >= 1,
    ensures
        exercises_spec(s, id, n) == exercise_spec(s, id),
    decreases n,
{
    if n > 1 {
        lemma_exercises_once(s, id, (n - 1) as nat);
        lemma_exercise_idempotent(s, id);
    } else {
        assert(exercises_spec(s, id, 0) == s);
    }
}

/// For two distinct ids, creating both leaves each option's four keys bound to
/// its own values: the key sets are disjoint and neither creation disturbs the
/// other's record.
pub proof fn lemma_two_options_independent(
    s: RegistryState,
    a: u64,
    strike_a: u64,
    expiry_a: u64,
    b: u64,
    strike_b: u64,
    expiry_b: u64,
)
    requires
        state_wf(s),
        a != b,
    ensures
        crate::keys::keys_of(a).disjoint(crate::keys::keys_of(b)),
        ({
            let t = create_spec(create_spec(s, a, strike_a, expiry_a), b, strike_b, expiry_b);
            &&& value_of(t, option_key_spec(a)) == Some(StoredValue::U64(a))
            &&& value_of(t, strike_key_spec(a)) == Some(StoredValue::U64(strike_a))
            &&& value_of(t, expiry_key_spec(a)) == Some(StoredValue::U64(expiry_a))
            &&& value_of(t, exercised_key_spec(a)) == Some(StoredValue::Bool(false))
            &&& value_of(t, option_key_spec(b)) == Some(StoredValue::U64(b))
            &&& value_of(t, strike_key_spec(b)) == Some(StoredValue::U64(strike_b))
            &&& value_of(t, expiry_key_spec(b)) == Some(StoredValue::U64(expiry_b))
            &&& value_of(t, exercised_key_spec(b)) == Some(StoredValue::Bool(false))
        }),
{
    lemma_keys_disjoint(a, b);
    let c = create_spec(s, a, strike_a, expiry_a);
    lemma_create_persists(s, a, strike_a, expiry_a);
    lemma_create_wf(s, a, strike_a, expiry_a);
    lemma_create_persists(c, b, strike_b, expiry_b);
    let kb = crate::keys::keys_of(b);
    assert(!kb.contains(option_key_spec(a)));
    assert(!kb.contains(strike_key_spec(a)));
    assert(!kb.contains(expiry_key_spec(a)));
    assert(!kb.contains(exercised_key_spec(a)));
}

/// On a freshly installed registry, `exercise_option(id)` binds the exercised
/// flag, true, and does not bind `option_<id>`.
pub proof fn lemma_exercise_without_create(id: u64)
    ensures
        value_of(exercise_spec(installed_spec(), id), exercised_key_spec(id)) == Some(
            StoredValue::Bool(true),
        ),
        !exercise_spec(installed_spec(), id).names.contains_key(option_key_spec(id)),
{
    let s = installed_spec();
    lemma_exercise_sets_flag(s, id);
    lemma_keys_disjoint(id, id);
    lemma_option_keys_not_reserved(id, Seq::<char>::empty());
    assert(option_key_spec(id) + Seq::<char>::empty() =~= option_key_spec(id));
    lemma_option_keys_not_reserved(id, exercised_suffix());
    assert(!s.names.contains_key(exercised_key_spec(id)));
}

} // verus!
