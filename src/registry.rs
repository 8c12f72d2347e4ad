//! An in-memory model of the host substrate the registry runs on: fresh
//! storage cells, a string-keyed namespace binding names to them, and the
//! `option_count` counter; with the entry points acting on it.
use vstd::prelude::*;
use crate::keys::{
    CONTRACT_KEY, CONTRACT_PACKAGE_KEY, CONTRACT_ACCESS_KEY, option_key_spec, strike_key_spec,
    expiry_key_spec, exercised_key_spec, option_exercised_key, lemma_option_keys_not_reserved,
};
use crate::plan::{
    StoredValue, Action, create_option_actions, exercise_option_action, next_option_count,
    next_count_spec,
};

verus! {

/// What a name in the account namespace refers to.
#[derive(Clone, Copy, Debug, PartialEq, Eq, Structural)]
pub enum Binding {
    /// A storage cell, by its index in the cell store.
    Cell(usize),
    /// The installed contract's handle.
    Contract,
    /// The contract package's handle.
    Package,
    /// The package's access-control handle.
    Access,
}

/// A binding, with the cell index as a natural number.
pub enum BindingView {
    Cell(nat),
    Contract,
    Package,
    Access,
}

impl View for Binding {
    type V = BindingView;

    open spec fn view(&self) -> BindingView {
        match *self {
            Binding::Cell(i) => BindingView::Cell(i as nat),
            Binding::Contract => BindingView::Contract,
            Binding::Package => BindingView::Package,
            Binding::Access => BindingView::Access,
        }
    }
}

/// The registry's state: the account namespace, the cell store and the counter.
pub struct RegistryState {
    pub names: Map<Seq<char>, BindingView>,
    pub cells: Seq<StoredValue>,
    pub count: u64,
}

/// No two names are bound to the same cell.
pub open spec fn cells_unshared(s: RegistryState) -> bool {
    forall|k1: Seq<char>, k2: Seq<char>|
        #[trigger] s.names.contains_key(k1) && #[trigger] s.names.contains_key(k2) && s.names[k1]
            is Cell && s.names[k1] == s.names[k2] ==> k1 == k2
}

/// Every cell binding points into the store, no two names share a cell, and
/// each handle sits under its own name.
pub open spec fn state_wf(s: RegistryState) -> bool {
    &&& cells_unshared(s)
    &&& forall|k: Seq<char>| #[trigger]
        s.names.contains_key(k) ==> match s.names[k] {
            BindingView::Cell(i) => i < s.cells.len(),
            BindingView::Contract => k == CONTRACT_KEY@,
            BindingView::Package => k == CONTRACT_PACKAGE_KEY@,
            BindingView::Access => k == CONTRACT_ACCESS_KEY@,
        }
}

/// The value in the cell bound under `k`, if `k` is bound to a cell.
pub open spec fn value_of(s: RegistryState, k: Seq<char>) -> Option<StoredValue> {
    if s.names.contains_key(k) {
        match s.names[k] {
            BindingView::Cell(i) => if i < s.cells.len() {
                Some(s.cells[i as int])
            } else {
                None
            },
            _ => None,
        }
    } else {
        None
    }
}

/// The state right after installation: the three handles bound, no cells,
/// and a count of zero.
pub open spec fn installed_spec() -> RegistryState {
    RegistryState {
        names: Map::<Seq<char>, BindingView>::empty().insert(
            CONTRACT_KEY@,
            BindingView::Contract,
        ).insert(CONTRACT_PACKAGE_KEY@, BindingView::Package).insert(
            CONTRACT_ACCESS_KEY@,
            BindingView::Access,
        ),
        cells: Seq::empty(),
        count: 0,
    }
}

/// A fresh cell holding `v`, bound under `k`.
pub open spec fn bind_new_spec(s: RegistryState, k: Seq<char>, v: StoredValue) -> RegistryState {
    RegistryState {
        names: s.names.insert(k, BindingView::Cell(s.cells.len())),
        cells: s.cells.push(v),
        count: s.count,
    }
}

/// `v` written into the cell bound under `k`; nothing changes where `k` is
/// bound to no cell.
pub open spec fn write_spec(s: RegistryState, k: Seq<char>, v: StoredValue) -> RegistryState {
    if s.names.contains_key(k) {
        match s.names[k] {
            BindingView::Cell(i) => if i < s.cells.len() {
                RegistryState { names: s.names, cells: s.cells.update(i as int, v), count: s.count }
            } else {
                s
            },
            _ => s,
        }
    } else {
        s
    }
}

pub open spec fn apply_spec(s: RegistryState, a: Action) -> RegistryState {
    match a {
        Action::BindNew { key, value } => bind_new_spec(s, key@, value),
        Action::Write { key, value } => write_spec(s, key@, value),
    }
}

/// `create_option(id, strike_price, expiry)`: four fresh cells bound under the
/// option's keys, and the counter advanced.
pub open spec fn create_spec(s: RegistryState, id: u64, strike_price: u64, expiry: u64) -> RegistryState {
    let s1 = bind_new_spec(s, option_key_spec(id), StoredValue::U64(id));
    let s2 = bind_new_spec(s1, strike_key_spec(id), StoredValue::U64(strike_price));
    let s3 = bind_new_spec(s2, expiry_key_spec(id), StoredValue::U64(expiry));
    let s4 = bind_new_spec(s3, exercised_key_spec(id), StoredValue::Bool(false));
    RegistryState { names: s4.names, cells: s4.cells, count: next_count_spec(s.count) }
}

/// `exercise_option(id)`: the exercised flag set to true, in its cell if it
/// has one, else in a fresh one.
pub open spec fn exercise_spec(s: RegistryState, id: u64) -> RegistryState {
    let k = exercised_key_spec(id);
    if s.names.contains_key(k) {
        write_spec(s, k, StoredValue::Bool(true))
    } else {
        bind_new_spec(s, k, StoredValue::Bool(true))
    }
}

/// The registry: an account namespace of named keys, the store of cells they
/// refer to, and the contract's option counter.
pub struct Registry {
    entries: Vec<(String, Binding)>,
    cells: Vec<StoredValue>,
    count: u64,
    names: Ghost<Map<Seq<char>, BindingView>>,
}

impl View for Registry {
    type V = RegistryState;

    closed spec fn view(&self) -> RegistryState {
        RegistryState { names: self.names@, cells: self.cells@, count: self.count }
    }
}

impl Registry {
    /// The entries list each bound name once, with its binding.
    pub closed spec fn wf(&self) -> bool {
        &&& state_wf(self@)
        &&& forall|i: int, j: int|
            0 <= i < j < self.entries@.len() ==> #[trigger] self.entries@[i].0@
                != #[trigger] self.entries@[j].0@
        &&& forall|i: int|
            0 <= i < self.entries@.len() ==> self.names@.contains_key(
                #[trigger] self.entries@[i].0@,
            ) && self.names@[self.entries@[i].0@] == self.entries@[i].1@
        &&& forall|k: Seq<char>| #[trigger]
            self.names@.contains_key(k) ==> exists|i: int|
                0 <= i < self.entries@.len() && #[trigger] self.entries@[i].0@ == k
    }

    /// A well-formed registry's state is well formed.
    pub proof fn lemma_state_wf(&self)
        requires
            self.wf(),
        ensures
            state_wf(self@),
    {
    }

    /// Index of the entry for `key`, if `key` is bound.
    fn find(&self, key: &String) -> (r: Option<usize>)
        requires
            self.wf(),
        ensures
            match r {
                Some(i) => i < self.entries@.len() && self.entries@[i as int].0@ == key@,
                None => !self@.names.contains_key(key@),
            },
    {
        let mut i: usize = 0;
        while i < self.entries.len()
            invariant
                self.wf(),
                i <= self.entries@.len(),
                forall|j: int| 0 <= j < i ==> self.entries@[j].0@ != key@,
            decreases self.entries@.len() - i,
        {
            if self.entries[i].0 == *key {
                return Some(i);
            }
            i = i + 1;
        }
        None
    }

    /// Binds `key` to `b`, replacing any earlier binding of `key`.
    fn bind(&mut self, key: String, b: Binding)
        requires
            old(self).wf(),
            state_wf(
                RegistryState {
                    names: old(self)@.names.insert(key@, b@),
                    cells: old(self)@.cells,
                    count: old(self)@.count,
                },
            ),
        ensures
            final(self).wf(),
            final(self)@ == (RegistryState {
                names: old(self)@.names.insert(key@, b@),
                cells: old(self)@.cells,
                count: old(self)@.count,
            }),
    {
        let ghost k = key@;
        let ghost mut at: int = self.entries@.len() as int;
        match self.find(&key) {
            Some(i) => {
                proof {
                    at = i as int;
                }
                self.entries.set(i, (key, b));
            },
            None => {
                self.entries.push((key, b));
            },
        }
        assert(self.entries@[at].0@ == k);
        self.names = Ghost(self.names@.insert(k, b@));
        proof {
            assert forall|k2: Seq<char>| #[trigger] self.names@.contains_key(k2) implies exists|
                i: int,
            | 0 <= i < self.entries@.len() && #[trigger] self.entries@[i].0@ == k2 by {
                if k2 != k {
                    let j = choose|j: int|
                        0 <= j < old(self).entries@.len() && #[trigger] old(self).entries@[j].0@
                            == k2;
                    assert(self.entries@[j].0@ == k2);
                } else {
                    assert(self.entries@[at].0@ == k2);
                }
            }
        }
    }

    /// Carries out one action. A write goes to a name that is bound to a cell.
    pub fn apply(&mut self, a: &Action)
        requires
            old(self).wf(),
            match *a {
                Action::Write { key, value } => old(self)@.names.contains_key(key@)
                    && old(self)@.names[key@] is Cell,
                _ => true,
            },
        ensures
            final(self).wf(),
            final(self)@ == apply_spec(old(self)@, *a),
    {
        match a {
            Action::BindNew { key, value } => {
                let i = self.cells.len();
                self.cells.push(*value);
                proof {
                    assert forall|k2: Seq<char>| #[trigger]
                        self@.names.contains_key(k2) implies match self@.names[k2] {
                        BindingView::Cell(c) => c < self@.cells.len(),
                        BindingView::Contract => k2 == CONTRACT_KEY@,
                        BindingView::Package => k2 == CONTRACT_PACKAGE_KEY@,
                        BindingView::Access => k2 == CONTRACT_ACCESS_KEY@,
                    } by {
                        assert(old(self)@.names.contains_key(k2));
                    }
                    assert(state_wf(self@));
                    assert(self.entries@ == old(self).entries@);
                    assert(self.names@ == old(self).names@);
                }
                self.bind(key.clone(), Binding::Cell(i));
            },
            Action::Write { key, value } => {
                let idx = self.find(key).unwrap();
                match self.entries[idx].1 {
                    Binding::Cell(c) => {
                        self.cells.set(c, *value);
                        proof {
                            assert forall|k2: Seq<char>| #[trigger]
                                self@.names.contains_key(k2) implies match self@.names[k2] {
                                BindingView::Cell(c) => c < self@.cells.len(),
                                BindingView::Contract => k2 == CONTRACT_KEY@,
                                BindingView::Package => k2 == CONTRACT_PACKAGE_KEY@,
                                BindingView::Access => k2 == CONTRACT_ACCESS_KEY@,
                            } by {
                                assert(old(self)@.names.contains_key(k2));
                            }
                            assert(state_wf(self@));
                            assert(self.entries@ == old(self).entries@);
                            assert(self.names@ == old(self).names@);
                        }
                    },
                    _ => {},
                }
            },
        }
    }

    /// Installation: the contract, package and access handles bound, no
    /// options, and a count of zero.
    pub fn install() -> (r: Registry)
        ensures
            r.wf(),
            r@ == installed_spec(),
    {
        let mut r = Registry {
            entries: Vec::new(),
            cells: Vec::new(),
            count: 0,
            names: Ghost(Map::empty()),
        };
        r.bind(String::from_str(CONTRACT_KEY), Binding::Contract);
        r.bind(String::from_str(CONTRACT_PACKAGE_KEY), Binding::Package);
        r.bind(String::from_str(CONTRACT_ACCESS_KEY), Binding::Access);
        r
    }

    /// `create_option(id, strike_price, expiry)`: binds `option_<id>`,
    /// `option_<id>_strike`, `option_<id>_expiry` and `option_<id>_exercised`
    /// to fresh cells holding the id, the strike price, the expiry and false,
    /// and advances the counter by one (wrapping at 2^64). Earlier bindings of
    /// those names are replaced.
    pub fn create_option(&mut self, id: u64, strike_price: u64, expiry: u64)
        requires
            old(self).wf(),
        ensures
            final(self).wf(),
            final(self)@ == create_spec(old(self)@, id, strike_price, expiry),
    {
        let plan = create_option_actions(id, strike_price, expiry);
        self.apply(&plan[0]);
        self.apply(&plan[1]);
        self.apply(&plan[2]);
        self.apply(&plan[3]);
        let ghost before = self@;
        let ghost entries_before = self.entries@;
        assert(state_wf(before));
        self.count = next_option_count(self.count);
        proof {
            assert forall|k: Seq<char>| #[trigger] self@.names.contains_key(k) implies match self@.names[k] {
                BindingView::Cell(c) => c < self@.cells.len(),
                BindingView::Contract => k == CONTRACT_KEY@,
                BindingView::Package => k == CONTRACT_PACKAGE_KEY@,
                BindingView::Access => k == CONTRACT_ACCESS_KEY@,
            } by {
                assert(before.names.contains_key(k));
            }
            assert(state_wf(self@));
            assert(self.entries@ == entries_before);
            assert(self.names@ == before.names);
        }
    }

    /// `exercise_option(id)`: `option_<id>_exercised` holds true afterwards,
    /// written into its cell if the name is bound, else into a fresh cell.
    pub fn exercise_option(&mut self, id: u64)
        requires
            old(self).wf(),
        ensures
            final(self).wf(),
            final(self)@ == exercise_spec(old(self)@, id),
    {
        let key = option_exercised_key(id);
        let bound = self.find(&key).is_some();
        let a = exercise_option_action(id, bound);
        proof {
            lemma_option_keys_not_reserved(id, crate::keys::exercised_suffix());
            if bound {
                assert(self@.names.contains_key(key@));
            }
        }
        self.apply(&a);
    }

    /// The value in the cell bound under `key`; `None` where `key` is unbound
    /// or bound to a handle.
    pub fn get(&self, key: &String) -> (r: Option<StoredValue>)
        requires
            self.wf(),
        ensures
            r == value_of(self@, key@),
    {
        match self.find(key) {
            Some(i) => match self.entries[i].1 {
                Binding::Cell(c) => Some(self.cells[c]),
                _ => None,
            },
            None => None,
        }
    }

    /// Whether `key` is bound in the namespace.
    pub fn is_bound(&self, key: &String) -> (r: bool)
        requires
            self.wf(),
        ensures
            r == self@.names.contains_key(key@),
    {
        self.find(key).is_some()
    }

    /// The value of `option_count`.
    pub fn option_count(&self) -> (r: u64)
        ensures
            r == self@.count,
    {
        self.count
    }
}

/// Installs the registry.
pub fn call() -> (r: Registry)
    ensures
        r.wf(),
        r@ == installed_spec(),
{
    Registry::install()
}

/// Entry point `create_option`, on `registry`.
pub fn create_option(registry: &mut Registry, id: u64, strike_price: u64, expiry: u64)
    requires
        old(registry).wf(),
    ensures
        final(registry).wf(),
        final(registry)@ == create_spec(old(registry)@, id, strike_price, expiry),
{
    registry.create_option(id, strike_price, expiry)
}

/// Entry point `exercise_option`, on `registry`.
pub fn exercise_option(registry: &mut Registry, id: u64)
    requires
        old(registry).wf(),
    ensures
        final(registry).wf(),
        final(registry)@ == exercise_spec(old(registry)@, id),
{
    registry.exercise_option(id)
}

} // verus!
