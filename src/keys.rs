//! Storage-key layout: every option id owns four named keys that share the
//! textual prefix `option_<id>`.
use vstd::prelude::*;

verus! {

/// Name of the contract handle in the installing account's namespace.
pub const CONTRACT_KEY: &'static str = "option_registry";

/// Name of the contract package handle in the installing account's namespace.
pub const CONTRACT_PACKAGE_KEY: &'static str = "option_registry_package";

/// Name of the access-control handle in the installing account's namespace.
pub const CONTRACT_ACCESS_KEY: &'static str = "option_registry_access";

/// Name of the counter in the contract's own namespace.
pub const OPTION_COUNT_KEY: &'static str = "option_count";

/// The character that stands for the decimal digit `d`.
pub open spec fn digit_char(d: nat) -> char {
    if d == 0 { '0' }
    else if d == 1 { '1' }
    else if d == 2 { '2' }
    else if d == 3 { '3' }
    else if d == 4 { '4' }
    else if d == 5 { '5' }
    else if d == 6 { '6' }
    else if d == 7 { '7' }
    else if d == 8 { '8' }
    else { '9' }
}

pub open spec fn is_digit(c: char) -> bool {
    '0' <= c && c <= '9'
}

/// Base-10 rendering of `n`, without leading zeros.
pub open spec fn decimal(n: nat) -> Seq<char>
    decreases n,
{
    if n < 10 {
        seq![digit_char(n)]
    } else {
        decimal(n / 10).push(digit_char(n % 10))
    }
}

pub open spec fn prefix_spec() -> Seq<char> {
    seq!['o', 'p', 't', 'i', 'o', 'n', '_']
}

pub open spec fn strike_suffix() -> Seq<char> {
    seq!['_', 's', 't', 'r', 'i', 'k', 'e']
}

pub open spec fn expiry_suffix() -> Seq<char> {
    seq!['_', 'e', 'x', 'p', 'i', 'r', 'y']
}

pub open spec fn exercised_suffix() -> Seq<char> {
    seq!['_', 'e', 'x', 'e', 'r', 'c', 'i', 's', 'e', 'd']
}

/// `option_<id>`: presence of this key means the option was created.
pub open spec fn option_key_spec(id: u64) -> Seq<char> {
    prefix_spec() + decimal(id as nat)
}

/// `option_<id>_strike`.
pub open spec fn strike_key_spec(id: u64) -> Seq<char> {
    option_key_spec(id) + strike_suffix()
}

/// `option_<id>_expiry`.
pub open spec fn expiry_key_spec(id: u64) -> Seq<char> {
    option_key_spec(id) + expiry_suffix()
}

/// `option_<id>_exercised`.
pub open spec fn exercised_key_spec(id: u64) -> Seq<char> {
    option_key_spec(id) + exercised_suffix()
}

/// The four keys that an option id owns.
pub open spec fn keys_of(id: u64) -> Set<Seq<char>> {
    set![option_key_spec(id), strike_key_spec(id), expiry_key_spec(id), exercised_key_spec(id)]
}

/// Every character of a decimal rendering is a digit, and there is at least one.
pub proof fn lemma_decimal_digits(n: nat)
    ensures
        decimal(n).len() >= 1,
        forall|i: int| 0 <= i < decimal(n).len() ==> is_digit(#[trigger] decimal(n)[i]),
    decreases n,
{
    if n >= 10 {
        lemma_decimal_digits(n / 10);
        assert forall|i: int| 0 <= i < decimal(n).len() implies is_digit(
            #[trigger] decimal(n)[i],
        ) by {
            if i < decimal(n / 10).len() {
                assert(decimal(n)[i] == decimal(n / 10)[i]);
            }
        }
    }
}

/// Decimal rendering is injective.
pub proof fn lemma_decimal_injective(a: nat, b: nat)
    requires
        decimal(a) == decimal(b),
    ensures
        a == b,
    decreases a,
{
    if a < 10 && b < 10 {
        assert(decimal(a) == seq![digit_char(a)]);
        assert(decimal(b) == seq![digit_char(b)]);
        assert(seq![digit_char(a)][0] == digit_char(a));
        assert(seq![digit_char(b)][0] == digit_char(b));
        assert(digit_char(a) == digit_char(b));
    } else if a >= 10 && b >= 10 {
        lemma_decimal_digits(a / 10);
        lemma_decimal_digits(b / 10);
        let da = decimal(a);
        let db = decimal(b);
        assert(da.last() == db.last());
        assert(da.drop_last() == decimal(a / 10));
        assert(db.drop_last() == decimal(b / 10));
        lemma_decimal_injective(a / 10, b / 10);
        assert(digit_char(a % 10) == digit_char(b % 10));
        assert(a % 10 == b % 10);
        assert(a == (a / 10) * 10 + a % 10);
        assert(b == (b / 10) * 10 + b % 10);
    } else if a < 10 {
        lemma_decimal_digits(b / 10);
        assert(decimal(b).len() == decimal(b / 10).len() + 1);
        assert(decimal(a).len() == 1);
    } else {
        lemma_decimal_digits(a / 10);
        assert(decimal(a).len() == decimal(a / 10).len() + 1);
        assert(decimal(b).len() == 1);
    }
}

/// The suffixes that follow `option_<id>` in the four keys of an option.
pub open spec fn is_key_suffix(s: Seq<char>) -> bool {
    s == Seq::<char>::empty() || s == strike_suffix() || s == expiry_suffix() || s
        == exercised_suffix()
}

/// A key of the layout names its id and its field: two keys made of ids and
/// suffixes are equal only when both their ids and their suffixes are.
pub proof fn lemma_key_parts_injective(a: u64, s1: Seq<char>, b: u64, s2: Seq<char>)
    requires
        is_key_suffix(s1),
        is_key_suffix(s2),
        option_key_spec(a) + s1 == option_key_spec(b) + s2,
    ensures
        a == b,
        s1 == s2,
{
    let da = decimal(a as nat);
    let db = decimal(b as nat);
    let x = prefix_spec() + da + s1;
    let y = prefix_spec() + db + s2;
    assert(option_key_spec(a) + s1 == x);
    assert(option_key_spec(b) + s2 == y);
    lemma_decimal_digits(a as nat);
    lemma_decimal_digits(b as nat);
    if da.len() < db.len() {
        let i: int = 7 + da.len() as int;
        assert(y[i] == db[da.len() as int]);
        assert(is_digit(db[da.len() as int]));
        if s1.len() == 0 {
            assert(x.len() < y.len());
        } else {
            assert(x[i] == s1[0]);
        }
    } else if db.len() < da.len() {
        let i: int = 7 + db.len() as int;
        assert(x[i] == da[db.len() as int]);
        assert(is_digit(da[db.len() as int]));
        if s2.len() == 0 {
            assert(y.len() < x.len());
        } else {
            assert(y[i] == s2[0]);
        }
    }
    assert(da.len() == db.len());
    assert(x.subrange(7, 7 + da.len() as int) =~= da);
    assert(y.subrange(7, 7 + db.len() as int) =~= db);
    lemma_decimal_injective(a as nat, b as nat);
    assert(x.subrange(7 + da.len() as int, x.len() as int) =~= s1);
    assert(y.subrange(7 + db.len() as int, y.len() as int) =~= s2);
}

/// Distinct ids own disjoint key sets, and the four keys of one id are distinct.
pub proof fn lemma_keys_disjoint(a: u64, b: u64)
    ensures
        a != b ==> keys_of(a).disjoint(keys_of(b)),
        option_key_spec(a) != strike_key_spec(a),
        option_key_spec(a) != expiry_key_spec(a),
        option_key_spec(a) != exercised_key_spec(a),
        strike_key_spec(a) != expiry_key_spec(a),
        strike_key_spec(a) != exercised_key_spec(a),
        expiry_key_spec(a) != exercised_key_spec(a),
{
    let e = Seq::<char>::empty();
    let suffixes = seq![e, strike_suffix(), expiry_suffix(), exercised_suffix()];
    assert(option_key_spec(a) + e =~= option_key_spec(a));
    assert(option_key_spec(b) + e =~= option_key_spec(b));
    assert forall|i: int, j: int, x: u64, y: u64|
        0 <= i < 4 && 0 <= j < 4 && #[trigger] (option_key_spec(x) + suffixes[i]) == #[trigger] (
        option_key_spec(y) + suffixes[j]) implies x == y && i == j by {
        lemma_key_parts_injective(x, suffixes[i], y, suffixes[j]);
        assert(strike_suffix()[1] != expiry_suffix()[1]);
        assert(strike_suffix().len() != exercised_suffix().len());
        assert(expiry_suffix().len() != exercised_suffix().len());
    }
    assert(keys_of(a) =~= Set::new(|k: Seq<char>| exists|i: int| 0 <= i < 4 && k == option_key_spec(a) + suffixes[i])) by {
        assert(option_key_spec(a) == option_key_spec(a) + suffixes[0]);
        assert(strike_key_spec(a) == option_key_spec(a) + suffixes[1]);
        assert(expiry_key_spec(a) == option_key_spec(a) + suffixes[2]);
        assert(exercised_key_spec(a) == option_key_spec(a) + suffixes[3]);
    }
    assert(keys_of(b) =~= Set::new(|k: Seq<char>| exists|i: int| 0 <= i < 4 && k == option_key_spec(b) + suffixes[i])) by {
        assert(option_key_spec(b) == option_key_spec(b) + suffixes[0]);
        assert(strike_key_spec(b) == option_key_spec(b) + suffixes[1]);
        assert(expiry_key_spec(b) == option_key_spec(b) + suffixes[2]);
        assert(exercised_key_spec(b) == option_key_spec(b) + suffixes[3]);
    }
    assert(option_key_spec(a) + suffixes[0] != option_key_spec(a) + suffixes[1]);
    assert(option_key_spec(a) + suffixes[0] != option_key_spec(a) + suffixes[2]);
    assert(option_key_spec(a) + suffixes[0] != option_key_spec(a) + suffixes[3]);
    assert(option_key_spec(a) + suffixes[1] != option_key_spec(a) + suffixes[2]);
    assert(option_key_spec(a) + suffixes[1] != option_key_spec(a) + suffixes[3]);
    assert(option_key_spec(a) + suffixes[2] != option_key_spec(a) + suffixes[3]);
}

/// No key of an option is one of the names that installation binds.
pub proof fn lemma_option_keys_not_reserved(id: u64, s: Seq<char>)
    ensures
        option_key_spec(id) + s != CONTRACT_KEY@,
        option_key_spec(id) + s != CONTRACT_PACKAGE_KEY@,
        option_key_spec(id) + s != CONTRACT_ACCESS_KEY@,
        option_key_spec(id) + s != OPTION_COUNT_KEY@,
{
    reveal_strlit("option_registry");
    reveal_strlit("option_registry_package");
    reveal_strlit("option_registry_access");
    reveal_strlit("option_count");
    lemma_decimal_digits(id as nat);
    let k = option_key_spec(id) + s;
    assert(k[7] == decimal(id as nat)[0]);
    assert(is_digit(k[7]));
    assert(CONTRACT_KEY@[7] == 'r');
    assert(CONTRACT_PACKAGE_KEY@[7] == 'r');
    assert(CONTRACT_ACCESS_KEY@[7] == 'r');
    assert(OPTION_COUNT_KEY@[7] == 'c');
}

/// The one-character string of the digit `d`.
fn digit_str(d: u64) -> (r: &'static str)
    requires
        d < 10,
    ensures
        r@ == seq![digit_char(d as nat)],
{
    if d == 0 {
        proof {
            reveal_strlit("0");
        }
        "0"
    } else if d == 1 {
        proof {
            reveal_strlit("1");
        }
        "1"
    } else if d == 2 {
        proof {
            reveal_strlit("2");
        }
        "2"
    } else if d == 3 {
        proof {
            reveal_strlit("3");
        }
        "3"
    } else if d == 4 {
        proof {
            reveal_strlit("4");
        }
        "4"
    } else if d == 5 {
        proof {
            reveal_strlit("5");
        }
        "5"
    } else if d == 6 {
        proof {
            reveal_strlit("6");
        }
        "6"
    } else if d == 7 {
        proof {
            reveal_strlit("7");
        }
        "7"
    } else if d == 8 {
        proof {
            reveal_strlit("8");
        }
        "8"
    } else {
        proof {
            reveal_strlit("9");
        }
        "9"
    }
}

/// Appends the decimal rendering of `n` to `s`.
fn push_decimal(s: &mut String, n: u64)
    ensures
        final(s)@ == old(s)@ + decimal(n as nat),
    decreases n,
{
    if n >= 10 {
        push_decimal(s, n / 10);
    }
    s.append(digit_str(n % 10));
    proof {
        if n >= 10 {
            assert(decimal(n as nat) == decimal((n / 10) as nat).push(digit_char((n % 10) as nat)));
        }
    }
}

/// Appends `suffix` to the key of option `id`.
fn key_with_suffix(id: u64, suffix: &str) -> (r: String)
    ensures
        r@ == option_key_spec(id) + suffix@,
{
    let mut key = option_key(id);
    key.append(suffix);
    key
}

/// `option_<id>`: the key bound to the id of a created option.
pub fn option_key(id: u64) -> (r: String)
    ensures
        r@ == option_key_spec(id),
{
    proof {
        reveal_strlit("option_");
    }
    let mut key = String::from_str("option_");
    assert(key@ =~= prefix_spec());
    push_decimal(&mut key, id);
    key
}

/// `option_<id>_strike`: the key bound to the strike price of option `id`.
pub fn option_strike_key(id: u64) -> (r: String)
    ensures
        r@ == strike_key_spec(id),
{
    proof {
        reveal_strlit("_strike");
    }
    let key = key_with_suffix(id, "_strike");
    assert("_strike"@ =~= strike_suffix());
    key
}

/// `option_<id>_expiry`: the key bound to the expiry of option `id`.
pub fn option_expiry_key(id: u64) -> (r: String)
    ensures
        r@ == expiry_key_spec(id),
{
    proof {
        reveal_strlit("_expiry");
    }
    let key = key_with_suffix(id, "_expiry");
    assert("_expiry"@ =~= expiry_suffix());
    key
}

/// `option_<id>_exercised`: the key bound to the exercised flag of option `id`.
pub fn option_exercised_key(id: u64) -> (r: String)
    ensures
        r@ == exercised_key_spec(id),
{
    proof {
        reveal_strlit("_exercised");
    }
    let key = key_with_suffix(id, "_exercised");
    assert("_exercised"@ =~= exercised_suffix());
    key
}

} // verus!
