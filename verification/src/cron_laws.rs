//! What a stepped range in a cron field selects.
use vstd::prelude::*;

use crate::path::{first_index, split_on};
use crate::schedule::{field_values, name_lookup, nth_step, part_range};
use crate::text::{all_digits, decimal, is_digit, parse_unsigned_spec};

verus! {

/// The list element `a-b/s`, written in decimal.
pub open spec fn stepped_range_text(a: nat, b: nat, s: nat) -> Seq<char> {
    decimal(a) + seq!['-'] + decimal(b) + seq!['/'] + decimal(s)
}

proof fn lemma_first_index_at(s: Seq<char>, c: char, k: int)
    requires
        0 <= k < s.len(),
        s[k] == c,
        forall|i: int| 0 <= i < k ==> s[i] != c,
    ensures
        first_index(s, c) == k,
    decreases k,
{
    if k > 0 {
        assert forall|i: int| 0 <= i < k - 1 implies s.drop_first()[i] != c by {
            assert(s.drop_first()[i] == s[i + 1]);
        }
        lemma_first_index_at(s.drop_first(), c, k - 1);
    }
}

proof fn lemma_first_index_none(s: Seq<char>, c: char)
    requires
        forall|i: int| 0 <= i < s.len() ==> s[i] != c,
    ensures
        first_index(s, c) == s.len(),
    decreases s.len(),
{
    if s.len() > 0 {
        assert forall|i: int| 0 <= i < s.drop_first().len() implies s.drop_first()[i] != c by {
            assert(s.drop_first()[i] == s[i + 1]);
        }
        lemma_first_index_none(s.drop_first(), c);
    }
}

proof fn lemma_decimal_text(n: nat)
    requires
        n <= 255,
    ensures
        decimal(n).len() > 0,
        forall|i: int| 0 <= i < decimal(n).len() ==> is_digit(#[trigger] decimal(n)[i]),
        parse_unsigned_spec(decimal(n), 255) == Some(n),
{
    crate::model::duration_laws::lemma_decimal(n);
    crate::xml_laws::lemma_number_round_trip(n, 255);
}

/// The list element `a-b/s` denotes the range from `a` to `b` by `s`.
pub proof fn lemma_stepped_range(a: nat, b: nat, s: nat, minimum: nat, maximum: nat, names: Seq<(Seq<char>, u8)>)
    requires
        minimum <= a <= b <= maximum <= 255,
        1 <= s <= 255,
        name_lookup(names, decimal(a)) is None,
        name_lookup(names, decimal(b)) is None,
    ensures
        part_range(stepped_range_text(a, b, s), minimum, maximum, names) == Some((a, b, s)),
{
    let da = decimal(a);
    let db = decimal(b);
    let ds = decimal(s);
    lemma_decimal_text(a);
    lemma_decimal_text(b);
    lemma_decimal_text(s);
    let t = stepped_range_text(a, b, s);
    let slash: int = da.len() as int + 1 + db.len() as int;
    assert(t[slash] == '/');
    assert forall|i: int| 0 <= i < slash implies t[i] != '/' by {
        if i < da.len() {
            assert(t[i] == da[i] && is_digit(da[i]));
        } else if i > da.len() {
            assert(t[i] == db[i - da.len() - 1] && is_digit(db[i - da.len() - 1]));
        }
    }
    lemma_first_index_at(t, '/', slash);
    let range = t.take(slash);
    assert(range =~= da + seq!['-'] + db);
    assert(t.skip(slash + 1) =~= ds);
    assert forall|i: int| 0 <= i < da.len() implies range[i] != '-' by {
        assert(range[i] == da[i] && is_digit(da[i]));
    }
    lemma_first_index_at(range, '-', da.len() as int);
    assert(range.take(da.len() as int) =~= da);
    assert(range.skip(da.len() as int + 1) =~= db);
    assert(range != seq!['*']) by {
        assert(is_digit(range[0]));
    }
}

/// The `k`-th value of the range from `a` by `s`.
pub open spec fn step_value(a: nat, s: nat, k: int) -> int {
    a + k * s
}

/// Every value a lone list element `a-b/s` selects is one of `a`,
/// `a + s`, `a + 2s`, ... and at most `b`, and each of those that is at most
/// `b` is selected.
pub proof fn lemma_stepped_range_selects(
    a: nat,
    b: nat,
    s: nat,
    minimum: nat,
    maximum: nat,
    names: Seq<(Seq<char>, u8)>,
)
    requires
        minimum <= a <= b <= maximum <= 255,
        1 <= s <= 255,
        name_lookup(names, decimal(a)) is None,
        name_lookup(names, decimal(b)) is None,
    ensures
        field_values(stepped_range_text(a, b, s), minimum, maximum, names, false) matches Some(set) && (forall|x: nat|
            set.contains(x) ==> x <= b && exists|k: int| 0 <= k && #[trigger] step_value(a, s, k) == x) && (forall|k: int|
            0 <= k && #[trigger] step_value(a, s, k) <= b ==> set.contains(step_value(a, s, k) as nat)),
{
    let t = stepped_range_text(a, b, s);
    lemma_stepped_range(a, b, s, minimum, maximum, names);
    lemma_decimal_text(a);
    lemma_decimal_text(b);
    lemma_decimal_text(s);
    let da = decimal(a);
    let db = decimal(b);
    assert forall|i: int| 0 <= i < t.len() implies t[i] != ',' by {
        if i < da.len() {
            assert(t[i] == da[i] && is_digit(da[i]));
        } else if da.len() < i < da.len() + 1 + db.len() {
            assert(t[i] == db[i - da.len() - 1] && is_digit(db[i - da.len() - 1]));
        } else if i > da.len() + 1 + db.len() {
            assert(t[i] == decimal(s)[i - da.len() - 2 - db.len()] && is_digit(decimal(s)[i - da.len() - 2 - db.len()]));
        }
    }
    lemma_first_index_none(t, ',');
    let parts = split_on(t, ',');
    assert(parts == seq![t]);
    assert(crate::schedule::parts_ok(parts, minimum, maximum, names)) by {
        assert(parts[0] == t);
    }
    assert(field_values(t, minimum, maximum, names, false) is Some);
    let set = field_values(t, minimum, maximum, names, false)->0;
    assert forall|x: nat| set.contains(x) implies x <= b && exists|k: int| 0 <= k && #[trigger] step_value(a, s, k) == x by {
        assert(crate::schedule::in_parts(x, parts, minimum, maximum, names, false));
        let i = choose|i: int| 0 <= i < parts.len() && (#[trigger] part_range(parts[i], minimum, maximum, names) matches Some((aa, bb, st))
            && crate::schedule::in_range_values(x, aa, bb, st, false));
        assert(i == 0);
        let j = choose|j: nat| #[trigger] nth_step(a, s, j) <= b && x == crate::schedule::alias(nth_step(a, s, j), false);
        assert(step_value(a, s, j as int) == x);
    }
    assert forall|k: int| 0 <= k && #[trigger] step_value(a, s, k) <= b implies set.contains(step_value(a, s, k) as nat) by {
        let j = k as nat;
        assert(nth_step(a, s, j) == step_value(a, s, k));
        assert(crate::schedule::in_range_values(nth_step(a, s, j), a, b, s, false));
        assert(part_range(parts[0], minimum, maximum, names) == Some((a, b, s)));
        assert(crate::schedule::in_parts(nth_step(a, s, j), parts, minimum, maximum, names, false));
    }
}

proof fn lemma_no_mark(n: nat, c: char)
    requires
        n <= 255,
        !is_digit(c),
    ensures
        forall|i: int| 0 <= i < decimal(n).len() ==> #[trigger] decimal(n)[i] != c,
{
    lemma_decimal_text(n);
}

/// A lone value `a` selects just `a`, and `a/s` the range from `a` to the
/// field's maximum by `s`.
pub proof fn lemma_single_value(a: nat, s: nat, minimum: nat, maximum: nat, names: Seq<(Seq<char>, u8)>)
    requires
        minimum <= a <= maximum <= 255,
        1 <= s <= 255,
        name_lookup(names, decimal(a)) is None,
    ensures
        part_range(decimal(a), minimum, maximum, names) == Some((a, a, 1nat)),
        part_range(decimal(a) + seq!['/'] + decimal(s), minimum, maximum, names) == Some((a, maximum, s)),
{
    lemma_decimal_text(a);
    lemma_decimal_text(s);
    lemma_no_mark(a, '/');
    lemma_no_mark(a, '-');
    let da = decimal(a);
    lemma_first_index_none(da, '/');
    assert(da.take(da.len() as int) =~= da);
    lemma_first_index_none(da, '-');
    assert(da != seq!['*']) by {
        assert(is_digit(da[0]));
    }
    let t = da + seq!['/'] + decimal(s);
    assert forall|i: int| 0 <= i < da.len() implies t[i] != '/' by {
        assert(t[i] == da[i]);
    }
    lemma_first_index_at(t, '/', da.len() as int);
    assert(t.take(da.len() as int) =~= da);
    assert(t.skip(da.len() as int + 1) =~= decimal(s));
}

/// A range `a-b` selects `a` to `b` by one.
pub proof fn lemma_plain_range(a: nat, b: nat, minimum: nat, maximum: nat, names: Seq<(Seq<char>, u8)>)
    requires
        minimum <= a <= b <= maximum <= 255,
        name_lookup(names, decimal(a)) is None,
        name_lookup(names, decimal(b)) is None,
    ensures
        part_range(decimal(a) + seq!['-'] + decimal(b), minimum, maximum, names) == Some((a, b, 1nat)),
{
    lemma_decimal_text(a);
    lemma_decimal_text(b);
    lemma_no_mark(a, '/');
    lemma_no_mark(b, '/');
    lemma_no_mark(a, '-');
    let t = decimal(a) + seq!['-'] + decimal(b);
    assert forall|i: int| 0 <= i < t.len() implies t[i] != '/' by {
        if i < decimal(a).len() {
            assert(t[i] == decimal(a)[i]);
        } else if i > decimal(a).len() {
            assert(t[i] == decimal(b)[i - decimal(a).len() - 1]);
        }
    }
    lemma_first_index_none(t, '/');
    assert(t.take(t.len() as int) =~= t);
    assert forall|i: int| 0 <= i < decimal(a).len() implies t[i] != '-' by {
        assert(t[i] == decimal(a)[i]);
    }
    lemma_first_index_at(t, '-', decimal(a).len() as int);
    assert(t.take(decimal(a).len() as int) =~= decimal(a));
    assert(t.skip(decimal(a).len() as int + 1) =~= decimal(b));
    assert(t != seq!['*']) by {
        assert(is_digit(t[0]));
    }
}

/// `*` selects the whole field, and `*/s` the whole field by `s`.
pub proof fn lemma_star(s: nat, minimum: nat, maximum: nat, names: Seq<(Seq<char>, u8)>)
    requires
        minimum <= maximum <= 255,
        1 <= s <= 255,
    ensures
        part_range(seq!['*'], minimum, maximum, names) == Some((minimum, maximum, 1nat)),
        part_range(seq!['*', '/'] + decimal(s), minimum, maximum, names) == Some((minimum, maximum, s)),
{
    lemma_decimal_text(s);
    lemma_first_index_none(seq!['*'], '/');
    assert(seq!['*'].take(1) =~= seq!['*']);
    let t = seq!['*', '/'] + decimal(s);
    lemma_first_index_at(t, '/', 1);
    assert(t.take(1) =~= seq!['*']);
    assert(t.skip(2) =~= decimal(s));
}

/// A zero step, or a range that ends past the field's maximum or starts
/// after its end, is refused.
pub proof fn lemma_refused_ranges(a: nat, b: nat, s: nat, minimum: nat, maximum: nat, names: Seq<(Seq<char>, u8)>)
    requires
        minimum <= a,
        a <= 255,
        b <= 255,
        s <= 255,
        maximum <= 255,
        name_lookup(names, decimal(a)) is None,
        name_lookup(names, decimal(b)) is None,
        s == 0 || b > maximum || a > b,
    ensures
        part_range(stepped_range_text(a, b, s), minimum, maximum, names) is None,
{
    let da = decimal(a);
    let db = decimal(b);
    let ds = decimal(s);
    lemma_decimal_text(a);
    lemma_decimal_text(b);
    lemma_decimal_text(s);
    let t = stepped_range_text(a, b, s);
    let slash: int = da.len() as int + 1 + db.len() as int;
    assert(t[slash] == '/');
    assert forall|i: int| 0 <= i < slash implies t[i] != '/' by {
        if i < da.len() {
            assert(t[i] == da[i] && is_digit(da[i]));
        } else if i > da.len() {
            assert(t[i] == db[i - da.len() - 1] && is_digit(db[i - da.len() - 1]));
        }
    }
    lemma_first_index_at(t, '/', slash);
    let range = t.take(slash);
    assert(range =~= da + seq!['-'] + db);
    assert(t.skip(slash + 1) =~= ds);
    assert forall|i: int| 0 <= i < da.len() implies range[i] != '-' by {
        assert(range[i] == da[i] && is_digit(da[i]));
    }
    lemma_first_index_at(range, '-', da.len() as int);
    assert(range.take(da.len() as int) =~= da);
    assert(range.skip(da.len() as int + 1) =~= db);
    assert(range != seq!['*']) by {
        assert(is_digit(range[0]));
    }
}

proof fn lemma_no_comma(a: nat, b: nat, s: nat)
    requires
        a <= 255,
        b <= 255,
        s <= 255,
    ensures
        forall|i: int| 0 <= i < stepped_range_text(a, b, s).len() ==> #[trigger] stepped_range_text(a, b, s)[i] != ',',
{
    let t = stepped_range_text(a, b, s);
    let da = decimal(a);
    let db = decimal(b);
    lemma_decimal_text(a);
    lemma_decimal_text(b);
    lemma_decimal_text(s);
    assert forall|i: int| 0 <= i < t.len() implies t[i] != ',' by {
        if i < da.len() {
            assert(t[i] == da[i] && is_digit(da[i]));
        } else if da.len() < i < da.len() + 1 + db.len() {
            assert(t[i] == db[i - da.len() - 1] && is_digit(db[i - da.len() - 1]));
        } else if i > da.len() + 1 + db.len() {
            assert(t[i] == decimal(s)[i - da.len() - 2 - db.len()] && is_digit(decimal(s)[i - da.len() - 2 - db.len()]));
        }
    }
}

/// A list of two stepped ranges selects exactly what either selects.
pub proof fn lemma_list_is_union(
    a1: nat,
    b1: nat,
    s1: nat,
    a2: nat,
    b2: nat,
    s2: nat,
    minimum: nat,
    maximum: nat,
    names: Seq<(Seq<char>, u8)>,
)
    requires
        minimum <= a1 <= b1 <= maximum <= 255,
        minimum <= a2 <= b2 <= maximum,
        1 <= s1 <= 255,
        1 <= s2 <= 255,
        name_lookup(names, decimal(a1)) is None,
        name_lookup(names, decimal(b1)) is None,
        name_lookup(names, decimal(a2)) is None,
        name_lookup(names, decimal(b2)) is None,
    ensures
        field_values(
            stepped_range_text(a1, b1, s1) + seq![','] + stepped_range_text(a2, b2, s2),
            minimum,
            maximum,
            names,
            false,
        ) matches Some(set) && forall|x: nat|
            #[trigger] set.contains(x) <==> (x <= b1 && exists|k: int| 0 <= k && #[trigger] step_value(a1, s1, k) == x)
                || (x <= b2 && exists|k: int| 0 <= k && #[trigger] step_value(a2, s2, k) == x),
{
    let t1 = stepped_range_text(a1, b1, s1);
    let t2 = stepped_range_text(a2, b2, s2);
    let t = t1 + seq![','] + t2;
    lemma_no_comma(a1, b1, s1);
    lemma_no_comma(a2, b2, s2);
    assert forall|i: int| 0 <= i < t1.len() implies t[i] != ',' by {
        assert(t[i] == t1[i]);
    }
    lemma_first_index_at(t, ',', t1.len() as int);
    assert(t.take(t1.len() as int) =~= t1);
    assert(t.skip(t1.len() as int + 1) =~= t2);
    lemma_first_index_none(t2, ',');
    assert(split_on(t2, ',') == seq![t2]);
    let parts = split_on(t, ',');
    assert(parts =~= seq![t1, t2]);
    lemma_stepped_range(a1, b1, s1, minimum, maximum, names);
    lemma_stepped_range(a2, b2, s2, minimum, maximum, names);
    assert(crate::schedule::parts_ok(parts, minimum, maximum, names)) by {
        assert(parts[0] == t1 && parts[1] == t2);
    }
    let set = field_values(t, minimum, maximum, names, false)->0;
    assert forall|x: nat| #[trigger] set.contains(x) <==> (x <= b1 && exists|k: int| 0 <= k && #[trigger] step_value(a1, s1, k) == x)
        || (x <= b2 && exists|k: int| 0 <= k && #[trigger] step_value(a2, s2, k) == x) by {
        assert(parts[0] == t1 && parts[1] == t2);
        if set.contains(x) {
            let i = choose|i: int| 0 <= i < parts.len() && (#[trigger] part_range(parts[i], minimum, maximum, names) matches Some((aa, bb, st))
                && crate::schedule::in_range_values(x, aa, bb, st, false));
            if i == 0 {
                let j = choose|j: nat| #[trigger] nth_step(a1, s1, j) <= b1 && x == crate::schedule::alias(nth_step(a1, s1, j), false);
                assert(step_value(a1, s1, j as int) == x);
            } else {
                let j = choose|j: nat| #[trigger] nth_step(a2, s2, j) <= b2 && x == crate::schedule::alias(nth_step(a2, s2, j), false);
                assert(step_value(a2, s2, j as int) == x);
            }
        }
        if x <= b1 && exists|k: int| 0 <= k && #[trigger] step_value(a1, s1, k) == x {
            let k = choose|k: int| 0 <= k && #[trigger] step_value(a1, s1, k) == x;
            assert(nth_step(a1, s1, k as nat) == x);
            assert(crate::schedule::in_range_values(x, a1, b1, s1, false));
            assert(crate::schedule::in_parts(x, parts, minimum, maximum, names, false));
        }
        if x <= b2 && exists|k: int| 0 <= k && #[trigger] step_value(a2, s2, k) == x {
            let k = choose|k: int| 0 <= k && #[trigger] step_value(a2, s2, k) == x;
            assert(nth_step(a2, s2, k as nat) == x);
            assert(crate::schedule::in_range_values(x, a2, b2, s2, false));
            assert(part_range(parts[1], minimum, maximum, names) == Some((a2, b2, s2)));
            assert(crate::schedule::in_parts(x, parts, minimum, maximum, names, false));
        }
    }
}

} // verus!
