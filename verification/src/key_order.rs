use vstd::prelude::*;

use std::cmp::Ordering;

use itertools::Itertools;

use crate::lua_type::{fields_view, lemma_fields_view, KeyV, LuaMemberKey, LuaType, TypeV};

verus! {

// ─── key order of object fields ─────────────────────────────────────────────

pub open spec fn key_rank(k: KeyV) -> int {
    match k {
        KeyV::NoKey => 0,
        KeyV::Integer(_) => 1,
        KeyV::Name(_) => 2,
        KeyV::ExprType(_) => 3,
    }
}

/// Lexicographic order of character sequences (code point by code point).
pub open spec fn chars_lt(a: Seq<char>, b: Seq<char>) -> bool
    decreases a.len(),
{
    if a.len() == 0 {
        b.len() > 0
    } else if b.len() == 0 {
        false
    } else if (a[0] as int) < (b[0] as int) {
        true
    } else if a[0] == b[0] {
        chars_lt(a.drop_first(), b.drop_first())
    } else {
        false
    }
}

/// The order of member keys: no key, then integers, names, expression types;
/// each kind by its value.
pub open spec fn key_lt(a: KeyV, b: KeyV) -> bool {
    if key_rank(a) != key_rank(b) {
        key_rank(a) < key_rank(b)
    } else {
        match (a, b) {
            (KeyV::Integer(x), KeyV::Integer(y)) => x < y,
            (KeyV::Name(x), KeyV::Name(y)) => chars_lt(x, y),
            (KeyV::ExprType(x), KeyV::ExprType(y)) => x < y,
            _ => false,
        }
    }
}

/// Position `i` comes before position `j` in a stable sort by key.
pub open spec fn index_before(keys: Seq<KeyV>, i: int, j: int) -> bool {
    key_lt(keys[i], keys[j]) || (!key_lt(keys[j], keys[i]) && i < j)
}

/// `x` occurs in `p`.
pub open spec fn lists(p: Seq<int>, x: int) -> bool {
    exists|i: int| 0 <= i < p.len() && p[i] == x
}

/// `p` lists the positions of `keys` in stable ascending key order.
pub open spec fn is_sort_perm(keys: Seq<KeyV>, p: Seq<int>) -> bool {
    &&& p.len() == keys.len()
    &&& forall|i: int| 0 <= i < p.len() ==> 0 <= #[trigger] p[i] < keys.len()
    &&& forall|i: int, j: int| 0 <= i < j < p.len() ==> p[i] != p[j]
    &&& forall|x: int| 0 <= x < keys.len() ==> #[trigger] lists(p, x)
    &&& forall|i: int, j: int|
        0 <= i < j < p.len() ==> index_before(keys, #[trigger] p[i], #[trigger] p[j])
}

pub open spec fn field_keys(fs: Seq<(KeyV, TypeV)>) -> Seq<KeyV> {
    fs.map_values(|f: (KeyV, TypeV)| f.0)
}

/// The fields in stable ascending key order.
pub open spec fn sorted_fields(fs: Seq<(KeyV, TypeV)>) -> Seq<(KeyV, TypeV)> {
    let p = choose|p: Seq<int>| is_sort_perm(field_keys(fs), p);
    Seq::new(p.len(), |i: int| fs[p[i]])
}


// ─── the order is a total order on keys ─────────────────────────────────────

pub proof fn lemma_chars_lt_irreflexive(a: Seq<char>)
    ensures
        !chars_lt(a, a),
    decreases a.len(),
{
    if a.len() > 0 {
        lemma_chars_lt_irreflexive(a.drop_first());
    }
}

pub proof fn lemma_chars_lt_asymmetric(a: Seq<char>, b: Seq<char>)
    ensures
        chars_lt(a, b) ==> !chars_lt(b, a),
    decreases a.len(),
{
    if a.len() > 0 && b.len() > 0 && a[0] == b[0] {
        lemma_chars_lt_asymmetric(a.drop_first(), b.drop_first());
    }
}

pub proof fn lemma_chars_lt_transitive(a: Seq<char>, b: Seq<char>, c: Seq<char>)
    ensures
        chars_lt(a, b) && chars_lt(b, c) ==> chars_lt(a, c),
    decreases a.len(),
{
    if a.len() > 0 && b.len() > 0 && c.len() > 0 {
        lemma_chars_lt_transitive(a.drop_first(), b.drop_first(), c.drop_first());
    }
}

pub proof fn lemma_chars_lt_total(a: Seq<char>, b: Seq<char>)
    ensures
        a != b ==> chars_lt(a, b) || chars_lt(b, a),
    decreases a.len(),
{
    if a.len() > 0 && b.len() > 0 {
        if a[0] == b[0] {
            lemma_chars_lt_total(a.drop_first(), b.drop_first());
            if a.drop_first() == b.drop_first() {
                assert(a.drop_first().len() == b.drop_first().len());
                assert(a.len() == b.len());
                assert forall|i: int| 0 <= i < a.len() implies a[i] == b[i] by {
                    if i > 0 {
                        assert(a[i] == a.drop_first()[i - 1]);
                        assert(b[i] == b.drop_first()[i - 1]);
                    }
                }
                assert(a =~= b);
            }
        } else {
            assert((a[0] as int) != (b[0] as int));
        }
    } else if a.len() == 0 && b.len() == 0 {
        assert(a =~= b);
    }
}

/// Member keys are totally ordered by `key_lt`: it is irreflexive,
/// asymmetric and transitive, and any two different keys are comparable.
pub proof fn lemma_key_order(a: KeyV, b: KeyV, c: KeyV)
    ensures
        !key_lt(a, a),
        key_lt(a, b) ==> !key_lt(b, a),
        key_lt(a, b) && key_lt(b, c) ==> key_lt(a, c),
        a != b ==> key_lt(a, b) || key_lt(b, a),
{
    match (a, b) {
        (KeyV::Name(x), KeyV::Name(y)) => {
            lemma_chars_lt_asymmetric(x, y);
            lemma_chars_lt_total(x, y);
        },
        _ => {},
    }
    match a {
        KeyV::Name(x) => lemma_chars_lt_irreflexive(x),
        _ => {},
    }
    match (a, b, c) {
        (KeyV::Name(x), KeyV::Name(y), KeyV::Name(z)) => lemma_chars_lt_transitive(x, y, z),
        _ => {},
    }
}

// ─── a stable sort by key is unique ─────────────────────────────────────────

proof fn lemma_index_before_asymmetric(keys: Seq<KeyV>, i: int, j: int)
    requires
        0 <= i < keys.len(),
        0 <= j < keys.len(),
    ensures
        index_before(keys, i, j) ==> !index_before(keys, j, i),
{
    lemma_key_order(keys[i], keys[j], keys[j]);
}

proof fn lemma_sort_perm_prefix(keys: Seq<KeyV>, p: Seq<int>, q: Seq<int>, i: int)
    requires
        is_sort_perm(keys, p),
        is_sort_perm(keys, q),
        0 <= i < p.len(),
    ensures
        forall|j: int| 0 <= j <= i ==> p[j] == q[j],
    decreases i,
{
    if i > 0 {
        lemma_sort_perm_prefix(keys, p, q, i - 1);
    }
    let x = p[i];
    let y = q[i];
    if x != y {
        lemma_index_before_asymmetric(keys, x, y);
        if index_before(keys, x, y) {
            assert(lists(q, x));
            let k = choose|k: int| 0 <= k < q.len() && q[k] == x;
            if k < i {
                assert(p[k] == q[k]);
                assert(p[k] == p[i]);
                assert(false);
            } else if k > i {
                assert(index_before(keys, q[i], q[k]));
                assert(false);
            }
        } else {
            assert(lists(p, y));
            let k = choose|k: int| 0 <= k < p.len() && p[k] == y;
            if k < i {
                assert(p[k] == q[k]);
                assert(q[k] == q[i]);
                assert(false);
            } else if k > i {
                assert(index_before(keys, p[i], p[k]));
                assert(false);
            }
        }
    }
}

/// There is only one stable ascending order of a sequence of keys.
pub proof fn lemma_sort_perm_unique(keys: Seq<KeyV>, p: Seq<int>, q: Seq<int>)
    requires
        is_sort_perm(keys, p),
        is_sort_perm(keys, q),
    ensures
        p == q,
{
    if p.len() > 0 {
        lemma_sort_perm_prefix(keys, p, q, p.len() - 1);
    }
    assert(p =~= q);
}

// ─── what the key order is ──────────────────────────────────────────────────

proof fn lemma_chars_lt_proper_prefix(a: Seq<char>, b: Seq<char>)
    requires
        b.len() > 0,
    ensures
        chars_lt(a, a + b),
    decreases a.len(),
{
    if a.len() > 0 {
        assert((a + b)[0] == a[0]);
        assert((a + b).drop_first() =~= a.drop_first() + b);
        lemma_chars_lt_proper_prefix(a.drop_first(), b);
    }
}

/// Member keys are ordered as the key enum is: first by kind (no key,
/// integers, names, expression types), integer keys by their value,
/// expression-type keys by their id, and names lexicographically by code
/// point (a proper prefix comes first; otherwise the first differing
/// character decides).
pub proof fn lemma_key_order_values(
    x: int,
    y: int,
    a: Seq<char>,
    b: Seq<char>,
    c: Seq<char>,
    u: u64,
    v: u64,
)
    ensures
        key_lt(KeyV::Integer(x), KeyV::Integer(y)) <==> x < y,
        key_lt(KeyV::ExprType(u), KeyV::ExprType(v)) <==> u < v,
        key_lt(KeyV::NoKey, KeyV::Integer(x)),
        key_lt(KeyV::Integer(x), KeyV::Name(a)),
        key_lt(KeyV::Name(a), KeyV::ExprType(u)),
        !key_lt(KeyV::Integer(x), KeyV::NoKey),
        !key_lt(KeyV::Name(a), KeyV::Integer(x)),
        !key_lt(KeyV::ExprType(u), KeyV::Name(a)),
        b.len() > 0 ==> key_lt(KeyV::Name(a), KeyV::Name(a + b)),
        b.len() > 0 ==> !key_lt(KeyV::Name(a + b), KeyV::Name(a)),
        b.len() > 0 && c.len() > 0 && (b[0] as int) < (c[0] as int) ==> key_lt(
            KeyV::Name(a + b),
            KeyV::Name(a + c),
        ),
{
    if b.len() > 0 {
        lemma_chars_lt_proper_prefix(a, b);
        lemma_chars_lt_asymmetric(a, a + b);
        if c.len() > 0 && (b[0] as int) < (c[0] as int) {
            lemma_chars_lt_common_prefix(a, b, c);
        }
    }
}

proof fn lemma_chars_lt_common_prefix(a: Seq<char>, b: Seq<char>, c: Seq<char>)
    requires
        b.len() > 0,
        c.len() > 0,
        (b[0] as int) < (c[0] as int),
    ensures
        chars_lt(a + b, a + c),
    decreases a.len(),
{
    if a.len() > 0 {
        assert((a + b)[0] == a[0]);
        assert((a + c)[0] == a[0]);
        assert((a + b).drop_first() =~= a.drop_first() + b);
        assert((a + c).drop_first() =~= a.drop_first() + c);
        lemma_chars_lt_common_prefix(a.drop_first(), b, c);
    } else {
        assert(a + b =~= b);
        assert(a + c =~= c);
    }
}

// ─── a stable sort by key exists ────────────────────────────────────────────

/// Position of the first entry of `p` whose key is above `k`, or `p.len()`.
spec fn first_above(keys: Seq<KeyV>, p: Seq<int>, k: KeyV) -> int
    decreases p.len(),
{
    if p.len() == 0 {
        0
    } else if key_lt(k, keys[p[0]]) {
        0
    } else {
        1 + first_above(keys, p.drop_first(), k)
    }
}

proof fn lemma_first_above(keys: Seq<KeyV>, p: Seq<int>, k: KeyV)
    ensures
        0 <= first_above(keys, p, k) <= p.len(),
        forall|i: int| 0 <= i < first_above(keys, p, k) ==> !key_lt(k, #[trigger] keys[p[i]]),
        first_above(keys, p, k) < p.len() ==> key_lt(k, keys[p[first_above(keys, p, k)]]),
    decreases p.len(),
{
    if p.len() > 0 && !key_lt(k, keys[p[0]]) {
        lemma_first_above(keys, p.drop_first(), k);
        assert forall|i: int| 0 <= i < first_above(keys, p, k) implies !key_lt(
            k,
            #[trigger] keys[p[i]],
        ) by {
            if i > 0 {
                assert(p[i] == p.drop_first()[i - 1]);
            }
        }
    }
}

proof fn lemma_sort_perm_exists(keys: Seq<KeyV>)
    ensures
        exists|p: Seq<int>| is_sort_perm(keys, p),
    decreases keys.len(),
{
    if keys.len() == 0 {
        assert(is_sort_perm(keys, Seq::<int>::empty()));
    } else {
        let n = keys.len() - 1;
        let ks = keys.drop_last();
        lemma_sort_perm_exists(ks);
        let p = choose|p: Seq<int>| is_sort_perm(ks, p);
        let k = keys[n];
        lemma_first_above(keys, p, k);
        let pos = first_above(keys, p, k);
        let q = p.insert(pos, n);
        assert forall|i: int| 0 <= i < p.len() implies 0 <= #[trigger] p[i] < n && keys[p[i]]
            == ks[p[i]] by {}
        assert forall|i: int, j: int|
            0 <= i < j < q.len() implies index_before(keys, #[trigger] q[i], #[trigger] q[j]) by {
            if i < pos && j < pos {
                assert(q[i] == p[i] && q[j] == p[j]);
                assert(index_before(ks, p[i], p[j]));
            } else if i < pos && j == pos {
                assert(q[i] == p[i] && q[j] == n);
                assert(!key_lt(k, keys[p[i]]));
            } else if i < pos && j > pos {
                assert(q[i] == p[i] && q[j] == p[j - 1]);
                assert(index_before(ks, p[i], p[j - 1]));
            } else if i == pos {
                assert(q[i] == n && q[j] == p[j - 1]);
                let a = p[pos];
                let b = p[j - 1];
                assert(key_lt(k, keys[a]));
                if j - 1 > pos {
                    assert(index_before(ks, a, b));
                    lemma_key_order(k, keys[a], keys[b]);
                    lemma_key_order(keys[a], keys[b], keys[b]);
                    lemma_key_order(keys[b], keys[a], keys[a]);
                    if !key_lt(keys[a], keys[b]) {
                        assert(keys[a] == keys[b]);
                    }
                }
                assert(key_lt(keys[n], keys[b]));
            } else {
                assert(q[i] == p[i - 1] && q[j] == p[j - 1]);
                assert(index_before(ks, p[i - 1], p[j - 1]));
            }
        }
        assert forall|i: int, j: int| 0 <= i < j < q.len() implies q[i] != q[j] by {
            if i < pos && j < pos {
            } else if j == pos {
                assert(q[i] == p[i]);
            } else if i == pos {
                assert(q[j] == p[j - 1]);
            } else if i < pos {
                assert(q[i] == p[i] && q[j] == p[j - 1]);
            } else {
                assert(q[i] == p[i - 1] && q[j] == p[j - 1]);
            }
        }
        assert forall|x: int| 0 <= x < keys.len() implies #[trigger] lists(q, x) by {
            if x == n {
                assert(q[pos] == n);
            } else {
                assert(lists(p, x));
                let i = choose|i: int| 0 <= i < p.len() && p[i] == x;
                if i < pos {
                    assert(q[i] == x);
                } else {
                    assert(q[i + 1] == x);
                }
            }
        }
        assert forall|i: int| 0 <= i < q.len() implies 0 <= #[trigger] q[i] < keys.len() by {
            if i < pos {
                assert(q[i] == p[i]);
            } else if i > pos {
                assert(q[i] == p[i - 1]);
            }
        }
        assert(is_sort_perm(keys, q));
    }
}

// ─── with distinct keys the sorted order depends on the fields alone ────────

/// Keys strictly ascend along `fs`.
pub open spec fn keys_ascending(fs: Seq<(KeyV, TypeV)>) -> bool {
    forall|i: int, j: int| 0 <= i < j < fs.len() ==> key_lt(#[trigger] fs[i].0, #[trigger] fs[j].0)
}

/// Sorting fields with distinct keys gives the same fields in strictly
/// ascending key order.
pub proof fn lemma_sorted_fields_ascending(fs: Seq<(KeyV, TypeV)>)
    requires
        field_keys(fs).no_duplicates(),
    ensures
        sorted_fields(fs).len() == fs.len(),
        keys_ascending(sorted_fields(fs)),
        forall|x: (KeyV, TypeV)| sorted_fields(fs).contains(x) <==> fs.contains(x),
{
    let keys = field_keys(fs);
    lemma_sort_perm_exists(keys);
    let p = choose|p: Seq<int>| is_sort_perm(keys, p);
    let sf = sorted_fields(fs);
    assert(sf.len() == fs.len());
    assert forall|i: int, j: int| 0 <= i < j < sf.len() implies key_lt(
        #[trigger] sf[i].0,
        #[trigger] sf[j].0,
    ) by {
        assert(index_before(keys, p[i], p[j]));
        assert(sf[i] == fs[p[i]] && sf[j] == fs[p[j]]);
        assert(keys[p[i]] != keys[p[j]]);
        lemma_key_order(keys[p[i]], keys[p[j]], keys[p[j]]);
    }
    assert forall|x: (KeyV, TypeV)| sf.contains(x) <==> fs.contains(x) by {
        if sf.contains(x) {
            let i = choose|i: int| 0 <= i < sf.len() && sf[i] == x;
            assert(fs[p[i]] == x);
        }
        if fs.contains(x) {
            let k = choose|k: int| 0 <= k < fs.len() && fs[k] == x;
            assert(lists(p, k));
            let i = choose|i: int| 0 <= i < p.len() && p[i] == k;
            assert(sf[i] == x);
        }
    }
}

/// Two sequences of fields with strictly ascending keys and the same fields
/// are equal.
proof fn lemma_ascending_unique(a: Seq<(KeyV, TypeV)>, b: Seq<(KeyV, TypeV)>)
    requires
        keys_ascending(a),
        keys_ascending(b),
        forall|x: (KeyV, TypeV)| a.contains(x) <==> b.contains(x),
    ensures
        a == b,
    decreases a.len(),
{
    if a.len() == 0 {
        if b.len() > 0 {
            assert(b.contains(b[0]));
        }
        assert(a =~= b);
    } else {
        assert(a.contains(a[0]));
        let j = choose|j: int| 0 <= j < b.len() && b[j] == a[0];
        assert(b.contains(b[0]));
        let k = choose|k: int| 0 <= k < a.len() && a[k] == b[0];
        if j > 0 {
            assert(key_lt(b[0].0, b[j].0));
            if k == 0 {
                lemma_key_order(a[0].0, a[0].0, a[0].0);
            } else {
                assert(key_lt(a[0].0, a[k].0));
                lemma_key_order(a[0].0, a[k].0, a[k].0);
            }
        }
        assert(a[0] == b[0]);
        let a1 = a.drop_first();
        let b1 = b.drop_first();
        assert forall|i: int, j2: int| 0 <= i < j2 < a1.len() implies key_lt(
            #[trigger] a1[i].0,
            #[trigger] a1[j2].0,
        ) by {
            assert(a1[i] == a[i + 1] && a1[j2] == a[j2 + 1]);
        }
        assert forall|i: int, j2: int| 0 <= i < j2 < b1.len() implies key_lt(
            #[trigger] b1[i].0,
            #[trigger] b1[j2].0,
        ) by {
            assert(b1[i] == b[i + 1] && b1[j2] == b[j2 + 1]);
        }
        assert forall|x: (KeyV, TypeV)| a1.contains(x) <==> b1.contains(x) by {
            if a1.contains(x) {
                let i = choose|i: int| 0 <= i < a1.len() && a1[i] == x;
                assert(a[i + 1] == x);
                assert(a.contains(x));
                assert(key_lt(a[0].0, a[i + 1].0));
                lemma_key_order(x.0, x.0, x.0);
                let m = choose|m: int| 0 <= m < b.len() && b[m] == x;
                assert(m != 0);
                assert(b1[m - 1] == x);
            }
            if b1.contains(x) {
                let i = choose|i: int| 0 <= i < b1.len() && b1[i] == x;
                assert(b[i + 1] == x);
                assert(b.contains(x));
                assert(key_lt(b[0].0, b[i + 1].0));
                lemma_key_order(x.0, x.0, x.0);
                let m = choose|m: int| 0 <= m < a.len() && a[m] == x;
                assert(m != 0);
                assert(a1[m - 1] == x);
            }
        }
        lemma_ascending_unique(a1, b1);
        assert forall|i: int| 0 <= i < a.len() implies a[i] == b[i] by {
            if i > 0 {
                assert(a[i] == a1[i - 1]);
                assert(b[i] == b1[i - 1]);
            }
        }
        assert(a =~= b);
    }
}

/// Two lists of fields with distinct keys and the same fields sort to the
/// same sequence.
pub proof fn lemma_sorted_fields_order_free(fs1: Seq<(KeyV, TypeV)>, fs2: Seq<(KeyV, TypeV)>)
    requires
        field_keys(fs1).no_duplicates(),
        field_keys(fs2).no_duplicates(),
        forall|x: (KeyV, TypeV)| fs1.contains(x) <==> fs2.contains(x),
    ensures
        sorted_fields(fs1) == sorted_fields(fs2),
        fs1.len() == fs2.len(),
{
    lemma_sorted_fields_ascending(fs1);
    lemma_sorted_fields_ascending(fs2);
    assert forall|x: (KeyV, TypeV)| sorted_fields(fs1).contains(x) <==> sorted_fields(
        fs2,
    ).contains(x) by {
        assert(sorted_fields(fs1).contains(x) <==> fs1.contains(x));
        assert(sorted_fields(fs2).contains(x) <==> fs2.contains(x));
    }
    lemma_ascending_unique(sorted_fields(fs1), sorted_fields(fs2));
}

// ─── executable comparison and sorting ──────────────────────────────────────

/// Whether `a` comes before `b` in code point order.
pub fn str_lt(a: &str, b: &str) -> (r: bool)
    ensures
        r == chars_lt(a@, b@),
{
    let na = a.unicode_len();
    let nb = b.unicode_len();
    let mut i: usize = 0;
    proof {
        assert(a@.skip(0) =~= a@);
        assert(b@.skip(0) =~= b@);
    }
    while i <= na && i <= nb
        invariant
            na == a@.len(),
            nb == b@.len(),
            i <= na,
            i <= nb,
            chars_lt(a@, b@) == chars_lt(a@.skip(i as int), b@.skip(i as int)),
        decreases na - i,
    {
        if i == na {
            return i < nb;
        }
        if i == nb {
            return false;
        }
        let ca = a.get_char(i);
        let cb = b.get_char(i);
        proof {
            assert(a@.skip(i as int)[0] == ca);
            assert(b@.skip(i as int)[0] == cb);
            assert(a@.skip(i as int).drop_first() =~= a@.skip(i + 1));
            assert(b@.skip(i as int).drop_first() =~= b@.skip(i + 1));
        }
        if (ca as u32) < (cb as u32) {
            return true;
        }
        if ca != cb {
            return false;
        }
        i = i + 1;
    }
    false
}

fn key_rank_of(k: &LuaMemberKey) -> (r: u8)
    ensures
        r as int == key_rank(k.view()),
{
    match k {
        LuaMemberKey::NoKey => 0,
        LuaMemberKey::Integer(_) => 1,
        LuaMemberKey::Name(_) => 2,
        LuaMemberKey::ExprType(_) => 3,
    }
}

/// Compare two member keys in the order of `key_lt`.
pub fn compare_member_keys(a: &LuaMemberKey, b: &LuaMemberKey) -> (r: Ordering)
    ensures
        (r == Ordering::Less) == key_lt(a.view(), b.view()),
        (r == Ordering::Greater) == key_lt(b.view(), a.view()),
{
    proof {
        lemma_key_order(a.view(), b.view(), b.view());
    }
    let ra = key_rank_of(a);
    let rb = key_rank_of(b);
    if ra < rb {
        return Ordering::Less;
    }
    if rb < ra {
        return Ordering::Greater;
    }
    match (a, b) {
        (LuaMemberKey::Integer(x), LuaMemberKey::Integer(y)) => {
            if *x < *y {
                Ordering::Less
            } else if *y < *x {
                Ordering::Greater
            } else {
                Ordering::Equal
            }
        },
        (LuaMemberKey::Name(x), LuaMemberKey::Name(y)) => {
            if str_lt(x.as_str(), y.as_str()) {
                Ordering::Less
            } else if str_lt(y.as_str(), x.as_str()) {
                Ordering::Greater
            } else {
                Ordering::Equal
            }
        },
        (LuaMemberKey::ExprType(x), LuaMemberKey::ExprType(y)) => {
            if *x < *y {
                Ordering::Less
            } else if *y < *x {
                Ordering::Greater
            } else {
                Ordering::Equal
            }
        },
        _ => Ordering::Equal,
    }
}

/// `Itertools::sorted_by` on the fields, comparing keys with
/// `compare_member_keys`. It collects the items and sorts them with the
/// stable `slice::sort_by`; since that comparison is a total order on keys
/// (`lemma_key_order`), the result lists the fields in stable ascending key
/// order.
#[verifier::external_body]
fn sort_fields_by_key(fields: &Vec<(LuaMemberKey, LuaType)>) -> (r: Vec<&(LuaMemberKey, LuaType)>)
    ensures
        exists|p: Seq<int>|
            is_sort_perm(field_keys(fields_view(fields@)), p) && r@.len() == p.len() && forall|i: int|
                0 <= i < p.len() ==> *r@[i] == #[trigger] fields@[p[i]],
{
    fields.iter().sorted_by(|a, b| compare_member_keys(&a.0, &b.0)).collect()
}

/// The fields in stable ascending key order, as `sorted_fields` describes.
pub fn sorted_field_refs(fields: &Vec<(LuaMemberKey, LuaType)>) -> (r: Vec<&(LuaMemberKey, LuaType)>)
    ensures
        r@.len() == fields@.len(),
        sorted_fields(fields_view(fields@)).len() == fields@.len(),
        forall|i: int|
            0 <= i < r@.len() ==> (#[trigger] r@[i].0.view(), r@[i].1.view()) == sorted_fields(
                fields_view(fields@),
            )[i],
{
    let r = sort_fields_by_key(fields);
    proof {
        let fv = fields_view(fields@);
        lemma_fields_view(fields@);
        let p = choose|p: Seq<int>|
            is_sort_perm(field_keys(fv), p) && r@.len() == p.len() && forall|i: int|
                0 <= i < p.len() ==> *r@[i] == #[trigger] fields@[p[i]];
        let q = choose|q: Seq<int>| is_sort_perm(field_keys(fv), q);
        lemma_sort_perm_unique(field_keys(fv), p, q);
        assert forall|i: int| 0 <= i < r@.len() implies (#[trigger] r@[i].0.view(), r@[i].1.view())
            == sorted_fields(fv)[i] by {
            assert(*r@[i] == fields@[p[i]]);
            assert(fv[p[i]] == (fields@[p[i]].0.view(), fields@[p[i]].1.view()));
        }
    }
    r
}

} // verus!
