use vstd::prelude::*;

use crate::text::{chars_equal, chars_less, lemma_text_lt_total, lemma_text_lt_transitive, text_lt};

verus! {

/// One component of a sort key.
pub enum KeyPart {
    /// Text compared in ascending code point order.
    Asc(Vec<char>),
    /// Text compared in descending code point order.
    Desc(Vec<char>),
    /// A number compared in descending order.
    DescNumber(u64),
}

/// The model of one sort key component.
pub enum KeyPartModel {
    Asc(Seq<char>),
    Desc(Seq<char>),
    DescNumber(nat),
}

impl View for KeyPart {
    type V = KeyPartModel;

    open spec fn view(&self) -> KeyPartModel {
        match self {
            KeyPart::Asc(t) => KeyPartModel::Asc(t@),
            KeyPart::Desc(t) => KeyPartModel::Desc(t@),
            KeyPart::DescNumber(n) => KeyPartModel::DescNumber(*n as nat),
        }
    }
}

/// The model of a whole sort key.
pub open spec fn key_model(k: Vec<KeyPart>) -> Seq<KeyPartModel> {
    k@.map_values(|p: KeyPart| p@)
}

pub open spec fn part_rank(p: KeyPartModel) -> int {
    match p {
        KeyPartModel::Asc(_) => 0,
        KeyPartModel::Desc(_) => 1,
        KeyPartModel::DescNumber(_) => 2,
    }
}

/// Strict order of key components: the order of their values within one
/// kind, and a fixed order between kinds.
pub open spec fn part_lt(a: KeyPartModel, b: KeyPartModel) -> bool {
    match (a, b) {
        (KeyPartModel::Asc(x), KeyPartModel::Asc(y)) => text_lt(x, y),
        (KeyPartModel::Desc(x), KeyPartModel::Desc(y)) => text_lt(y, x),
        (KeyPartModel::DescNumber(x), KeyPartModel::DescNumber(y)) => y < x,
        _ => part_rank(a) < part_rank(b),
    }
}

/// Lexicographic strict order of keys.
pub open spec fn key_lt(a: Seq<KeyPartModel>, b: Seq<KeyPartModel>) -> bool
    decreases a.len(),
{
    if a.len() == 0 || b.len() == 0 {
        a.len() == 0 && b.len() > 0
    } else if a[0] != b[0] {
        part_lt(a[0], b[0])
    } else {
        key_lt(a.drop_first(), b.drop_first())
    }
}

/// Stable insertion of `x` into `s`: after every element whose key is not
/// greater than the key of `x`.
pub open spec fn insert_by_key<T>(s: Seq<(Seq<KeyPartModel>, T)>, x: (Seq<KeyPartModel>, T)) -> Seq<
    (Seq<KeyPartModel>, T),
>
    decreases s.len(),
{
    if s.len() > 0 && key_lt(x.0, s.last().0) {
        insert_by_key(s.drop_last(), x).push(s.last())
    } else {
        s.push(x)
    }
}

/// Stable sort of keyed elements by their keys (equal keys keep their order).
pub open spec fn sort_by_key<T>(s: Seq<(Seq<KeyPartModel>, T)>) -> Seq<(Seq<KeyPartModel>, T)>
    decreases s.len(),
{
    if s.len() == 0 {
        s
    } else {
        insert_by_key(sort_by_key(s.drop_last()), s.last())
    }
}

/// Elements paired with key models.
pub open spec fn keyed_models<T>(keys: Seq<Seq<KeyPartModel>>, items: Seq<T>) -> Seq<
    (Seq<KeyPartModel>, T),
> {
    Seq::new(items.len(), |i: int| (keys[i], items[i]))
}

/// Elements paired with their keys.
pub open spec fn keyed<T>(keys: Seq<Vec<KeyPart>>, items: Seq<T>) -> Seq<(Seq<KeyPartModel>, T)> {
    Seq::new(items.len(), |i: int| (key_model(keys[i]), items[i]))
}

/// The stable sort of `items` by key models.
pub open spec fn sorted_by_models<T>(keys: Seq<Seq<KeyPartModel>>, items: Seq<T>) -> Seq<T> {
    elements(sort_by_key(keyed_models(keys, items)))
}

/// The elements of a keyed sequence, without their keys.
pub open spec fn elements<T>(s: Seq<(Seq<KeyPartModel>, T)>) -> Seq<T> {
    s.map_values(|p: (Seq<KeyPartModel>, T)| p.1)
}

/// The stable sort of `items` by `keys`.
pub open spec fn sorted_by_keys<T>(keys: Seq<Vec<KeyPart>>, items: Seq<T>) -> Seq<T> {
    elements(sort_by_key(keyed(keys, items)))
}

proof fn lemma_insert_at<T>(s: Seq<(Seq<KeyPartModel>, T)>, x: (Seq<KeyPartModel>, T), p: int)
    requires
        0 <= p <= s.len(),
        forall|j: int| p <= j < s.len() ==> key_lt(x.0, #[trigger] s[j].0),
        p > 0 ==> !key_lt(x.0, s[p - 1].0),
    ensures
        insert_by_key(s, x) == s.take(p).push(x) + s.skip(p),
    decreases s.len(),
{
    if p < s.len() {
        let t = s.drop_last();
        assert forall|j: int| p <= j < t.len() implies key_lt(x.0, #[trigger] t[j].0) by {
            assert(t[j] == s[j]);
        }
        if p > 0 {
            assert(t[p - 1] == s[p - 1]);
        }
        lemma_insert_at(t, x, p);
        assert(key_lt(x.0, s.last().0));
        assert(s.take(p).push(x) + s.skip(p) =~= (t.take(p).push(x) + t.skip(p)).push(s.last()));
    } else {
        assert(s.take(p) == s);
        assert(s.skip(p) =~= Seq::<(Seq<KeyPartModel>, T)>::empty());
        assert(s.take(p).push(x) + s.skip(p) =~= s.push(x));
    }
}

/// Keyed elements with `f` applied to each element.
pub open spec fn map_elements<T, U>(s: Seq<(Seq<KeyPartModel>, T)>, f: spec_fn(T) -> U) -> Seq<
    (Seq<KeyPartModel>, U),
> {
    s.map_values(|p: (Seq<KeyPartModel>, T)| (p.0, f(p.1)))
}

proof fn lemma_insert_map<T, U>(
    s: Seq<(Seq<KeyPartModel>, T)>,
    x: (Seq<KeyPartModel>, T),
    f: spec_fn(T) -> U,
)
    ensures
        insert_by_key(map_elements(s, f), (x.0, f(x.1))) == map_elements(insert_by_key(s, x), f),
    decreases s.len(),
{
    if s.len() > 0 && key_lt(x.0, s.last().0) {
        lemma_insert_map(s.drop_last(), x, f);
        assert(map_elements(s, f).drop_last() =~= map_elements(s.drop_last(), f));
        assert(map_elements(insert_by_key(s.drop_last(), x).push(s.last()), f)
            =~= map_elements(insert_by_key(s.drop_last(), x), f).push((s.last().0, f(s.last().1))));
    } else {
        assert(map_elements(s.push(x), f) =~= map_elements(s, f).push((x.0, f(x.1))));
    }
}

proof fn lemma_sort_map<T, U>(s: Seq<(Seq<KeyPartModel>, T)>, f: spec_fn(T) -> U)
    ensures
        sort_by_key(map_elements(s, f)) == map_elements(sort_by_key(s), f),
    decreases s.len(),
{
    if s.len() > 0 {
        lemma_sort_map(s.drop_last(), f);
        assert(map_elements(s, f).drop_last() =~= map_elements(s.drop_last(), f));
        lemma_insert_map(sort_by_key(s.drop_last()), s.last(), f);
    } else {
        assert(map_elements(s, f) =~= s.map_values(|p: (Seq<KeyPartModel>, T)| (p.0, f(p.1))));
    }
}

/// Sorting by keys commutes with transforming the elements.
pub proof fn lemma_sorted_map<T, U>(keys: Seq<Seq<KeyPartModel>>, items: Seq<T>, f: spec_fn(T) -> U)
    ensures
        sorted_by_models(keys, items).map_values(f) == sorted_by_models(keys, items.map_values(f)),
{
    let s = keyed_models(keys, items);
    assert(keyed_models(keys, items.map_values(f)) =~= map_elements(s, f));
    lemma_sort_map(s, f);
    assert(elements(map_elements(sort_by_key(s), f)) =~= elements(sort_by_key(s)).map_values(f));
}

/// Equality of two key components.
fn part_equal(a: &KeyPart, b: &KeyPart) -> (r: bool)
    ensures
        r == (a@ == b@),
{
    match (a, b) {
        (KeyPart::Asc(x), KeyPart::Asc(y)) => chars_equal(x, y),
        (KeyPart::Desc(x), KeyPart::Desc(y)) => chars_equal(x, y),
        (KeyPart::DescNumber(x), KeyPart::DescNumber(y)) => *x == *y,
        _ => false,
    }
}

fn part_less(a: &KeyPart, b: &KeyPart) -> (r: bool)
    ensures
        r == part_lt(a@, b@),
{
    match (a, b) {
        (KeyPart::Asc(x), KeyPart::Asc(y)) => chars_less(x, y),
        (KeyPart::Desc(x), KeyPart::Desc(y)) => chars_less(y, x),
        (KeyPart::DescNumber(x), KeyPart::DescNumber(y)) => *y < *x,
        (KeyPart::Asc(_), _) => true,
        (KeyPart::Desc(_), KeyPart::DescNumber(_)) => true,
        _ => false,
    }
}

/// Whether key `a` orders strictly before key `b`.
pub fn key_less(a: &Vec<KeyPart>, b: &Vec<KeyPart>) -> (r: bool)
    ensures
        r == key_lt(key_model(*a), key_model(*b)),
{
    let mut i: usize = 0;
    let ghost ka = key_model(*a);
    let ghost kb = key_model(*b);
    assert(ka.subrange(0, ka.len() as int) == ka);
    assert(kb.subrange(0, kb.len() as int) == kb);
    while i < a.len() && i < b.len()
        invariant
            i <= a.len(),
            i <= b.len(),
            ka == key_model(*a),
            kb == key_model(*b),
            key_lt(ka, kb) == key_lt(
                ka.subrange(i as int, ka.len() as int),
                kb.subrange(i as int, kb.len() as int),
            ),
        decreases a.len() - i,
    {
        let ghost sa = ka.subrange(i as int, ka.len() as int);
        let ghost sb = kb.subrange(i as int, kb.len() as int);
        assert(sa[0] == a@[i as int]@);
        assert(sb[0] == b@[i as int]@);
        if !part_equal(&a[i], &b[i]) {
            return part_less(&a[i], &b[i]);
        }
        assert(sa.drop_first() == ka.subrange(i + 1, ka.len() as int));
        assert(sb.drop_first() == kb.subrange(i + 1, kb.len() as int));
        i = i + 1;
    }
    i == a.len() && i < b.len()
}

/// Stable sort of `items` by the parallel `keys`: an element goes after
/// every earlier element whose key is not greater.
pub fn sort_by_keys<T>(items: Vec<T>, keys: Vec<Vec<KeyPart>>) -> (r: Vec<T>)
    requires
        items.len() == keys.len(),
    ensures
        r@ == sorted_by_keys(keys@, items@),
        r@ == sorted_by_models(keys@.map_values(|k: Vec<KeyPart>| key_model(k)), items@),
{
    assert(keyed(keys@, items@) =~= keyed_models(
        keys@.map_values(|k: Vec<KeyPart>| key_model(k)),
        items@,
    ));
    let ghost orig = keyed(keys@, items@);
    let ghost n = items.len();
    let mut rest_items = items;
    let mut rest_keys = keys;
    let mut out_items: Vec<T> = Vec::new();
    let mut out_keys: Vec<Vec<KeyPart>> = Vec::new();
    let mut done: usize = 0;
    assert(orig.take(0) =~= Seq::<(Seq<KeyPartModel>, T)>::empty());
    assert(keyed(out_keys@, out_items@) =~= Seq::<(Seq<KeyPartModel>, T)>::empty());
    while rest_items.len() > 0
        invariant
            rest_items.len() == rest_keys.len(),
            out_items.len() == out_keys.len(),
            done + rest_items.len() == n,
            orig.len() == n,
            keyed(rest_keys@, rest_items@) == orig.skip(done as int),
            keyed(out_keys@, out_items@) == sort_by_key(orig.take(done as int)),
        decreases rest_items.len(),
    {
        let ghost before = keyed(out_keys@, out_items@);
        let ghost rest_before = keyed(rest_keys@, rest_items@);
        let item = rest_items.remove(0);
        let key = rest_keys.remove(0);
        let ghost x = (key_model(key), item);
        assert(x == orig[done as int]) by {
            assert(rest_before[0] == orig.skip(done as int)[0]);
        }
        assert forall|j: int| 0 <= j < rest_items@.len() implies #[trigger] keyed(
            rest_keys@,
            rest_items@,
        )[j] == orig.skip(done + 1)[j] by {
            assert(rest_before[j + 1] == orig.skip(done as int)[j + 1]);
        }
        assert(keyed(rest_keys@, rest_items@) =~= orig.skip(done + 1));
        let mut p = out_keys.len();
        while p > 0 && key_less(&key, &out_keys[p - 1])
            invariant
                p <= out_keys.len(),
                out_keys.len() == before.len(),
                before == keyed(out_keys@, out_items@),
                x.0 == key_model(key),
                forall|j: int| p <= j < before.len() ==> key_lt(x.0, #[trigger] before[j].0),
            decreases p,
        {
            p = p - 1;
        }
        proof {
            if p > 0 {
                assert(before[p - 1].0 == key_model(out_keys@[p - 1]));
            }
            lemma_insert_at(before, x, p as int);
        }
        out_keys.insert(p, key);
        out_items.insert(p, item);
        assert(keyed(out_keys@, out_items@) =~= before.take(p as int).push(x) + before.skip(
            p as int,
        ));
        assert(orig.take(done + 1).drop_last() =~= orig.take(done as int));
        done = done + 1;
    }
    assert(orig.take(n as int) =~= orig);
    assert(out_items@ =~= elements(keyed(out_keys@, out_items@)));
    out_items
}

// ---------------------------------------------------------------------------
// Order laws
// ---------------------------------------------------------------------------

/// `part_lt` is a strict total order.
pub proof fn lemma_part_lt_total(a: KeyPartModel, b: KeyPartModel)
    ensures
        !part_lt(a, a),
        a == b || part_lt(a, b) || part_lt(b, a),
        !(part_lt(a, b) && part_lt(b, a)),
{
    match (a, b) {
        (KeyPartModel::Asc(x), KeyPartModel::Asc(y)) => lemma_text_lt_total(x, y),
        (KeyPartModel::Desc(x), KeyPartModel::Desc(y)) => lemma_text_lt_total(x, y),
        _ => {},
    }
    match a {
        KeyPartModel::Asc(x) => lemma_text_lt_total(x, x),
        KeyPartModel::Desc(x) => lemma_text_lt_total(x, x),
        _ => {},
    }
}

pub proof fn lemma_part_lt_transitive(a: KeyPartModel, b: KeyPartModel, c: KeyPartModel)
    requires
        part_lt(a, b),
        part_lt(b, c),
    ensures
        part_lt(a, c),
{
    match (a, b, c) {
        (KeyPartModel::Asc(x), KeyPartModel::Asc(y), KeyPartModel::Asc(z)) => lemma_text_lt_transitive(
            x,
            y,
            z,
        ),
        (KeyPartModel::Desc(x), KeyPartModel::Desc(y), KeyPartModel::Desc(z)) => lemma_text_lt_transitive(
            z,
            y,
            x,
        ),
        _ => {},
    }
}

/// `key_lt` is a strict total order.
pub proof fn lemma_key_lt_total(a: Seq<KeyPartModel>, b: Seq<KeyPartModel>)
    ensures
        !key_lt(a, a),
        a == b || key_lt(a, b) || key_lt(b, a),
        !(key_lt(a, b) && key_lt(b, a)),
    decreases a.len(),
{
    if a.len() > 0 {
        lemma_key_lt_total(a.drop_first(), a.drop_first());
    }
    if a.len() > 0 && b.len() > 0 {
        lemma_part_lt_total(a[0], b[0]);
        if a[0] == b[0] {
            lemma_key_lt_total(a.drop_first(), b.drop_first());
            if a.drop_first() == b.drop_first() {
                assert(a =~= seq![a[0]] + a.drop_first());
                assert(b =~= seq![b[0]] + b.drop_first());
            }
        }
    }
    if a.len() == 0 && b.len() == 0 {
        assert(a =~= b);
    }
}

pub proof fn lemma_key_lt_transitive(a: Seq<KeyPartModel>, b: Seq<KeyPartModel>, c: Seq<KeyPartModel>)
    requires
        key_lt(a, b),
        key_lt(b, c),
    ensures
        key_lt(a, c),
    decreases a.len(),
{
    if a.len() > 0 && b.len() > 0 && c.len() > 0 {
        if a[0] == b[0] && b[0] == c[0] {
            lemma_key_lt_transitive(a.drop_first(), b.drop_first(), c.drop_first());
        } else if a[0] != b[0] && b[0] != c[0] {
            lemma_part_lt_transitive(a[0], b[0], c[0]);
            lemma_part_lt_total(a[0], c[0]);
        } else if a[0] == b[0] {
        } else {
        }
    }
}

/// Not greater is transitive.
pub proof fn lemma_key_not_lt_transitive(a: Seq<KeyPartModel>, b: Seq<KeyPartModel>, c: Seq<KeyPartModel>)
    requires
        !key_lt(b, a),
        !key_lt(c, b),
    ensures
        !key_lt(c, a),
{
    lemma_key_lt_total(a, b);
    lemma_key_lt_total(b, c);
    lemma_key_lt_total(a, c);
    if key_lt(a, b) && key_lt(b, c) {
        lemma_key_lt_transitive(a, b, c);
    }
}

/// Keyed elements in order: no key is greater than a later one.
pub open spec fn keys_sorted<T>(s: Seq<(Seq<KeyPartModel>, T)>) -> bool {
    forall|i: int, j: int| 0 <= i < j < s.len() ==> !key_lt(#[trigger] s[j].0, #[trigger] s[i].0)
}

proof fn lemma_elements_push<T>(s: Seq<(Seq<KeyPartModel>, T)>, x: (Seq<KeyPartModel>, T))
    ensures
        elements(s.push(x)) == elements(s).push(x.1),
{
    assert(elements(s.push(x)) =~= elements(s).push(x.1));
}

proof fn lemma_insert_props<T>(s: Seq<(Seq<KeyPartModel>, T)>, x: (Seq<KeyPartModel>, T))
    ensures
        insert_by_key(s, x).len() == s.len() + 1,
        elements(insert_by_key(s, x)).to_multiset() == elements(s).to_multiset().insert(x.1),
        forall|k: int|
            0 <= k < insert_by_key(s, x).len() ==> #[trigger] insert_by_key(s, x)[k] == x
                || s.contains(insert_by_key(s, x)[k]),
        keys_sorted(s) ==> keys_sorted(insert_by_key(s, x)),
    decreases s.len(),
{
    broadcast use vstd::seq_lib::group_to_multiset_ensures;

    let r = insert_by_key(s, x);
    if s.len() > 0 && key_lt(x.0, s.last().0) {
        let s0 = s.drop_last();
        let last = s.last();
        lemma_insert_props(s0, x);
        let r0 = insert_by_key(s0, x);
        assert(r == r0.push(last));
        lemma_elements_push(r0, last);
        lemma_elements_push(s0, last);
        assert(s0.push(last) =~= s);
        assert forall|k: int| 0 <= k < r.len() implies #[trigger] r[k] == x || s.contains(r[k]) by {
            if k < r0.len() {
                if r0[k] != x {
                    let w = choose|w: int| 0 <= w < s0.len() && s0[w] == r0[k];
                    assert(s[w] == r0[k]);
                }
            } else {
                assert(s[s.len() - 1] == last);
            }
        }
        if keys_sorted(s) {
            assert(keys_sorted(s0));
            assert forall|i: int, j: int| 0 <= i < j < r.len() implies !key_lt(
                #[trigger] r[j].0,
                #[trigger] r[i].0,
            ) by {
                if j < r0.len() {
                } else {
                    // r[j] is the last element of s; r[i] is x or an element of s0
                    if r0[i] == x {
                        lemma_key_lt_total(x.0, last.0);
                    } else {
                        let w = choose|w: int| 0 <= w < s0.len() && s0[w] == r0[i];
                        assert(s[w] == s0[w]);
                        assert(s[s.len() - 1] == last);
                    }
                }
            }
        }
    } else {
        assert(r == s.push(x));
        lemma_elements_push(s, x);
        assert forall|k: int| 0 <= k < r.len() implies #[trigger] r[k] == x || s.contains(r[k]) by {
            if k < s.len() {
                assert(s[k] == r[k]);
            }
        }
        if keys_sorted(s) {
            assert forall|i: int, j: int| 0 <= i < j < r.len() implies !key_lt(
                #[trigger] r[j].0,
                #[trigger] r[i].0,
            ) by {
                if j == s.len() {
                    if i < s.len() - 1 {
                        lemma_key_not_lt_transitive(s[i].0, s[s.len() - 1].0, x.0);
                    }
                }
            }
        }
    }
}

proof fn lemma_sort_props<T>(s: Seq<(Seq<KeyPartModel>, T)>)
    ensures
        sort_by_key(s).len() == s.len(),
        elements(sort_by_key(s)).to_multiset() == elements(s).to_multiset(),
        forall|k: int| 0 <= k < sort_by_key(s).len() ==> s.contains(#[trigger] sort_by_key(s)[k]),
        keys_sorted(sort_by_key(s)),
    decreases s.len(),
{
    broadcast use vstd::seq_lib::group_to_multiset_ensures;

    if s.len() > 0 {
        let s0 = s.drop_last();
        lemma_sort_props(s0);
        let r0 = sort_by_key(s0);
        lemma_insert_props(r0, s.last());
        lemma_elements_push(s0, s.last());
        assert(s0.push(s.last()) =~= s);
        let r = sort_by_key(s);
        assert forall|k: int| 0 <= k < r.len() implies s.contains(#[trigger] r[k]) by {
            if r[k] == s.last() {
                assert(s[s.len() - 1] == s.last());
            } else {
                let w = choose|w: int| 0 <= w < r0.len() && r0[w] == r[k];
                assert(s0.contains(r0[w]));
                let v = choose|v: int| 0 <= v < s0.len() && s0[v] == r0[w];
                assert(s[v] == s0[v]);
            }
        }
    } else {
        assert(elements(sort_by_key(s)) =~= elements(s));
    }
}

/// Sorting by a key function orders the elements by their keys (no element's
/// key is greater than a later one's) and keeps exactly the same elements.
pub proof fn lemma_sort_ordered<T>(items: Seq<T>, f: spec_fn(T) -> Seq<KeyPartModel>)
    ensures
        sorted_by_models(items.map_values(f), items).len() == items.len(),
        sorted_by_models(items.map_values(f), items).to_multiset() == items.to_multiset(),
        forall|i: int, j: int|
            0 <= i < j < items.len() ==> !key_lt(
                f(#[trigger] sorted_by_models(items.map_values(f), items)[j]),
                f(#[trigger] sorted_by_models(items.map_values(f), items)[i]),
            ),
{
    let s = keyed_models(items.map_values(f), items);
    lemma_sort_props(s);
    let r = sort_by_key(s);
    assert(elements(s) =~= items);
    assert forall|k: int| 0 <= k < r.len() implies (#[trigger] r[k]).0 == f(r[k].1) by {
        let w = choose|w: int| 0 <= w < s.len() && s[w] == r[k];
        assert(s[w] == (f(items[w]), items[w]));
    }
    let out = sorted_by_models(items.map_values(f), items);
    assert(out == elements(r));
    assert forall|i: int, j: int| 0 <= i < j < items.len() implies !key_lt(
        f(#[trigger] out[j]),
        f(#[trigger] out[i]),
    ) by {
        assert(r[i].0 == f(r[i].1));
        assert(r[j].0 == f(r[j].1));
    }
}

proof fn lemma_sort_of_sorted<T>(s: Seq<(Seq<KeyPartModel>, T)>)
    requires
        keys_sorted(s),
    ensures
        sort_by_key(s) == s,
    decreases s.len(),
{
    if s.len() > 0 {
        let s0 = s.drop_last();
        assert(keys_sorted(s0));
        lemma_sort_of_sorted(s0);
        if s0.len() > 0 {
            assert(s0.last() == s[s.len() - 2]);
        }
        assert(s0.push(s.last()) =~= s);
    }
}

/// Sorting elements that are already in key order leaves them unchanged.
pub proof fn lemma_sorted_unchanged<T>(items: Seq<T>, f: spec_fn(T) -> Seq<KeyPartModel>)
    requires
        forall|i: int, j: int| 0 <= i < j < items.len() ==> !key_lt(f(#[trigger] items[j]), f(#[trigger] items[i])),
    ensures
        sorted_by_models(items.map_values(f), items) == items,
{
    let s = keyed_models(items.map_values(f), items);
    assert(keys_sorted(s)) by {
        assert forall|i: int, j: int| 0 <= i < j < s.len() implies !key_lt(
            #[trigger] s[j].0,
            #[trigger] s[i].0,
        ) by {
            assert(s[i].0 == f(items[i]));
            assert(s[j].0 == f(items[j]));
        }
    }
    lemma_sort_of_sorted(s);
    assert(elements(s) =~= items);
}

/// Sorting twice by the same key function is sorting once.
pub proof fn lemma_sort_idempotent<T>(items: Seq<T>, f: spec_fn(T) -> Seq<KeyPartModel>)
    ensures
        sorted_by_models(
            sorted_by_models(items.map_values(f), items).map_values(f),
            sorted_by_models(items.map_values(f), items),
        ) == sorted_by_models(items.map_values(f), items),
{
    lemma_sort_ordered(items, f);
    lemma_sorted_unchanged(sorted_by_models(items.map_values(f), items), f);
}

/// The sum of the weights of the elements of `s`.
pub open spec fn weight_sum<T>(s: Seq<T>, w: spec_fn(T) -> nat) -> nat
    decreases s.len(),
{
    if s.len() == 0 {
        0
    } else {
        weight_sum(s.drop_last(), w) + w(s.last())
    }
}

/// Appending an element adds its weight.
pub proof fn lemma_weight_sum_push<T>(s: Seq<T>, x: T, w: spec_fn(T) -> nat)
    ensures
        weight_sum(s.push(x), w) == weight_sum(s, w) + w(x),
{
    assert(s.push(x).drop_last() =~= s);
}

/// Replacing one element changes the sum by the difference of the weights.
pub proof fn lemma_weight_sum_update<T>(s: Seq<T>, i: int, x: T, w: spec_fn(T) -> nat)
    requires
        0 <= i < s.len(),
    ensures
        weight_sum(s.update(i, x), w) + w(s[i]) == weight_sum(s, w) + w(x),
    decreases s.len(),
{
    if i < s.len() - 1 {
        lemma_weight_sum_update(s.drop_last(), i, x, w);
        assert(s.update(i, x).drop_last() =~= s.drop_last().update(i, x));
    } else {
        assert(s.update(i, x).drop_last() =~= s.drop_last());
    }
}

/// Weighing transformed elements is weighing the elements by the composed weight.
pub proof fn lemma_weight_sum_map<T, U>(s: Seq<T>, f: spec_fn(T) -> U, w: spec_fn(U) -> nat)
    ensures
        weight_sum(s.map_values(f), w) == weight_sum(s, |x: T| w(f(x))),
    decreases s.len(),
{
    if s.len() > 0 {
        lemma_weight_sum_map(s.drop_last(), f, w);
        assert(s.map_values(f).drop_last() =~= s.drop_last().map_values(f));
    }
}

proof fn lemma_insert_weight<T>(
    s: Seq<(Seq<KeyPartModel>, T)>,
    x: (Seq<KeyPartModel>, T),
    w: spec_fn(T) -> nat,
)
    ensures
        weight_sum(elements(insert_by_key(s, x)), w) == weight_sum(elements(s), w) + w(x.1),
    decreases s.len(),
{
    if s.len() > 0 && key_lt(x.0, s.last().0) {
        let t = insert_by_key(s.drop_last(), x);
        lemma_insert_weight(s.drop_last(), x, w);
        assert(elements(t.push(s.last())) =~= elements(t).push(s.last().1));
        lemma_weight_sum_push(elements(t), s.last().1, w);
        assert(elements(s) =~= elements(s.drop_last()).push(s.last().1));
        lemma_weight_sum_push(elements(s.drop_last()), s.last().1, w);
    } else {
        assert(elements(s.push(x)) =~= elements(s).push(x.1));
        lemma_weight_sum_push(elements(s), x.1, w);
    }
}

proof fn lemma_sort_weight<T>(s: Seq<(Seq<KeyPartModel>, T)>, w: spec_fn(T) -> nat)
    ensures
        weight_sum(elements(sort_by_key(s)), w) == weight_sum(elements(s), w),
    decreases s.len(),
{
    if s.len() > 0 {
        lemma_sort_weight(s.drop_last(), w);
        lemma_insert_weight(sort_by_key(s.drop_last()), s.last(), w);
        assert(elements(s) =~= elements(s.drop_last()).push(s.last().1));
        lemma_weight_sum_push(elements(s.drop_last()), s.last().1, w);
    }
}

/// Sorting keeps the total weight of the elements.
pub proof fn lemma_sorted_weight<T>(keys: Seq<Seq<KeyPartModel>>, items: Seq<T>, w: spec_fn(T) -> nat)
    ensures
        weight_sum(sorted_by_models(keys, items), w) == weight_sum(items, w),
{
    let s = keyed_models(keys, items);
    lemma_sort_weight(s, w);
    assert(elements(s) =~= items);
}

/// Weights that add up pointwise add up in the sum.
pub proof fn lemma_weight_sum_add<T>(
    s: Seq<T>,
    f: spec_fn(T) -> nat,
    g: spec_fn(T) -> nat,
    h: spec_fn(T) -> nat,
)
    requires
        forall|i: int| 0 <= i < s.len() ==> h(#[trigger] s[i]) == f(s[i]) + g(s[i]),
    ensures
        weight_sum(s, h) == weight_sum(s, f) + weight_sum(s, g),
    decreases s.len(),
{
    if s.len() > 0 {
        let s0 = s.drop_last();
        assert forall|i: int| 0 <= i < s0.len() implies h(#[trigger] s0[i]) == f(s0[i]) + g(s0[i]) by {
            assert(s0[i] == s[i]);
        }
        lemma_weight_sum_add(s0, f, g, h);
        assert(h(s[s.len() - 1]) == f(s[s.len() - 1]) + g(s[s.len() - 1]));
    }
}

/// When every element but the one at `i` weighs nothing, the sum is that
/// element's weight.
pub proof fn lemma_weight_sum_single<T>(s: Seq<T>, f: spec_fn(T) -> nat, i: int)
    requires
        0 <= i <= s.len(),
        forall|j: int| 0 <= j < s.len() && j != i ==> f(#[trigger] s[j]) == 0,
    ensures
        weight_sum(s, f) == if i < s.len() {
            f(s[i])
        } else {
            0
        },
    decreases s.len(),
{
    if s.len() > 0 {
        let s0 = s.drop_last();
        assert forall|j: int| 0 <= j < s0.len() && j != i implies f(#[trigger] s0[j]) == 0 by {
            assert(s0[j] == s[j]);
        }
        if i == s.len() - 1 {
            lemma_weight_sum_single(s0, f, s0.len() as int);
        } else if i == s.len() {
            lemma_weight_sum_single(s0, f, s0.len() as int);
            assert(f(s[s.len() - 1]) == 0);
        } else {
            lemma_weight_sum_single(s0, f, i);
            assert(f(s[s.len() - 1]) == 0);
            assert(s0[i] == s[i]);
        }
    }
}

/// The elements of `items` whose key is `k`, in their order.
pub open spec fn of_key<T>(items: Seq<T>, f: spec_fn(T) -> Seq<KeyPartModel>, k: Seq<KeyPartModel>) -> Seq<T>
    decreases items.len(),
{
    if items.len() == 0 {
        Seq::empty()
    } else if f(items.last()) == k {
        of_key(items.drop_last(), f, k).push(items.last())
    } else {
        of_key(items.drop_last(), f, k)
    }
}

/// The elements of a keyed sequence whose key is `k`, in their order.
spec fn keyed_with_key<T>(s: Seq<(Seq<KeyPartModel>, T)>, k: Seq<KeyPartModel>) -> Seq<T>
    decreases s.len(),
{
    if s.len() == 0 {
        Seq::empty()
    } else if s.last().0 == k {
        keyed_with_key(s.drop_last(), k).push(s.last().1)
    } else {
        keyed_with_key(s.drop_last(), k)
    }
}

proof fn lemma_keyed_with_key_push<T>(s: Seq<(Seq<KeyPartModel>, T)>, x: (Seq<KeyPartModel>, T), k: Seq<KeyPartModel>)
    ensures
        keyed_with_key(s.push(x), k) == if x.0 == k {
            keyed_with_key(s, k).push(x.1)
        } else {
            keyed_with_key(s, k)
        },
{
    assert(s.push(x).drop_last() =~= s);
}

proof fn lemma_insert_with_key<T>(s: Seq<(Seq<KeyPartModel>, T)>, x: (Seq<KeyPartModel>, T), k: Seq<KeyPartModel>)
    ensures
        keyed_with_key(insert_by_key(s, x), k) == if x.0 == k {
            keyed_with_key(s, k).push(x.1)
        } else {
            keyed_with_key(s, k)
        },
    decreases s.len(),
{
    if s.len() > 0 && key_lt(x.0, s.last().0) {
        let s0 = s.drop_last();
        lemma_insert_with_key(s0, x, k);
        lemma_keyed_with_key_push(insert_by_key(s0, x), s.last(), k);
        assert(s0.push(s.last()) =~= s);
        lemma_keyed_with_key_push(s0, s.last(), k);
        lemma_key_lt_total(x.0, x.0);
        if x.0 == k {
            assert(s.last().0 != k);
        }
    } else {
        lemma_keyed_with_key_push(s, x, k);
    }
}

proof fn lemma_sort_with_key<T>(s: Seq<(Seq<KeyPartModel>, T)>, k: Seq<KeyPartModel>)
    ensures
        keyed_with_key(sort_by_key(s), k) == keyed_with_key(s, k),
    decreases s.len(),
{
    if s.len() > 0 {
        let s0 = s.drop_last();
        lemma_sort_with_key(s0, k);
        lemma_insert_with_key(sort_by_key(s0), s.last(), k);
        assert(s0.push(s.last()) =~= s);
        lemma_keyed_with_key_push(s0, s.last(), k);
    }
}

proof fn lemma_keyed_with_key_of_key<T>(
    s: Seq<(Seq<KeyPartModel>, T)>,
    f: spec_fn(T) -> Seq<KeyPartModel>,
    k: Seq<KeyPartModel>,
)
    requires
        forall|i: int| 0 <= i < s.len() ==> (#[trigger] s[i]).0 == f(s[i].1),
    ensures
        keyed_with_key(s, k) == of_key(elements(s), f, k),
    decreases s.len(),
{
    if s.len() > 0 {
        let s0 = s.drop_last();
        assert forall|i: int| 0 <= i < s0.len() implies (#[trigger] s0[i]).0 == f(s0[i].1) by {
            assert(s0[i] == s[i]);
        }
        lemma_keyed_with_key_of_key(s0, f, k);
        assert(elements(s).drop_last() =~= elements(s0));
        assert(s[s.len() - 1].0 == f(s[s.len() - 1].1));
    }
}

/// Sorting is stable: the elements that share a key come out in the order
/// they went in.
pub proof fn lemma_sort_stable<T>(items: Seq<T>, f: spec_fn(T) -> Seq<KeyPartModel>, k: Seq<KeyPartModel>)
    ensures
        of_key(sorted_by_models(items.map_values(f), items), f, k) == of_key(items, f, k),
{
    let s = keyed_models(items.map_values(f), items);
    lemma_sort_props(s);
    lemma_sort_with_key(s, k);
    assert forall|i: int| 0 <= i < s.len() implies (#[trigger] s[i]).0 == f(s[i].1) by {}
    lemma_keyed_with_key_of_key(s, f, k);
    assert(elements(s) =~= items);
    let r = sort_by_key(s);
    assert forall|i: int| 0 <= i < r.len() implies (#[trigger] r[i]).0 == f(r[i].1) by {
        assert(s.contains(r[i]));
        let w = choose|w: int| 0 <= w < s.len() && s[w] == r[i];
        assert(s[w].0 == f(s[w].1));
    }
    lemma_keyed_with_key_of_key(r, f, k);
}

/// A key of ascending texts.
pub open spec fn asc_key(texts: Seq<Seq<char>>) -> Seq<KeyPartModel> {
    texts.map_values(|t: Seq<char>| KeyPartModel::Asc(t))
}

/// A key of ascending texts that is not below another is lexicographically
/// at least as large, text by text: at the first place where the texts
/// differ, the later one is not smaller.
pub proof fn lemma_asc_key_order(a: Seq<Seq<char>>, b: Seq<Seq<char>>)
    requires
        a.len() == b.len(),
        !key_lt(asc_key(b), asc_key(a)),
    ensures
        forall|k: int|
            0 <= k < a.len() && (forall|m: int| 0 <= m < k ==> a[m] == b[m]) ==> !text_lt(
                #[trigger] b[k],
                a[k],
            ),
    decreases a.len(),
{
    if a.len() > 0 {
        let ka = asc_key(a);
        let kb = asc_key(b);
        assert(ka[0] == KeyPartModel::Asc(a[0]));
        assert(kb[0] == KeyPartModel::Asc(b[0]));
        lemma_text_lt_total(b[0], a[0]);
        if a[0] == b[0] {
            assert(ka.drop_first() =~= asc_key(a.drop_first()));
            assert(kb.drop_first() =~= asc_key(b.drop_first()));
            lemma_asc_key_order(a.drop_first(), b.drop_first());
            assert forall|k: int|
                0 <= k < a.len() && (forall|m: int| 0 <= m < k ==> a[m] == b[m]) implies !text_lt(
                #[trigger] b[k],
                a[k],
            ) by {
                if k > 0 {
                    assert forall|m: int| 0 <= m < k - 1 implies a.drop_first()[m] == b.drop_first()[m] by {
                        assert(a[m + 1] == b[m + 1]);
                    }
                    assert(a.drop_first()[k - 1] == a[k]);
                    assert(b.drop_first()[k - 1] == b[k]);
                }
            }
        } else {
            assert forall|k: int|
                0 <= k < a.len() && (forall|m: int| 0 <= m < k ==> a[m] == b[m]) implies !text_lt(
                #[trigger] b[k],
                a[k],
            ) by {
                if k > 0 {
                    assert(a[0] == b[0]);
                }
            }
        }
    }
}

} // verus!
