use vstd::prelude::*;

use crate::sort::{key_lt, lemma_sort_ordered, sort_by_keys, sorted_by_models, KeyPart, KeyPartModel, key_model};
use crate::text::{chars_of, lemma_text_lt_total, push_char, push_str, text_lt};

verus! {

/// A JSON value as the library reads and writes it.
pub enum JsonValue {
    Null,
    Bool(bool),
    /// A number, held as the text that `serde_json` writes for it.
    Number(String),
    Text(String),
    Array(Vec<JsonValue>),
    /// An object's members in their stored order.
    Object(Vec<JsonMember>),
}

/// One member of a JSON object.
pub struct JsonMember {
    pub key: String,
    pub value: JsonValue,
}

/// The mathematical model of a JSON value.
pub enum JsonModel {
    Null,
    Bool(bool),
    Number(Seq<char>),
    Text(Seq<char>),
    Array(Seq<JsonModel>),
    Object(Seq<(Seq<char>, JsonModel)>),
}

pub open spec fn json_model(v: JsonValue) -> JsonModel
    decreases v,
{
    match v {
        JsonValue::Null => JsonModel::Null,
        JsonValue::Bool(b) => JsonModel::Bool(b),
        JsonValue::Number(t) => JsonModel::Number(t@),
        JsonValue::Text(t) => JsonModel::Text(t@),
        JsonValue::Array(items) => {
            proof {
                assert(decreases_to!(items => items@));
            }
            JsonModel::Array(items_model(items@))
        },
        JsonValue::Object(members) => {
            proof {
                assert(decreases_to!(members => members@));
            }
            JsonModel::Object(members_model(members@))
        },
    }
}

pub open spec fn items_model(s: Seq<JsonValue>) -> Seq<JsonModel>
    decreases s,
{
    if s.len() == 0 {
        Seq::empty()
    } else {
        proof {
            assert(decreases_to!(s => s.subrange(0, s.len() - 1)));
            assert(decreases_to!(s => s[s.len() - 1]));
        }
        items_model(s.subrange(0, s.len() - 1)).push(json_model(s[s.len() - 1]))
    }
}

pub open spec fn members_model(s: Seq<JsonMember>) -> Seq<(Seq<char>, JsonModel)>
    decreases s,
{
    if s.len() == 0 {
        Seq::empty()
    } else {
        proof {
            assert(decreases_to!(s => s.subrange(0, s.len() - 1)));
            assert(decreases_to!(s => s[s.len() - 1]));
        }
        members_model(s.subrange(0, s.len() - 1)).push(
            (s[s.len() - 1].key@, json_model(s[s.len() - 1].value)),
        )
    }
}

/// The model of one member: its key and the model of its value.
pub open spec fn member_model(m: JsonMember) -> (Seq<char>, JsonModel) {
    (m.key@, json_model(m.value))
}

proof fn lemma_items_model_push(s: Seq<JsonValue>, x: JsonValue)
    ensures
        items_model(s.push(x)) == items_model(s).push(json_model(x)),
{
    assert(s.push(x).subrange(0, s.len() as int) =~= s);
}

proof fn lemma_members_model_push(s: Seq<JsonMember>, x: JsonMember)
    ensures
        members_model(s.push(x)) == members_model(s).push(member_model(x)),
{
    assert(s.push(x).subrange(0, s.len() as int) =~= s);
}

proof fn lemma_members_model_map(s: Seq<JsonMember>)
    ensures
        members_model(s) == s.map_values(|m: JsonMember| member_model(m)),
    decreases s.len(),
{
    if s.len() > 0 {
        let init = s.subrange(0, s.len() - 1);
        lemma_members_model_map(init);
        assert(s.map_values(|m: JsonMember| member_model(m)) =~= init.map_values(
            |m: JsonMember| member_model(m),
        ).push(member_model(s[s.len() - 1])));
    } else {
        assert(s.map_values(|m: JsonMember| member_model(m)) =~= Seq::<(Seq<char>, JsonModel)>::empty());
    }
}

/// The model of a member list has one entry per member.
pub proof fn lemma_members_model_len(s: Seq<JsonMember>)
    ensures
        members_model(s).len() == s.len(),
    decreases s.len(),
{
    if s.len() > 0 {
        lemma_members_model_len(s.subrange(0, s.len() - 1));
    }
}

/// The model of a member list, entry by entry.
pub proof fn lemma_members_model_index(s: Seq<JsonMember>, i: int)
    requires
        0 <= i < s.len(),
    ensures
        members_model(s).len() == s.len(),
        members_model(s)[i] == member_model(s[i]),
        members_model(s).take(i + 1) == members_model(s.take(i + 1)),
{
    lemma_members_model_map(s);
    lemma_members_model_map(s.take(i + 1));
    assert(members_model(s).take(i + 1) =~= members_model(s.take(i + 1)));
}

// ---------------------------------------------------------------------------
// Key-sorted copies
// ---------------------------------------------------------------------------

/// The sort key of an object member: its key, ascending.
pub open spec fn member_key(p: (Seq<char>, JsonModel)) -> Seq<KeyPartModel> {
    seq![KeyPartModel::Asc(p.0)]
}

/// Members ordered by key (a stable sort; keys of an object are distinct).
pub open spec fn sort_members(s: Seq<(Seq<char>, JsonModel)>) -> Seq<(Seq<char>, JsonModel)> {
    sorted_by_models(s.map_values(|p: (Seq<char>, JsonModel)| member_key(p)), s)
}

/// The value with every object, at any depth, ordered by key.
pub open spec fn sorted_json(m: JsonModel) -> JsonModel
    decreases m,
{
    match m {
        JsonModel::Array(items) => JsonModel::Array(sorted_items(items)),
        JsonModel::Object(members) => JsonModel::Object(sort_members(sorted_members(members))),
        _ => m,
    }
}

/// Each item key-sorted, in the same order.
pub open spec fn sorted_items(s: Seq<JsonModel>) -> Seq<JsonModel>
    decreases s,
{
    if s.len() == 0 {
        Seq::empty()
    } else {
        proof {
            assert(decreases_to!(s => s.subrange(0, s.len() - 1)));
            assert(decreases_to!(s => s[s.len() - 1]));
        }
        sorted_items(s.subrange(0, s.len() - 1)).push(sorted_json(s[s.len() - 1]))
    }
}

/// Each member's value key-sorted, members in the same order.
pub open spec fn sorted_members(s: Seq<(Seq<char>, JsonModel)>) -> Seq<(Seq<char>, JsonModel)>
    decreases s,
{
    if s.len() == 0 {
        Seq::empty()
    } else {
        proof {
            assert(decreases_to!(s => s.subrange(0, s.len() - 1)));
            assert(decreases_to!(s => s[s.len() - 1]));
        }
        sorted_members(s.subrange(0, s.len() - 1)).push(
            (s[s.len() - 1].0, sorted_json(s[s.len() - 1].1)),
        )
    }
}

proof fn lemma_sorted_items_push(s: Seq<JsonModel>, x: JsonModel)
    ensures
        sorted_items(s.push(x)) == sorted_items(s).push(sorted_json(x)),
{
    assert(s.push(x).subrange(0, s.len() as int) =~= s);
}

proof fn lemma_sorted_members_push(s: Seq<(Seq<char>, JsonModel)>, x: (Seq<char>, JsonModel))
    ensures
        sorted_members(s.push(x)) == sorted_members(s).push((x.0, sorted_json(x.1))),
{
    assert(s.push(x).subrange(0, s.len() as int) =~= s);
}

/// Whether every object in `m`, at any depth, has its members in ascending
/// key order.
pub open spec fn keys_ordered(m: JsonModel) -> bool
    decreases m,
{
    match m {
        JsonModel::Array(items) => items_keys_ordered(items),
        JsonModel::Object(members) => {
            &&& forall|i: int, j: int|
                0 <= i < j < members.len() ==> !text_lt(
                    (#[trigger] members[j]).0,
                    (#[trigger] members[i]).0,
                )
            &&& members_keys_ordered(members)
        },
        _ => true,
    }
}

/// Whether every item has its objects' members in ascending key order.
pub open spec fn items_keys_ordered(s: Seq<JsonModel>) -> bool
    decreases s,
{
    if s.len() == 0 {
        true
    } else {
        proof {
            assert(decreases_to!(s => s.subrange(0, s.len() - 1)));
            assert(decreases_to!(s => s[s.len() - 1]));
        }
        items_keys_ordered(s.subrange(0, s.len() - 1)) && keys_ordered(s[s.len() - 1])
    }
}

/// Whether every member value has its objects' members in ascending key order.
pub open spec fn members_keys_ordered(s: Seq<(Seq<char>, JsonModel)>) -> bool
    decreases s,
{
    if s.len() == 0 {
        true
    } else {
        proof {
            assert(decreases_to!(s => s.subrange(0, s.len() - 1)));
            assert(decreases_to!(s => s[s.len() - 1]));
        }
        members_keys_ordered(s.subrange(0, s.len() - 1)) && keys_ordered(s[s.len() - 1].1)
    }
}

proof fn lemma_members_keys_ordered_each(s: Seq<(Seq<char>, JsonModel)>)
    ensures
        members_keys_ordered(s) <==> forall|i: int| 0 <= i < s.len() ==> keys_ordered(#[trigger] s[i].1),
    decreases s.len(),
{
    if s.len() > 0 {
        let init = s.subrange(0, s.len() - 1);
        lemma_members_keys_ordered_each(init);
        assert forall|i: int| 0 <= i < init.len() implies init[i] == s[i] by {}
    }
}

proof fn lemma_sorted_items_keys_ordered(s: Seq<JsonModel>)
    ensures
        items_keys_ordered(sorted_items(s)),
    decreases s,
{
    if s.len() > 0 {
        let init = s.subrange(0, s.len() - 1);
        assert(decreases_to!(s => init));
        assert(decreases_to!(s => s[s.len() - 1]));
        lemma_sorted_items_keys_ordered(init);
        lemma_sorted_json_keys_ordered(s[s.len() - 1]);
        let r = sorted_items(s);
        assert(r.subrange(0, r.len() - 1) =~= sorted_items(init));
    }
}

proof fn lemma_sorted_members_keys_ordered(s: Seq<(Seq<char>, JsonModel)>)
    ensures
        members_keys_ordered(sorted_members(s)),
        sorted_members(s).len() == s.len(),
    decreases s,
{
    if s.len() > 0 {
        let init = s.subrange(0, s.len() - 1);
        assert(decreases_to!(s => init));
        assert(decreases_to!(s => s[s.len() - 1]));
        lemma_sorted_members_keys_ordered(init);
        lemma_sorted_json_keys_ordered(s[s.len() - 1].1);
        let r = sorted_members(s);
        assert(r.subrange(0, r.len() - 1) =~= sorted_members(init));
    }
}

#[verifier::spinoff_prover]
proof fn lemma_sorted_json_keys_ordered(m: JsonModel)
    ensures
        keys_ordered(sorted_json(m)),
    decreases m,
{
    match m {
        JsonModel::Array(items) => {
            lemma_sorted_items_keys_ordered(items);
        },
        JsonModel::Object(members) => {
            let x = sorted_members(members);
            lemma_sorted_members_keys_ordered(members);
            lemma_members_keys_ordered_each(x);
            let f = |p: (Seq<char>, JsonModel)| member_key(p);
            lemma_sort_ordered(x, f);
            let r = sort_members(x);
            assert(r == sorted_by_models(x.map_values(f), x));
            assert forall|i: int| 0 <= i < r.len() implies keys_ordered(#[trigger] r[i].1) by {
                broadcast use vstd::seq_lib::group_to_multiset_ensures;

                assert(r.contains(r[i]));
                assert(r.to_multiset().count(r[i]) > 0);
                assert(x.contains(r[i]));
            }
            lemma_members_keys_ordered_each(r);
            assert forall|i: int, j: int| 0 <= i < j < r.len() implies !text_lt(
                (#[trigger] r[j]).0,
                (#[trigger] r[i]).0,
            ) by {
                assert(!key_lt(f(r[j]), f(r[i])));
                lemma_text_lt_total(r[j].0, r[i].0);
                if r[j].0 != r[i].0 {
                    assert(f(r[j])[0] != f(r[i])[0]);
                }
            }
        },
        _ => {},
    }
}

/// Sorting a value orders the members of every object it holds, at any
/// depth, by key.
pub proof fn law_sorted_json_keys_ordered(m: JsonModel)
    ensures
        keys_ordered(sorted_json(m)),
{
    lemma_sorted_json_keys_ordered(m);
}

proof fn lemma_sorted_members_keys(s: Seq<(Seq<char>, JsonModel)>)
    ensures
        sorted_members(s).len() == s.len(),
        forall|i: int| 0 <= i < s.len() ==> (#[trigger] sorted_members(s)[i]).0 == s[i].0,
    decreases s.len(),
{
    if s.len() > 0 {
        let init = s.subrange(0, s.len() - 1);
        lemma_sorted_members_keys(init);
        let r = sorted_members(s);
        assert forall|i: int| 0 <= i < s.len() implies (#[trigger] r[i]).0 == s[i].0 by {
            if i < s.len() - 1 {
                assert(r[i] == sorted_members(init)[i]);
                assert(init[i] == s[i]);
            }
        }
    }
}

proof fn lemma_sorted_items_len(s: Seq<JsonModel>)
    ensures
        sorted_items(s).len() == s.len(),
    decreases s.len(),
{
    if s.len() > 0 {
        lemma_sorted_items_len(s.subrange(0, s.len() - 1));
    }
}

/// Whether some member of `s` has key `k`.
pub open spec fn has_key(s: Seq<(Seq<char>, JsonModel)>, k: Seq<char>) -> bool {
    exists|i: int| 0 <= i < s.len() && (#[trigger] s[i]).0 == k
}

/// Sorting keeps every value's shape: an object keeps its number of members
/// and exactly its keys (only their order changes), an array keeps its
/// length, and any other value stays as it is.
pub proof fn law_sorted_json_keeps_members(m: JsonModel, k: Seq<char>)
    ensures
        m matches JsonModel::Object(members) ==> (sorted_json(m) matches JsonModel::Object(r) && r.len()
            == members.len() && (has_key(r, k) <==> has_key(members, k))),
        m matches JsonModel::Array(items) ==> (sorted_json(m) matches JsonModel::Array(r) && r.len()
            == items.len()),
        !(m is Object) && !(m is Array) ==> sorted_json(m) == m,
{
    broadcast use vstd::seq_lib::group_to_multiset_ensures;

    match m {
        JsonModel::Object(members) => {
            let x = sorted_members(members);
            lemma_sorted_members_keys(members);
            let f = |p: (Seq<char>, JsonModel)| member_key(p);
            lemma_sort_ordered(x, f);
            let r = sort_members(x);
            assert(r == sorted_by_models(x.map_values(f), x));
            if has_key(r, k) {
                let i = choose|i: int| 0 <= i < r.len() && (#[trigger] r[i]).0 == k;
                assert(r.to_multiset().count(r[i]) > 0);
                assert(x.contains(r[i]));
                let w = choose|w: int| 0 <= w < x.len() && x[w] == r[i];
                assert(members[w].0 == k);
            }
            if has_key(members, k) {
                let j = choose|j: int| 0 <= j < members.len() && (#[trigger] members[j]).0 == k;
                assert(x[j].0 == k);
                assert(x.to_multiset().count(x[j]) > 0);
                assert(r.contains(x[j]));
                let w = choose|w: int| 0 <= w < r.len() && r[w] == x[j];
                assert(r[w].0 == k);
            }
        },
        JsonModel::Array(items) => {
            lemma_sorted_items_len(items);
        },
        _ => {},
    }
}

/// A copy of a string.
fn copy_string(s: &String) -> (r: String)
    ensures
        r@ == s@,
{
    s.clone()
}

/// A copy of `value` in which every object, at any depth, has its members
/// ordered by key; arrays keep their order.
pub fn sort_json_value(value: &JsonValue) -> (r: JsonValue)
    ensures
        json_model(r) == sorted_json(json_model(*value)),
    decreases value,
{
    match value {
        JsonValue::Null => JsonValue::Null,
        JsonValue::Bool(b) => JsonValue::Bool(*b),
        JsonValue::Number(t) => JsonValue::Number(copy_string(t)),
        JsonValue::Text(t) => JsonValue::Text(copy_string(t)),
        JsonValue::Array(items) => {
            let mut out: Vec<JsonValue> = Vec::new();
            let mut i: usize = 0;
            assert(items@.subrange(0, 0) =~= Seq::<JsonValue>::empty());
            while i < items.len()
                invariant
                    i <= items.len(),
                    *value == JsonValue::Array(*items),
                    items_model(out@) == sorted_items(items_model(items@.subrange(0, i as int))),
                decreases items.len() - i,
            {
                proof {
                    assert(decreases_to!(*value => (*value)->Array_0));
                    assert(decreases_to!(items => items@));
                    assert(decreases_to!(items@ => items@[i as int]));
                    assert(decreases_to!(*value => items@[i as int]));
                    lemma_items_model_push(items@.subrange(0, i as int), items@[i as int]);
                    assert(items@.subrange(0, i + 1) =~= items@.subrange(0, i as int).push(
                        items@[i as int],
                    ));
                    lemma_sorted_items_push(
                        items_model(items@.subrange(0, i as int)),
                        json_model(items@[i as int]),
                    );
                }
                let item = sort_json_value(&items[i]);
                proof {
                    lemma_items_model_push(out@, item);
                }
                out.push(item);
                i = i + 1;
            }
            assert(items@.subrange(0, items.len() as int) =~= items@);
            JsonValue::Array(out)
        },
        JsonValue::Object(members) => {
            let mut out: Vec<JsonMember> = Vec::new();
            let mut keys: Vec<Vec<KeyPart>> = Vec::new();
            let mut i: usize = 0;
            assert(members@.subrange(0, 0) =~= Seq::<JsonMember>::empty());
            while i < members.len()
                invariant
                    i <= members.len(),
                    *value == JsonValue::Object(*members),
                    keys.len() == out.len(),
                    members_model(out@) == sorted_members(
                        members_model(members@.subrange(0, i as int)),
                    ),
                    forall|j: int|
                        0 <= j < keys.len() ==> key_model(#[trigger] keys@[j]) == member_key(
                            member_model(out@[j]),
                        ),
                decreases members.len() - i,
            {
                proof {
                    assert(decreases_to!(*value => (*value)->Object_0));
                    assert(decreases_to!(members => members@));
                    assert(decreases_to!(members@ => members@[i as int]));
                    assert(decreases_to!(members@[i as int] => members@[i as int].value));
                    assert(decreases_to!(*value => members@[i as int].value));
                    lemma_members_model_push(members@.subrange(0, i as int), members@[i as int]);
                    assert(members@.subrange(0, i + 1) =~= members@.subrange(0, i as int).push(
                        members@[i as int],
                    ));
                    lemma_sorted_members_push(
                        members_model(members@.subrange(0, i as int)),
                        member_model(members@[i as int]),
                    );
                }
                let value = sort_json_value(&members[i].value);
                let key = copy_string(&members[i].key);
                let mut k: Vec<KeyPart> = Vec::new();
                k.push(KeyPart::Asc(chars_of(key.as_str())));
                let m = JsonMember { key, value };
                proof {
                    lemma_members_model_push(out@, m);
                    assert(key_model(k) =~= member_key(member_model(m)));
                }
                out.push(m);
                keys.push(k);
                i = i + 1;
            }
            assert(members@.subrange(0, members.len() as int) =~= members@);
            let ghost before = out@;
            let ghost key_models = keys@.map_values(|k: Vec<KeyPart>| key_model(k));
            let sorted = sort_by_keys(out, keys);
            proof {
                lemma_members_model_map(before);
                lemma_members_model_map(sorted@);
                crate::sort::lemma_sorted_map(key_models, before, |m: JsonMember| member_model(m));
                assert(key_models =~= members_model(before).map_values(
                    |p: (Seq<char>, JsonModel)| member_key(p),
                ));
            }
            JsonValue::Object(sorted)
        },
    }
}

// ---------------------------------------------------------------------------
// Compact JSON text
// ---------------------------------------------------------------------------

/// A lowercase hexadecimal digit.
pub open spec fn hex_digit(n: int) -> char {
    if n < 10 {
        (n + 48) as char
    } else {
        (n + 87) as char
    }
}

/// The JSON text of one character inside a string literal: quote and
/// backslash are escaped, control characters use their short escape or a
/// `\u00XX` escape with lowercase hex digits, everything else stays.
pub open spec fn escape_char(c: char) -> Seq<char> {
    if c == '"' {
        seq!['\\', '"']
    } else if c == '\\' {
        seq!['\\', '\\']
    } else if c == '\n' {
        seq!['\\', 'n']
    } else if c == '\r' {
        seq!['\\', 'r']
    } else if c == '\t' {
        seq!['\\', 't']
    } else if c == '\x08' {
        seq!['\\', 'b']
    } else if c == '\x0c' {
        seq!['\\', 'f']
    } else if (c as u32) < 0x20 {
        seq!['\\', 'u', '0', '0', hex_digit((c as u32) as int / 16), hex_digit((c as u32) as int % 16)]
    } else {
        seq![c]
    }
}

/// The escaped characters of a text.
pub open spec fn escaped(t: Seq<char>) -> Seq<char>
    decreases t.len(),
{
    if t.len() == 0 {
        Seq::empty()
    } else {
        escaped(t.drop_last()) + escape_char(t.last())
    }
}

/// A JSON string literal.
pub open spec fn quoted(t: Seq<char>) -> Seq<char> {
    seq!['"'] + escaped(t) + seq!['"']
}

/// The compact JSON text of a value: no white space, members and items in
/// their stored order.
pub open spec fn json_text(m: JsonModel) -> Seq<char>
    decreases m,
{
    match m {
        JsonModel::Null => seq!['n', 'u', 'l', 'l'],
        JsonModel::Bool(b) => if b {
            seq!['t', 'r', 'u', 'e']
        } else {
            seq!['f', 'a', 'l', 's', 'e']
        },
        JsonModel::Number(t) => t,
        JsonModel::Text(t) => quoted(t),
        JsonModel::Array(items) => seq!['['] + items_text(items) + seq![']'],
        JsonModel::Object(members) => seq!['{'] + members_text(members) + seq!['}'],
    }
}

/// Item texts separated by commas.
pub open spec fn items_text(s: Seq<JsonModel>) -> Seq<char>
    decreases s,
{
    if s.len() == 0 {
        Seq::empty()
    } else if s.len() == 1 {
        proof {
            assert(decreases_to!(s => s[0]));
        }
        json_text(s[0])
    } else {
        proof {
            assert(decreases_to!(s => s.subrange(0, s.len() - 1)));
            assert(decreases_to!(s => s[s.len() - 1]));
        }
        items_text(s.subrange(0, s.len() - 1)) + seq![','] + json_text(s[s.len() - 1])
    }
}

/// Member texts (`"key":value`) separated by commas.
pub open spec fn members_text(s: Seq<(Seq<char>, JsonModel)>) -> Seq<char>
    decreases s,
{
    if s.len() == 0 {
        Seq::empty()
    } else if s.len() == 1 {
        proof {
            assert(decreases_to!(s => s[0]));
        }
        quoted(s[0].0) + seq![':'] + json_text(s[0].1)
    } else {
        proof {
            assert(decreases_to!(s => s.subrange(0, s.len() - 1)));
            assert(decreases_to!(s => s[s.len() - 1]));
        }
        members_text(s.subrange(0, s.len() - 1)) + seq![','] + quoted(s[s.len() - 1].0) + seq![
            ':',
        ] + json_text(s[s.len() - 1].1)
    }
}

proof fn lemma_items_text_push(s: Seq<JsonModel>, x: JsonModel)
    ensures
        items_text(s.push(x)) == if s.len() == 0 {
            json_text(x)
        } else {
            items_text(s) + seq![','] + json_text(x)
        },
{
    assert(s.push(x).subrange(0, s.len() as int) =~= s);
    if s.len() == 0 {
        assert(s.push(x)[0] == x);
    }
}

pub proof fn lemma_members_text_push(s: Seq<(Seq<char>, JsonModel)>, x: (Seq<char>, JsonModel))
    ensures
        members_text(s.push(x)) == if s.len() == 0 {
            quoted(x.0) + seq![':'] + json_text(x.1)
        } else {
            members_text(s) + seq![','] + quoted(x.0) + seq![':'] + json_text(x.1)
        },
{
    assert(s.push(x).subrange(0, s.len() as int) =~= s);
    if s.len() == 0 {
        assert(s.push(x)[0] == x);
    }
}

pub(crate) fn hex_digit_char(n: u32) -> (r: char)
    requires
        n < 16,
    ensures
        r == hex_digit(n as int),
{
    if n < 10 {
        let b: u8 = (n + 48) as u8;
        b as char
    } else {
        let b: u8 = (n + 87) as u8;
        b as char
    }
}

/// Appends the escaped form of `c`.
fn push_escaped_char(out: &mut String, c: char)
    ensures
        final(out)@ == old(out)@ + escape_char(c),
{
    let ghost start = out@;
    if c == '"' {
        push_char(out, '\\');
        push_char(out, '"');
    } else if c == '\\' {
        push_char(out, '\\');
        push_char(out, '\\');
    } else if c == '\n' {
        push_char(out, '\\');
        push_char(out, 'n');
    } else if c == '\r' {
        push_char(out, '\\');
        push_char(out, 'r');
    } else if c == '\t' {
        push_char(out, '\\');
        push_char(out, 't');
    } else if c == '\x08' {
        push_char(out, '\\');
        push_char(out, 'b');
    } else if c == '\x0c' {
        push_char(out, '\\');
        push_char(out, 'f');
    } else if (c as u32) < 0x20 {
        let code: u32 = c as u32;
        push_char(out, '\\');
        push_char(out, 'u');
        push_char(out, '0');
        push_char(out, '0');
        push_char(out, hex_digit_char(code / 16));
        push_char(out, hex_digit_char(code % 16));
    } else {
        push_char(out, c);
    }
    assert(out@ =~= start + escape_char(c));
}

/// Appends `text` as a JSON string literal.
pub(crate) fn push_quoted(out: &mut String, text: &str)
    ensures
        final(out)@ == old(out)@ + quoted(text@),
{
    let ghost start = out@;
    let cs = chars_of(text);
    push_char(out, '"');
    let mut i: usize = 0;
    assert(cs@.take(0) =~= Seq::<char>::empty());
    while i < cs.len()
        invariant
            i <= cs.len(),
            cs@ == text@,
            out@ == start + seq!['"'] + escaped(cs@.take(i as int)),
        decreases cs.len() - i,
    {
        assert(cs@.take(i + 1).drop_last() =~= cs@.take(i as int));
        push_escaped_char(out, cs[i]);
        i = i + 1;
    }
    assert(cs@.take(cs.len() as int) =~= cs@);
    push_char(out, '"');
    assert(out@ =~= start + quoted(text@));
}

/// Appends the compact JSON text of `value`.
pub fn write_json(value: &JsonValue, out: &mut String)
    ensures
        final(out)@ == old(out)@ + json_text(json_model(*value)),
    decreases value,
{
    let ghost start = out@;
    match value {
        JsonValue::Null => {
            push_str(out, "null");
            proof {
                reveal_strlit("null");
            }
        },
        JsonValue::Bool(b) => {
            if *b {
                push_str(out, "true");
                proof {
                    reveal_strlit("true");
                }
            } else {
                push_str(out, "false");
                proof {
                    reveal_strlit("false");
                }
            }
        },
        JsonValue::Number(t) => {
            push_str(out, t.as_str());
        },
        JsonValue::Text(t) => {
            push_quoted(out, t.as_str());
        },
        JsonValue::Array(items) => {
            push_char(out, '[');
            let mut i: usize = 0;
            assert(items@.subrange(0, 0) =~= Seq::<JsonValue>::empty());
            while i < items.len()
                invariant
                    i <= items.len(),
                    *value == JsonValue::Array(*items),
                    out@ == start + seq!['['] + items_text(
                        items_model(items@.subrange(0, i as int)),
                    ),
                decreases items.len() - i,
            {
                proof {
                    assert(decreases_to!(*value => (*value)->Array_0));
                    assert(decreases_to!(items => items@));
                    assert(decreases_to!(items@ => items@[i as int]));
                    assert(decreases_to!(*value => items@[i as int]));
                    lemma_items_model_push(items@.subrange(0, i as int), items@[i as int]);
                    assert(items@.subrange(0, i + 1) =~= items@.subrange(0, i as int).push(
                        items@[i as int],
                    ));
                    lemma_items_text_push(
                        items_model(items@.subrange(0, i as int)),
                        json_model(items@[i as int]),
                    );
                }
                if i > 0 {
                    push_char(out, ',');
                }
                write_json(&items[i], out);
                i = i + 1;
            }
            assert(items@.subrange(0, items.len() as int) =~= items@);
            push_char(out, ']');
        },
        JsonValue::Object(members) => {
            push_char(out, '{');
            let mut i: usize = 0;
            assert(members@.subrange(0, 0) =~= Seq::<JsonMember>::empty());
            while i < members.len()
                invariant
                    i <= members.len(),
                    *value == JsonValue::Object(*members),
                    out@ == start + seq!['{'] + members_text(
                        members_model(members@.subrange(0, i as int)),
                    ),
                decreases members.len() - i,
            {
                proof {
                    assert(decreases_to!(*value => (*value)->Object_0));
                    assert(decreases_to!(members => members@));
                    assert(decreases_to!(members@ => members@[i as int]));
                    assert(decreases_to!(members@[i as int] => members@[i as int].value));
                    assert(decreases_to!(*value => members@[i as int].value));
                    lemma_members_model_push(members@.subrange(0, i as int), members@[i as int]);
                    assert(members@.subrange(0, i + 1) =~= members@.subrange(0, i as int).push(
                        members@[i as int],
                    ));
                    lemma_members_text_push(
                        members_model(members@.subrange(0, i as int)),
                        member_model(members@[i as int]),
                    );
                }
                if i > 0 {
                    push_char(out, ',');
                }
                push_quoted(out, members[i].key.as_str());
                push_char(out, ':');
                write_json(&members[i].value, out);
                i = i + 1;
            }
            assert(members@.subrange(0, members.len() as int) =~= members@);
            push_char(out, '}');
        },
    }
    assert(out@ =~= start + json_text(json_model(*value)));
}

/// The compact JSON text of `value`, as `serde_json` writes it.
pub fn json_to_text(value: &JsonValue) -> (r: String)
    ensures
        r@ == json_text(json_model(*value)),
{
    let mut out = String::new();
    write_json(value, &mut out);
    assert(out@ =~= json_text(json_model(*value)));
    out
}

// ---------------------------------------------------------------------------
// Reading JSON text
// ---------------------------------------------------------------------------

#[verifier::external_type_specification]
#[verifier::external_body]
pub struct ExSerdeJsonValue(serde_json::Value);

/// What `serde_json::from_str::<Vec<serde_json::Value>>` reads from a
/// text: the items of the JSON array, each as a model (numbers as
/// `serde_json` writes them, object members in its map order), or the
/// parser's error message.
pub uninterp spec fn json_array_parse(text: Seq<char>) -> Result<Seq<JsonModel>, Seq<char>>;

/// Converts a `serde_json` value into the library's value, one for one:
/// numbers as `serde_json` writes them, object members in map order.
#[verifier::external_body]
fn json_value_from_serde(value: &serde_json::Value) -> (r: JsonValue) {
    match value {
        serde_json::Value::Null => JsonValue::Null,
        serde_json::Value::Bool(b) => JsonValue::Bool(*b),
        serde_json::Value::Number(n) => JsonValue::Number(n.to_string()),
        serde_json::Value::String(t) => JsonValue::Text(t.clone()),
        serde_json::Value::Array(items) => JsonValue::Array(items.iter().map(json_value_from_serde).collect()),
        serde_json::Value::Object(map) => JsonValue::Object(
            map.iter().map(|(key, item)| JsonMember { key: key.clone(), value: json_value_from_serde(item) }).collect(),
        ),
    }
}

/// Calls `serde_json::from_str` to read a JSON array of values; the
/// outcome, items or error message, is named by `json_array_parse`.
#[verifier::external_body]
fn parse_json_array(text: &str) -> (r: Result<Vec<JsonValue>, String>)
    ensures
        match r {
            Ok(items) => json_array_parse(text@) == Ok::<Seq<JsonModel>, Seq<char>>(
                items@.map_values(|v: JsonValue| json_model(v)),
            ),
            Err(message) => json_array_parse(text@) == Err::<Seq<JsonModel>, Seq<char>>(message@),
        },
{
    match serde_json::from_str::<Vec<serde_json::Value>>(text) {
        Ok(values) => Ok(values.iter().map(json_value_from_serde).collect()),
        Err(error) => Err(error.to_string()),
    }
}

/// The message for Azure CLI output that is not a JSON array.
pub open spec fn invalid_output_message(what: Seq<char>, detail: Seq<char>) -> Seq<char> {
    "Azure CLI returned invalid "@ + what + " snapshot JSON: "@ + detail
}

/// Reads the raw items that the Azure CLI printed as a JSON array; `what`
/// names them (`resource` or `group`) in the error.
pub fn raw_values_from_json(raw_json: &str, what: &str) -> (r: Result<Vec<JsonValue>, String>)
    ensures
        match json_array_parse(raw_json@) {
            Ok(items) => r matches Ok(v) && v@.map_values(|x: JsonValue| json_model(x)) == items,
            Err(detail) => r matches Err(m) && m@ == invalid_output_message(what@, detail),
        },
{
    match parse_json_array(raw_json) {
        Ok(items) => Ok(items),
        Err(detail) => {
            let mut message = String::from_str("Azure CLI returned invalid ");
            push_str(&mut message, what);
            push_str(&mut message, " snapshot JSON: ");
            push_str(&mut message, detail.as_str());
            Err(message)
        },
    }
}

} // verus!
