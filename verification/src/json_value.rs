//! JSON values as the state store keeps them, with the object merge that
//! agent state updates use.

use vstd::prelude::*;
use crate::symbolic_program::str_eq;

verus! {

/// A JSON value. Objects keep their members in order, each name once when
/// built through `object_insert`.
#[derive(Debug, PartialEq)]
pub enum JsonValue {
    /// `null`.
    Null,
    /// `true` or `false`.
    Bool(bool),
    /// An integer.
    Number(i64),
    /// A string.
    Str(String),
    /// An array.
    Array(Vec<JsonValue>),
    /// An object: member names and values.
    Object(Vec<(String, JsonValue)>),
}

/// serde_json's dynamically typed value.
#[verifier::external_type_specification]
#[verifier::external_body]
pub struct ExSerdeJsonValue(serde_json::Value);

/// Whether the value is empty: `null`, an empty object, array or string.
pub open spec fn json_is_empty(v: JsonValue) -> bool {
    match v {
        JsonValue::Null => true,
        JsonValue::Object(m) => m@.len() == 0,
        JsonValue::Array(a) => a@.len() == 0,
        JsonValue::Str(s) => s@.len() == 0,
        _ => false,
    }
}

/// The members after setting `name` to `value`: the first member with that
/// name gets the new value, or the member is appended when there is none.
pub open spec fn object_insert(m: Seq<(String, JsonValue)>, name: String, value: JsonValue) -> Seq<(String, JsonValue)>
    decreases m.len(),
{
    if m.len() == 0 {
        seq![(name, value)]
    } else if m[0].0@ == name@ {
        seq![(m[0].0, value)] + m.drop_first()
    } else {
        seq![m[0]] + object_insert(m.drop_first(), name, value)
    }
}

/// The members of `a` with every member of `b` set in turn.
pub open spec fn object_merge(a: Seq<(String, JsonValue)>, b: Seq<(String, JsonValue)>) -> Seq<(String, JsonValue)>
    decreases b.len(),
{
    if b.len() == 0 {
        a
    } else {
        object_insert(object_merge(a, b.drop_last()), b.last().0, b.last().1)
    }
}

/// The length of the compact JSON text that serde_json writes for `v`.
pub uninterp spec fn json_text_length(v: JsonValue) -> nat;

/// The same value as serde_json's, node for node.
///
/// Trusted as a conversion: it states nothing.
#[verifier::external_body]
fn to_serde_value(v: &JsonValue) -> serde_json::Value {
    match v {
        JsonValue::Null => serde_json::Value::Null,
        JsonValue::Bool(b) => serde_json::Value::Bool(*b),
        JsonValue::Number(n) => serde_json::Value::from(*n),
        JsonValue::Str(s) => serde_json::Value::String(s.clone()),
        JsonValue::Array(a) => serde_json::Value::Array(a.iter().map(to_serde_value).collect()),
        JsonValue::Object(m) => serde_json::Value::Object(m.iter().map(|(k, x)| (k.clone(), to_serde_value(x))).collect()),
    }
}

/// The length of the JSON text of `v`.
///
/// Trusted: renders the value with serde_json's `Display` (`to_string`)
/// and takes the byte length; the result is named, not stated.
#[verifier::external_body]
pub(crate) fn json_text_len(v: &JsonValue) -> (n: usize)
    ensures
        n == json_text_length(*v),
{
    to_serde_value(v).to_string().len()
}

/// Whether the value is empty (see `json_is_empty`).
pub fn is_empty_json(v: &JsonValue) -> (b: bool)
    ensures
        b == json_is_empty(*v),
{
    match v {
        JsonValue::Null => true,
        JsonValue::Object(m) => m.len() == 0,
        JsonValue::Array(a) => a.len() == 0,
        JsonValue::Str(s) => s.as_str().unicode_len() == 0,
        _ => false,
    }
}

proof fn lemma_insert_found(m: Seq<(String, JsonValue)>, i: int, name: String, value: JsonValue)
    requires
        0 <= i < m.len(),
        m[i].0@ == name@,
        forall|j: int| 0 <= j < i ==> m[j].0@ != name@,
    ensures
        object_insert(m, name, value) == m.update(i, (m[i].0, value)),
    decreases m.len(),
{
    if i == 0 {
        assert(seq![(m[0].0, value)] + m.drop_first() =~= m.update(0, (m[0].0, value)));
    } else {
        assert forall|j: int| 0 <= j < i - 1 implies m.drop_first()[j].0@ != name@ by {
            assert(m.drop_first()[j] == m[j + 1]);
        }
        lemma_insert_found(m.drop_first(), i - 1, name, value);
        assert(seq![m[0]] + m.drop_first().update(i - 1, (m[i].0, value)) =~= m.update(i, (m[i].0, value)));
    }
}

proof fn lemma_insert_absent(m: Seq<(String, JsonValue)>, name: String, value: JsonValue)
    requires
        forall|j: int| 0 <= j < m.len() ==> m[j].0@ != name@,
    ensures
        object_insert(m, name, value) == m.push((name, value)),
    decreases m.len(),
{
    if m.len() > 0 {
        assert forall|j: int| 0 <= j < m.drop_first().len() implies m.drop_first()[j].0@ != name@ by {
            assert(m.drop_first()[j] == m[j + 1]);
        }
        lemma_insert_absent(m.drop_first(), name, value);
        assert(seq![m[0]] + m.drop_first().push((name, value)) =~= m.push((name, value)));
    }
}

proof fn lemma_merge_step(a: Seq<(String, JsonValue)>, b: Seq<(String, JsonValue)>, i: int)
    requires
        0 <= i < b.len(),
    ensures
        object_merge(a, b.subrange(0, i + 1)) == object_insert(object_merge(a, b.subrange(0, i)), b[i].0, b[i].1),
{
    assert(b.subrange(0, i + 1).drop_last() =~= b.subrange(0, i));
}

/// Sets every member of `b`, in order, in the object members `a` (see
/// `object_merge`).
pub fn merge_members(a: &mut Vec<(String, JsonValue)>, b: Vec<(String, JsonValue)>)
    ensures
        final(a)@ == object_merge(old(a)@, b@),
{
    let ghost all = b@;
    assert(all.len() == b.len());
    let mut rest = b;
    let mut done: usize = 0;
    assert(all.subrange(0, 0) =~= Seq::<(String, JsonValue)>::empty());
    while rest.len() > 0
        invariant
            done + rest@.len() == all.len(),
            all.len() <= usize::MAX,
            rest@ == all.subrange(done as int, all.len() as int),
            a@ == object_merge(old(a)@, all.subrange(0, done as int)),
        decreases rest@.len(),
    {
        proof {
            lemma_merge_step(old(a)@, all, done as int);
        }
        let (name, value) = rest.remove(0);
        insert_member(a, name, value);
        assert(rest@ =~= all.subrange(done + 1, all.len() as int));
        done = done + 1;
    }
    assert(all.subrange(0, all.len() as int) =~= all);
}

/// Sets member `name` of the object members `m` to `value` (see `object_insert`).
pub fn insert_member(m: &mut Vec<(String, JsonValue)>, name: String, value: JsonValue)
    ensures
        final(m)@ == object_insert(old(m)@, name, value),
{
    let mut i: usize = 0;
    while i < m.len()
        invariant
            i <= m@.len(),
            m@ == old(m)@,
            forall|j: int| 0 <= j < i ==> (#[trigger] m@[j]).0@ != name@,
        decreases m@.len() - i,
    {
        if str_eq(m[i].0.as_str(), name.as_str()) {
            proof {
                lemma_insert_found(m@, i as int, name, value);
            }
            let key = m[i].0.clone();
            m.set(i, (key, value));
            return;
        }
        i = i + 1;
    }
    proof {
        lemma_insert_absent(m@, name, value);
    }
    m.push((name, value));
}

/// The value of member `name`: the first member with that name.
pub open spec fn object_get(m: Seq<(String, JsonValue)>, name: Seq<char>) -> Option<JsonValue>
    decreases m.len(),
{
    if m.len() == 0 {
        None
    } else if m[0].0@ == name {
        Some(m[0].1)
    } else {
        object_get(m.drop_first(), name)
    }
}

/// The value of the last member named `name`, the one a merge keeps.
pub open spec fn last_value(m: Seq<(String, JsonValue)>, name: Seq<char>) -> Option<JsonValue>
    decreases m.len(),
{
    if m.len() == 0 {
        None
    } else if m.last().0@ == name {
        Some(m.last().1)
    } else {
        last_value(m.drop_last(), name)
    }
}

proof fn lemma_get_after_insert(m: Seq<(String, JsonValue)>, name: String, value: JsonValue, k: Seq<char>)
    ensures
        k == name@ ==> object_get(object_insert(m, name, value), k) === Some(value),
        k != name@ ==> object_get(object_insert(m, name, value), k) === object_get(m, k),
    decreases m.len(),
{
    if m.len() > 0 {
        if m[0].0@ != name@ {
            lemma_get_after_insert(m.drop_first(), name, value, k);
            let n = seq![m[0]] + object_insert(m.drop_first(), name, value);
            assert(n[0] == m[0]);
            assert(n.drop_first() =~= object_insert(m.drop_first(), name, value));
            assert(object_insert(m, name, value) == n);
            if m[0].0@ == k {
                assert(object_get(n, k) == Some(m[0].1));
                assert(object_get(m, k) == Some(m[0].1));
            } else {
                assert(object_get(n, k) == object_get(n.drop_first(), k));
                assert(object_get(m, k) == object_get(m.drop_first(), k));
                if k != name@ {
                    assert(object_get(n.drop_first(), k) === object_get(m.drop_first(), k));
                    assert(object_get(object_insert(m, name, value), k) === object_get(m, k));
                }
            }
        } else {
            let n = seq![(m[0].0, value)] + m.drop_first();
            assert(n[0] == (m[0].0, value));
            assert(n.drop_first() =~= m.drop_first());
            assert(object_insert(m, name, value) == n);
            if k != name@ {
                assert(object_get(n, k) == object_get(n.drop_first(), k));
                assert(object_get(m, k) == object_get(m.drop_first(), k));
                assert(object_get(object_insert(m, name, value), k) === object_get(m, k));
            }
        }
    } else {
        let n = seq![(name, value)];
        assert(n[0] == (name, value));
        assert(n.drop_first() =~= Seq::<(String, JsonValue)>::empty());
        assert(object_insert(m, name, value) == n);
        if k != name@ {
            assert(object_get(n, k) == object_get(n.drop_first(), k));
        }
    }
}

/// Merging is a shallow overwrite: after setting the members of `b` in
/// `a`, each name reads as the last value `b` gives it, and a name that `b`
/// does not mention reads as in `a`.
pub proof fn law_merge_overwrites_shallowly(a: Seq<(String, JsonValue)>, b: Seq<(String, JsonValue)>, k: Seq<char>)
    ensures
        object_get(object_merge(a, b), k) == match last_value(b, k) {
            Some(v) => Some(v),
            None => object_get(a, k),
        },
    decreases b.len(),
{
    if b.len() > 0 {
        law_merge_overwrites_shallowly(a, b.drop_last(), k);
        lemma_get_after_insert(object_merge(a, b.drop_last()), b.last().0, b.last().1, k);
    }
}

} // verus!
