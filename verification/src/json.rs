//! JSON documents as the configuration stores them, and the rewrite that renames a
//! legacy workspace key wherever it occurs.
use vstd::prelude::*;
use crate::text::str_eq;

verus! {

/// A JSON value. Numbers are kept as the text that writes them.
pub enum JsonValue {
    Null,
    Bool(bool),
    Number(String),
    Text(String),
    Array(Vec<JsonValue>),
    Object(Vec<(String, JsonValue)>),
}

/// View of a JSON value.
pub ghost enum JsonV {
    Null,
    Bool(bool),
    Number(Seq<char>),
    Text(Seq<char>),
    Array(Seq<JsonV>),
    Object(Seq<(Seq<char>, JsonV)>),
}

/// The view of a JSON value.
pub open spec fn json_v(j: JsonValue) -> JsonV
    decreases j, 0nat,
{
    match j {
        JsonValue::Null => JsonV::Null,
        JsonValue::Bool(b) => JsonV::Bool(b),
        JsonValue::Number(n) => JsonV::Number(n@),
        JsonValue::Text(t) => JsonV::Text(t@),
        JsonValue::Array(items) => JsonV::Array(items_v(items@)),
        JsonValue::Object(entries) => JsonV::Object(entries_v(entries@)),
    }
}

/// The views of a list of JSON values.
pub open spec fn items_v(s: Seq<JsonValue>) -> Seq<JsonV>
    decreases s, s.len(),
{
    if s.len() == 0 {
        seq![]
    } else {
        items_v(s.drop_last()).push(json_v(s.last()))
    }
}

/// The views of a list of object entries.
pub open spec fn entries_v(s: Seq<(String, JsonValue)>) -> Seq<(Seq<char>, JsonV)>
    decreases s, s.len(),
{
    if s.len() == 0 {
        seq![]
    } else {
        entries_v(s.drop_last()).push((s.last().0@, json_v(s.last().1)))
    }
}

proof fn lemma_items_v(s: Seq<JsonValue>)
    ensures
        items_v(s).len() == s.len(),
        forall|i: int| 0 <= i < s.len() ==> #[trigger] items_v(s)[i] == json_v(s[i]),
    decreases s.len(),
{
    if s.len() > 0 {
        lemma_items_v(s.drop_last());
        assert forall|i: int| 0 <= i < s.len() implies #[trigger] items_v(s)[i] == json_v(s[i]) by {
            if i < s.len() - 1 {
                assert(s.drop_last()[i] == s[i]);
            }
        }
    }
}

proof fn lemma_entries_v(s: Seq<(String, JsonValue)>)
    ensures
        entries_v(s).len() == s.len(),
        forall|i: int| 0 <= i < s.len() ==> #[trigger] entries_v(s)[i] == (s[i].0@, json_v(s[i].1)),
    decreases s.len(),
{
    if s.len() > 0 {
        lemma_entries_v(s.drop_last());
        assert forall|i: int| 0 <= i < s.len() implies #[trigger] entries_v(s)[i] == (s[i].0@, json_v(s[i].1)) by {
            if i < s.len() - 1 {
                assert(s.drop_last()[i] == s[i]);
            }
        }
    }
}

/// The workspace key that older configurations used.
pub open spec fn legacy_key() -> Seq<char> {
    "primaryBrowserServiceId"@
}

/// The workspace key that replaced it.
pub open spec fn current_key() -> Seq<char> {
    "primaryWebServiceId"@
}

/// The index of the first entry at or after `i` under the key `k`.
pub open spec fn key_index_from(es: Seq<(Seq<char>, JsonV)>, k: Seq<char>, i: int) -> Option<int>
    decreases es.len() - i,
{
    if i < 0 || i >= es.len() {
        None
    } else if es[i].0 == k {
        Some(i)
    } else {
        key_index_from(es, k, i + 1)
    }
}

/// An object's entries with the legacy key renamed: its entry is taken out and, when
/// the object has no entry under the current key, its value is added under that key.
pub open spec fn renamed_entries(es: Seq<(Seq<char>, JsonV)>) -> Seq<(Seq<char>, JsonV)> {
    match key_index_from(es, legacy_key(), 0) {
        None => es,
        Some(i) => {
            let rest = es.remove(i);
            if key_index_from(rest, current_key(), 0) is Some {
                rest
            } else {
                rest.push((current_key(), es[i].1))
            }
        },
    }
}

/// A JSON value with the legacy workspace key renamed in every object, at any depth.
pub open spec fn sanitized(j: JsonV) -> JsonV
    decreases j, 0nat,
{
    match j {
        JsonV::Array(items) => JsonV::Array(sanitized_items(items)),
        JsonV::Object(es) => JsonV::Object(renamed_entries(sanitized_entries(es))),
        other => other,
    }
}

/// Each value of a list sanitized.
pub open spec fn sanitized_items(s: Seq<JsonV>) -> Seq<JsonV>
    decreases s, s.len(),
{
    if s.len() == 0 {
        seq![]
    } else {
        sanitized_items(s.drop_last()).push(sanitized(s.last()))
    }
}

/// Each entry's value sanitized.
pub open spec fn sanitized_entries(s: Seq<(Seq<char>, JsonV)>) -> Seq<(Seq<char>, JsonV)>
    decreases s, s.len(),
{
    if s.len() == 0 {
        seq![]
    } else {
        sanitized_entries(s.drop_last()).push((s.last().0, sanitized(s.last().1)))
    }
}

fn find_key(es: &Vec<(String, JsonValue)>, k: &str) -> (r: Option<usize>)
    ensures
        match r {
            Some(i) => key_index_from(entries_v(es@), k@, 0) == Some(i as int) && i < es@.len(),
            None => key_index_from(entries_v(es@), k@, 0) is None,
        },
{
    let ghost ev = entries_v(es@);
    proof {
        lemma_entries_v(es@);
    }
    let n = es.len();
    let mut i: usize = 0;
    while i < n
        invariant
            n == es@.len(),
            i <= n,
            ev == entries_v(es@),
            ev.len() == n,
            forall|j: int| 0 <= j < n ==> #[trigger] ev[j] == (es@[j].0@, json_v(es@[j].1)),
            key_index_from(ev, k@, 0) == key_index_from(ev, k@, i as int),
        decreases n - i,
    {
        assert(ev[i as int].0 == es@[i as int].0@);
        if str_eq(es[i].0.as_str(), k) {
            return Some(i);
        }
        i = i + 1;
    }
    None
}

fn rename_legacy_key(es: &mut Vec<(String, JsonValue)>)
    ensures
        entries_v(final(es)@) == renamed_entries(entries_v(old(es)@)),
{
    proof {
        reveal_strlit("primaryBrowserServiceId");
        reveal_strlit("primaryWebServiceId");
    }
    let ghost ev = entries_v(es@);
    proof {
        lemma_entries_v(es@);
    }
    match find_key(es, "primaryBrowserServiceId") {
        None => {},
        Some(i) => {
            let ghost before = es@;
            let (_k, legacy_value) = es.remove(i);
            proof {
                lemma_entries_v(es@);
                assert(entries_v(es@) =~= ev.remove(i as int)) by {
                    assert forall|j: int| 0 <= j < es@.len() implies #[trigger] entries_v(es@)[j] == ev.remove(i as int)[j] by {
                        if j < i {
                            assert(es@[j] == before[j]);
                        } else {
                            assert(es@[j] == before[j + 1]);
                        }
                    }
                }
            }
            match find_key(es, "primaryWebServiceId") {
                Some(_) => {},
                None => {
                    let ghost mid = es@;
                    es.push((crate::text::owned("primaryWebServiceId"), legacy_value));
                    proof {
                        assert(es@.drop_last() == mid);
                        assert(entries_v(es@) =~= entries_v(mid).push((current_key(), ev[i as int].1)));
                    }
                },
            }
        },
    }
}

/// A JSON value with the legacy workspace key renamed in every object (see
/// `sanitized`).
pub fn sanitized_value(value: JsonValue) -> (r: JsonValue)
    ensures
        json_v(r) == sanitized(json_v(value)),
    decreases value,
{
    let ghost v0 = value;
    match value {
        JsonValue::Array(items) => {
            let ghost orig = items@;
            let n = items.len();
            proof {
                lemma_items_v(orig);
            }
            let mut out: Vec<JsonValue> = Vec::new();
            let mut k: usize = 0;
            let mut rest = items;
            while rest.len() > 0
                invariant
                    k + rest@.len() == orig.len(),
                    orig.len() == n,
                    v0 == JsonValue::Array(items),
                    v0 == value,
                    orig == items@,
                    rest@ == orig.skip(k as int),
                    items_v(out@) == sanitized_items(items_v(orig.take(k as int))),
                decreases rest@.len(),
            {
                let ghost before = rest@;
                let x = rest.remove(0);
                proof {
                    assert(x == orig[k as int]);
                    assert(decreases_to!(v0 => v0->Array_0));
                    assert(decreases_to!(v0->Array_0 => v0->Array_0@));
                    assert(decreases_to!(v0->Array_0@ => v0->Array_0@[k as int]));
                    assert(decreases_to!(v0 => x));
                    assert(rest@ =~= orig.skip(k + 1));
                    assert(orig.take(k + 1).drop_last() =~= orig.take(k as int));
                    assert(items_v(orig.take(k + 1)) == items_v(orig.take(k as int)).push(json_v(x)));
                    assert(items_v(orig.take(k + 1)).drop_last() =~= items_v(orig.take(k as int)));
                }
                let y = sanitized_value(x);
                let ghost prev = out@;
                out.push(y);
                proof {
                    assert(out@.drop_last() == prev);
                }
                k = k + 1;
            }
            proof {
                assert(orig.take(k as int) =~= orig);
            }
            JsonValue::Array(out)
        },
        JsonValue::Object(entries) => {
            let ghost orig = entries@;
            let n = entries.len();
            let mut out: Vec<(String, JsonValue)> = Vec::new();
            let mut k: usize = 0;
            let mut rest = entries;
            while rest.len() > 0
                invariant
                    k + rest@.len() == orig.len(),
                    orig.len() == n,
                    v0 == JsonValue::Object(entries),
                    v0 == value,
                    orig == entries@,
                    rest@ == orig.skip(k as int),
                    entries_v(out@) == sanitized_entries(entries_v(orig.take(k as int))),
                decreases rest@.len(),
            {
                let (key, x) = rest.remove(0);
                proof {
                    assert((key, x) == orig[k as int]);
                    assert(decreases_to!(v0 => v0->Object_0));
                    assert(decreases_to!(v0->Object_0 => v0->Object_0@));
                    assert(decreases_to!(v0->Object_0@ => v0->Object_0@[k as int]));
                    assert(decreases_to!(v0->Object_0@[k as int] => v0->Object_0@[k as int].1));
                    assert(decreases_to!(v0 => x));
                    assert(rest@ =~= orig.skip(k + 1));
                    assert(orig.take(k + 1).drop_last() =~= orig.take(k as int));
                    assert(entries_v(orig.take(k + 1)).drop_last() =~= entries_v(orig.take(k as int)));
                }
                let y = sanitized_value(x);
                let ghost prev = out@;
                out.push((key, y));
                proof {
                    assert(out@.drop_last() == prev);
                }
                k = k + 1;
            }
            proof {
                assert(orig.take(k as int) =~= orig);
            }
            rename_legacy_key(&mut out);
            JsonValue::Object(out)
        },
        other => other,
    }
}

/// Renames the legacy workspace key in every object of a JSON value, at any depth
/// (see `sanitized`).
pub fn sanitize_workspace_aliases(value: &mut JsonValue)
    ensures
        json_v(*final(value)) == sanitized(json_v(*old(value))),
{
    let mut taken = JsonValue::Null;
    std::mem::swap(&mut taken, value);
    *value = sanitized_value(taken);
}


/// Whether no object of a JSON value, at any depth, holds the legacy workspace key.
pub open spec fn legacy_free(j: JsonV) -> bool
    decreases j, 0nat,
{
    match j {
        JsonV::Array(items) => items_legacy_free(items),
        JsonV::Object(es) => key_index_from(es, legacy_key(), 0) is None && entries_legacy_free(es),
        _ => true,
    }
}

/// Whether each value of a list is free of the legacy key.
pub open spec fn items_legacy_free(s: Seq<JsonV>) -> bool
    decreases s, s.len(),
{
    s.len() == 0 || (items_legacy_free(s.drop_last()) && legacy_free(s.last()))
}

/// Whether each entry's value is free of the legacy key.
pub open spec fn entries_legacy_free(s: Seq<(Seq<char>, JsonV)>) -> bool
    decreases s, s.len(),
{
    s.len() == 0 || (entries_legacy_free(s.drop_last()) && legacy_free(s.last().1))
}

/// Whether the keys of an object's entries are distinct.
pub open spec fn keys_distinct(es: Seq<(Seq<char>, JsonV)>) -> bool {
    forall|a: int, b: int| 0 <= a < b < es.len() ==> #[trigger] es[a].0 != #[trigger] es[b].0
}

/// Whether every object of a JSON value, at any depth, holds each key once, as a parsed
/// JSON document does.
pub open spec fn keys_unique(j: JsonV) -> bool
    decreases j, 0nat,
{
    match j {
        JsonV::Array(items) => items_keys_unique(items),
        JsonV::Object(es) => keys_distinct(es) && entries_keys_unique(es),
        _ => true,
    }
}

/// Whether each value of a list holds each key once in every object.
pub open spec fn items_keys_unique(s: Seq<JsonV>) -> bool
    decreases s, s.len(),
{
    s.len() == 0 || (items_keys_unique(s.drop_last()) && keys_unique(s.last()))
}

/// Whether each entry's value holds each key once in every object.
pub open spec fn entries_keys_unique(s: Seq<(Seq<char>, JsonV)>) -> bool
    decreases s, s.len(),
{
    s.len() == 0 || (entries_keys_unique(s.drop_last()) && keys_unique(s.last().1))
}

proof fn lemma_key_index_none(es: Seq<(Seq<char>, JsonV)>, k: Seq<char>, i: int)
    requires
        0 <= i,
    ensures
        key_index_from(es, k, i) is None <==> (forall|m: int| i <= m < es.len() ==> #[trigger] es[m].0 != k),
        key_index_from(es, k, i) matches Some(m) ==> i <= m < es.len() && es[m].0 == k,
    decreases es.len() - i,
{
    if i < es.len() {
        lemma_key_index_none(es, k, i + 1);
    }
}

proof fn lemma_items_facts(s: Seq<JsonV>)
    ensures
        items_legacy_free(s) <==> (forall|i: int| 0 <= i < s.len() ==> #[trigger] legacy_free(s[i])),
        items_keys_unique(s) <==> (forall|i: int| 0 <= i < s.len() ==> #[trigger] keys_unique(s[i])),
        sanitized_items(s).len() == s.len(),
        forall|i: int| 0 <= i < s.len() ==> #[trigger] sanitized_items(s)[i] == sanitized(s[i]),
    decreases s.len(),
{
    if s.len() > 0 {
        let d = s.drop_last();
        lemma_items_facts(d);
        assert forall|i: int| 0 <= i < d.len() implies d[i] == s[i] by {}
        assert forall|i: int| 0 <= i < s.len() implies #[trigger] sanitized_items(s)[i] == sanitized(s[i]) by {
            if i < d.len() {
                assert(d[i] == s[i]);
            }
        }
        if forall|i: int| 0 <= i < s.len() ==> #[trigger] legacy_free(s[i]) {
            assert forall|i: int| 0 <= i < d.len() implies #[trigger] legacy_free(d[i]) by {
                assert(d[i] == s[i]);
            }
            assert(legacy_free(s[s.len() - 1]));
        }
        if items_legacy_free(s) {
            assert forall|i: int| 0 <= i < s.len() implies #[trigger] legacy_free(s[i]) by {
                if i < d.len() {
                    assert(d[i] == s[i]);
                }
            }
        }
        if forall|i: int| 0 <= i < s.len() ==> #[trigger] keys_unique(s[i]) {
            assert forall|i: int| 0 <= i < d.len() implies #[trigger] keys_unique(d[i]) by {
                assert(d[i] == s[i]);
            }
            assert(keys_unique(s[s.len() - 1]));
        }
        if items_keys_unique(s) {
            assert forall|i: int| 0 <= i < s.len() implies #[trigger] keys_unique(s[i]) by {
                if i < d.len() {
                    assert(d[i] == s[i]);
                }
            }
        }
    }
}

proof fn lemma_entries_facts(s: Seq<(Seq<char>, JsonV)>)
    ensures
        entries_legacy_free(s) <==> (forall|i: int| 0 <= i < s.len() ==> #[trigger] legacy_free(s[i].1)),
        entries_keys_unique(s) <==> (forall|i: int| 0 <= i < s.len() ==> #[trigger] keys_unique(s[i].1)),
        sanitized_entries(s).len() == s.len(),
        forall|i: int| 0 <= i < s.len() ==> #[trigger] sanitized_entries(s)[i] == (s[i].0, sanitized(s[i].1)),
    decreases s.len(),
{
    if s.len() > 0 {
        let d = s.drop_last();
        lemma_entries_facts(d);
        assert forall|i: int| 0 <= i < s.len() implies #[trigger] sanitized_entries(s)[i] == (s[i].0, sanitized(s[i].1)) by {
            if i < d.len() {
                assert(d[i] == s[i]);
            }
        }
        if forall|i: int| 0 <= i < s.len() ==> #[trigger] legacy_free(s[i].1) {
            assert forall|i: int| 0 <= i < d.len() implies #[trigger] legacy_free(d[i].1) by {
                assert(d[i] == s[i]);
            }
            assert(legacy_free(s[s.len() - 1].1));
        }
        if entries_legacy_free(s) {
            assert forall|i: int| 0 <= i < s.len() implies #[trigger] legacy_free(s[i].1) by {
                if i < d.len() {
                    assert(d[i] == s[i]);
                }
            }
        }
        if forall|i: int| 0 <= i < s.len() ==> #[trigger] keys_unique(s[i].1) {
            assert forall|i: int| 0 <= i < d.len() implies #[trigger] keys_unique(d[i].1) by {
                assert(d[i] == s[i]);
            }
            assert(keys_unique(s[s.len() - 1].1));
        }
        if entries_keys_unique(s) {
            assert forall|i: int| 0 <= i < s.len() implies #[trigger] keys_unique(s[i].1) by {
                if i < d.len() {
                    assert(d[i] == s[i]);
                }
            }
        }
    }
}


proof fn lemma_renamed_clean(es: Seq<(Seq<char>, JsonV)>)
    requires
        keys_distinct(es),
        forall|i: int| 0 <= i < es.len() ==> #[trigger] legacy_free(es[i].1),
        forall|i: int| 0 <= i < es.len() ==> #[trigger] keys_unique(es[i].1),
    ensures
        key_index_from(renamed_entries(es), legacy_key(), 0) is None,
        keys_distinct(renamed_entries(es)),
        forall|i: int| 0 <= i < renamed_entries(es).len() ==> #[trigger] legacy_free(renamed_entries(es)[i].1),
        forall|i: int| 0 <= i < renamed_entries(es).len() ==> #[trigger] keys_unique(renamed_entries(es)[i].1),
{
    reveal_strlit("primaryBrowserServiceId");
    reveal_strlit("primaryWebServiceId");
    assert(legacy_key().len() != current_key().len());
    lemma_key_index_none(es, legacy_key(), 0);
    match key_index_from(es, legacy_key(), 0) {
        None => {},
        Some(i) => {
            let rest = es.remove(i);
            assert forall|m: int| 0 <= m < rest.len() implies #[trigger] rest[m] == (if m < i { es[m] } else { es[m + 1] }) by {}
            assert forall|m: int| 0 <= m < rest.len() implies #[trigger] rest[m].0 != legacy_key() by {
                if m < i {
                    assert(es[m].0 != es[i].0);
                } else {
                    assert(es[i].0 != es[m + 1].0);
                }
            }
            assert(keys_distinct(rest)) by {
                assert forall|a: int, b: int| 0 <= a < b < rest.len() implies #[trigger] rest[a].0 != #[trigger] rest[b].0 by {
                    let a0 = if a < i { a } else { a + 1 };
                    let b0 = if b < i { b } else { b + 1 };
                    assert(rest[a] == es[a0]);
                    assert(rest[b] == es[b0]);
                    assert(es[a0].0 != es[b0].0);
                }
            }
            assert forall|m: int| 0 <= m < rest.len() implies #[trigger] legacy_free(rest[m].1) && keys_unique(rest[m].1) by {
                if m < i {
                    assert(rest[m] == es[m]);
                } else {
                    assert(rest[m] == es[m + 1]);
                }
            }
            lemma_key_index_none(rest, legacy_key(), 0);
            lemma_key_index_none(rest, current_key(), 0);
            if key_index_from(rest, current_key(), 0) is None {
                let out = rest.push((current_key(), es[i].1));
                assert forall|m: int| 0 <= m < out.len() implies #[trigger] out[m].0 != legacy_key() by {
                    if m < rest.len() {
                        assert(out[m] == rest[m]);
                    }
                }
                lemma_key_index_none(out, legacy_key(), 0);
                assert(keys_distinct(out)) by {
                    assert forall|a: int, b: int| 0 <= a < b < out.len() implies #[trigger] out[a].0 != #[trigger] out[b].0 by {
                        assert(out[a] == rest[a]);
                        if b < rest.len() {
                            assert(out[b] == rest[b]);
                        }
                    }
                }
                assert forall|m: int| 0 <= m < out.len() implies #[trigger] legacy_free(out[m].1) && keys_unique(out[m].1) by {
                    if m < rest.len() {
                        assert(out[m] == rest[m]);
                    }
                }
            }
        },
    }
}

proof fn lemma_sanitized_clean(j: JsonV)
    requires
        keys_unique(j),
    ensures
        legacy_free(sanitized(j)),
        keys_unique(sanitized(j)),
    decreases j,
{
    match j {
        JsonV::Array(items) => {
            lemma_items_facts(items);
            assert forall|i: int| 0 <= i < items.len() implies legacy_free(#[trigger] sanitized(items[i]))
                && keys_unique(sanitized(items[i])) by {
                assert(keys_unique(items[i]));
                lemma_sanitized_clean(items[i]);
            }
            lemma_items_facts(sanitized_items(items));
        },
        JsonV::Object(es) => {
            lemma_entries_facts(es);
            assert forall|i: int| 0 <= i < es.len() implies legacy_free(#[trigger] sanitized(es[i].1))
                && keys_unique(sanitized(es[i].1)) by {
                assert(keys_unique(es[i].1));
                lemma_sanitized_clean(es[i].1);
            }
            let se = sanitized_entries(es);
            lemma_entries_facts(se);
            assert(keys_distinct(se)) by {
                assert forall|a: int, b: int| 0 <= a < b < se.len() implies #[trigger] se[a].0 != #[trigger] se[b].0 by {
                    assert(se[a].0 == es[a].0);
                    assert(se[b].0 == es[b].0);
                }
            }
            assert forall|i: int| 0 <= i < se.len() implies #[trigger] legacy_free(se[i].1) && keys_unique(se[i].1) by {
                assert(se[i].1 == sanitized(es[i].1));
            }
            lemma_renamed_clean(se);
            lemma_entries_facts(renamed_entries(se));
        },
        _ => {},
    }
}

proof fn lemma_sanitized_fixed(j: JsonV)
    requires
        legacy_free(j),
    ensures
        sanitized(j) == j,
    decreases j,
{
    match j {
        JsonV::Array(items) => {
            lemma_items_facts(items);
            assert forall|i: int| 0 <= i < items.len() implies #[trigger] sanitized(items[i]) == items[i] by {
                assert(legacy_free(items[i]));
                lemma_sanitized_fixed(items[i]);
            }
            assert(sanitized_items(items) =~= items);
        },
        JsonV::Object(es) => {
            lemma_entries_facts(es);
            assert forall|i: int| 0 <= i < es.len() implies #[trigger] sanitized(es[i].1) == es[i].1 by {
                assert(legacy_free(es[i].1));
                lemma_sanitized_fixed(es[i].1);
            }
            assert(sanitized_entries(es) =~= es);
        },
        _ => {},
    }
}

/// After the rewrite no object, at any depth, holds the legacy workspace key, and each
/// object still holds each key once.
pub proof fn law_sanitized_has_no_legacy_key(j: JsonV)
    requires
        keys_unique(j),
    ensures
        legacy_free(sanitized(j)),
        keys_unique(sanitized(j)),
{
    lemma_sanitized_clean(j);
}

/// A document without the legacy key is left as it is.
pub proof fn law_current_documents_are_unchanged(j: JsonV)
    requires
        legacy_free(j),
    ensures
        sanitized(j) == j,
{
    lemma_sanitized_fixed(j);
}

/// Rewriting twice gives what rewriting once gives.
pub proof fn law_sanitize_is_idempotent(j: JsonV)
    requires
        keys_unique(j),
    ensures
        sanitized(sanitized(j)) == sanitized(j),
{
    lemma_sanitized_clean(j);
    lemma_sanitized_fixed(sanitized(j));
}

} // verus!
