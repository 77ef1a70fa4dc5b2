//! JSON values as the configuration rewrite sees them, and serde_json's
//! reading and writing of them.
use vstd::prelude::*;
use crate::config::SCHEMA_URL;
use crate::text::str_eq;

verus! {

/// A JSON value. Numbers keep their text; an object keeps its entries in
/// the order they were read.
#[derive(Debug)]
pub enum JsonValue {
    Null,
    Bool(bool),
    Number(String),
    Str(String),
    Array(Vec<JsonValue>),
    Object(Vec<(String, JsonValue)>),
}

/// The mathematical model of a JSON value.
pub enum JsonV {
    Null,
    Bool(bool),
    Number(Seq<char>),
    Str(Seq<char>),
    Array(Seq<JsonV>),
    Object(Seq<(Seq<char>, JsonV)>),
}

/// The model of a JSON value.
pub open spec fn jv(v: JsonValue) -> JsonV
    decreases v,
{
    match v {
        JsonValue::Null => JsonV::Null,
        JsonValue::Bool(b) => JsonV::Bool(b),
        JsonValue::Number(n) => JsonV::Number(n@),
        JsonValue::Str(s) => JsonV::Str(s@),
        JsonValue::Array(xs) => JsonV::Array(jv_items(xs@)),
        JsonValue::Object(es) => JsonV::Object(jv_entries(es@)),
    }
}

/// The models of the items of an array.
pub open spec fn jv_items(xs: Seq<JsonValue>) -> Seq<JsonV>
    decreases xs,
{
    if xs.len() == 0 {
        Seq::empty()
    } else {
        seq![jv(xs[0])] + jv_items(xs.skip(1))
    }
}

/// The models of the entries of an object.
pub open spec fn jv_entries(es: Seq<(String, JsonValue)>) -> Seq<(Seq<char>, JsonV)>
    decreases es,
{
    if es.len() == 0 {
        Seq::empty()
    } else {
        seq![(es[0].0@, jv(es[0].1))] + jv_entries(es.skip(1))
    }
}

/// The model of a nonempty run of entries: that of its first, then those of
/// the rest.
pub proof fn lemma_entries_front(es: Seq<(String, JsonValue)>)
    requires
        es.len() > 0,
    ensures
        jv_entries(es).len() > 0,
        jv_entries(es)[0] == (es[0].0@, jv(es[0].1)),
        jv_entries(es).skip(1) == jv_entries(es.skip(1)),
        jv_entries(es) == seq![(es[0].0@, jv(es[0].1))] + jv_entries(es.skip(1)),
{
    let h = seq![(es[0].0@, jv(es[0].1))];
    assert((h + jv_entries(es.skip(1))).skip(1) =~= jv_entries(es.skip(1)));
}

/// The models of the entries of an object, one more at the end.
pub proof fn lemma_entries_push(es: Seq<(String, JsonValue)>, e: (String, JsonValue))
    ensures
        jv_entries(es.push(e)) == jv_entries(es) + seq![(e.0@, jv(e.1))],
    decreases es.len(),
{
    lemma_entries_front(es.push(e));
    if es.len() > 0 {
        assert(es.push(e).skip(1) =~= es.skip(1).push(e));
        lemma_entries_push(es.skip(1), e);
        lemma_entries_front(es);
        assert(jv_entries(es.push(e)) =~= jv_entries(es) + seq![(e.0@, jv(e.1))]);
    } else {
        assert(es.push(e).skip(1) =~= Seq::<(String, JsonValue)>::empty());
        assert(jv_entries(es.push(e).skip(1)) =~= Seq::<(Seq<char>, JsonV)>::empty());
        assert(jv_entries(es) =~= Seq::<(Seq<char>, JsonV)>::empty());
        assert(jv_entries(es.push(e)) =~= jv_entries(es) + seq![(e.0@, jv(e.1))]);
    }
}

/// The models of two runs of entries, one after the other.
pub proof fn lemma_entries_concat(a: Seq<(String, JsonValue)>, b: Seq<(String, JsonValue)>)
    ensures
        jv_entries(a + b) == jv_entries(a) + jv_entries(b),
    decreases a.len(),
{
    if a.len() > 0 {
        assert((a + b).skip(1) =~= a.skip(1) + b);
        lemma_entries_concat(a.skip(1), b);
        assert(jv_entries(a + b) =~= jv_entries(a) + jv_entries(b));
    } else {
        assert(a + b =~= b);
        assert(jv_entries(a) + jv_entries(b) =~= jv_entries(b));
    }
}

// ------------------------------------------------------------ editing objects

/// The entries without those whose key is `k`.
pub open spec fn without_key(es: Seq<(Seq<char>, JsonV)>, k: Seq<char>) -> Seq<(Seq<char>, JsonV)>
    decreases es.len(),
{
    if es.len() == 0 {
        es
    } else if es[0].0 == k {
        without_key(es.skip(1), k)
    } else {
        seq![es[0]] + without_key(es.skip(1), k)
    }
}

/// The entries with `k` set to `x`: the first entry with key `k` takes the
/// value where there is one, else the entry is added at the end.
pub open spec fn with_key(es: Seq<(Seq<char>, JsonV)>, k: Seq<char>, x: JsonV) -> Seq<(Seq<char>, JsonV)>
    decreases es.len(),
{
    if es.len() == 0 {
        seq![(k, x)]
    } else if es[0].0 == k {
        seq![(k, x)] + es.skip(1)
    } else {
        seq![es[0]] + with_key(es.skip(1), k, x)
    }
}

/// An entry after its `path` setting is taken out, when it is the `peas`
/// object.
pub open spec fn peas_entry_without_path(e: (Seq<char>, JsonV)) -> (Seq<char>, JsonV) {
    if e.0 == "peas"@ {
        match e.1 {
            JsonV::Object(ps) => (e.0, JsonV::Object(without_key(ps, "path"@))),
            _ => e,
        }
    } else {
        e
    }
}

/// The entries with the `path` setting taken out of the `peas` object.
pub open spec fn peas_without_path(es: Seq<(Seq<char>, JsonV)>) -> Seq<(Seq<char>, JsonV)>
    decreases es.len(),
{
    if es.len() == 0 {
        es
    } else {
        seq![peas_entry_without_path(es[0])] + peas_without_path(es.skip(1))
    }
}

/// A JSON configuration after migration: when it is an object, `$schema`
/// is set to the schema URL and `peas.path` is gone; any other value is
/// kept.
pub open spec fn json_migrated(v: JsonV, schema: Seq<char>) -> JsonV {
    match v {
        JsonV::Object(es) => JsonV::Object(with_key(peas_without_path(es), "$schema"@, JsonV::Str(schema))),
        _ => v,
    }
}

/// The entries without those whose key is `k`.
fn drop_key(es: Vec<(String, JsonValue)>, k: &str) -> (r: Vec<(String, JsonValue)>)
    ensures
        jv_entries(r@) == without_key(jv_entries(es@), k@),
{
    let ghost target = without_key(jv_entries(es@), k@);
    let mut rest = es;
    let mut out: Vec<(String, JsonValue)> = Vec::new();
    assert(jv_entries(out@) + without_key(jv_entries(rest@), k@) =~= target);
    while rest.len() > 0
        invariant
            jv_entries(out@) + without_key(jv_entries(rest@), k@) == target,
        decreases rest.len(),
    {
        let ghost before = rest@;
        let ghost o = out@;
        let e = rest.remove(0);
        assert(rest@ =~= before.skip(1));
        proof {
            lemma_entries_front(before);
        }
        if !str_eq(e.0.as_str(), k) {
            proof {
                lemma_entries_push(o, e);
            }
            out.push(e);
            assert(jv_entries(out@) + without_key(jv_entries(rest@), k@) =~= target);
        } else {
            assert(jv_entries(out@) + without_key(jv_entries(rest@), k@) =~= target);
        }
    }
    assert(without_key(jv_entries(rest@), k@) =~= Seq::<(Seq<char>, JsonV)>::empty());
    assert(jv_entries(out@) =~= target);
    out
}

/// The entries with `k` set to `x`.
fn set_key(es: Vec<(String, JsonValue)>, k: &str, x: JsonValue) -> (r: Vec<(String, JsonValue)>)
    ensures
        jv_entries(r@) == with_key(jv_entries(es@), k@, jv(x)),
{
    let ghost target = with_key(jv_entries(es@), k@, jv(x));
    let mut rest = es;
    let mut out: Vec<(String, JsonValue)> = Vec::new();
    assert(jv_entries(out@) + with_key(jv_entries(rest@), k@, jv(x)) =~= target);
    while rest.len() > 0
        invariant
            target == with_key(jv_entries(es@), k@, jv(x)),
            jv_entries(out@) + with_key(jv_entries(rest@), k@, jv(x)) == target,
        decreases rest.len(),
    {
        let ghost before = rest@;
        let ghost o = out@;
        let e = rest.remove(0);
        assert(rest@ =~= before.skip(1));
        proof {
            lemma_entries_front(before);
        }
        if str_eq(e.0.as_str(), k) {
            let entry = (e.0, x);
            proof {
                lemma_entries_push(o, entry);
            }
            out.push(entry);
            let ghost o2 = out@;
            let ghost tail = rest@;
            out.append(&mut rest);
            proof {
                lemma_entries_concat(o2, tail);
                assert(jv_entries(out@) =~= target);
            }
            return out;
        }
        proof {
            lemma_entries_push(o, e);
        }
        out.push(e);
        assert(jv_entries(out@) + with_key(jv_entries(rest@), k@, jv(x)) =~= target);
    }
    let ghost o = out@;
    let entry = (k.to_owned(), x);
    proof {
        lemma_entries_push(o, entry);
    }
    out.push(entry);
    assert(jv_entries(out@) =~= target);
    out
}

/// The entries with the `path` setting taken out of the `peas` object.
fn drop_peas_path(es: Vec<(String, JsonValue)>) -> (r: Vec<(String, JsonValue)>)
    ensures
        jv_entries(r@) == peas_without_path(jv_entries(es@)),
{
    let ghost target = peas_without_path(jv_entries(es@));
    let mut rest = es;
    let mut out: Vec<(String, JsonValue)> = Vec::new();
    assert(jv_entries(out@) + peas_without_path(jv_entries(rest@)) =~= target);
    while rest.len() > 0
        invariant
            jv_entries(out@) + peas_without_path(jv_entries(rest@)) == target,
        decreases rest.len(),
    {
        let ghost before = rest@;
        let ghost o = out@;
        let e = rest.remove(0);
        assert(rest@ =~= before.skip(1));
        proof {
            lemma_entries_front(before);
        }
        let ghost want = peas_entry_without_path((e.0@, jv(e.1)));
        let (key, value) = e;
        let entry = if str_eq(key.as_str(), "peas") {
            match value {
                JsonValue::Object(ps) => (key, JsonValue::Object(drop_key(ps, "path"))),
                other => (key, other),
            }
        } else {
            (key, value)
        };
        assert((entry.0@, jv(entry.1)) == want);
        proof {
            lemma_entries_push(o, entry);
        }
        out.push(entry);
        assert(jv_entries(out@) + peas_without_path(jv_entries(rest@)) =~= target);
    }
    assert(peas_without_path(jv_entries(rest@)) =~= Seq::<(Seq<char>, JsonV)>::empty());
    assert(jv_entries(out@) =~= target);
    out
}

/// Migrates a JSON configuration: an object gets `$schema` set to
/// `schema_url` and loses `peas.path`; any other value is kept.
pub fn migrate_json(v: JsonValue, schema_url: &str) -> (r: JsonValue)
    ensures
        jv(r) == json_migrated(jv(v), schema_url@),
{
    match v {
        JsonValue::Object(es) => {
            let cleaned = drop_peas_path(es);
            JsonValue::Object(set_key(cleaned, "$schema", JsonValue::Str(schema_url.to_owned())))
        },
        other => other,
    }
}

// ------------------------------------------------------------ serde_json

#[verifier::external_type_specification]
#[verifier::external_body]
pub struct ExSerdeJsonValue(serde_json::Value);

/// What serde_json reads from a text: the value, or the text of its error.
pub uninterp spec fn spec_json_parse(s: Seq<char>) -> Result<JsonV, Seq<char>>;

/// The text `serde_json::to_string_pretty` writes for a value.
pub uninterp spec fn spec_json_pretty(v: JsonV) -> Seq<char>;

/// serde_json's value as a `JsonValue`: an object's entries in the order
/// serde_json's map gives them, a number by its text.
#[verifier::external_body]
fn value_to_json(v: serde_json::Value) -> JsonValue {
    match v {
        serde_json::Value::Null => JsonValue::Null,
        serde_json::Value::Bool(b) => JsonValue::Bool(b),
        serde_json::Value::Number(n) => JsonValue::Number(n.to_string()),
        serde_json::Value::String(s) => JsonValue::Str(s),
        serde_json::Value::Array(xs) => JsonValue::Array(xs.into_iter().map(value_to_json).collect()),
        serde_json::Value::Object(m) => JsonValue::Object(m.into_iter().map(|(k, x)| (k, value_to_json(x))).collect()),
    }
}

/// A `JsonValue` as serde_json's value; a later entry with the same key
/// replaces an earlier one, and a number whose text serde_json does not
/// read as a number becomes `null`.
#[verifier::external_body]
fn json_to_value(v: JsonValue) -> serde_json::Value {
    match v {
        JsonValue::Null => serde_json::Value::Null,
        JsonValue::Bool(b) => serde_json::Value::Bool(b),
        JsonValue::Number(n) => n.parse::<serde_json::Number>().map(serde_json::Value::Number).unwrap_or(serde_json::Value::Null),
        JsonValue::Str(s) => serde_json::Value::String(s),
        JsonValue::Array(xs) => serde_json::Value::Array(xs.into_iter().map(json_to_value).collect()),
        JsonValue::Object(es) => serde_json::Value::Object(es.into_iter().map(|(k, x)| (k, json_to_value(x))).collect()),
    }
}

/// `serde_json::from_str::<Value>`. Trusted: the value read, or the text of
/// serde_json's error, is named by `spec_json_parse`, a function of the
/// text alone (serde_json's map keeps its keys sorted).
#[verifier::external_body]
fn json_parse(content: &str) -> (r: Result<JsonValue, String>)
    ensures
        match r {
            Ok(v) => spec_json_parse(content@) == Ok::<JsonV, Seq<char>>(jv(v)),
            Err(m) => spec_json_parse(content@) == Err::<JsonV, Seq<char>>(m@),
        },
{
    match serde_json::from_str::<serde_json::Value>(content) {
        Ok(v) => Ok(value_to_json(v)),
        Err(e) => Err(e.to_string()),
    }
}

/// `serde_json::to_string_pretty` of the value. Trusted: it succeeds (it
/// fails only for a `Serialize` impl that fails or a map with keys that are
/// not strings, and a `Value` has neither), and the text is named by
/// `spec_json_pretty`.
#[verifier::external_body]
fn json_pretty(v: JsonValue) -> (r: Result<String, String>)
    ensures
        r is Ok,
        r matches Ok(t) ==> t@ == spec_json_pretty(jv(v)),
{
    serde_json::to_string_pretty(&json_to_value(v)).map_err(|e| e.to_string())
}

/// Migrates the text of a JSON configuration: read it, set `$schema` to
/// the schema URL and drop `peas.path`, and write it pretty-printed. A
/// text that is not JSON gives serde_json's error; any other text is
/// migrated.
pub fn migrate_json_config(content: &str) -> (r: Result<String, String>)
    ensures
        match spec_json_parse(content@) {
            Err(m) => r matches Err(e) && e@ == m,
            Ok(v) => r matches Ok(t) && t@ == spec_json_pretty(json_migrated(v, SCHEMA_URL@)),
        },
{
    match json_parse(content) {
        Ok(v) => json_pretty(migrate_json(v, SCHEMA_URL)),
        Err(m) => Err(m),
    }
}

} // verus!
