//! Compact JSON text, as `serde_json` writes it.
//!
//! A [`Json`] tree is first given escaped string literals ([`escape_json`]), each
//! string written by `serde_json`; the escaped tree is then laid out as text
//! ([`write_json`]) with no whitespace between tokens.

use vstd::prelude::*;

verus! {

/// The error that `serde_json` reports.
#[verifier::external_type_specification]
#[verifier::external_body]
pub struct ExJsonError(serde_json::Error);

/// A JSON value; an object keeps its fields in order.
pub enum Json {
    Null,
    Str(String),
    Array(Vec<Json>),
    Object(Vec<(String, Json)>),
}

/// The mathematical meaning of a [`Json`] value.
pub enum JsonModel {
    Null,
    Str(Seq<char>),
    Array(Seq<JsonModel>),
    Object(Seq<(Seq<char>, JsonModel)>),
}

impl Json {
    pub open spec fn model(self) -> JsonModel
        decreases self,
    {
        match self {
            Json::Null => JsonModel::Null,
            Json::Str(s) => JsonModel::Str(s@),
            Json::Array(items) => JsonModel::Array(json_items_model(items@)),
            Json::Object(fields) => JsonModel::Object(json_fields_model(fields@)),
        }
    }
}

/// The models of a sequence of values, in order.
pub open spec fn json_items_model(items: Seq<Json>) -> Seq<JsonModel>
    decreases items,
{
    if items.len() == 0 {
        Seq::empty()
    } else {
        json_items_model(items.drop_last()).push(items.last().model())
    }
}

/// The models of a sequence of object fields, in order.
pub open spec fn json_fields_model(fields: Seq<(String, Json)>) -> Seq<(Seq<char>, JsonModel)>
    decreases fields,
{
    if fields.len() == 0 {
        Seq::empty()
    } else {
        json_fields_model(fields.drop_last()).push((fields.last().0@, fields.last().1.model()))
    }
}

/// The JSON string literal, quotes and escapes included, that `serde_json` writes for `s`.
pub uninterp spec fn json_string_literal(s: Seq<char>) -> Seq<char>;

/// `m` with every string and every key replaced by its JSON string literal.
pub open spec fn escape_model(m: JsonModel) -> JsonModel
    decreases m,
{
    match m {
        JsonModel::Null => JsonModel::Null,
        JsonModel::Str(s) => JsonModel::Str(json_string_literal(s)),
        JsonModel::Array(items) => JsonModel::Array(escape_items(items)),
        JsonModel::Object(fields) => JsonModel::Object(escape_fields(fields)),
    }
}

pub open spec fn escape_items(items: Seq<JsonModel>) -> Seq<JsonModel>
    decreases items,
{
    if items.len() == 0 {
        Seq::empty()
    } else {
        escape_items(items.drop_last()).push(escape_model(items.last()))
    }
}

pub open spec fn escape_fields(fields: Seq<(Seq<char>, JsonModel)>) -> Seq<(Seq<char>, JsonModel)>
    decreases fields,
{
    if fields.len() == 0 {
        Seq::empty()
    } else {
        escape_fields(fields.drop_last()).push(
            (json_string_literal(fields.last().0), escape_model(fields.last().1)),
        )
    }
}

/// The compact text of `m`, whose strings and keys already are literals: `null`,
/// a string as it stands, `[` items `,`-separated `]`, `{` `key:value` pairs
/// `,`-separated `}`.
pub open spec fn render_model(m: JsonModel) -> Seq<char>
    decreases m,
{
    match m {
        JsonModel::Null => seq!['n', 'u', 'l', 'l'],
        JsonModel::Str(s) => s,
        JsonModel::Array(items) => seq!['['] + render_items(items) + seq![']'],
        JsonModel::Object(fields) => seq!['{'] + render_fields(fields) + seq!['}'],
    }
}

pub open spec fn render_items(items: Seq<JsonModel>) -> Seq<char>
    decreases items,
{
    if items.len() == 0 {
        Seq::empty()
    } else if items.len() == 1 {
        render_model(items[0])
    } else {
        render_items(items.drop_last()) + seq![','] + render_model(items.last())
    }
}

pub open spec fn render_fields(fields: Seq<(Seq<char>, JsonModel)>) -> Seq<char>
    decreases fields,
{
    if fields.len() == 0 {
        Seq::empty()
    } else if fields.len() == 1 {
        fields[0].0 + seq![':'] + render_model(fields[0].1)
    } else {
        render_fields(fields.drop_last()) + seq![','] + fields.last().0 + seq![':'] + render_model(
            fields.last().1,
        )
    }
}

/// The text `serde_json` writes for a whole JSON value with these strings.
pub open spec fn json_text(m: JsonModel) -> Seq<char> {
    render_model(escape_model(m))
}

/// `serde_json::to_string` on a string: its JSON string literal. serde_json writes the
/// literal into a `Vec<u8>`, whose writes do not fail, so the call always succeeds.
#[verifier::external_body]
fn string_literal(s: &str) -> (r: Result<String, serde_json::Error>)
    ensures
        r is Ok,
        r matches Ok(lit) ==> lit@ == json_string_literal(s@),
{
    serde_json::to_string(s)
}

/// The JSON string literal of `s`.
fn literal(s: &str) -> (r: String)
    ensures
        r@ == json_string_literal(s@),
{
    match string_literal(s) {
        Ok(lit) => lit,
        Err(_) => unreached(),
    }
}

/// `j` with every string and key replaced by its JSON string literal.
pub fn escape_json(j: &Json) -> (e: Json)
    ensures
        e.model() == escape_model(j.model()),
    decreases j,
{
    match j {
        Json::Null => Json::Null,
        Json::Str(s) => Json::Str(literal(s.as_str())),
        Json::Array(items) => {
            let mut out: Vec<Json> = Vec::new();
            let n = items.len();
            for i in 0..n
                invariant
                    n == items@.len(),
                    *j == Json::Array(*items),
                    out@.len() == i,
                    json_items_model(out@) == escape_items(json_items_model(items@.take(i as int))),
            {
                proof {
                    assert(decreases_to!(j => j->Array_0));
                    assert(decreases_to!(j->Array_0 => j->Array_0@));
                    assert(decreases_to!(items@ => items@[i as int]));
                    lemma_items_take_step(items@, i as int);
                }
                let ghost prev = out@;
                let ghost step = json_items_model(items@.take(i + 1));
                assert(step.drop_last() =~= json_items_model(items@.take(i as int)));
                out.push(escape_json(&items[i]));
                assert(out@.drop_last() =~= prev);
            }
            assert(items@.take(n as int) =~= items@);
            Json::Array(out)
        },
        Json::Object(fields) => {
            let mut out: Vec<(String, Json)> = Vec::new();
            let n = fields.len();
            for i in 0..n
                invariant
                    n == fields@.len(),
                    *j == Json::Object(*fields),
                    out@.len() == i,
                    json_fields_model(out@) == escape_fields(
                        json_fields_model(fields@.take(i as int)),
                    ),
            {
                proof {
                    assert(decreases_to!(j => j->Object_0));
                    assert(decreases_to!(j->Object_0 => j->Object_0@));
                    assert(decreases_to!(fields@ => fields@[i as int]));
                    lemma_fields_take_step(fields@, i as int);
                }
                let ghost prev = out@;
                let ghost step = json_fields_model(fields@.take(i + 1));
                assert(step.drop_last() =~= json_fields_model(fields@.take(i as int)));
                let key = literal(fields[i].0.as_str());
                let value = escape_json(&fields[i].1);
                out.push((key, value));
                assert(out@.drop_last() =~= prev);
            }
            assert(fields@.take(n as int) =~= fields@);
            Json::Object(out)
        },
    }
}

proof fn lemma_items_take_step(items: Seq<Json>, i: int)
    requires
        0 <= i < items.len(),
    ensures
        json_items_model(items.take(i + 1)) == json_items_model(items.take(i)).push(
            items[i].model(),
        ),
{
    assert(items.take(i + 1).drop_last() =~= items.take(i));
}

proof fn lemma_fields_take_step(fields: Seq<(String, Json)>, i: int)
    requires
        0 <= i < fields.len(),
    ensures
        json_fields_model(fields.take(i + 1)) == json_fields_model(fields.take(i)).push(
            (fields[i].0@, fields[i].1.model()),
        ),
{
    assert(fields.take(i + 1).drop_last() =~= fields.take(i));
}

/// Appends the compact text of `j`, whose strings and keys already are literals, to `out`.
pub fn write_json(j: &Json, out: &mut String)
    ensures
        final(out)@ == old(out)@ + render_model(j.model()),
    decreases j,
{
    proof {
        reveal_strlit("null");
        reveal_strlit("[");
        reveal_strlit("]");
        reveal_strlit("{");
        reveal_strlit("}");
        reveal_strlit(",");
        reveal_strlit(":");
    }
    match j {
        Json::Null => {
            out.append("null");
        },
        Json::Str(s) => {
            out.append(s.as_str());
        },
        Json::Array(items) => {
            let ghost start = out@;
            out.append("[");
            let n = items.len();
            for i in 0..n
                invariant
                    n == items@.len(),
                    *j == Json::Array(*items),
                    out@ == start + seq!['['] + render_items(json_items_model(items@.take(i as int))),
            {
                proof {
                    assert(decreases_to!(j => j->Array_0));
                    assert(decreases_to!(j->Array_0 => j->Array_0@));
                    assert(decreases_to!(items@ => items@[i as int]));
                    lemma_items_take_step(items@, i as int);
                    reveal_strlit(",");
                }
                if i > 0 {
                    out.append(",");
                }
                write_json(&items[i], out);
                proof {
                    let s = json_items_model(items@.take(i + 1));
                    assert(s.drop_last() =~= json_items_model(items@.take(i as int)));
                }
            }
            assert(items@.take(n as int) =~= items@);
            out.append("]");
        },
        Json::Object(fields) => {
            let ghost start = out@;
            out.append("{");
            let n = fields.len();
            for i in 0..n
                invariant
                    n == fields@.len(),
                    *j == Json::Object(*fields),
                    out@ == start + seq!['{'] + render_fields(
                        json_fields_model(fields@.take(i as int)),
                    ),
            {
                proof {
                    assert(decreases_to!(j => j->Object_0));
                    assert(decreases_to!(j->Object_0 => j->Object_0@));
                    assert(decreases_to!(fields@ => fields@[i as int]));
                    lemma_fields_take_step(fields@, i as int);
                    reveal_strlit(",");
                    reveal_strlit(":");
                }
                if i > 0 {
                    out.append(",");
                }
                out.append(fields[i].0.as_str());
                out.append(":");
                write_json(&fields[i].1, out);
                proof {
                    let s = json_fields_model(fields@.take(i + 1));
                    assert(s.drop_last() =~= json_fields_model(fields@.take(i as int)));
                }
            }
            assert(fields@.take(n as int) =~= fields@);
            out.append("}");
        },
    }
}

/// The compact JSON text of `j`, every string written by `serde_json`.
pub fn to_json_string(j: &Json) -> (r: String)
    ensures
        r@ == json_text(j.model()),
{
    let escaped = escape_json(j);
    let mut out = String::new();
    write_json(&escaped, &mut out);
    out
}

} // verus!
