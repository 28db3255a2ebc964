//! The text edge of the decoder: JSON text is parsed by serde_json into
//! its value tree, which is then rebuilt as the library's own document
//! tree. The parse is a pure function of the text, so its result is named
//! (`parsed_json_of`, through `value_tree` for a parsed value and
//! `map_entries` for a parsed object's entries), the wrappers around
//! serde_json state what each call yields over those names, and
//! everything after the parse is verified against the schema.

use vstd::prelude::*;

use crate::json::{
    entries_depth, entries_view, items_depth, items_view, jdepth, lemma_entries_depth_bound,
    lemma_entries_depth_index, lemma_entries_view, lemma_items_depth_bound, lemma_items_depth_index,
    lemma_items_view, Json, JsonV,
};
use crate::request::{DecodeError, Request};

verus! {

#[verifier::external_type_specification]
#[verifier::external_body]
pub struct ExValue(serde_json::Value);

#[verifier::external_type_specification]
#[verifier::external_body]
pub struct ExError(serde_json::Error);

#[verifier::external_type_specification]
#[verifier::external_body]
#[verifier::reject_recursive_types(K)]
#[verifier::reject_recursive_types(V)]
pub struct ExMap<K, V>(serde_json::Map<K, V>);

/// The document tree a parsed value denotes: null, booleans, strings,
/// arrays and objects map to their own variants, a number representable
/// as an unsigned 64-bit integer to `Num`, and any other number to
/// `OtherNum`.
pub uninterp spec fn value_tree(v: serde_json::Value) -> JsonV;

/// The entries of a parsed object, each key beside its value, in the
/// map's own entry order.
pub uninterp spec fn map_entries(m: serde_json::Map<String, serde_json::Value>) -> Seq<
    (Seq<char>, serde_json::Value),
>;

/// What parsing a text yields: `None` when the text is not well-formed
/// JSON, and otherwise the tree of the parsed value.
pub uninterp spec fn parsed_json_of(s: Seq<char>) -> Option<JsonV>;

/// The trees of a sequence of parsed values.
pub open spec fn value_trees(s: Seq<serde_json::Value>) -> Seq<JsonV> {
    s.map_values(|v: serde_json::Value| value_tree(v))
}

/// The trees of a parsed object's entries.
pub open spec fn entry_trees(s: Seq<(Seq<char>, serde_json::Value)>) -> Seq<(Seq<char>, JsonV)> {
    s.map_values(|e: (Seq<char>, serde_json::Value)| (e.0, value_tree(e.1)))
}

/// Relies on serde_json::from_str::<Value>: parses JSON text into a value
/// tree, or reports a syntax error; the outcome is a function of the text
/// alone.
#[verifier::external_body]
fn parse_value(s: &str) -> (r: Result<serde_json::Value, serde_json::Error>)
    ensures
        match r {
            Ok(v) => parsed_json_of(s@) == Some(value_tree(v)),
            Err(_) => parsed_json_of(s@) is None,
        },
{
    serde_json::from_str(s)
}

/// Relies on serde_json::Value::is_null.
#[verifier::external_body]
fn value_is_null(v: &serde_json::Value) -> (r: bool)
    ensures
        r == (value_tree(*v) is Null),
{
    v.is_null()
}

/// Relies on serde_json::Value::as_bool: the boolean payload exactly when
/// this is a boolean.
#[verifier::external_body]
fn value_as_bool(v: &serde_json::Value) -> (r: Option<bool>)
    ensures
        match r {
            Some(b) => value_tree(*v) == JsonV::Bool(b),
            None => !(value_tree(*v) is Bool),
        },
{
    v.as_bool()
}

/// Relies on serde_json::Value::as_str: the string payload exactly when
/// this is a string.
#[verifier::external_body]
fn value_as_str<'a>(v: &'a serde_json::Value) -> (r: Option<&'a str>)
    ensures
        match r {
            Some(s) => value_tree(*v) == JsonV::Str(s@),
            None => !(value_tree(*v) is Str),
        },
{
    v.as_str()
}

/// Relies on serde_json::Value::as_u64: the numeric payload exactly when
/// this is a number representable as an unsigned 64-bit integer; any
/// other number denotes `OtherNum`, so it answers `None` for those too.
#[verifier::external_body]
fn value_as_u64(v: &serde_json::Value) -> (r: Option<u64>)
    ensures
        match r {
            Some(n) => value_tree(*v) == JsonV::Num(n as nat),
            None => !(value_tree(*v) is Num),
        },
{
    v.as_u64()
}

/// Relies on serde_json::Value::as_array: the items exactly when this is
/// an array.
#[verifier::external_body]
fn value_as_array<'a>(v: &'a serde_json::Value) -> (r: Option<&'a Vec<serde_json::Value>>)
    ensures
        match r {
            Some(xs) => value_tree(*v) == JsonV::Arr(value_trees(xs@)),
            None => !(value_tree(*v) is Arr),
        },
{
    v.as_array()
}

/// Relies on serde_json::Value::as_object: the entries exactly when this
/// is an object.
#[verifier::external_body]
fn value_as_object<'a>(v: &'a serde_json::Value) -> (r: Option<
    &'a serde_json::Map<String, serde_json::Value>,
>)
    ensures
        match r {
            Some(m) => value_tree(*v) == JsonV::Obj(entry_trees(map_entries(*m))),
            None => !(value_tree(*v) is Obj),
        },
{
    v.as_object()
}

/// Relies on serde_json::Map iteration: each key beside its value, both
/// cloned, in the map's own entry order.
#[verifier::external_body]
fn object_entries(m: &serde_json::Map<String, serde_json::Value>) -> (r: Vec<
    (String, serde_json::Value),
>)
    ensures
        r@.len() == map_entries(*m).len(),
        forall|i: int|
            0 <= i < r@.len() ==> (#[trigger] r@[i]).0@ == map_entries(*m)[i].0 && r@[i].1
                == map_entries(*m)[i].1,
{
    m.iter().map(|(k, v)| (k.clone(), v.clone())).collect()
}

/// Rebuilds the library's document tree from a parsed value: exactly the
/// tree the value denotes, succeeding exactly when that tree fits within
/// the given nesting depth.
#[verifier::rlimit(100)]
fn value_to_json(v: &serde_json::Value, depth: u64) -> (r: Option<Json>)
    ensures
        match r {
            Some(j) => j@ == value_tree(*v) && jdepth(value_tree(*v)) <= depth,
            None => jdepth(value_tree(*v)) > depth,
        },
    decreases depth,
{
    let ghost t = value_tree(*v);
    proof {
        assert(jdepth(t) >= 1);
    }
    if depth == 0 {
        return None;
    }
    if value_is_null(v) {
        return Some(Json::Null);
    }
    if let Some(b) = value_as_bool(v) {
        return Some(Json::Bool(b));
    }
    if let Some(s) = value_as_str(v) {
        return Some(Json::Str(s.to_owned()));
    }
    if let Some(xs) = value_as_array(v) {
        let ghost trees = value_trees(xs@);
        let mut items: Vec<Json> = Vec::new();
        let n = xs.len();
        for i in 0..n
            invariant
                depth >= 1,
                n == xs@.len(),
                t == value_tree(*v),
                t == JsonV::Arr(trees),
                trees == value_trees(xs@),
                items@.len() == i,
                forall|k: int|
                    0 <= k < i ==> (#[trigger] items@[k])@ == value_tree(xs@[k]) && jdepth(
                        value_tree(xs@[k]),
                    ) <= depth - 1,
        {
            proof {
                assert(trees.len() == xs@.len());
                assert(trees[i as int] == value_tree(xs@[i as int]));
            }
            match value_to_json(&xs[i], depth - 1) {
                Some(j) => {
                    items.push(j);
                },
                None => {
                    proof {
                        assert(jdepth(value_tree(xs@[i as int])) > depth - 1);
                        assert(trees[i as int] == value_tree(xs@[i as int]));
                        lemma_items_depth_index(trees, i as int);
                        assert(items_depth(trees) >= jdepth(trees[i as int]));
                        assert(items_depth(trees) > depth - 1);
                        assert(jdepth(t) == 1 + items_depth(trees));
                        assert(jdepth(value_tree(*v)) > depth);
                    }
                    return None;
                },
            }
        }
        proof {
            assert(trees.len() == xs@.len());
            assert forall|k: int| 0 <= k < trees.len() implies jdepth(#[trigger] trees[k]) <= depth
                - 1 by {
                assert(trees[k] == value_tree(xs@[k]));
                assert(items@[k]@ == value_tree(xs@[k]));
            }
            lemma_items_depth_bound(trees, (depth - 1) as nat);
            lemma_items_view(items@);
            assert forall|k: int| 0 <= k < items@.len() implies items_view(items@)[k] == trees[k] by {
                assert(items_view(items@)[k] == items@[k]@);
                assert(trees[k] == value_tree(xs@[k]));
            }
            assert(items_view(items@) =~= trees);
        }
        return Some(Json::Arr(items));
    }
    if let Some(m) = value_as_object(v) {
        let ghost mes = map_entries(*m);
        let ghost trees = entry_trees(mes);
        let entries = object_entries(m);
        let mut out: Vec<(String, Json)> = Vec::new();
        let n = entries.len();
        for i in 0..n
            invariant
                depth >= 1,
                n == entries@.len(),
                entries@.len() == mes.len(),
                forall|k: int|
                    0 <= k < entries@.len() ==> (#[trigger] entries@[k]).0@ == mes[k].0
                        && entries@[k].1 == mes[k].1,
                t == value_tree(*v),
                t == JsonV::Obj(trees),
                trees == entry_trees(mes),
                out@.len() == i,
                forall|k: int|
                    0 <= k < i ==> (#[trigger] out@[k]).0@ == trees[k].0 && out@[k].1@
                        == trees[k].1 && jdepth(trees[k].1) <= depth - 1,
        {
            proof {
                assert(trees.len() == mes.len());
                assert(trees[i as int] == (mes[i as int].0, value_tree(mes[i as int].1)));
            }
            match value_to_json(&entries[i].1, depth - 1) {
                Some(j) => {
                    let key = entries[i].0.clone();
                    out.push((key, j));
                    proof {
                        assert forall|k: int| 0 <= k < i + 1 implies (#[trigger] out@[k]).0@
                            == trees[k].0 && out@[k].1@ == trees[k].1 && jdepth(trees[k].1)
                            <= depth - 1 by {
                            if k == i as int {
                                assert(entries@[k].1 == mes[k].1);
                                assert(trees[k] == (mes[k].0, value_tree(mes[k].1)));
                            }
                        }
                    }
                },
                None => {
                    proof {
                        assert(jdepth(value_tree(entries@[i as int].1)) > depth - 1);
                        assert(entries@[i as int].1 == mes[i as int].1);
                        assert(trees[i as int].1 == value_tree(mes[i as int].1));
                        lemma_entries_depth_index(trees, i as int);
                        assert(entries_depth(trees) >= jdepth(trees[i as int].1));
                        assert(entries_depth(trees) > depth - 1);
                        assert(jdepth(t) == 1 + entries_depth(trees));
                        assert(jdepth(value_tree(*v)) > depth);
                    }
                    return None;
                },
            }
        }
        proof {
            assert(trees.len() == mes.len());
            assert forall|k: int| 0 <= k < trees.len() implies jdepth(
                (#[trigger] trees[k]).1,
            ) <= depth - 1 by {
                assert(out@[k].1@ == trees[k].1);
            }
            lemma_entries_depth_bound(trees, (depth - 1) as nat);
            lemma_entries_view(out@);
            assert(entries_view(out@) =~= trees);
        }
        return Some(Json::Obj(out));
    }
    if let Some(n) = value_as_u64(v) {
        return Some(Json::Num(n));
    }
    Some(Json::OtherNum)
}

impl Request {
    /// Decodes an inbound envelope from JSON text: the text must parse as
    /// JSON within the supported nesting depth, and the parsed tree must
    /// satisfy the schema exactly as `Request::from_json` states it.
    /// Text that does not parse, or parses deeper than the bound, is
    /// `Malformed`; a parsed tree that violates the schema is `Invalid`;
    /// no partial value survives a failure.
    pub fn decode(s: &str) -> (r: Result<Request, DecodeError>)
        ensures
            r matches Ok(x) ==> (parsed_json_of(s@) matches Some(jv) && jdepth(jv) <= 128
                && Request::can_decode(jv) && Request::decoded(jv, x)),
            (parsed_json_of(s@) matches Some(jv) && jdepth(jv) <= 128 && Request::can_decode(jv))
                ==> r is Ok,
            (r == Err::<Request, DecodeError>(DecodeError::Malformed)) <==> (parsed_json_of(s@)
                is None || jdepth(parsed_json_of(s@)->Some_0) > 128),
            (r == Err::<Request, DecodeError>(DecodeError::Invalid)) <==> (parsed_json_of(s@)
                matches Some(jv) && jdepth(jv) <= 128 && !Request::can_decode(jv)),
    {
        let v = match parse_value(s) {
            Ok(v) => v,
            Err(_) => {
                return Err(DecodeError::Malformed);
            },
        };
        let j = match value_to_json(&v, 128) {
            Some(j) => j,
            None => {
                return Err(DecodeError::Malformed);
            },
        };
        Request::from_json(&j)
    }
}

} // verus!
