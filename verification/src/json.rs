//! The library's own model of a JSON document: what the engine reads
//! out of a search response and writes into a request body. Object
//! members keep their order; numbers beyond the signed 64-bit range
//! keep their verbatim rendering.

use vstd::prelude::*;
use crate::text::str_eq;
use crate::text::quoted;
use crate::text::int_digits;
use crate::text::append_i64;
use crate::text::append_escaped;
use vstd::string::StringExecFns;

verus! {

/// A JSON value as the engine sees it. A number that fits a signed
/// 64-bit integer is held as one; any other number is held as `Num`,
/// its own decimal rendering kept verbatim, so that a sort key of
/// that shape can be echoed back unchanged.
#[derive(Debug)]
pub enum Json {
    Null,
    Bool(bool),
    Int(i64),
    Num(String),
    Str(String),
    Arr(Vec<Json>),
    Obj(Vec<(String, Json)>),
}

/// The backend-provided sort key of a record: an opaque JSON value,
/// carried forward verbatim into the next request. Its internal shape
/// is never interpreted; it is only rendered back and compared for
/// equality.
pub type Cursor = Json;

/// The first member of `fields` named `key`, if any.
pub open spec fn spec_obj_get(fields: Seq<(String, Json)>, key: Seq<char>) -> Option<Json>
    decreases fields.len(),
{
    if fields.len() == 0 {
        None
    } else if fields[0].0@ == key {
        Some(fields[0].1)
    } else {
        spec_obj_get(fields.skip(1), key)
    }
}

/// Member lookup on a value: `None` on anything but an object.
pub open spec fn spec_get(j: Json, key: Seq<char>) -> Option<Json> {
    match j {
        Json::Obj(fields) => spec_obj_get(fields@, key),
        _ => None,
    }
}

/// The character content of a value, if it is a string.
pub open spec fn spec_as_str(j: Json) -> Option<Seq<char>> {
    match j {
        Json::Str(s) => Some(s@),
        _ => None,
    }
}

/// The exact rendering of a value as JSON text. `Num` values render
/// as the verbatim text they carry.
pub open spec fn json_text(j: Json) -> Seq<char>
    decreases j, 1int, 0int,
{
    match j {
        Json::Null => "null"@,
        Json::Bool(b) => if b {
            "true"@
        } else {
            "false"@
        },
        Json::Int(i) => int_digits(i as int),
        Json::Num(t) => t@,
        Json::Str(s) => quoted(s@),
        Json::Arr(items) => "["@ + arr_text(items@, items@.len() as int) + "]"@,
        Json::Obj(fields) => "{"@ + obj_text(fields@, fields@.len() as int) + "}"@,
    }
}

/// The first `n` elements rendered and joined with commas.
pub open spec fn arr_text(items: Seq<Json>, n: int) -> Seq<char>
    decreases items, 0int, n when n <= items.len()
{
    if n <= 0 {
        Seq::empty()
    } else if n == 1 {
        json_text(items[0])
    } else {
        arr_text(items, n - 1) + ","@ + json_text(items[n - 1])
    }
}

/// The first `n` members rendered as `"key":value` and joined with
/// commas.
pub open spec fn obj_text(fields: Seq<(String, Json)>, n: int) -> Seq<char>
    decreases fields, 0int, n when n <= fields.len()
{
    if n <= 0 {
        Seq::empty()
    } else if n == 1 {
        quoted(fields[0].0@) + ":"@ + json_text(fields[0].1)
    } else {
        obj_text(fields, n - 1) + ","@ + quoted(fields[n - 1].0@) + ":"@ + json_text(
            fields[n - 1].1,
        )
    }
}

/// The rendering of a prefix depends only on the renderings of its
/// elements.
proof fn lemma_arr_text_congruent(a: Seq<Json>, b: Seq<Json>, n: int)
    requires
        0 <= n <= a.len(),
        n <= b.len(),
        forall|k: int| 0 <= k < n ==> #[trigger] json_text(a[k]) == json_text(b[k]),
    ensures
        arr_text(a, n) == arr_text(b, n),
    decreases n,
{
    if n > 1 {
        lemma_arr_text_congruent(a, b, n - 1);
        assert(arr_text(a, n) == arr_text(a, n - 1) + ","@ + json_text(a[n - 1]));
        assert(arr_text(b, n) == arr_text(b, n - 1) + ","@ + json_text(b[n - 1]));
    } else if n == 1 {
        assert(arr_text(a, 1) == json_text(a[0]));
        assert(arr_text(b, 1) == json_text(b[0]));
    }
}

/// The rendering of a member prefix depends only on the keys and the
/// renderings of the values.
proof fn lemma_obj_text_congruent(a: Seq<(String, Json)>, b: Seq<(String, Json)>, n: int)
    requires
        0 <= n <= a.len(),
        n <= b.len(),
        forall|k: int|
            0 <= k < n ==> (#[trigger] a[k].0@) == b[k].0@ && json_text(a[k].1) == json_text(
                b[k].1,
            ),
    ensures
        obj_text(a, n) == obj_text(b, n),
    decreases n,
{
    if n > 1 {
        lemma_obj_text_congruent(a, b, n - 1);
        assert(obj_text(a, n) == obj_text(a, n - 1) + ","@ + quoted(a[n - 1].0@) + ":"@
            + json_text(a[n - 1].1));
        assert(obj_text(b, n) == obj_text(b, n - 1) + ","@ + quoted(b[n - 1].0@) + ":"@
            + json_text(b[n - 1].1));
    } else if n == 1 {
        assert(obj_text(a, 1) == quoted(a[0].0@) + ":"@ + json_text(a[0].1));
        assert(obj_text(b, 1) == quoted(b[0].0@) + ":"@ + json_text(b[0].1));
    }
}

impl Json {
    /// Looks a member up by name; `None` on a non-object or a missing key.
    #[verifier::loop_isolation(false)]
    pub fn get<'a>(&'a self, key: &str) -> (r: Option<&'a Json>)
        ensures
            match r {
                Some(v) => spec_get(*self, key@) == Some(*v),
                None => spec_get(*self, key@) is None,
            },
    {
        match self {
            Json::Obj(fields) => {
                let n = fields.len();
                proof {
                    assert(fields@.skip(0) =~= fields@);
                }
                let mut i: usize = 0;
                while i < n
                    invariant
                        i <= n,
                        n == fields@.len(),
                        spec_obj_get(fields@, key@) == spec_obj_get(fields@.skip(i as int), key@),
                    decreases n - i,
                {
                    let pair = &fields[i];
                    if str_eq(pair.0.as_str(), key) {
                        proof {
                            assert(fields@.skip(i as int)[0] == fields@[i as int]);
                            assert(spec_obj_get(fields@.skip(i as int), key@)
                                == Some(fields@[i as int].1));
                            assert(spec_get(*self, key@) == spec_obj_get(fields@, key@));
                        }
                        return Some(&fields[i].1);
                    }
                    proof {
                        assert(fields@.skip(i as int)[0] == fields@[i as int]);
                        assert(fields@.skip(i as int).skip(1) =~= fields@.skip(i + 1));
                    }
                    i = i + 1;
                }
                proof {
                    assert(fields@.skip(n as int) =~= Seq::<(String, Json)>::empty());
                }
                None
            },
            _ => None,
        }
    }

    /// The string content of this value, cloned out; `None` on a
    /// non-string.
    pub fn str_value(&self) -> (r: Option<String>)
        ensures
            match r {
                Some(s) => spec_as_str(*self) == Some(s@),
                None => spec_as_str(*self) is None,
            },
    {
        match self {
            Json::Str(s) => Some(s.clone()),
            _ => None,
        }
    }
}

/// Appends the exact JSON rendering of `j` to `out`.
#[verifier::loop_isolation(false)]
#[verifier::rlimit(80)]
pub fn append_json(out: &mut String, j: &Json)
    ensures
        final(out)@ == old(out)@ + json_text(*j),
    decreases *j,
{
    match j {
        Json::Null => out.append("null"),
        Json::Bool(b) => {
            if *b {
                out.append("true")
            } else {
                out.append("false")
            }
        },
        Json::Int(v) => append_i64(out, *v),
        Json::Num(t) => out.append(t.as_str()),
        Json::Str(s) => {
            let ghost pre = out@;
            out.append("\"");
            append_escaped(out, s.as_str());
            out.append("\"");
            proof {
                assert(out@ =~= pre + quoted(s@));
            }
        },
        Json::Arr(items) => {
            let ghost pre = out@;
            out.append("[");
            let n = items.len();
            let mut i: usize = 0;
            while i < n
                invariant
                    i <= n,
                    n == items@.len(),
                    out@ =~= pre + "["@ + arr_text(items@, i as int),
                decreases n - i,
            {
                if i > 0 {
                    out.append(",");
                }
                proof {
                    assert(decreases_to!(*j => *items));
                    assert(decreases_to!(*items => items@));
                    assert(decreases_to!(items@ => items@[i as int]));
                }
                append_json(out, &items[i]);
                i = i + 1;
            }
            out.append("]");
            proof {
                assert(out@ =~= pre + json_text(*j));
            }
        },
        Json::Obj(fields) => {
            let ghost pre = out@;
            out.append("{");
            let n = fields.len();
            let mut i: usize = 0;
            while i < n
                invariant
                    i <= n,
                    n == fields@.len(),
                    out@ =~= pre + "{"@ + obj_text(fields@, i as int),
                decreases n - i,
            {
                if i > 0 {
                    out.append(",");
                }
                let ghost mid = out@;
                out.append("\"");
                append_escaped(out, fields[i].0.as_str());
                out.append("\"");
                out.append(":");
                proof {
                    assert(out@ =~= mid + quoted(fields@[i as int].0@) + ":"@);
                    assert(decreases_to!(*j => *fields));
                    assert(decreases_to!(*fields => fields@));
                    assert(decreases_to!(fields@ => fields@[i as int]));
                    assert(decreases_to!(fields@[i as int] => fields@[i as int].1));
                }
                append_json(out, &fields[i].1);
                i = i + 1;
            }
            out.append("}");
            proof {
                assert(out@ =~= pre + json_text(*j));
            }
        },
    }
}

/// A copy of `j` that renders to the same JSON text.
#[verifier::loop_isolation(false)]
pub fn json_dup(j: &Json) -> (r: Json)
    ensures
        json_text(r) == json_text(*j),
    decreases *j,
{
    match j {
        Json::Null => Json::Null,
        Json::Bool(b) => Json::Bool(*b),
        Json::Int(v) => Json::Int(*v),
        Json::Num(t) => Json::Num(t.clone()),
        Json::Str(s) => Json::Str(s.clone()),
        Json::Arr(items) => {
            let n = items.len();
            let mut out: Vec<Json> = Vec::new();
            let mut i: usize = 0;
            while i < n
                invariant
                    i <= n,
                    n == items@.len(),
                    out@.len() == i,
                    forall|k: int|
                        0 <= k < i ==> #[trigger] json_text(out@[k]) == json_text(items@[k]),
                decreases n - i,
            {
                proof {
                    assert(decreases_to!(*j => *items));
                    assert(decreases_to!(*items => items@));
                    assert(decreases_to!(items@ => items@[i as int]));
                }
                let e = json_dup(&items[i]);
                out.push(e);
                i = i + 1;
            }
            proof {
                lemma_arr_text_congruent(out@, items@, n as int);
            }
            Json::Arr(out)
        },
        Json::Obj(fields) => {
            let n = fields.len();
            let mut out: Vec<(String, Json)> = Vec::new();
            let mut i: usize = 0;
            while i < n
                invariant
                    i <= n,
                    n == fields@.len(),
                    out@.len() == i,
                    forall|k: int|
                        0 <= k < i ==> (#[trigger] out@[k].0@) == fields@[k].0@ && json_text(
                            out@[k].1,
                        ) == json_text(fields@[k].1),
                decreases n - i,
            {
                proof {
                    assert(decreases_to!(*j => *fields));
                    assert(decreases_to!(*fields => fields@));
                    assert(decreases_to!(fields@ => fields@[i as int]));
                    assert(decreases_to!(fields@[i as int] => fields@[i as int].1));
                }
                let k = fields[i].0.clone();
                let v = json_dup(&fields[i].1);
                out.push((k, v));
                proof {
                    assert(out@[i as int].0 == k);
                    assert(out@[i as int].1 == v);
                }
                i = i + 1;
            }
            proof {
                lemma_obj_text_congruent(out@, fields@, n as int);
            }
            Json::Obj(out)
        },
    }
}

} // verus!
