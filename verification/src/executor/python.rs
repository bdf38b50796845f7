//! JSON handed to the interpreter as Python values.

use vstd::prelude::*;

use crate::executor::value::{collected, key_text, py_json, py_pairs, PyKey, PyValue};
use crate::json::{
    in_name_order, key_index, lemma_key_index, names, set_field_keeps_order, Json, JsonView,
};
use crate::text::{lex_is_total, lex_less};

verus! {

/// A Python value that the interpreter is handed. Which float is nearest to a number, and
/// how it is shown, is left to the interpreter.
#[derive(Debug, PartialEq, Eq)]
pub enum PyInput {
    /// `None`.
    Nil,
    Bool(bool),
    Int(i64),
    /// The float nearest to an integer beyond 64 bits with a sign.
    Wide(u64),
    /// The float that JSON writes like this.
    Float(String),
    Str(String),
    List(Vec<PyInput>),
    Dict(Vec<(String, PyInput)>),
}

/// Whether a Python value is what JSON is handed over as. A number that is no 64-bit
/// integer with a sign is a float.
pub open spec fn is_python(v: PyInput, j: JsonView) -> bool
    decreases j,
{
    match j {
        JsonView::Null => v is Nil,
        JsonView::Bool(b) => v == PyInput::Bool(b),
        JsonView::Uint(n) => if n <= i64::MAX {
            v == PyInput::Int(n as i64)
        } else {
            v == PyInput::Wide(n)
        },
        JsonView::Int(n) => v == PyInput::Int(n),
        JsonView::Float(s) => v matches PyInput::Float(t) && t@ == s,
        JsonView::Str(s) => v matches PyInput::Str(t) && t@ == s,
        JsonView::Array(a) => v matches PyInput::List(w) && w@.len() == a.len() && forall|i: int|
            0 <= i < a.len() ==> is_python(#[trigger] w@[i], a[i]),
        JsonView::Object(f) => v matches PyInput::Dict(w) && w@.len() == f.len() && forall|i: int|
            0 <= i < f.len() ==> (#[trigger] w@[i]).0@ == f[i].0 && is_python(w@[i].1, f[i].1),
    }
}

/// Whether a value of the interpreter is one that it was handed. Of a float that is
/// nearest to an integer nothing more is said.
pub open spec fn is_handed(v: PyValue, p: PyInput) -> bool
    decreases p,
{
    match p {
        PyInput::Nil => v is Nil,
        PyInput::Bool(b) => v == PyValue::Bool(b),
        PyInput::Int(n) => v == PyValue::Int(n),
        PyInput::Wide(_) => v is Float,
        PyInput::Float(s) => v matches PyValue::Float { display: _, json: Some(t) } && t@ == s@,
        PyInput::Str(s) => v matches PyValue::Str(t) && t@ == s@,
        PyInput::List(a) => v matches PyValue::List(w) && w@.len() == a@.len() && forall|i: int|
            0 <= i < a@.len() ==> is_handed(#[trigger] w@[i], a@[i]),
        PyInput::Dict(f) => v matches PyValue::Dict(w) && w@.len() == f@.len() && forall|i: int|
            0 <= i < f@.len() ==> key_is((#[trigger] w@[i]).0, f@[i].0@) && is_handed(
                w@[i].1,
                f@[i].1,
            ),
    }
}

/// Whether a key is this string.
pub open spec fn key_is(k: PyKey, s: Seq<char>) -> bool {
    k matches PyKey::Str(t) && t@ == s
}

fn list_to_python(v: &Vec<Json>) -> (r: Vec<PyInput>)
    ensures
        r@.len() == v@.len(),
        forall|i: int| 0 <= i < v@.len() ==> is_python(#[trigger] r@[i], v@[i]@),
    decreases *v,
{
    let mut out: Vec<PyInput> = Vec::new();
    let mut i: usize = 0;
    while i < v.len()
        invariant
            i <= v@.len(),
            out@.len() == i,
            forall|k: int| 0 <= k < i ==> is_python(#[trigger] out@[k], v@[k]@),
        decreases v@.len() - i,
    {
        assert(decreases_to!(*v => v@));
        assert(decreases_to!(v@ => v@[i as int]));
        let ghost before = out@;
        let x = json_to_monty(&v[i]);
        out.push(x);
        assert forall|k: int| 0 <= k < i + 1 implies is_python(#[trigger] out@[k], v@[k]@) by {
            if k < i {
                assert(out@[k] == before[k]);
                assert(is_python(before[k], v@[k]@));
            }
        }
        i = i + 1;
    }
    out
}

fn fields_to_python(v: &Vec<(String, Json)>) -> (r: Vec<(String, PyInput)>)
    ensures
        r@.len() == v@.len(),
        forall|i: int|
            0 <= i < v@.len() ==> (#[trigger] r@[i]).0@ == v@[i].0@ && is_python(
                r@[i].1,
                v@[i].1@,
            ),
    decreases *v,
{
    let mut out: Vec<(String, PyInput)> = Vec::new();
    let mut i: usize = 0;
    while i < v.len()
        invariant
            i <= v@.len(),
            out@.len() == i,
            forall|k: int|
                0 <= k < i ==> (#[trigger] out@[k]).0@ == v@[k].0@ && is_python(
                    out@[k].1,
                    v@[k].1@,
                ),
        decreases v@.len() - i,
    {
        assert(decreases_to!(*v => v@));
        assert(decreases_to!(v@ => v@[i as int]));
        assert(decreases_to!(v@[i as int] => v@[i as int].1));
        let ghost before = out@;
        let x = json_to_monty(&v[i].1);
        out.push((v[i].0.clone(), x));
        assert forall|k: int| 0 <= k < i + 1 implies (#[trigger] out@[k]).0@ == v@[k].0@
            && is_python(out@[k].1, v@[k].1@) by {
            if k < i {
                assert(out@[k] == before[k]);
                assert(is_python(before[k].1, v@[k].1@));
            }
        }
        i = i + 1;
    }
    out
}

/// Turns JSON into the Python value that the interpreter is handed.
pub fn json_to_monty(val: &Json) -> (r: PyInput)
    ensures
        is_python(r, val@),
    decreases *val,
{
    match val {
        Json::Null => PyInput::Nil,
        Json::Bool(b) => PyInput::Bool(*b),
        Json::Uint(n) => if *n <= i64::MAX as u64 {
            PyInput::Int(*n as i64)
        } else {
            PyInput::Wide(*n)
        },
        Json::Int(n) => PyInput::Int(*n),
        Json::Float(s) => PyInput::Float(s.clone()),
        Json::Str(s) => PyInput::Str(s.clone()),
        Json::Array(v) => {
            assert(decreases_to!(*val => val->Array_0));
            let w = list_to_python(v);
            let ghost a = val@->Array_0;
            assert forall|i: int| 0 <= i < a.len() implies is_python(#[trigger] w@[i], a[i]) by {
                assert(a[i] == v@[i]@);
            }
            PyInput::List(w)
        },
        Json::Object(v) => {
            assert(decreases_to!(*val => val->Object_0));
            let w = fields_to_python(v);
            let ghost f = val@->Object_0;
            assert forall|i: int| 0 <= i < f.len() implies (#[trigger] w@[i]).0@ == f[i].0
                && is_python(w@[i].1, f[i].1) by {
                assert(f[i] == (v@[i].0@, v@[i].1@));
                assert(is_python(w@[i].1, v@[i].1@));
            }
            PyInput::Dict(w)
        },
    }
}

/// Whether a JSON value is written in one way only: its integers fit in 64 bits
/// with a sign, those that are not negative are unsigned, and the fields of each object
/// stand in the order of their names.
pub open spec fn is_plain(j: JsonView) -> bool
    decreases j,
{
    match j {
        JsonView::Uint(n) => n <= i64::MAX,
        JsonView::Int(n) => n < 0,
        JsonView::Array(a) => forall|i: int| 0 <= i < a.len() ==> is_plain(#[trigger] a[i]),
        JsonView::Object(f) => in_name_order(f) && forall|i: int|
            0 <= i < f.len() ==> is_plain((#[trigger] f[i]).1),
        _ => true,
    }
}

/// Fields that are set in turn stand in the order of their names.
pub proof fn collected_fields_are_in_order(v: Seq<(Seq<char>, JsonView)>)
    ensures
        in_name_order(collected(v)),
    decreases v.len(),
{
    if v.len() > 0 {
        collected_fields_are_in_order(v.drop_last());
        set_field_keeps_order(collected(v.drop_last()), v.last().0, v.last().1);
    }
}

proof fn lemma_collected(f: Seq<(Seq<char>, JsonView)>)
    requires
        in_name_order(f),
    ensures
        collected(f) == f,
    decreases f.len(),
{
    if f.len() > 0 {
        let rest = f.drop_last();
        let key = f.last().0;
        assert forall|i: int, j: int| 0 <= i < j < rest.len() implies lex_less(
            (#[trigger] rest[i]).0,
            (#[trigger] rest[j]).0,
        ) by {
            assert(rest[i] == f[i] && rest[j] == f[j]);
        }
        lemma_collected(rest);
        lemma_key_index(rest, key);
        let k = key_index(rest, key);
        if k < rest.len() {
            assert(rest[k] == f[k]);
            assert(lex_less(f[k].0, f[f.len() - 1].0));
            lex_is_total(key, key);
        }
        if rest.len() > 0 {
            assert(names(rest).last() == f[f.len() - 2].0);
            assert(lex_less(f[f.len() - 2].0, f[f.len() - 1].0));
            lex_is_total(names(rest).last(), key);
        }
        assert(rest.insert(rest.len() as int, f.last()) =~= f);
    }
}

proof fn lemma_pairs(w: Seq<(PyKey, PyValue)>, f: Seq<(Seq<char>, JsonView)>)
    requires
        w.len() == f.len(),
        forall|i: int| 0 <= i < f.len() ==> key_is((#[trigger] w[i]).0, f[i].0),
        forall|i: int| 0 <= i < f.len() ==> py_json((#[trigger] w[i]).1) == f[i].1,
    ensures
        py_pairs(w) == f,
    decreases w.len(),
{
    if w.len() > 0 {
        lemma_pairs(w.drop_last(), f.drop_last());
        assert(key_text(w.last().0) == f.last().0);
        assert(py_json(w[w.len() - 1].1) == f.last().1);
        assert(f.drop_last().push(f.last()) =~= f);
    }
}

/// JSON that is handed over and comes back is the same. A number beyond 64 bits
/// with a sign is left out: it comes back as a float.
pub proof fn json_survives_python(v: PyValue, p: PyInput, j: JsonView)
    requires
        is_python(p, j),
        is_handed(v, p),
        is_plain(j),
    ensures
        py_json(v) == j,
    decreases j,
{
    match j {
        JsonView::Array(a) => {
            let w = v->List_0;
            let q = p->List_0;
            assert forall|i: int| 0 <= i < a.len() implies py_json(#[trigger] w@[i]) == a[i] by {
                assert(is_python(q@[i], a[i]));
                assert(is_handed(w@[i], q@[i]));
                assert(is_plain(a[i]));
                json_survives_python(w@[i], q@[i], a[i]);
            }
            assert(py_json(v)->Array_0 =~= a);
        },
        JsonView::Object(f) => {
            let w = v->Dict_0;
            let q = p->Dict_0;
            assert forall|i: int| 0 <= i < f.len() implies py_json((#[trigger] w@[i]).1) == f[i].1 by {
                assert(is_python(q@[i].1, f[i].1));
                assert(is_handed(w@[i].1, q@[i].1));
                assert(is_plain(f[i].1));
                json_survives_python(w@[i].1, q@[i].1, f[i].1);
            }
            assert forall|i: int| 0 <= i < f.len() implies key_is((#[trigger] w@[i]).0, f[i].0) by {
                assert(q@[i].0@ == f[i].0);
            }
            lemma_pairs(w@, f);
            lemma_collected(f);
        },
        _ => {},
    }
}

/// Code is handed a number as an integer where it fits in 64 bits with a sign, and as a
/// float otherwise.
pub proof fn numbers_are_handed_over(v: PyInput, n: u64, m: i64)
    ensures
        n <= i64::MAX ==> is_python(v, JsonView::Uint(n)) == (v == PyInput::Int(n as i64)),
        n > i64::MAX ==> is_python(v, JsonView::Uint(n)) == (v == PyInput::Wide(n)),
        is_python(v, JsonView::Int(m)) == (v == PyInput::Int(m)),
{
}

} // verus!
