//! Python values as the interpreter hands them over, and what the host hands back.

use vstd::prelude::*;

use crate::json::{
    field_of, fields, json_text, lemma_array_view, lemma_object_view, render, set_field,
    set_field_is_found, values, with_field, Json, JsonView,
};
use crate::number::{decimal_int, digit, i64_to_string, u128_to_hex, hexadecimal};
use crate::text::str_eq;

verus! {

/// The key of a dictionary entry or of a keyword argument.
#[derive(Debug, PartialEq, Eq)]
pub enum PyKey {
    /// A string.
    Str(String),
    /// Any other value, as it is shown.
    Other(String),
}

/// A Python value.
#[derive(Debug, PartialEq, Eq)]
pub enum PyValue {
    /// `None`.
    Nil,
    Bool(bool),
    Int(i64),
    /// An integer beyond 64 bits, in decimal.
    BigInt(String),
    /// A float: how it is displayed, and how JSON writes it where it is finite.
    Float { display: String, json: Option<String> },
    Str(String),
    List(Vec<PyValue>),
    Tuple(Vec<PyValue>),
    SetOf(Vec<PyValue>),
    FrozenSetOf(Vec<PyValue>),
    Dict(Vec<(PyKey, PyValue)>),
    Bytes(Vec<u8>),
    /// Any other value, as it is shown.
    Other(String),
}

/// The text of a key.
pub open spec fn key_text(k: PyKey) -> Seq<char> {
    match k {
        PyKey::Str(s) => s@,
        PyKey::Other(s) => s@,
    }
}

/// An integer as JSON.
pub open spec fn int_json(i: i64) -> JsonView {
    if i >= 0 {
        JsonView::Uint(i as u64)
    } else {
        JsonView::Int(i)
    }
}

/// The fields with each of `v` set in turn: they stand in the order of their names, and
/// of two with one name the last stays.
pub open spec fn collected(v: Seq<(Seq<char>, JsonView)>) -> Seq<(Seq<char>, JsonView)>
    decreases v.len(),
{
    if v.len() == 0 {
        Seq::empty()
    } else {
        with_field(collected(v.drop_last()), v.last().0, v.last().1)
    }
}

/// Bytes in hexadecimal, two digits for each.
pub open spec fn hex_bytes(b: Seq<u8>) -> Seq<char>
    decreases b.len(),
{
    if b.len() == 0 {
        Seq::empty()
    } else {
        hex_bytes(b.drop_last()).push(digit((b.last() / 16) as nat)).push(
            digit((b.last() % 16) as nat),
        )
    }
}

/// A Python value as JSON. Tuples and sets become arrays, bytes become hexadecimal
/// text, and what JSON does not know becomes the text that shows it.
pub open spec fn py_json(v: PyValue) -> JsonView
    decreases v,
{
    match v {
        PyValue::Nil => JsonView::Null,
        PyValue::Bool(b) => JsonView::Bool(b),
        PyValue::Int(i) => int_json(i),
        PyValue::BigInt(s) => JsonView::Str(s@),
        PyValue::Float { display: _, json } => match json {
            Some(t) => JsonView::Float(t@),
            None => JsonView::Null,
        },
        PyValue::Str(s) => JsonView::Str(s@),
        PyValue::List(items) => JsonView::Array(
            Seq::new(
                items@.len(),
                |i: int|
                    if 0 <= i < items@.len() {
                        py_json(items@[i])
                    } else {
                        JsonView::Null
                    },
            ),
        ),
        PyValue::Tuple(items) => JsonView::Array(
            Seq::new(
                items@.len(),
                |i: int|
                    if 0 <= i < items@.len() {
                        py_json(items@[i])
                    } else {
                        JsonView::Null
                    },
            ),
        ),
        PyValue::SetOf(items) => JsonView::Array(
            Seq::new(
                items@.len(),
                |i: int|
                    if 0 <= i < items@.len() {
                        py_json(items@[i])
                    } else {
                        JsonView::Null
                    },
            ),
        ),
        PyValue::FrozenSetOf(items) => JsonView::Array(
            Seq::new(
                items@.len(),
                |i: int|
                    if 0 <= i < items@.len() {
                        py_json(items@[i])
                    } else {
                        JsonView::Null
                    },
            ),
        ),
        PyValue::Dict(pairs) => JsonView::Object(collected(py_pairs(pairs@))),
        PyValue::Bytes(b) => JsonView::Str(hex_bytes(b@)),
        PyValue::Other(s) => JsonView::Str(s@),
    }
}

/// The entries of a dictionary, each with its key as text and its value as JSON.
pub open spec fn py_pairs(v: Seq<(PyKey, PyValue)>) -> Seq<(Seq<char>, JsonView)>
    decreases v,
{
    if v.len() == 0 {
        Seq::empty()
    } else {
        py_pairs(v.drop_last()).push((key_text(v.last().0), py_json(v.last().1)))
    }
}

/// The values of a list as JSON.
pub open spec fn py_items(v: Seq<PyValue>) -> Seq<JsonView> {
    v.map_values(|x: PyValue| py_json(x))
}

/// The entries of a dictionary or keyword arguments as fields.
pub open spec fn py_fields(v: Seq<(PyKey, PyValue)>) -> Seq<(Seq<char>, JsonView)> {
    v.map_values(|p: (PyKey, PyValue)| (key_text(p.0), py_json(p.1)))
}

/// A Python value as text.
pub open spec fn py_text(v: PyValue) -> Seq<char> {
    match v {
        PyValue::Str(s) => s@,
        PyValue::Nil => "None"@,
        PyValue::Bool(b) => if b {
            "true"@
        } else {
            "false"@
        },
        PyValue::Int(i) => decimal_int(i as int),
        PyValue::Float { display, json: _ } => display@,
        _ => json_text(py_json(v)),
    }
}

proof fn lemma_items(v: Vec<PyValue>)
    ensures
        py_json(PyValue::List(v)) == JsonView::Array(py_items(v@)),
        py_json(PyValue::Tuple(v)) == JsonView::Array(py_items(v@)),
        py_json(PyValue::SetOf(v)) == JsonView::Array(py_items(v@)),
        py_json(PyValue::FrozenSetOf(v)) == JsonView::Array(py_items(v@)),
{
    assert(py_json(PyValue::List(v))->Array_0 =~= py_items(v@));
    assert(py_json(PyValue::Tuple(v))->Array_0 =~= py_items(v@));
    assert(py_json(PyValue::SetOf(v))->Array_0 =~= py_items(v@));
    assert(py_json(PyValue::FrozenSetOf(v))->Array_0 =~= py_items(v@));
}

proof fn lemma_pairs(v: Seq<(PyKey, PyValue)>)
    ensures
        py_pairs(v) == py_fields(v),
    decreases v.len(),
{
    if v.len() > 0 {
        lemma_pairs(v.drop_last());
    }
    assert(py_pairs(v) =~= py_fields(v));
}

fn key_string(k: &PyKey) -> (r: &String)
    ensures
        r@ == key_text(*k),
{
    match k {
        PyKey::Str(s) => s,
        PyKey::Other(s) => s,
    }
}

/// Writes bytes in hexadecimal.
pub fn hex_text(b: &Vec<u8>) -> (r: String)
    ensures
        r@ == hex_bytes(b@),
{
    let mut out = String::new();
    let mut i: usize = 0;
    assert(b@.take(0) =~= Seq::<u8>::empty());
    while i < b.len()
        invariant
            i <= b@.len(),
            out@ == hex_bytes(b@.take(i as int)),
        decreases b@.len() - i,
    {
        assert(b@.take(i + 1).drop_last() =~= b@.take(i as int));
        let ghost before = out@;
        let hi = u128_to_hex((b[i] / 16) as u128);
        let lo = u128_to_hex((b[i] % 16) as u128);
        assert(hexadecimal((b@[i as int] / 16) as nat) =~= seq![
            digit((b@[i as int] / 16) as nat),
        ]);
        assert(hexadecimal((b@[i as int] % 16) as nat) =~= seq![
            digit((b@[i as int] % 16) as nat),
        ]);
        out.append(hi.as_str());
        out.append(lo.as_str());
        assert(out@ =~= before.push(digit((b@[i as int] / 16) as nat)).push(
            digit((b@[i as int] % 16) as nat),
        ));
        i = i + 1;
    }
    assert(b@.take(b@.len() as int) =~= b@);
    out
}

fn items_to_json(v: &Vec<PyValue>) -> (r: Vec<Json>)
    ensures
        values(r@) == py_items(v@),
    decreases *v,
{
    let mut out: Vec<Json> = Vec::new();
    let mut i: usize = 0;
    let ghost all = py_items(v@);
    assert(values(out@) =~= all.take(0));
    while i < v.len()
        invariant
            i <= v@.len(),
            all == py_items(v@),
            values(out@) == all.take(i as int),
        decreases v@.len() - i,
    {
        assert(decreases_to!(*v => v@));
        assert(decreases_to!(v@ => v@[i as int]));
        let ghost before = out@;
        out.push(monty_to_json(&v[i]));
        assert(values(out@) =~= values(before).push(all[i as int]));
        assert(all.take(i + 1) =~= all.take(i as int).push(all[i as int]));
        i = i + 1;
    }
    assert(all.take(all.len() as int) =~= all);
    out
}

fn pairs_to_fields(v: &Vec<(PyKey, PyValue)>) -> (r: Vec<(String, Json)>)
    ensures
        fields(r@) == collected(py_fields(v@)),
    decreases *v,
{
    let mut out: Vec<(String, Json)> = Vec::new();
    let mut i: usize = 0;
    let ghost all = py_fields(v@);
    assert(all.take(0) =~= Seq::<(Seq<char>, JsonView)>::empty());
    assert(fields(out@) =~= Seq::<(Seq<char>, JsonView)>::empty());
    while i < v.len()
        invariant
            i <= v@.len(),
            all == py_fields(v@),
            fields(out@) == collected(all.take(i as int)),
        decreases v@.len() - i,
    {
        assert(decreases_to!(*v => v@));
        assert(decreases_to!(v@ => v@[i as int]));
        assert(decreases_to!(v@[i as int] => v@[i as int].1));
        assert(all.take(i + 1).drop_last() =~= all.take(i as int));
        let value = monty_to_json(&v[i].1);
        set_field(&mut out, key_string(&v[i].0).as_str(), value);
        i = i + 1;
    }
    assert(all.take(all.len() as int) =~= all);
    out
}

/// Turns a Python value into JSON.
pub fn monty_to_json(obj: &PyValue) -> (r: Json)
    ensures
        r@ == py_json(*obj),
    decreases *obj,
{
    match obj {
        PyValue::Nil => Json::Null,
        PyValue::Bool(b) => Json::Bool(*b),
        PyValue::Int(i) => if *i >= 0 {
            Json::Uint(*i as u64)
        } else {
            Json::Int(*i)
        },
        PyValue::BigInt(s) => Json::Str(s.clone()),
        PyValue::Float { display: _, json } => match json {
            Some(t) => Json::Float(t.clone()),
            None => Json::Null,
        },
        PyValue::Str(s) => Json::Str(s.clone()),
        PyValue::List(items) => {
            assert(decreases_to!(*obj => obj->List_0));
            let v = items_to_json(items);
            proof {
                lemma_items(*items);
                lemma_array_view(v);
            }
            Json::Array(v)
        },
        PyValue::Tuple(items) => {
            assert(decreases_to!(*obj => obj->Tuple_0));
            let v = items_to_json(items);
            proof {
                lemma_items(*items);
                lemma_array_view(v);
            }
            Json::Array(v)
        },
        PyValue::SetOf(items) => {
            assert(decreases_to!(*obj => obj->SetOf_0));
            let v = items_to_json(items);
            proof {
                lemma_items(*items);
                lemma_array_view(v);
            }
            Json::Array(v)
        },
        PyValue::FrozenSetOf(items) => {
            assert(decreases_to!(*obj => obj->FrozenSetOf_0));
            let v = items_to_json(items);
            proof {
                lemma_items(*items);
                lemma_array_view(v);
            }
            Json::Array(v)
        },
        PyValue::Dict(pairs) => {
            assert(decreases_to!(*obj => obj->Dict_0));
            let v = pairs_to_fields(pairs);
            proof {
                lemma_pairs(pairs@);
                lemma_object_view(v);
            }
            Json::Object(v)
        },
        PyValue::Bytes(b) => Json::Str(hex_text(b)),
        PyValue::Other(s) => Json::Str(s.clone()),
    }
}

/// Turns a Python value into text.
pub fn monty_to_string(obj: &PyValue) -> (r: String)
    ensures
        r@ == py_text(*obj),
{
    match obj {
        PyValue::Str(s) => s.clone(),
        PyValue::Nil => "None".to_owned(),
        PyValue::Bool(b) => if *b {
            "true".to_owned()
        } else {
            "false".to_owned()
        },
        PyValue::Int(i) => i64_to_string(*i),
        PyValue::Float { display, json: _ } => display.clone(),
        other => render(&monty_to_json(other)),
    }
}

/// The arguments of a call as one JSON object: the positional ones under `_args`,
/// where there are any, and each keyword argument under its name.
pub open spec fn args_json(args: Seq<PyValue>, kwargs: Seq<(PyKey, PyValue)>) -> JsonView {
    let positional = if args.len() > 0 {
        seq![("_args"@, JsonView::Array(py_items(args)))]
    } else {
        Seq::empty()
    };
    JsonView::Object(collected(positional + py_fields(kwargs)))
}

/// Turns the arguments of a call into one JSON object.
pub fn monty_args_to_json(args: &Vec<PyValue>, kwargs: &Vec<(PyKey, PyValue)>) -> (r: Json)
    ensures
        r@ == args_json(args@, kwargs@),
{
    let mut out: Vec<(String, Json)> = Vec::new();
    let ghost pos = if args@.len() > 0 {
        seq![("_args"@, JsonView::Array(py_items(args@)))]
    } else {
        Seq::empty()
    };
    let ghost all = pos + py_fields(kwargs@);
    assert(fields(out@) =~= Seq::<(Seq<char>, JsonView)>::empty());
    if args.len() > 0 {
        let v = items_to_json(args);
        proof {
            lemma_array_view(v);
        }
        set_field(&mut out, "_args", Json::Array(v));
        proof {
            reveal_with_fuel(collected, 2);
            assert(pos.drop_last() =~= Seq::<(Seq<char>, JsonView)>::empty());
        }
    }
    assert(fields(out@) == collected(pos));
    assert(all.take(pos.len() as int) =~= pos);
    let mut i: usize = 0;
    while i < kwargs.len()
        invariant
            i <= kwargs@.len(),
            all == pos + py_fields(kwargs@),
            fields(out@) == collected(all.take(pos.len() + i)),
        decreases kwargs@.len() - i,
    {
        assert(all.take(pos.len() + i + 1).drop_last() =~= all.take(pos.len() + i));
        let value = monty_to_json(&kwargs[i].1);
        set_field(&mut out, key_string(&kwargs[i].0).as_str(), value);
        i = i + 1;
    }
    assert(all.take(all.len() as int) =~= all);
    proof {
        lemma_object_view(out);
    }
    Json::Object(out)
}

/// The value of the first keyword argument with a string key that is `name`.
pub open spec fn kwarg(kwargs: Seq<(PyKey, PyValue)>, name: Seq<char>) -> Option<PyValue>
    decreases kwargs.len(),
{
    if kwargs.len() == 0 {
        None
    } else if kwargs.first().0 matches PyKey::Str(k) && k@ == name {
        Some(kwargs.first().1)
    } else {
        kwarg(kwargs.drop_first(), name)
    }
}

/// The value of the first keyword argument with a string key that is `name`.
pub fn find_kwarg<'a>(kwargs: &'a Vec<(PyKey, PyValue)>, name: &str) -> (r: Option<&'a PyValue>)
    ensures
        match r {
            Some(v) => kwarg(kwargs@, name@) == Some(*v),
            None => kwarg(kwargs@, name@) is None,
        },
{
    let mut i: usize = 0;
    assert(kwargs@.skip(0) =~= kwargs@);
    while i < kwargs.len()
        invariant
            i <= kwargs@.len(),
            kwarg(kwargs@, name@) == kwarg(kwargs@.skip(i as int), name@),
        decreases kwargs@.len() - i,
    {
        let ghost rest = kwargs@.skip(i as int);
        assert(rest.first() == kwargs@[i as int]);
        assert(rest.drop_first() =~= kwargs@.skip(i + 1));
        if let PyKey::Str(k) = &kwargs[i].0 {
            if str_eq(k.as_str(), name) {
                return Some(&kwargs[i].1);
            }
        }
        i = i + 1;
    }
    None
}

/// The text of a keyword argument.
pub open spec fn kwarg_text(kwargs: Seq<(PyKey, PyValue)>, name: Seq<char>) -> Option<Seq<char>> {
    match kwarg(kwargs, name) {
        Some(v) => Some(py_text(v)),
        None => None,
    }
}

/// The text of an argument that is given by keyword or else by position.
pub open spec fn arg_text(
    args: Seq<PyValue>,
    kwargs: Seq<(PyKey, PyValue)>,
    name: Seq<char>,
    position: int,
) -> Option<Seq<char>> {
    match kwarg(kwargs, name) {
        Some(v) => Some(py_text(v)),
        None => if position < args.len() {
            Some(py_text(args[position]))
        } else {
            None
        },
    }
}

/// The text of the argument at a position, empty where there is none.
pub open spec fn text_at(args: Seq<PyValue>, i: int) -> Seq<char> {
    if i < args.len() {
        py_text(args[i])
    } else {
        Seq::empty()
    }
}

/// The text of the argument at a position, empty where there is none.
pub fn string_at(args: &Vec<PyValue>, i: usize) -> (r: String)
    ensures
        r@ == text_at(args@, i as int),
{
    if i < args.len() {
        monty_to_string(&args[i])
    } else {
        String::new()
    }
}

/// Takes the text of an argument that is given by keyword or else by position.
pub fn extract_string_arg(
    args: &Vec<PyValue>,
    kwargs: &Vec<(PyKey, PyValue)>,
    name: &str,
    position: usize,
) -> (r: Option<String>)
    ensures
        match r {
            Some(s) => arg_text(args@, kwargs@, name@, position as int) == Some(s@),
            None => arg_text(args@, kwargs@, name@, position as int) is None,
        },
{
    match find_kwarg(kwargs, name) {
        Some(v) => Some(monty_to_string(v)),
        None => if position < args.len() {
            Some(monty_to_string(&args[position]))
        } else {
            None
        },
    }
}

/// Takes the text of a keyword argument.
pub fn extract_string_kwarg(kwargs: &Vec<(PyKey, PyValue)>, name: &str) -> (r: Option<String>)
    ensures
        match r {
            Some(s) => kwarg_text(kwargs@, name@) == Some(s@),
            None => kwarg_text(kwargs@, name@) is None,
        },
{
    match find_kwarg(kwargs, name) {
        Some(v) => Some(monty_to_string(v)),
        None => None,
    }
}

/// The first keyword argument with this name that is an integer, as an unsigned
/// number. A negative one wraps, as a cast does.
pub open spec fn kwarg_u64(kwargs: Seq<(PyKey, PyValue)>, name: Seq<char>) -> Option<u64>
    decreases kwargs.len(),
{
    if kwargs.len() == 0 {
        None
    } else if kwargs.first().0 matches PyKey::Str(k) && k@ == name && kwargs.first().1 is Int {
        Some(kwargs.first().1->Int_0 as u64)
    } else {
        kwarg_u64(kwargs.drop_first(), name)
    }
}

/// Takes an unsigned number from the keyword arguments.
pub fn extract_u64_kwarg(kwargs: &Vec<(PyKey, PyValue)>, name: &str) -> (r: Option<u64>)
    ensures
        r == kwarg_u64(kwargs@, name@),
{
    let mut i: usize = 0;
    assert(kwargs@.skip(0) =~= kwargs@);
    while i < kwargs.len()
        invariant
            i <= kwargs@.len(),
            kwarg_u64(kwargs@, name@) == kwarg_u64(kwargs@.skip(i as int), name@),
        decreases kwargs@.len() - i,
    {
        let ghost rest = kwargs@.skip(i as int);
        assert(rest.first() == kwargs@[i as int]);
        assert(rest.drop_first() =~= kwargs@.skip(i + 1));
        if let PyKey::Str(k) = &kwargs[i].0 {
            if str_eq(k.as_str(), name) {
                if let PyValue::Int(n) = &kwargs[i].1 {
                    return Some(*n as u64);
                }
            }
        }
        i = i + 1;
    }
    None
}

/// The class of an exception that the host raises in the interpreter.
#[derive(Debug, Clone, Copy, PartialEq, Eq, Structural)]
pub enum ExcKind {
    TypeError,
    ValueError,
    RuntimeError,
    OsError,
}

/// What the host answers to a call from the interpreter.
#[derive(Debug, PartialEq, Eq)]
pub enum HostReply {
    /// The call returns this value.
    Return(Json),
    /// The call raises an exception.
    Raise { kind: ExcKind, message: String },
    /// There is no such function.
    NotFound(String),
}

/// What a reply holds.
pub enum ReplyView {
    Return(JsonView),
    Raise { kind: ExcKind, message: Seq<char> },
    NotFound(Seq<char>),
}

impl View for HostReply {
    type V = ReplyView;

    open spec fn view(&self) -> ReplyView {
        match self {
            HostReply::Return(j) => ReplyView::Return(j@),
            HostReply::Raise { kind, message } => ReplyView::Raise {
                kind: *kind,
                message: message@,
            },
            HostReply::NotFound(s) => ReplyView::NotFound(s@),
        }
    }
}

/// A reply that raises an exception with this message.
pub fn raise(kind: ExcKind, message: &str) -> (r: HostReply)
    ensures
        r@ == (ReplyView::Raise { kind, message: message@ }),
{
    HostReply::Raise { kind, message: message.to_owned() }
}

/// Of values set in turn each name has the last that was set under it.
pub proof fn the_last_value_is_found(v: Seq<(Seq<char>, JsonView)>, i: int)
    requires
        0 <= i < v.len(),
        forall|j: int| i < j < v.len() ==> (#[trigger] v[j]).0 != v[i].0,
    ensures
        field_of(collected(v), v[i].0) == Some(v[i].1),
    decreases v.len(),
{
    let r = v.drop_last();
    set_field_is_found(collected(r), v.last().0, v.last().1, v[i].0);
    if i < r.len() {
        assert(v[v.len() - 1].0 != v[i].0);
        assert forall|j: int| i < j < r.len() implies (#[trigger] r[j]).0 != r[i].0 by {
            assert(v[j].0 != v[i].0);
        }
        the_last_value_is_found(r, i);
    }
}

/// A name under which nothing was set has no value.
pub proof fn no_other_value_is_found(v: Seq<(Seq<char>, JsonView)>, name: Seq<char>)
    requires
        forall|j: int| 0 <= j < v.len() ==> (#[trigger] v[j]).0 != name,
    ensures
        field_of(collected(v), name) is None,
    decreases v.len(),
{
    if v.len() > 0 {
        let r = v.drop_last();
        assert(v[v.len() - 1].0 != name);
        assert forall|j: int| 0 <= j < r.len() implies (#[trigger] r[j]).0 != name by {
            assert(v[j].0 != name);
        }
        no_other_value_is_found(r, name);
        set_field_is_found(collected(r), v.last().0, v.last().1, name);
    }
}

/// A list, a tuple or a set becomes an array with each of its items, in their order.
pub proof fn items_become_an_array(v: Vec<PyValue>, i: int)
    requires
        0 <= i < v@.len(),
    ensures
        py_json(PyValue::List(v)) matches JsonView::Array(a) && a.len() == v@.len() && a[i]
            == py_json(v@[i]),
        py_json(PyValue::Tuple(v)) matches JsonView::Array(a) && a.len() == v@.len() && a[i]
            == py_json(v@[i]),
        py_json(PyValue::SetOf(v)) matches JsonView::Array(a) && a.len() == v@.len() && a[i]
            == py_json(v@[i]),
        py_json(PyValue::FrozenSetOf(v)) matches JsonView::Array(a) && a.len() == v@.len() && a[i]
            == py_json(v@[i]),
{
    lemma_items(v);
}

/// Each entry of a dictionary is found under the text of its key, where no later one has
/// that text.
pub proof fn entries_become_fields(v: Vec<(PyKey, PyValue)>, i: int)
    requires
        0 <= i < v@.len(),
        forall|j: int|
            i < j < v@.len() ==> key_text((#[trigger] v@[j]).0) != key_text(v@[i].0),
    ensures
        py_json(PyValue::Dict(v)).get(key_text(v@[i].0)) == Some(py_json(v@[i].1)),
{
    lemma_pairs(v@);
    let f = py_fields(v@);
    assert(f[i] == (key_text(v@[i].0), py_json(v@[i].1)));
    assert forall|j: int| i < j < f.len() implies (#[trigger] f[j]).0 != f[i].0 by {
        assert(key_text(v@[j].0) != key_text(v@[i].0));
    }
    the_last_value_is_found(f, i);
}

/// What is neither a collection nor a number becomes itself or its text.
pub proof fn single_values_are_kept(s: String, b: bool, i: i64)
    ensures
        py_json(PyValue::Nil) == JsonView::Null,
        py_json(PyValue::Bool(b)) == JsonView::Bool(b),
        py_json(PyValue::Str(s)) == JsonView::Str(s@),
        py_json(PyValue::BigInt(s)) == JsonView::Str(s@),
        py_json(PyValue::Other(s)) == JsonView::Str(s@),
        i >= 0 ==> py_json(PyValue::Int(i)) == JsonView::Uint(i as u64),
        i < 0 ==> py_json(PyValue::Int(i)) == JsonView::Int(i),
        py_json(PyValue::Float { display: s, json: None }) == JsonView::Null,
        py_json(PyValue::Float { display: s, json: Some(s) }) == JsonView::Float(s@),
        py_text(PyValue::Str(s)) == s@,
        py_text(PyValue::Bool(b)) == (if b { "true"@ } else { "false"@ }),
        py_text(PyValue::Nil) == "None"@,
{
}

/// Each byte is written with two digits, in the order of the bytes.
pub proof fn each_byte_has_two_digits(b: Seq<u8>, i: int)
    requires
        0 <= i < b.len(),
    ensures
        hex_bytes(b).len() == 2 * b.len(),
        hex_bytes(b)[2 * i] == digit((b[i] / 16) as nat),
        hex_bytes(b)[2 * i + 1] == digit((b[i] % 16) as nat),
    decreases b.len(),
{
    let r = b.drop_last();
    if r.len() > 0 {
        if i < r.len() {
            each_byte_has_two_digits(r, i);
        } else {
            each_byte_has_two_digits(r, 0);
        }
    } else {
        assert(hex_bytes(r).len() == 0);
    }
}

/// A call is described by all its arguments: those by position in their order under
/// `_args`, and each by keyword under its name; of two with one name the last counts.
pub proof fn calls_hold_all_arguments(
    args: Seq<PyValue>,
    kwargs: Seq<(PyKey, PyValue)>,
    i: int,
    k: int,
)
    requires
        0 <= i < args.len(),
        0 <= k < kwargs.len(),
        forall|j: int| 0 <= j < kwargs.len() ==> key_text((#[trigger] kwargs[j]).0) != "_args"@,
        forall|j: int|
            k < j < kwargs.len() ==> key_text((#[trigger] kwargs[j]).0) != key_text(kwargs[k].0),
    ensures
        args_json(args, kwargs).get("_args"@) matches Some(JsonView::Array(a)) && a.len()
            == args.len() && a[i] == py_json(args[i]),
        args_json(args, kwargs).get(key_text(kwargs[k].0)) == Some(py_json(kwargs[k].1)),
{
    let p = seq![("_args"@, JsonView::Array(py_items(args)))];
    let v = p + py_fields(kwargs);
    assert forall|j: int| 0 < j < v.len() implies (#[trigger] v[j]).0 != v[0].0 by {
        assert(v[j].0 == key_text(kwargs[j - 1].0));
    }
    the_last_value_is_found(v, 0);
    assert(v[k + 1] == (key_text(kwargs[k].0), py_json(kwargs[k].1)));
    assert forall|j: int| k + 1 < j < v.len() implies (#[trigger] v[j]).0 != v[k + 1].0 by {
        assert(v[j].0 == key_text(kwargs[j - 1].0));
    }
    the_last_value_is_found(v, k + 1);
}

/// A call without arguments by position has no `_args`, and its keyword arguments all the
/// same.
pub proof fn keywords_alone_are_kept(kwargs: Seq<(PyKey, PyValue)>, k: int)
    requires
        0 <= k < kwargs.len(),
        forall|j: int|
            k < j < kwargs.len() ==> key_text((#[trigger] kwargs[j]).0) != key_text(kwargs[k].0),
    ensures
        args_json(Seq::empty(), kwargs).get(key_text(kwargs[k].0)) == Some(py_json(kwargs[k].1)),
        (forall|j: int| 0 <= j < kwargs.len() ==> key_text((#[trigger] kwargs[j]).0) != "_args"@)
            ==> args_json(Seq::empty(), kwargs).get("_args"@) is None,
{
    let f = py_fields(kwargs);
    assert(Seq::<(Seq<char>, JsonView)>::empty() + f =~= f);
    assert(f[k] == (key_text(kwargs[k].0), py_json(kwargs[k].1)));
    assert forall|j: int| k < j < f.len() implies (#[trigger] f[j]).0 != f[k].0 by {
        assert(key_text(kwargs[j].0) != key_text(kwargs[k].0));
    }
    the_last_value_is_found(f, k);
    if forall|j: int| 0 <= j < kwargs.len() ==> key_text((#[trigger] kwargs[j]).0) != "_args"@ {
        assert forall|j: int| 0 <= j < f.len() implies (#[trigger] f[j]).0 != "_args"@ by {
            assert(key_text(kwargs[j].0) != "_args"@);
        }
        no_other_value_is_found(f, "_args"@);
    }
}

/// A keyword argument is the first with its name that is a string, wherever it stands.
pub proof fn keyword_arguments_are_found(
    kwargs: Seq<(PyKey, PyValue)>,
    name: Seq<char>,
    i: int,
)
    requires
        0 <= i <= kwargs.len(),
        i < kwargs.len() ==> (kwargs[i].0 matches PyKey::Str(k) && k@ == name),
        forall|j: int|
            0 <= j < i ==> !((#[trigger] kwargs[j]).0 matches PyKey::Str(k) && k@ == name),
    ensures
        i < kwargs.len() ==> kwarg(kwargs, name) == Some(kwargs[i].1),
        i == kwargs.len() ==> kwarg(kwargs, name) is None,
        i < kwargs.len() ==> kwarg_text(kwargs, name) == Some(py_text(kwargs[i].1)),
    decreases i,
{
    if i > 0 {
        let r = kwargs.drop_first();
        assert(!(kwargs[0].0 matches PyKey::Str(k) && k@ == name));
        assert forall|j: int| 0 <= j < i - 1 implies !((#[trigger] r[j]).0 matches PyKey::Str(k)
            && k@ == name) by {
            assert(r[j] == kwargs[j + 1]);
        }
        keyword_arguments_are_found(r, name, i - 1);
    }
}

/// The number under a name is that of the first keyword argument that has the name and is
/// an integer, wherever it stands.
pub proof fn numbers_are_found(kwargs: Seq<(PyKey, PyValue)>, name: Seq<char>, i: int, n: i64)
    requires
        0 <= i < kwargs.len(),
        kwargs[i].0 matches PyKey::Str(k) && k@ == name,
        kwargs[i].1 == PyValue::Int(n),
        forall|j: int|
            0 <= j < i ==> !((#[trigger] kwargs[j]).0 matches PyKey::Str(k) && k@ == name
                && kwargs[j].1 is Int),
    ensures
        kwarg_u64(kwargs, name) == Some(n as u64),
    decreases i,
{
    if i > 0 {
        let r = kwargs.drop_first();
        assert(!(kwargs[0].0 matches PyKey::Str(k) && k@ == name && kwargs[0].1 is Int));
        assert forall|j: int| 0 <= j < i - 1 implies !((#[trigger] r[j]).0 matches PyKey::Str(k)
            && k@ == name && r[j].1 is Int) by {
            assert(r[j] == kwargs[j + 1]);
        }
        numbers_are_found(r, name, i - 1, n);
    }
}

/// An argument is taken by its name where it is given so, and otherwise by its place.
pub proof fn arguments_are_found(
    args: Seq<PyValue>,
    kwargs: Seq<(PyKey, PyValue)>,
    name: Seq<char>,
    p: int,
)
    requires
        0 <= p,
    ensures
        kwarg(kwargs, name) matches Some(v) ==> arg_text(args, kwargs, name, p) == Some(
            py_text(v),
        ),
        kwarg(kwargs, name) is None && p < args.len() ==> arg_text(args, kwargs, name, p) == Some(
            py_text(args[p]),
        ),
        kwarg(kwargs, name) is None && p >= args.len() ==> arg_text(args, kwargs, name, p) is None,
        p < args.len() ==> text_at(args, p) == py_text(args[p]),
        p >= args.len() ==> text_at(args, p).len() == 0,
{
}

} // verus!
