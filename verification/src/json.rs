//! JSON values.
//!
//! A [`Json`] holds what a `serde_json::Value` holds, as plain values. A number
//! that is no integer is kept as the text that writes it.

use vstd::prelude::*;

use crate::text::{
    lemma_place_of, lex_is_total, lex_is_transitive, lex_less, place_of, str_eq, str_less,
};

verus! {

/// A JSON value.
#[derive(Debug, PartialEq, Eq)]
pub enum Json {
    Null,
    Bool(bool),
    Uint(u64),
    Int(i64),
    Float(String),
    Str(String),
    Array(Vec<Json>),
    Object(Vec<(String, Json)>),
}

/// What a JSON value holds.
pub enum JsonView {
    Null,
    Bool(bool),
    Uint(u64),
    Int(i64),
    Float(Seq<char>),
    Str(Seq<char>),
    Array(Seq<JsonView>),
    Object(Seq<(Seq<char>, JsonView)>),
}

/// What a JSON value holds.
pub open spec fn json_view(j: Json) -> JsonView
    decreases j,
{
    match j {
        Json::Null => JsonView::Null,
        Json::Bool(b) => JsonView::Bool(b),
        Json::Uint(n) => JsonView::Uint(n),
        Json::Int(n) => JsonView::Int(n),
        Json::Float(s) => JsonView::Float(s@),
        Json::Str(s) => JsonView::Str(s@),
        Json::Array(v) => JsonView::Array(
            Seq::new(
                v@.len(),
                |i: int|
                    if 0 <= i < v@.len() {
                        json_view(v@[i])
                    } else {
                        JsonView::Null
                    },
            ),
        ),
        Json::Object(v) => JsonView::Object(
            Seq::new(
                v@.len(),
                |i: int|
                    if 0 <= i < v@.len() {
                        (v@[i].0@, json_view(v@[i].1))
                    } else {
                        (Seq::empty(), JsonView::Null)
                    },
            ),
        ),
    }
}

impl View for Json {
    type V = JsonView;

    open spec fn view(&self) -> JsonView {
        json_view(*self)
    }
}

/// What the values of a list hold.
pub open spec fn values(v: Seq<Json>) -> Seq<JsonView> {
    v.map_values(|j: Json| j@)
}

/// What the fields of an object hold.
pub open spec fn fields(v: Seq<(String, Json)>) -> Seq<(Seq<char>, JsonView)> {
    v.map_values(|f: (String, Json)| (f.0@, f.1@))
}

/// The value of the first field named `key`.
pub open spec fn field_of(v: Seq<(Seq<char>, JsonView)>, key: Seq<char>) -> Option<JsonView>
    decreases v.len(),
{
    if v.len() == 0 {
        None
    } else if v.first().0 == key {
        Some(v.first().1)
    } else {
        field_of(v.drop_first(), key)
    }
}

impl JsonView {
    /// The value of a field; `None` of a value that is no object.
    pub open spec fn get(self, key: Seq<char>) -> Option<JsonView> {
        match self {
            JsonView::Object(v) => field_of(v, key),
            _ => None,
        }
    }

    /// The text of a string.
    pub open spec fn as_str(self) -> Option<Seq<char>> {
        match self {
            JsonView::Str(s) => Some(s),
            _ => None,
        }
    }

    /// The value of an integer that is not negative.
    pub open spec fn as_u64(self) -> Option<u64> {
        match self {
            JsonView::Uint(n) => Some(n),
            _ => None,
        }
    }

    /// The value of a truth value.
    pub open spec fn as_bool(self) -> Option<bool> {
        match self {
            JsonView::Bool(b) => Some(b),
            _ => None,
        }
    }

    /// The text of the string field named `key`.
    pub open spec fn str_field(self, key: Seq<char>) -> Option<Seq<char>> {
        match self.get(key) {
            Some(v) => v.as_str(),
            None => None,
        }
    }

    /// The value of the unsigned integer field named `key`.
    pub open spec fn u64_field(self, key: Seq<char>) -> Option<u64> {
        match self.get(key) {
            Some(v) => v.as_u64(),
            None => None,
        }
    }

    /// The value of the field named `key` where it is a truth value.
    pub open spec fn bool_field(self, key: Seq<char>) -> Option<bool> {
        match self.get(key) {
            Some(v) => v.as_bool(),
            None => None,
        }
    }
}

/// An array holds what its elements hold.
pub proof fn lemma_array_view(v: Vec<Json>)
    ensures
        Json::Array(v)@ == JsonView::Array(values(v@)),
{
    assert(Json::Array(v)@->Array_0 =~= values(v@));
}

/// An object holds what its fields hold.
pub proof fn lemma_object_view(v: Vec<(String, Json)>)
    ensures
        Json::Object(v)@ == JsonView::Object(fields(v@)),
{
    assert(Json::Object(v)@->Object_0 =~= fields(v@));
}

fn copy(j: &Json) -> (r: Json)
    ensures
        r@ == j@,
    decreases *j,
{
    match j {
        Json::Null => Json::Null,
        Json::Bool(b) => Json::Bool(*b),
        Json::Uint(n) => Json::Uint(*n),
        Json::Int(n) => Json::Int(*n),
        Json::Float(s) => Json::Float(s.clone()),
        Json::Str(s) => Json::Str(s.clone()),
        Json::Array(v) => {
            let mut out: Vec<Json> = Vec::new();
            let mut i: usize = 0;
            while i < v.len()
                invariant
                    i <= v@.len(),
                    *j == Json::Array(*v),
                    values(out@) == values(v@.take(i as int)),
                decreases v@.len() - i,
            {
                assert(decreases_to!(*j => j->Array_0));
                assert(decreases_to!(*v => v@));
                assert(decreases_to!(v@ => v@[i as int]));
                let ghost before = out@;
                out.push(copy(&v[i]));
                assert(values(out@) =~= values(before).push(v@[i as int]@));
                assert(values(v@.take(i + 1)) =~= values(v@.take(i as int)).push(v@[i as int]@));
                i = i + 1;
            }
            proof {
                assert(v@.take(v@.len() as int) =~= v@);
                lemma_array_view(out);
                lemma_array_view(*v);
            }
            Json::Array(out)
        },
        Json::Object(v) => {
            let mut out: Vec<(String, Json)> = Vec::new();
            let mut i: usize = 0;
            while i < v.len()
                invariant
                    i <= v@.len(),
                    *j == Json::Object(*v),
                    fields(out@) == fields(v@.take(i as int)),
                decreases v@.len() - i,
            {
                assert(decreases_to!(*j => j->Object_0));
                assert(decreases_to!(*v => v@));
                assert(decreases_to!(v@ => v@[i as int]));
                assert(decreases_to!(v@[i as int] => v@[i as int].1));
                let ghost before = out@;
                let ghost f = (v@[i as int].0@, v@[i as int].1@);
                out.push((v[i].0.clone(), copy(&v[i].1)));
                assert(fields(out@) =~= fields(before).push(f));
                assert(fields(v@.take(i + 1)) =~= fields(v@.take(i as int)).push(f));
                i = i + 1;
            }
            proof {
                assert(v@.take(v@.len() as int) =~= v@);
                lemma_object_view(out);
                lemma_object_view(*v);
            }
            Json::Object(out)
        },
    }
}

impl Clone for Json {
    fn clone(&self) -> (r: Json)
        ensures
            r@ == self@,
    {
        copy(self)
    }
}

impl Json {
    /// The value of a field; `None` of a value that is no object.
    pub fn get(&self, key: &str) -> (r: Option<&Json>)
        ensures
            match r {
                Some(v) => self@.get(key@) == Some(v@),
                None => self@.get(key@) is None,
            },
    {
        match self {
            Json::Object(v) => {
                let ghost all = fields(v@);
                let mut i: usize = 0;
                proof {
                    lemma_object_view(*v);
                    assert(all.skip(0) =~= all);
                }
                while i < v.len()
                    invariant
                        i <= v@.len(),
                        all == fields(v@),
                        self@ == JsonView::Object(all),
                        field_of(all, key@) == field_of(all.skip(i as int), key@),
                    decreases v@.len() - i,
                {
                    assert(all.skip(i as int).first() == all[i as int]);
                    if str_eq(v[i].0.as_str(), key) {
                        return Some(&v[i].1);
                    }
                    assert(all.skip(i as int).drop_first() =~= all.skip(i + 1));
                    i = i + 1;
                }
                None
            },
            _ => None,
        }
    }

    /// The text of a string.
    pub fn as_str(&self) -> (r: Option<&str>)
        ensures
            match r {
                Some(s) => self@.as_str() == Some(s@),
                None => self@.as_str() is None,
            },
    {
        match self {
            Json::Str(s) => Some(s.as_str()),
            _ => None,
        }
    }

    /// The value of an integer that is not negative.
    pub fn as_u64(&self) -> (r: Option<u64>)
        ensures
            r == self@.as_u64(),
    {
        match self {
            Json::Uint(n) => Some(*n),
            _ => None,
        }
    }

    /// The value of a truth value.
    pub fn as_bool(&self) -> (r: Option<bool>)
        ensures
            r == self@.as_bool(),
    {
        match self {
            Json::Bool(b) => Some(*b),
            _ => None,
        }
    }

    /// The elements of an array.
    pub fn as_array(&self) -> (r: Option<&Vec<Json>>)
        ensures
            match r {
                Some(v) => self@ == JsonView::Array(values(v@)),
                None => !(self@ is Array),
            },
    {
        match self {
            Json::Array(v) => {
                proof {
                    lemma_array_view(*v);
                }
                Some(v)
            },
            _ => None,
        }
    }

    /// The text of the string field named `key`.
    pub fn str_field(&self, key: &str) -> (r: Option<&str>)
        ensures
            match r {
                Some(s) => self@.str_field(key@) == Some(s@),
                None => self@.str_field(key@) is None,
            },
    {
        match self.get(key) {
            Some(v) => v.as_str(),
            None => None,
        }
    }

    /// The value of the unsigned integer field named `key`.
    pub fn u64_field(&self, key: &str) -> (r: Option<u64>)
        ensures
            r == self@.u64_field(key@),
    {
        match self.get(key) {
            Some(v) => v.as_u64(),
            None => None,
        }
    }

    /// The value of the field named `key` where it is a truth value.
    pub fn bool_field(&self, key: &str) -> (r: Option<bool>)
        ensures
            r == self@.bool_field(key@),
    {
        match self.get(key) {
            Some(v) => v.as_bool(),
            None => None,
        }
    }
}

/// A JSON string.
pub fn json_str(s: &str) -> (r: Json)
    ensures
        r@ == JsonView::Str(s@),
{
    Json::Str(s.to_owned())
}

/// An object with one field.
pub fn one_field(key: &str, value: Json) -> (r: Json)
    ensures
        r@ == JsonView::Object(seq![(key@, value@)]),
{
    let mut v: Vec<(String, Json)> = Vec::new();
    let ghost x = value@;
    v.push((key.to_owned(), value));
    proof {
        lemma_object_view(v);
        assert(fields(v@) =~= seq![(key@, x)]);
    }
    Json::Object(v)
}

/// The index of the first field named `key`, or the length where there is none.
pub open spec fn key_index(v: Seq<(Seq<char>, JsonView)>, key: Seq<char>) -> int
    decreases v.len(),
{
    if v.len() == 0 || v.first().0 == key {
        0
    } else {
        1 + key_index(v.drop_first(), key)
    }
}

/// The names of fields.
pub open spec fn names(v: Seq<(Seq<char>, JsonView)>) -> Seq<Seq<char>> {
    v.map_values(|f: (Seq<char>, JsonView)| f.0)
}

/// Whether fields stand in the order of their names, each of which occurs once.
pub open spec fn in_name_order(v: Seq<(Seq<char>, JsonView)>) -> bool {
    forall|i: int, j: int|
        0 <= i < j < v.len() ==> lex_less((#[trigger] v[i]).0, (#[trigger] v[j]).0)
}

/// The fields with `key` set to `value`: in the place of the field with that name,
/// or, where there is none, in the place that the order of the names gives it.
pub open spec fn with_field(
    v: Seq<(Seq<char>, JsonView)>,
    key: Seq<char>,
    value: JsonView,
) -> Seq<(Seq<char>, JsonView)> {
    let i = key_index(v, key);
    if i < v.len() {
        v.update(i, (key, value))
    } else {
        v.insert(place_of(names(v), key), (key, value))
    }
}

/// The fields without the one named `key`.
pub open spec fn without_field(v: Seq<(Seq<char>, JsonView)>, key: Seq<char>) -> Seq<
    (Seq<char>, JsonView),
> {
    let i = key_index(v, key);
    if i < v.len() {
        v.remove(i)
    } else {
        v
    }
}

/// What `key_index` is, and what it has to do with `field_of`.
pub proof fn lemma_key_index(v: Seq<(Seq<char>, JsonView)>, key: Seq<char>)
    ensures
        0 <= key_index(v, key) <= v.len(),
        key_index(v, key) < v.len() ==> v[key_index(v, key)].0 == key && field_of(v, key) == Some(
            v[key_index(v, key)].1,
        ),
        key_index(v, key) == v.len() ==> field_of(v, key) is None,
        forall|j: int| 0 <= j < key_index(v, key) ==> (#[trigger] v[j]).0 != key,
    decreases v.len(),
{
    if v.len() > 0 && v.first().0 != key {
        let r = v.drop_first();
        lemma_key_index(r, key);
        assert forall|j: int| 0 <= j < key_index(v, key) implies (#[trigger] v[j]).0 != key by {
            if j > 0 {
                assert(v[j] == r[j - 1]);
            }
        }
    }
}

/// The index that has the property of `key_index` is it.
pub proof fn lemma_is_key_index(v: Seq<(Seq<char>, JsonView)>, key: Seq<char>, i: int)
    requires
        0 <= i <= v.len(),
        i < v.len() ==> v[i].0 == key,
        forall|j: int| 0 <= j < i ==> (#[trigger] v[j]).0 != key,
    ensures
        key_index(v, key) == i,
{
    lemma_key_index(v, key);
    let k = key_index(v, key);
    if k < i {
        assert(v[k].0 != key);
    }
    if i < k {
        assert(v[i].0 != key);
    }
}

/// A field that was set is found with its value, and every other field is found as
/// before.
pub proof fn set_field_is_found(
    v: Seq<(Seq<char>, JsonView)>,
    key: Seq<char>,
    value: JsonView,
    other: Seq<char>,
)
    ensures
        field_of(with_field(v, key, value), key) == Some(value),
        other != key ==> field_of(with_field(v, key, value), other) == field_of(v, other),
{
    let w = with_field(v, key, value);
    let i = key_index(v, key);
    let p = place_of(names(v), key);
    lemma_key_index(v, key);
    lemma_place_of(names(v), key);
    let set = if i < v.len() {
        i
    } else {
        p
    };
    assert forall|j: int| 0 <= j < set implies (#[trigger] w[j]).0 != key by {
        assert(w[j] == v[j]);
    }
    lemma_is_key_index(w, key, set);
    lemma_key_index(w, key);
    if other != key {
        lemma_key_index(v, other);
        let k = key_index(v, other);
        let at = if k == v.len() {
            w.len() as int
        } else if i < v.len() || k < p {
            k
        } else {
            k + 1
        };
        assert forall|j: int| 0 <= j < at implies (#[trigger] w[j]).0 != other by {
            if j != set {
                let from = if i < v.len() || j < p {
                    j
                } else {
                    j - 1
                };
                assert(w[j] == v[from]);
            }
        }
        lemma_is_key_index(w, other, at);
        lemma_key_index(w, other);
    }
}

/// Fields that stand in the order of their names still do after one was set.
pub proof fn set_field_keeps_order(
    v: Seq<(Seq<char>, JsonView)>,
    key: Seq<char>,
    value: JsonView,
)
    requires
        in_name_order(v),
    ensures
        in_name_order(with_field(v, key, value)),
{
    let w = with_field(v, key, value);
    let k = key_index(v, key);
    let p = place_of(names(v), key);
    lemma_key_index(v, key);
    lemma_place_of(names(v), key);
    assert forall|i: int, j: int| 0 <= i < j < w.len() implies lex_less(
        (#[trigger] w[i]).0,
        (#[trigger] w[j]).0,
    ) by {
        if k < v.len() {
            assert(w[i].0 == v[i].0 && w[j].0 == v[j].0);
        } else if i == p {
            assert(w[j] == v[j - 1]);
            assert(names(v)[j - 1] == v[j - 1].0);
        } else if j == p {
            assert(w[i] == v[i]);
            let last = v[p - 1].0;
            assert(names(v)[p - 1] == last);
            assert(last != key);
            lex_is_total(last, key);
            if i < p - 1 {
                lex_is_transitive(v[i].0, last, key);
            }
        } else {
            let oi = if i < p {
                i
            } else {
                i - 1
            };
            let oj = if j < p {
                j
            } else {
                j - 1
            };
            assert(w[i] == v[oi] && w[j] == v[oj]);
        }
    }
}

/// A field that was removed is gone, where its name stood once; every other field
/// is found as before.
pub proof fn removed_field_is_gone(
    v: Seq<(Seq<char>, JsonView)>,
    key: Seq<char>,
    other: Seq<char>,
)
    requires
        distinct_keys(v),
    ensures
        field_of(without_field(v, key), key) is None,
        other != key ==> field_of(without_field(v, key), other) == field_of(v, other),
{
    let w = without_field(v, key);
    let i = key_index(v, key);
    lemma_key_index(v, key);
    assert forall|j: int| 0 <= j < w.len() implies (#[trigger] w[j]).0 != key by {
        if i < v.len() {
            if j < i {
                assert(w[j] == v[j]);
            } else {
                assert(w[j] == v[j + 1]);
                assert(v[i].0 != v[j + 1].0);
            }
        }
    }
    lemma_is_key_index(w, key, w.len() as int);
    lemma_key_index(w, key);
    if other != key && i < v.len() {
        lemma_key_index(v, other);
        let k = key_index(v, other);
        let at = if k < i {
            k
        } else if k < v.len() {
            k - 1
        } else {
            w.len() as int
        };
        assert forall|j: int| 0 <= j < at implies (#[trigger] w[j]).0 != other by {
            if j < i {
                assert(w[j] == v[j]);
            } else {
                assert(w[j] == v[j + 1]);
            }
        }
        if at < w.len() {
            if at < i {
                assert(w[at] == v[at]);
            } else {
                assert(w[at] == v[at + 1]);
            }
        }
        lemma_is_key_index(w, other, at);
        lemma_key_index(w, other);
    }
}

/// Finds the first field named `key`.
pub(crate) fn find_key(v: &Vec<(String, Json)>, key: &str) -> (r: usize)
    ensures
        r == key_index(fields(v@), key@),
        r <= v@.len(),
{
    let ghost all = fields(v@);
    let mut i: usize = 0;
    while i < v.len()
        invariant
            i <= v@.len(),
            all == fields(v@),
            forall|j: int| 0 <= j < i ==> (#[trigger] all[j]).0 != key@,
        decreases v@.len() - i,
    {
        if str_eq(v[i].0.as_str(), key) {
            proof {
                lemma_is_key_index(all, key@, i as int);
            }
            return i;
        }
        i = i + 1;
    }
    proof {
        lemma_is_key_index(all, key@, i as int);
    }
    i
}

fn find_place(v: &Vec<(String, Json)>, key: &str) -> (r: usize)
    ensures
        r == place_of(names(fields(v@)), key@),
        r <= v@.len(),
{
    let ghost all = names(fields(v@));
    let mut p: usize = v.len();
    assert(all.take(p as int) =~= all);
    while p > 0 && str_less(key, v[p - 1].0.as_str())
        invariant
            p <= v@.len(),
            all == names(fields(v@)),
            place_of(all, key@) == place_of(all.take(p as int), key@),
        decreases p,
    {
        assert(all.take(p as int).last() == v@[p - 1].0@);
        assert(all.take(p as int).drop_last() =~= all.take(p - 1));
        p = p - 1;
    }
    if p > 0 {
        assert(all.take(p as int).last() == v@[p - 1].0@);
    }
    p
}

/// Sets a field of an object's fields.
pub fn set_field(v: &mut Vec<(String, Json)>, key: &str, value: Json)
    ensures
        fields(final(v)@) == with_field(fields(old(v)@), key@, value@),
{
    let ghost before = fields(v@);
    let ghost x = (key@, value@);
    let i = find_key(v, key);
    if i < v.len() {
        v.set(i, (key.to_owned(), value));
        assert(fields(v@) =~= before.update(i as int, x));
    } else {
        let p = find_place(v, key);
        v.insert(p, (key.to_owned(), value));
        assert(fields(v@) =~= before.insert(p as int, x));
    }
}

/// Removes a field of an object's fields.
pub fn remove_field(v: &mut Vec<(String, Json)>, key: &str)
    ensures
        fields(final(v)@) == without_field(fields(old(v)@), key@),
{
    let ghost before = fields(v@);
    let i = find_key(v, key);
    if i < v.len() {
        v.remove(i);
        assert(fields(v@) =~= before.remove(i as int));
    }
}

impl JsonView {
    /// The value with a field set; a value that is no object stays as it is.
    pub open spec fn set(self, key: Seq<char>, value: JsonView) -> JsonView {
        match self {
            JsonView::Object(v) => JsonView::Object(with_field(v, key, value)),
            _ => self,
        }
    }

    /// The value without a field; a value that is no object stays as it is.
    pub open spec fn unset(self, key: Seq<char>) -> JsonView {
        match self {
            JsonView::Object(v) => JsonView::Object(without_field(v, key)),
            _ => self,
        }
    }
}

impl Json {
    /// Sets a field, where the value is an object.
    pub fn set(&mut self, key: &str, value: Json)
        ensures
            final(self)@ == old(self)@.set(key@, value@),
    {
        let mut taken = Json::Null;
        core::mem::swap(self, &mut taken);
        match taken {
            Json::Object(mut v) => {
                proof {
                    lemma_object_view(v);
                }
                set_field(&mut v, key, value);
                proof {
                    lemma_object_view(v);
                }
                *self = Json::Object(v);
            },
            other => {
                *self = other;
            },
        }
    }

    /// Removes a field, where the value is an object.
    pub fn unset(&mut self, key: &str)
        ensures
            final(self)@ == old(self)@.unset(key@),
    {
        let mut taken = Json::Null;
        core::mem::swap(self, &mut taken);
        match taken {
            Json::Object(mut v) => {
                proof {
                    lemma_object_view(v);
                }
                remove_field(&mut v, key);
                proof {
                    lemma_object_view(v);
                }
                *self = Json::Object(v);
            },
            other => {
                *self = other;
            },
        }
    }
}

/// `serde_json::Value`, carried as it is.
#[verifier::external_type_specification]
#[verifier::external_body]
pub struct ExValue(serde_json::Value);

/// The value that `serde_json::from_str::<Value>` reads from a text; `None`
/// where it returns an error.
pub uninterp spec fn json_parsed(text: Seq<char>) -> Option<JsonView>;

/// The text that `Display` of `serde_json::Value` writes: compact JSON.
pub uninterp spec fn json_text(j: JsonView) -> Seq<char>;

/// Whether no two fields have one name.
pub open spec fn distinct_keys(v: Seq<(Seq<char>, JsonView)>) -> bool {
    forall|i: int, j: int| 0 <= i < j < v.len() ==> (#[trigger] v[i]).0 != (#[trigger] v[j]).0
}

/// An object whose fields are unsigned integers under distinct names.
pub open spec fn is_counts(j: JsonView) -> bool {
    j matches JsonView::Object(v) && distinct_keys(v) && forall|i: int|
        0 <= i < v.len() ==> (#[trigger] v[i]).1 is Uint
}

/// A list of strings.
pub open spec fn is_string_list(j: JsonView) -> bool {
    j matches JsonView::Array(a) && forall|i: int| 0 <= i < a.len() ==> (#[trigger] a[i]) is Str
}

/// Whether reading `text` gives a value with the fields of `j`.
pub open spec fn reads_as(text: Seq<char>, j: JsonView) -> bool {
    json_parsed(text) matches Some(back) && forall|k: Seq<char>| back.get(k) == j.get(k)
}

/// Turns a `serde_json::Value` into a [`Json`], variant for variant. Nothing is
/// claimed of the result here: [`parse`] names it.
#[verifier::external_body]
fn from_value(v: serde_json::Value) -> (r: Json) {
    match v {
        serde_json::Value::Null => Json::Null,
        serde_json::Value::Bool(b) => Json::Bool(b),
        serde_json::Value::Number(n) => match (n.as_u64(), n.as_i64()) {
            (Some(u), _) => Json::Uint(u),
            (None, Some(i)) => Json::Int(i),
            (None, None) => Json::Float(n.to_string()),
        },
        serde_json::Value::String(s) => Json::Str(s),
        serde_json::Value::Array(a) => Json::Array(a.into_iter().map(from_value).collect()),
        serde_json::Value::Object(o) => Json::Object(
            o.into_iter().map(|(k, f)| (k, from_value(f))).collect(),
        ),
    }
}

/// Turns a [`Json`] into a `serde_json::Value`, variant for variant; a float is read from
/// its text with `str::parse`, which gives the nearest one. Nothing is claimed of the
/// result here: [`render`] names what is written of it.
#[verifier::external_body]
fn to_value(j: &Json) -> (r: serde_json::Value) {
    match j {
        Json::Null => serde_json::Value::Null,
        Json::Bool(b) => serde_json::Value::Bool(*b),
        Json::Uint(n) => serde_json::Value::from(*n),
        Json::Int(n) => serde_json::Value::from(*n),
        Json::Float(t) => t.parse().ok().and_then(serde_json::Number::from_f64).into(),
        Json::Str(s) => serde_json::Value::String(s.clone()),
        Json::Array(v) => serde_json::Value::Array(v.iter().map(to_value).collect()),
        Json::Object(v) => serde_json::Value::Object(
            v.iter().map(|f| (f.0.clone(), to_value(&f.1))).collect(),
        ),
    }
}

/// Reads a JSON text with `serde_json::from_str`: its result is a function of
/// the text alone, which `json_parsed` names.
#[verifier::external_body]
pub(crate) fn parse(text: &str) -> (r: Option<Json>)
    ensures
        match r {
            Some(j) => json_parsed(text@) == Some(j@),
            None => json_parsed(text@) is None,
        },
{
    serde_json::from_str::<serde_json::Value>(text).ok().map(from_value)
}

/// Writes a value as compact JSON with `serde_json::Value`'s `Display`. The text
/// is a function of the value alone, which `json_text` names; what is written of an
/// object of unsigned integers is read back with the same fields; and a list of
/// strings is read back as it was.
#[verifier::external_body]
pub(crate) fn render(j: &Json) -> (r: String)
    ensures
        r@ == json_text(j@),
        is_counts(j@) ==> reads_as(r@, j@),
        is_string_list(j@) ==> json_parsed(r@) == Some(j@),
{
    to_value(j).to_string()
}

/// The text that `serde_json::to_string_pretty` writes of a value.
pub uninterp spec fn json_pretty(j: JsonView) -> Seq<char>;

/// Writes a value as indented JSON with `serde_json::to_string_pretty`. The text is
/// a function of the value alone, which `json_pretty` names. Writing a value into a
/// string does not fail; were it to, the text would be empty.
#[verifier::external_body]
pub(crate) fn render_pretty(j: &Json) -> (r: String)
    ensures
        r@ == json_pretty(j@),
{
    serde_json::to_string_pretty(&to_value(j)).unwrap_or_default()
}

/// A field is read as what it is: text as text, a number as a number, a truth value as
/// one; another kind of value, or none, is not taken for it.
pub proof fn fields_are_read_as_they_are(j: JsonView, key: Seq<char>, s: Seq<char>, n: u64, b: bool)
    ensures
        j.get(key) == Some(JsonView::Str(s)) ==> j.str_field(key) == Some(s) && j.u64_field(
            key,
        ) is None && j.bool_field(key) is None,
        j.get(key) == Some(JsonView::Uint(n)) ==> j.u64_field(key) == Some(n) && j.str_field(
            key,
        ) is None && j.bool_field(key) is None,
        j.get(key) == Some(JsonView::Bool(b)) ==> j.bool_field(key) == Some(b) && j.str_field(
            key,
        ) is None && j.u64_field(key) is None,
        j.get(key) is None ==> j.str_field(key) is None && j.u64_field(key) is None
            && j.bool_field(key) is None,
        !(j is Object) ==> j.get(key) is None,
{
}

/// The value of a field is that of the first with its name, wherever it stands.
pub proof fn first_field_is_read(f: Seq<(Seq<char>, JsonView)>, key: Seq<char>, i: int)
    requires
        0 <= i <= f.len(),
        i < f.len() ==> f[i].0 == key,
        forall|k: int| 0 <= k < i ==> (#[trigger] f[k]).0 != key,
    ensures
        i < f.len() ==> JsonView::Object(f).get(key) == Some(f[i].1),
        i == f.len() ==> JsonView::Object(f).get(key) is None,
{
    lemma_is_key_index(f, key, i);
    lemma_key_index(f, key);
}

/// A field that is set is found with its value, one that is taken away is not found, and
/// every other field stays.
pub proof fn set_and_unset_fields(j: JsonView, key: Seq<char>, value: JsonView, other: Seq<char>)
    requires
        j is Object,
        other != key,
    ensures
        j.set(key, value).get(key) == Some(value),
        j.set(key, value).get(other) == j.get(other),
        distinct_keys(j->Object_0) ==> j.unset(key).get(key) is None && j.unset(key).get(other)
            == j.get(other),
{
    let f = j->Object_0;
    set_field_is_found(f, key, value, other);
    if distinct_keys(f) {
        removed_field_is_gone(f, key, other);
    }
}

/// A value holds all that it is made of, item by item and field by field.
pub proof fn values_hold_their_parts(a: Vec<Json>, o: Vec<(String, Json)>, s: String, i: int)
    ensures
        Json::Str(s)@ == JsonView::Str(s@),
        Json::Float(s)@ == JsonView::Float(s@),
        0 <= i < a@.len() ==> (Json::Array(a)@ matches JsonView::Array(v) && v.len() == a@.len()
            && v[i] == a@[i]@),
        0 <= i < o@.len() ==> (Json::Object(o)@ matches JsonView::Object(f) && f.len() == o@.len()
            && f[i] == (o@[i].0@, o@[i].1@)),
        0 <= i < a@.len() ==> values(a@)[i] == a@[i]@,
        0 <= i < o@.len() ==> fields(o@)[i] == (o@[i].0@, o@[i].1@),
{
    lemma_array_view(a);
    lemma_object_view(o);
}

} // verus!
