//! JSON values as plain data, parsed and printed by `serde_json`.
use vstd::prelude::*;
use crate::text;

verus! {

#[verifier::external_type_specification]
#[verifier::external_body]
pub struct ExSerdeJsonValue(serde_json::Value);

/// The mathematical form of a JSON value. A number is held as the text
/// that `serde_json` prints for it; an object's members keep their order.
pub enum JsonView {
    Null,
    Bool(bool),
    Number(Seq<char>),
    Str(Seq<char>),
    Array(Seq<JsonView>),
    /// Member names and member values, of the same length.
    Object(Seq<Seq<char>>, Seq<JsonView>),
}

/// A JSON value.
pub enum JsonValue {
    Null,
    Bool(bool),
    Number(String),
    Str(String),
    Array(Vec<JsonValue>),
    Object(Vec<(String, JsonValue)>),
}

impl View for JsonValue {
    type V = JsonView;

    open spec fn view(&self) -> JsonView
        decreases self,
    {
        match self {
            JsonValue::Null => JsonView::Null,
            JsonValue::Bool(b) => JsonView::Bool(*b),
            JsonValue::Number(n) => JsonView::Number(n@),
            JsonValue::Str(s) => JsonView::Str(s@),
            JsonValue::Array(v) => JsonView::Array(
                Seq::new(
                    v.len() as nat,
                    |i: int|
                        if 0 <= i < v.len() {
                            v[i].view()
                        } else {
                            JsonView::Null
                        },
                ),
            ),
            JsonValue::Object(v) => JsonView::Object(
                Seq::new(v.len() as nat, |i: int| v[i].0@),
                Seq::new(
                    v.len() as nat,
                    |i: int|
                        if 0 <= i < v.len() {
                            v[i].1.view()
                        } else {
                            JsonView::Null
                        },
                ),
            ),
        }
    }
}

/// What `serde_json::from_str::<serde_json::Value>` gives for a text: `None`
/// where it reports an error. Objects come with their members ordered by
/// name, as `serde_json`'s default map keeps them.
pub uninterp spec fn json_parse(text: Seq<char>) -> Option<JsonView>;

/// The compact text that `serde_json::to_string` prints for a value.
pub uninterp spec fn json_compact(v: JsonView) -> Seq<char>;

#[verifier::external_body]
fn from_serde(v: serde_json::Value) -> JsonValue {
    match v {
        serde_json::Value::Null => JsonValue::Null,
        serde_json::Value::Bool(b) => JsonValue::Bool(b),
        serde_json::Value::Number(n) => JsonValue::Number(n.to_string()),
        serde_json::Value::String(s) => JsonValue::Str(s),
        serde_json::Value::Array(a) => JsonValue::Array(a.into_iter().map(from_serde).collect()),
        serde_json::Value::Object(m) => JsonValue::Object(
            m.into_iter().map(|(k, x)| (k, from_serde(x))).collect(),
        ),
    }
}

#[verifier::external_body]
fn to_serde(v: &JsonValue) -> serde_json::Value {
    match v {
        JsonValue::Null => serde_json::Value::Null,
        JsonValue::Bool(b) => serde_json::Value::Bool(*b),
        JsonValue::Number(n) => n.parse::<serde_json::Number>().map(serde_json::Value::Number)
            .unwrap_or(serde_json::Value::Null),
        JsonValue::Str(s) => serde_json::Value::String(s.clone()),
        JsonValue::Array(a) => serde_json::Value::Array(a.iter().map(to_serde).collect()),
        JsonValue::Object(m) => serde_json::Value::Object(
            m.iter().map(|(k, x)| (k.clone(), to_serde(x))).collect(),
        ),
    }
}

/// Calls `serde_json::from_str::<serde_json::Value>`; the result, held as
/// plain data, is `json_parse` of the text.
#[verifier::external_body]
pub(crate) fn parse_json(text: &str) -> (r: Option<JsonValue>)
    ensures
        match json_parse(text@) {
            Some(j) => r is Some && r->0@ == j,
            None => r is None,
        },
{
    serde_json::from_str::<serde_json::Value>(text).ok().map(from_serde)
}

/// Calls `serde_json::to_string` on an array or object; the result is
/// `json_compact` of the value.
#[verifier::external_body]
pub(crate) fn compact_text(v: &JsonValue) -> (r: String)
    ensures
        r@ == json_compact(v@),
{
    serde_json::to_string(&to_serde(v)).unwrap_or_default()
}

/// The index of the first of `names` equal to `key`, or `names.len()`.
pub open spec fn first_index(names: Seq<Seq<char>>, key: Seq<char>) -> int
    decreases names.len(),
{
    if names.len() == 0 || names[0] == key {
        0
    } else {
        1 + first_index(names.drop_first(), key)
    }
}

/// The member named `key` of an object (`Value::get` with a string key).
pub open spec fn member(v: JsonView, key: Seq<char>) -> Option<JsonView> {
    match v {
        JsonView::Object(names, values) => if first_index(names, key) < names.len() {
            Some(values[first_index(names, key)])
        } else {
            None
        },
        _ => None,
    }
}

proof fn lemma_first_index(names: Seq<Seq<char>>, key: Seq<char>, i: int)
    requires
        0 <= i <= names.len(),
        i < names.len() ==> names[i] == key,
        forall|j: int| 0 <= j < i ==> names[j] != key,
    ensures
        first_index(names, key) == i,
    decreases i,
{
    if i > 0 {
        assert(names[0] != key);
        assert forall|j: int| 0 <= j < i - 1 implies names.drop_first()[j] != key by {
            assert(names.drop_first()[j] == names[j + 1]);
        }
        lemma_first_index(names.drop_first(), key, i - 1);
    }
}

/// How a value is printed as a variable's text: a string's own text, the
/// compact JSON text of anything else.
pub open spec fn value_text(v: JsonView) -> Seq<char> {
    match v {
        JsonView::Str(s) => s,
        JsonView::Null => seq!['n', 'u', 'l', 'l'],
        JsonView::Bool(b) => if b {
            seq!['t', 'r', 'u', 'e']
        } else {
            seq!['f', 'a', 'l', 's', 'e']
        },
        JsonView::Number(n) => n,
        _ => json_compact(v),
    }
}

proof fn lemma_object_view(v: JsonValue)
    requires
        v is Object,
    ensures
        v@ is Object,
        v@->Object_0.len() == v->Object_0.len(),
        v@->Object_1.len() == v->Object_0.len(),
        forall|j: int|
            0 <= j < v->Object_0.len() ==> #[trigger] v@->Object_0[j] == v->Object_0@[j].0@,
        forall|j: int|
            0 <= j < v->Object_0.len() ==> #[trigger] v@->Object_1[j] == v->Object_0@[j].1@,
{
}

proof fn lemma_array_view(v: JsonValue)
    requires
        v is Array,
    ensures
        v@ is Array,
        v@->Array_0.len() == v->Array_0.len(),
        forall|j: int| 0 <= j < v->Array_0.len() ==> #[trigger] v@->Array_0[j] == v->Array_0@[j]@,
{
}

impl JsonValue {
    /// `Value::get` with a string key: the member named `key` of an object.
    pub fn get(&self, key: &str) -> (r: Option<&JsonValue>)
        ensures
            match member(self@, key@) {
                Some(m) => r is Some && r->0@ == m,
                None => r is None,
            },
    {
        match self {
            JsonValue::Object(fields) => {
                proof {
                    lemma_object_view(*self);
                }
                let ghost names = self@->Object_0;
                let mut i: usize = 0;
                while i < fields.len()
                    invariant
                        i <= fields.len(),
                        *self == JsonValue::Object(*fields),
                        names.len() == fields.len(),
                        names == self@->Object_0,
                        forall|j: int|
                            0 <= j < fields.len() ==> #[trigger] names[j] == fields@[j].0@,
                        forall|j: int| 0 <= j < i ==> names[j] != key@,
                    decreases fields.len() - i,
                {
                    if text::str_eq(fields[i].0.as_str(), key) {
                        proof {
                            lemma_first_index(names, key@, i as int);
                            lemma_object_view(*self);
                            assert(names == self@->Object_0);
                        }
                        return Some(&fields[i].1);
                    }
                    i = i + 1;
                }
                proof {
                    lemma_first_index(names, key@, i as int);
                }
                None
            },
            _ => None,
        }
    }

    /// `Value::as_str`.
    pub fn as_str(&self) -> (r: Option<&str>)
        ensures
            match self@ {
                JsonView::Str(s) => r is Some && r->0@ == s,
                _ => r is None,
            },
    {
        match self {
            JsonValue::Str(s) => Some(s.as_str()),
            _ => None,
        }
    }

    /// `Value::as_array`.
    pub fn as_array(&self) -> (r: Option<&Vec<JsonValue>>)
        ensures
            match self@ {
                JsonView::Array(items) => r is Some && r->0@.len() == items.len() && (forall|i: int|
                    0 <= i < items.len() ==> #[trigger] r->0@[i]@ == items[i]),
                _ => r is None,
            },
    {
        match self {
            JsonValue::Array(items) => {
                proof {
                    lemma_array_view(*self);
                }
                Some(items)
            },
            _ => None,
        }
    }

    /// The member names of an object, in order (`Map::keys`).
    pub fn object_keys(&self) -> (r: Option<Vec<String>>)
        ensures
            match self@ {
                JsonView::Object(names, _) => r is Some && text::views(r->0@) == names,
                _ => r is None,
            },
    {
        match self {
            JsonValue::Object(fields) => {
                let mut keys: Vec<String> = Vec::new();
                let mut i: usize = 0;
                while i < fields.len()
                    invariant
                        i <= fields.len(),
                        keys.len() == i,
                        forall|j: int| 0 <= j < i ==> #[trigger] keys@[j]@ == fields@[j].0@,
                    decreases fields.len() - i,
                {
                    keys.push(fields[i].0.clone());
                    i = i + 1;
                }
                proof {
                    lemma_object_view(*self);
                }
                assert(text::views(keys@) =~= self@->Object_0);
                Some(keys)
            },
            _ => None,
        }
    }

    /// The value as a variable's text: a string's own text, the compact JSON
    /// of anything else.
    pub fn to_text(&self) -> (r: String)
        ensures
            r@ == value_text(self@),
    {
        match self {
            JsonValue::Str(s) => s.clone(),
            JsonValue::Null => {
                let r = String::from_str("null");
                proof {
                    reveal_strlit("null");
                }
                assert(r@ =~= seq!['n', 'u', 'l', 'l']);
                r
            },
            JsonValue::Bool(b) => {
                proof {
                    reveal_strlit("true");
                    reveal_strlit("false");
                }
                if *b {
                    let r = String::from_str("true");
                    assert(r@ =~= seq!['t', 'r', 'u', 'e']);
                    r
                } else {
                    let r = String::from_str("false");
                    assert(r@ =~= seq!['f', 'a', 'l', 's', 'e']);
                    r
                }
            },
            JsonValue::Number(n) => n.clone(),
            _ => compact_text(self),
        }
    }

    /// A copy of the value.
    pub fn copy(&self) -> (r: JsonValue)
        ensures
            r@ == self@,
        decreases self,
    {
        match self {
            JsonValue::Null => JsonValue::Null,
            JsonValue::Bool(b) => JsonValue::Bool(*b),
            JsonValue::Number(n) => JsonValue::Number(n.clone()),
            JsonValue::Str(s) => JsonValue::Str(s.clone()),
            JsonValue::Array(items) => {
                let mut out: Vec<JsonValue> = Vec::new();
                let mut i: usize = 0;
                while i < items.len()
                    invariant
                        *self == JsonValue::Array(*items),
                        i <= items.len(),
                        out.len() == i,
                        forall|j: int| 0 <= j < i ==> #[trigger] out@[j]@ == items@[j]@,
                    decreases items.len() - i,
                {
                    proof {
                        assert(decreases_to!(*self => self->Array_0));
                        assert(decreases_to!(self->Array_0 => self->Array_0@));
                        assert(decreases_to!(self->Array_0@ => self->Array_0@[i as int]));
                    }
                    out.push(items[i].copy());
                    i = i + 1;
                }
                let r = JsonValue::Array(out);
                proof {
                    lemma_array_view(r);
                    lemma_array_view(*self);
                    assert(r@->Array_0 =~= self@->Array_0);
                }
                r
            },
            JsonValue::Object(fields) => {
                let mut out: Vec<(String, JsonValue)> = Vec::new();
                let mut i: usize = 0;
                while i < fields.len()
                    invariant
                        *self == JsonValue::Object(*fields),
                        i <= fields.len(),
                        out.len() == i,
                        forall|j: int| 0 <= j < i ==> #[trigger] out@[j].0@ == fields@[j].0@,
                        forall|j: int| 0 <= j < i ==> #[trigger] out@[j].1@ == fields@[j].1@,
                    decreases fields.len() - i,
                {
                    proof {
                        assert(decreases_to!(*self => self->Object_0));
                        assert(decreases_to!(self->Object_0 => self->Object_0@));
                        assert(decreases_to!(self->Object_0@ => self->Object_0@[i as int]));
                        assert(decreases_to!(self->Object_0@[i as int] => self->Object_0@[i as int].1));
                    }
                    out.push((fields[i].0.clone(), fields[i].1.copy()));
                    i = i + 1;
                }
                let r = JsonValue::Object(out);
                proof {
                    lemma_object_view(r);
                    lemma_object_view(*self);
                    assert(r@->Object_0 =~= self@->Object_0);
                    assert forall|j: int| 0 <= j < fields.len() implies r@->Object_1[j]
                        == self@->Object_1[j] by {
                        assert(out@[j].1@ == fields@[j].1@);
                    }
                    assert(r@->Object_1 =~= self@->Object_1);
                }
                r
            },
        }
    }
}

/// What `serde_json::Value`'s `==` gives for two values, each converted to
/// a `serde_json::Value` (a number's text parsed as a `serde_json::Number`,
/// `null` where it does not parse; an object's members collected into its
/// map, a later member replacing an earlier one of the same name). It
/// compares numbers as numbers (so `0.0` equals `-0.0`), arrays item by
/// item, and objects as maps from member names to values.
pub uninterp spec fn value_eq(a: JsonView, b: JsonView) -> bool;

/// Calls `serde_json::Value`'s `==` on the two values, converted; the result
/// is `value_eq` of them.
#[verifier::external_body]
pub(crate) fn json_eq(a: &JsonValue, b: &JsonValue) -> (r: bool)
    ensures
        r == value_eq(a@, b@),
{
    to_serde(a) == to_serde(b)
}

} // verus!
