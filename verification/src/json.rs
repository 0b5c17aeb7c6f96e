//! A JSON document as plain values — what the event normalizer, the tool
//! loop, and the config handling read and build. Text is parsed and printed
//! by `serde_json`; everything the library decides about a document it
//! decides over this type.

use vstd::prelude::*;

use crate::text::eq_str;

verus! {

/// A JSON value. Numbers keep the kind `serde_json` gives them: a
/// non-negative integer, a negative integer, or a floating-point number
/// (held as its JSON text). A document built here keeps its members in the
/// order given, and a lookup finds the first member with the key; a parsed
/// document's members come in the order `serde_json` gives them (sorted by
/// key, each key once), and printing likewise sorts them.
#[derive(Debug, PartialEq)]
pub enum Json {
    Null,
    Bool(bool),
    PosInt(u64),
    NegInt(i64),
    Float(String),
    Str(String),
    Array(Vec<Json>),
    Object(Vec<(String, Json)>),
}

/// The mathematical value of a [`Json`].
pub enum JsonV {
    Null,
    Bool(bool),
    PosInt(u64),
    NegInt(i64),
    Float(Seq<char>),
    Str(Seq<char>),
    Array(Seq<JsonV>),
    Object(Seq<(Seq<char>, JsonV)>),
}

pub open spec fn json_view(j: Json) -> JsonV
    decreases j,
{
    match j {
        Json::Null => JsonV::Null,
        Json::Bool(b) => JsonV::Bool(b),
        Json::PosInt(n) => JsonV::PosInt(n),
        Json::NegInt(n) => JsonV::NegInt(n),
        Json::Float(t) => JsonV::Float(t@),
        Json::Str(s) => JsonV::Str(s@),
        Json::Array(v) => JsonV::Array(
            Seq::new(v@.len(), |i: int| if 0 <= i < v@.len() { json_view(v@[i]) } else { JsonV::Null }),
        ),
        Json::Object(m) => JsonV::Object(
            Seq::new(m@.len(), |i: int| if 0 <= i < m@.len() { (m@[i].0@, json_view(m@[i].1)) } else { (Seq::empty(), JsonV::Null) }),
        ),
    }
}

impl View for Json {
    type V = JsonV;

    open spec fn view(&self) -> JsonV {
        json_view(*self)
    }
}


/// The value of the first member of `m` named `key`.
pub open spec fn member(m: Seq<(Seq<char>, JsonV)>, key: Seq<char>) -> Option<JsonV>
    decreases m.len(),
{
    if m.len() == 0 {
        None
    } else if m[0].0 == key {
        Some(m[0].1)
    } else {
        member(m.drop_first(), key)
    }
}

impl JsonV {
    /// `Value::get(key)`: the member named `key` of an object; `None` for
    /// anything that is not an object or lacks the key.
    pub open spec fn get(self, key: Seq<char>) -> Option<JsonV> {
        match self {
            JsonV::Object(m) => member(m, key),
            _ => None,
        }
    }

    pub open spec fn as_str(self) -> Option<Seq<char>> {
        match self {
            JsonV::Str(s) => Some(s),
            _ => None,
        }
    }

    pub open spec fn as_bool(self) -> Option<bool> {
        match self {
            JsonV::Bool(b) => Some(b),
            _ => None,
        }
    }

    /// `Value::as_u64`: a non-negative integer.
    pub open spec fn as_u64(self) -> Option<u64> {
        match self {
            JsonV::PosInt(n) => Some(n),
            _ => None,
        }
    }

    /// `Value::as_i64`: an integer that fits `i64`.
    pub open spec fn as_i64(self) -> Option<i64> {
        match self {
            JsonV::PosInt(n) => if n <= i64::MAX {
                Some(n as i64)
            } else {
                None
            },
            JsonV::NegInt(n) => Some(n),
            _ => None,
        }
    }

    pub open spec fn as_array(self) -> Option<Seq<JsonV>> {
        match self {
            JsonV::Array(a) => Some(a),
            _ => None,
        }
    }

    pub open spec fn is_object(self) -> bool {
        self is Object
    }

    /// The `key` member read as a string, if it is one.
    pub open spec fn str_member(self, key: Seq<char>) -> Option<Seq<char>> {
        match self.get(key) {
            Some(v) => v.as_str(),
            None => None,
        }
    }
}

impl Json {
    /// The member named `key` of an object (`Value::get`).
    pub fn get(&self, key: &str) -> (r: Option<&Json>)
        ensures
            r matches Some(x) ==> self@.get(key@) == Some(x@),
            r is None ==> self@.get(key@) is None,
    {
        match self {
            Json::Object(m) => {
                let mut i: usize = 0;
                assert(self@->Object_0.subrange(0, m@.len() as int) =~= self@->Object_0);
                while i < m.len()
                    invariant
                        i <= m@.len(),
                        self@ == json_view(Json::Object(*m)),
                        member(self@->Object_0, key@) == member(
                            self@->Object_0.subrange(i as int, m@.len() as int),
                            key@,
                        ),
                        self@->Object_0.len() == m@.len(),
                        forall|k: int|
                            0 <= k < m@.len() ==> #[trigger] self@->Object_0[k] == (
                            m@[k].0@,
                            json_view(m@[k].1),
                        ),
                    decreases m@.len() - i,
                {
                    let ghost mv = self@->Object_0;
                    let ghost rest = mv.subrange(i as int, mv.len() as int);
                    assert(rest[0] == mv[i as int]);
                    assert(rest.drop_first() =~= mv.subrange(i + 1, mv.len() as int));
                    if eq_str(m[i].0.as_str(), key) {
                        return Some(&m[i].1);
                    }
                    i = i + 1;
                }
                None
            },
            _ => None,
        }
    }

    /// The text of a string value (`Value::as_str`).
    pub fn as_str(&self) -> (r: Option<&str>)
        ensures
            r matches Some(x) ==> self@.as_str() == Some(x@),
            r is None ==> self@.as_str() is None,
    {
        match self {
            Json::Str(s) => Some(s.as_str()),
            _ => None,
        }
    }

    /// The `key` member read as a string, if it is one
    /// (`v.get(key).and_then(Value::as_str)`).
    pub fn get_str(&self, key: &str) -> (r: Option<&str>)
        ensures
            r matches Some(x) ==> self@.str_member(key@) == Some(x@),
            r is None ==> self@.str_member(key@) is None,
    {
        match self.get(key) {
            Some(x) => x.as_str(),
            None => None,
        }
    }

    /// `Value::as_bool`.
    pub fn as_bool(&self) -> (r: Option<bool>)
        ensures
            r == self@.as_bool(),
    {
        match self {
            Json::Bool(b) => Some(*b),
            _ => None,
        }
    }

    /// `Value::as_u64`.
    pub fn as_u64(&self) -> (r: Option<u64>)
        ensures
            r == self@.as_u64(),
    {
        match self {
            Json::PosInt(n) => Some(*n),
            _ => None,
        }
    }

    /// `Value::as_i64`.
    pub fn as_i64(&self) -> (r: Option<i64>)
        ensures
            r == self@.as_i64(),
    {
        match self {
            Json::PosInt(n) => if *n <= i64::MAX as u64 {
                Some(*n as i64)
            } else {
                None
            },
            Json::NegInt(n) => Some(*n),
            _ => None,
        }
    }

    /// `Value::as_array`.
    pub fn as_array(&self) -> (r: Option<&Vec<Json>>)
        ensures
            r matches Some(v) ==> self@.as_array() == Some(
                Seq::new(v@.len(), |i: int| v@[i]@),
            ),
            r is None ==> self@.as_array() is None,
    {
        match self {
            Json::Array(v) => {
                assert(self@.as_array()->0 =~= Seq::new(v@.len(), |i: int| v@[i]@));
                Some(v)
            },
            _ => None,
        }
    }

    /// Is this an object?
    pub fn is_object(&self) -> (r: bool)
        ensures
            r == self@.is_object(),
    {
        match self {
            Json::Object(_) => true,
            _ => false,
        }
    }

    /// A copy of this value.
    pub fn duplicate(&self) -> (r: Json)
        ensures
            r@ == self@,
        decreases self,
    {
        match self {
            Json::Null => Json::Null,
            Json::Bool(b) => Json::Bool(*b),
            Json::PosInt(n) => Json::PosInt(*n),
            Json::NegInt(n) => Json::NegInt(*n),
            Json::Float(t) => Json::Float(t.clone()),
            Json::Str(s) => Json::Str(s.clone()),
            Json::Array(v) => {
                let mut out: Vec<Json> = Vec::new();
                let mut i: usize = 0;
                while i < v.len()
                    invariant
                        i <= v@.len(),
                        *self == Json::Array(*v),
                        out@.len() == i,
                        forall|k: int| 0 <= k < i ==> #[trigger] out@[k]@ == v@[k]@,
                    decreases v@.len() - i,
                {
                    proof {
                        assert((*self)->Array_0 == *v);
                        assert(decreases_to!(*self => (*self)->Array_0));
                        assert(decreases_to!(*v => v@));
                        assert(decreases_to!(v@ => v@[i as int]));
                    }
                    out.push(v[i].duplicate());
                    i = i + 1;
                }
                let r = Json::Array(out);
                assert forall|k: int| 0 <= k < v@.len() implies r@->Array_0[k] == self@->Array_0[k] by {
                    assert(out@[k]@ == v@[k]@);
                }
                assert(r@->Array_0 =~= self@->Array_0);
                r
            },
            Json::Object(m) => {
                let mut out: Vec<(String, Json)> = Vec::new();
                let mut i: usize = 0;
                while i < m.len()
                    invariant
                        i <= m@.len(),
                        *self == Json::Object(*m),
                        out@.len() == i,
                        forall|k: int|
                            #![trigger out@[k]]
                            0 <= k < i ==> out@[k].0@ == m@[k].0@ && out@[k].1@ == m@[k].1@,
                    decreases m@.len() - i,
                {
                    proof {
                        assert((*self)->Object_0 == *m);
                        assert(decreases_to!(*self => (*self)->Object_0));
                        assert(decreases_to!(*m => m@));
                        assert(decreases_to!(m@ => m@[i as int]));
                        assert(decreases_to!(m@[i as int] => m@[i as int].1));
                    }
                    let k = m[i].0.clone();
                    let v = m[i].1.duplicate();
                    out.push((k, v));
                    i = i + 1;
                }
                let r = Json::Object(out);
                assert forall|k: int| 0 <= k < m@.len() implies r@->Object_0[k] == self@->Object_0[k] by {
                    assert(out@[k].0@ == m@[k].0@ && out@[k].1@ == m@[k].1@);
                }
                assert(r@->Object_0 =~= self@->Object_0);
                r
            },
        }
    }
}


// ---------------------------------------------------------------------------
// Text: parsing and printing through serde_json.
// ---------------------------------------------------------------------------

#[verifier::external_type_specification]
#[verifier::external_body]
pub struct ExValue(serde_json::Value);

/// What a `serde_json::Value` holds.
pub uninterp spec fn value_of(v: serde_json::Value) -> JsonV;

/// `serde_json::from_str::<Value>`: the document `text` holds, or `None` when
/// it is not valid JSON.
pub uninterp spec fn parsed_json(text: Seq<char>) -> Option<JsonV>;

/// `serde_json::to_string`: the compact text of a value.
pub uninterp spec fn json_text(v: JsonV) -> Seq<char>;

/// `serde_json::to_string_pretty`: the indented text of a value.
pub uninterp spec fn json_pretty_text(v: JsonV) -> Seq<char>;

/// Parse `text` with `serde_json::from_str::<serde_json::Value>`. The contract
/// ties the result to the named reading of the text.
#[verifier::external_body]
fn parse_value(text: &str) -> (r: Option<serde_json::Value>)
    ensures
        r matches Some(v) ==> parsed_json(text@) == Some(value_of(v)),
        r is None ==> parsed_json(text@) is None,
{
    serde_json::from_str::<serde_json::Value>(text).ok()
}

/// Convert a `serde_json::Value`, variant for variant, into a [`Json`]
/// (numbers keep their integer or floating-point kind).
#[verifier::external_body]
fn from_value(v: &serde_json::Value) -> (r: Json)
    ensures
        r@ == value_of(*v),
{
    match v {
        serde_json::Value::Null => Json::Null,
        serde_json::Value::Bool(b) => Json::Bool(*b),
        serde_json::Value::Number(n) => match (n.as_u64(), n.as_i64()) {
            (Some(u), _) => Json::PosInt(u),
            (None, Some(i)) => Json::NegInt(i),
            _ => Json::Float(n.to_string()),
        },
        serde_json::Value::String(s) => Json::Str(s.clone()),
        serde_json::Value::Array(a) => Json::Array(a.iter().map(from_value).collect()),
        serde_json::Value::Object(m) => Json::Object(m.iter().map(|(k, x)| (k.clone(), from_value(x))).collect()),
    }
}

/// Convert a [`Json`], variant for variant, into a `serde_json::Value`; used
/// only by the printing wrappers below, whose contracts speak of the [`Json`].
#[verifier::external_body]
fn to_value(j: &Json) -> serde_json::Value {
    match j {
        Json::Null => serde_json::Value::Null,
        Json::Bool(b) => serde_json::Value::Bool(*b),
        Json::PosInt(u) => serde_json::Value::from(*u),
        Json::NegInt(i) => serde_json::Value::from(*i),
        Json::Float(t) => serde_json::from_str(t).unwrap_or(serde_json::Value::Null),
        Json::Str(s) => serde_json::Value::String(s.clone()),
        Json::Array(a) => serde_json::Value::Array(a.iter().map(to_value).collect()),
        Json::Object(m) => serde_json::Value::Object(m.iter().map(|(k, x)| (k.clone(), to_value(x))).collect()),
    }
}

/// `serde_json::to_string` of a document.
#[verifier::external_body]
fn print_compact(j: &Json) -> (r: String)
    ensures
        r@ == json_text(j@),
{
    serde_json::to_string(&to_value(j)).unwrap_or_default()
}

/// `serde_json::to_string_pretty` of a document.
#[verifier::external_body]
fn print_pretty(j: &Json) -> (r: String)
    ensures
        r@ == json_pretty_text(j@),
{
    serde_json::to_string_pretty(&to_value(j)).unwrap_or_default()
}

impl Json {
    /// Parse JSON text; `None` when it is not valid JSON.
    pub fn parse(text: &str) -> (r: Option<Json>)
        ensures
            r matches Some(j) ==> parsed_json(text@) == Some(j@),
            r is None ==> parsed_json(text@) is None,
    {
        match parse_value(text) {
            Some(v) => Some(from_value(&v)),
            None => None,
        }
    }

    /// The compact JSON text of this value.
    pub fn to_text(&self) -> (r: String)
        ensures
            r@ == json_text(self@),
    {
        print_compact(self)
    }

    /// The indented JSON text of this value.
    pub fn to_pretty_text(&self) -> (r: String)
        ensures
            r@ == json_pretty_text(self@),
    {
        print_pretty(self)
    }
}


// ---------------------------------------------------------------------------
// Building values.
// ---------------------------------------------------------------------------

pub open spec fn jnum_u64(n: u64) -> JsonV {
    JsonV::PosInt(n)
}

/// An `i64` as `serde_json` stores it: non-negative values as `PosInt`.
pub open spec fn jnum_i64(n: i64) -> JsonV {
    if n >= 0 {
        JsonV::PosInt(n as u64)
    } else {
        JsonV::NegInt(n)
    }
}

pub open spec fn jopt_str(o: Option<Seq<char>>) -> JsonV {
    match o {
        Some(s) => JsonV::Str(s),
        None => JsonV::Null,
    }
}

pub open spec fn jopt_u64(o: Option<u64>) -> JsonV {
    match o {
        Some(n) => jnum_u64(n),
        None => JsonV::Null,
    }
}

pub open spec fn jopt_i64(o: Option<i64>) -> JsonV {
    match o {
        Some(n) => jnum_i64(n),
        None => JsonV::Null,
    }
}

pub open spec fn opt_view(o: Option<String>) -> Option<Seq<char>> {
    match o {
        Some(s) => Some(s@),
        None => None,
    }
}

impl Json {
    pub fn from_u64(n: u64) -> (r: Json)
        ensures
            r@ == jnum_u64(n),
    {
        Json::PosInt(n)
    }

    pub fn from_i64(n: i64) -> (r: Json)
        ensures
            r@ == jnum_i64(n),
    {
        if n >= 0 {
            Json::PosInt(n as u64)
        } else {
            Json::NegInt(n)
        }
    }

    /// A string value holding `s`.
    pub fn text(s: &str) -> (r: Json)
        ensures
            r@ == JsonV::Str(s@),
    {
        Json::Str(crate::text::owned(s))
    }

    pub fn from_opt_string(o: Option<String>) -> (r: Json)
        ensures
            r@ == jopt_str(opt_view(o)),
    {
        match o {
            Some(s) => Json::Str(s),
            None => Json::Null,
        }
    }

    pub fn from_opt_u64(o: Option<u64>) -> (r: Json)
        ensures
            r@ == jopt_u64(o),
    {
        match o {
            Some(n) => Json::from_u64(n),
            None => Json::Null,
        }
    }

    pub fn from_opt_i64(o: Option<i64>) -> (r: Json)
        ensures
            r@ == jopt_i64(o),
    {
        match o {
            Some(n) => Json::from_i64(n),
            None => Json::Null,
        }
    }
}


// ---------------------------------------------------------------------------
// Setting an object member.
// ---------------------------------------------------------------------------

/// The members of an object, by value.
pub open spec fn pairs_view(m: Seq<(String, Json)>) -> Seq<(Seq<char>, JsonV)> {
    Seq::new(m.len(), |i: int| (m[i].0@, m[i].1@))
}

pub proof fn lemma_member_push(m: Seq<(Seq<char>, JsonV)>, x: (Seq<char>, JsonV), k: Seq<char>)
    ensures
        member(m.push(x), k) == match member(m, k) {
            Some(v) => Some(v),
            None => if k == x.0 {
                Some(x.1)
            } else {
                None
            },
        },
    decreases m.len(),
{
    if m.len() > 0 {
        assert(m.push(x)[0] == m[0]);
        assert(m.push(x).drop_first() =~= m.drop_first().push(x));
        lemma_member_push(m.drop_first(), x, k);
        if m[0].0 == k {
            assert(member(m.push(x), k) == Some(m[0].1));
        } else {
            assert(member(m.push(x), k) == member(m.drop_first().push(x), k));
            assert(member(m, k) == member(m.drop_first(), k));
        }
    } else {
        assert(m.push(x).drop_first() =~= Seq::<(Seq<char>, JsonV)>::empty());
        assert(m.push(x)[0] == x);
        assert(member(Seq::<(Seq<char>, JsonV)>::empty(), k) is None);
    }
}

pub proof fn lemma_member_update(m: Seq<(Seq<char>, JsonV)>, i: int, key: Seq<char>, v: JsonV, k: Seq<char>)
    requires
        0 <= i < m.len(),
        m[i].0 == key,
        forall|j: int| 0 <= j < i ==> m[j].0 != key,
    ensures
        member(m.update(i, (key, v)), k) == if k == key {
            Some(v)
        } else {
            member(m, k)
        },
    decreases i,
{
    let u = m.update(i, (key, v));
    if i > 0 {
        assert(u[0] == m[0]);
        assert(u.drop_first() =~= m.drop_first().update(i - 1, (key, v)));
        assert(m[0].0 != key);
        assert forall|j: int| 0 <= j < i - 1 implies m.drop_first()[j].0 != key by {
            assert(m.drop_first()[j] == m[j + 1]);
        }
        lemma_member_update(m.drop_first(), i - 1, key, v, k);
        assert(m.drop_first()[i - 1] == m[i]);
        if m[0].0 == k {
            assert(member(u, k) == Some(m[0].1));
            assert(member(m, k) == Some(m[0].1));
        } else {
            assert(member(u, k) == member(u.drop_first(), k));
            assert(member(m, k) == member(m.drop_first(), k));
        }
    } else {
        assert(u[0] == (key, v));
        assert(u.drop_first() =~= m.drop_first());
        if k == key {
            assert(member(m, k) == Some(m[0].1));
            assert(member(u, k) == Some(v));
        } else {
            assert(member(u, k) == member(u.drop_first(), k));
            assert(member(m, k) == member(m.drop_first(), k));
        }
    }
}

pub proof fn lemma_member_first(m: Seq<(Seq<char>, JsonV)>, i: int, key: Seq<char>)
    requires
        0 <= i < m.len(),
        m[i].0 == key,
        forall|j: int| 0 <= j < i ==> m[j].0 != key,
    ensures
        member(m, key) == Some(m[i].1),
    decreases i,
{
    if i > 0 {
        assert(m[0].0 != key);
        assert forall|j: int| 0 <= j < i - 1 implies m.drop_first()[j].0 != key by {
            assert(m.drop_first()[j] == m[j + 1]);
        }
        lemma_member_first(m.drop_first(), i - 1, key);
    }
}

pub proof fn lemma_member_absent(m: Seq<(Seq<char>, JsonV)>, key: Seq<char>)
    requires
        forall|j: int| 0 <= j < m.len() ==> m[j].0 != key,
    ensures
        member(m, key) is None,
    decreases m.len(),
{
    if m.len() > 0 {
        assert(m[0].0 != key);
        assert forall|j: int| 0 <= j < m.drop_first().len() implies m.drop_first()[j].0 != key by {
            assert(m.drop_first()[j] == m[j + 1]);
        }
        lemma_member_absent(m.drop_first(), key);
    }
}

/// Set member `key` of an object's members to `value`: the first member so
/// named takes the value, or the member is added at the end.
pub fn set_member(m: &mut Vec<(String, Json)>, key: &str, value: Json)
    ensures
        forall|k: Seq<char>| #[trigger] member(pairs_view(final(m)@), k) == if k == key@ {
            Some(value@)
        } else {
            member(pairs_view(old(m)@), k)
        },
{
    let ghost pv = pairs_view(m@);
    let ghost vv = value@;
    let mut i: usize = 0;
    while i < m.len()
        invariant
            i <= m@.len(),
            pv == pairs_view(m@),
            pv == pairs_view(old(m)@),
            vv == value@,
            forall|j: int| 0 <= j < i ==> m@[j].0@ != key@,
        decreases m@.len() - i,
    {
        if eq_str(m[i].0.as_str(), key) {
            proof {
                lemma_member_first(pv, i as int, key@);
            }
            let ghost before = m@;
            let k_s = crate::text::owned(key);
            m.set(i, (k_s, value));
            proof {
                assert(m@ == before.update(i as int, (k_s, value)));
                assert(pairs_view(m@).len() == pv.len());
                assert forall|j: int| 0 <= j < pv.len() implies pairs_view(m@)[j] == pv.update(i as int, (key@, vv))[j] by {
                    if j != i {
                        assert(m@[j] == before[j]);
                        assert(pairs_view(before)[j] == pv[j]);
                    } else {
                        assert(m@[j] == (k_s, value));
                        assert(m@[j].0@ == key@);
                        assert(m@[j].1@ == vv);
                    }
                }
                assert(pairs_view(m@) =~= pv.update(i as int, (key@, vv)));
                assert forall|k: Seq<char>| #[trigger] member(pairs_view(m@), k) == if k == key@ {
                    Some(vv)
                } else {
                    member(pv, k)
                } by {
                    lemma_member_update(pv, i as int, key@, vv, k);
                }
            }
            return;
        }
        i = i + 1;
    }
    proof {
        lemma_member_absent(pv, key@);
    }
    m.push((crate::text::owned(key), value));
    proof {
        assert(pairs_view(m@) =~= pv.push((key@, vv)));
        assert forall|k: Seq<char>| #[trigger] member(pairs_view(m@), k) == if k == key@ {
            Some(vv)
        } else {
            member(pv, k)
        } by {
            lemma_member_push(pv, (key@, vv), k);
        }
    }
}

} // verus!
