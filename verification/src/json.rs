//! A JSON document model the proxy logic reads and builds.
use vstd::prelude::*;
use vstd::string::*;
use serde_json::Value;

verus! {

/// A JSON number: non-negative integers, negative integers, and other numbers kept as
/// their decimal text.
#[derive(Debug)]
pub enum JsonNumber {
    PosInt(u64),
    NegInt(i64),
    Float(String),
}

/// A JSON value. Object entries keep their order; keys are unique in documents read from text.
#[derive(Debug)]
pub enum Json {
    Null,
    Bool(bool),
    Number(JsonNumber),
    Str(String),
    Array(Vec<Json>),
    Object(Vec<(String, Json)>),
}

/// The mathematical value of a JSON number.
pub enum JsonNumberV {
    PosInt(u64),
    NegInt(i64),
    Float(Seq<char>),
}

/// The mathematical value of a JSON document.
pub enum JsonV {
    Null,
    Bool(bool),
    Number(JsonNumberV),
    Str(Seq<char>),
    Array(Seq<JsonV>),
    Object(Seq<(Seq<char>, JsonV)>),
}

impl JsonNumber {
    pub open spec fn view_number(&self) -> JsonNumberV {
        match self {
            JsonNumber::PosInt(u) => JsonNumberV::PosInt(*u),
            JsonNumber::NegInt(i) => JsonNumberV::NegInt(*i),
            JsonNumber::Float(s) => JsonNumberV::Float(s@),
        }
    }
}

impl Json {
    pub open spec fn view_json(self) -> JsonV
        decreases self,
    {
        match self {
            Json::Null => JsonV::Null,
            Json::Bool(b) => JsonV::Bool(b),
            Json::Number(n) => JsonV::Number(n.view_number()),
            Json::Str(s) => JsonV::Str(s@),
            Json::Array(v) => JsonV::Array(Self::items_view(v@)),
            Json::Object(v) => JsonV::Object(Self::entries_view(v@)),
        }
    }

    pub open spec fn items_view(s: Seq<Json>) -> Seq<JsonV>
        decreases s,
    {
        if s.len() == 0 {
            seq![]
        } else {
            seq![s[0].view_json()] + Self::items_view(s.drop_first())
        }
    }

    pub open spec fn entries_view(s: Seq<(String, Json)>) -> Seq<(Seq<char>, JsonV)>
        decreases s,
    {
        if s.len() == 0 {
            seq![]
        } else {
            seq![(s[0].0@, s[0].1.view_json())] + Self::entries_view(s.drop_first())
        }
    }
}

impl View for Json {
    type V = JsonV;

    open spec fn view(&self) -> JsonV {
        self.view_json()
    }
}

} // verus!

verus! {

/// Position of the first entry with `key` at or after `i`.
pub open spec fn obj_find(e: Seq<(Seq<char>, JsonV)>, key: Seq<char>, i: int) -> Option<int>
    decreases e.len() - i,
{
    if i < 0 || i >= e.len() {
        None
    } else if e[i].0 == key {
        Some(i)
    } else {
        obj_find(e, key, i + 1)
    }
}

/// The member `key` of a JSON value (`Value::get`): the first entry with that key of an
/// object; nothing for any other value.
pub open spec fn jget(j: JsonV, key: Seq<char>) -> Option<JsonV> {
    match j {
        JsonV::Object(e) => match obj_find(e, key, 0) {
            Some(i) => Some(e[i].1),
            None => None,
        },
        _ => None,
    }
}

/// `Value::as_str`.
pub open spec fn jstr(j: JsonV) -> Option<Seq<char>> {
    match j {
        JsonV::Str(s) => Some(s),
        _ => None,
    }
}

/// `Value::as_u64`.
pub open spec fn ju64(j: JsonV) -> Option<u64> {
    match j {
        JsonV::Number(JsonNumberV::PosInt(u)) => Some(u),
        _ => None,
    }
}

/// `Value::as_bool`.
pub open spec fn jbool(j: JsonV) -> Option<bool> {
    match j {
        JsonV::Bool(b) => Some(b),
        _ => None,
    }
}

/// `Value::as_array`.
pub open spec fn jarr(j: JsonV) -> Option<Seq<JsonV>> {
    match j {
        JsonV::Array(a) => Some(a),
        _ => None,
    }
}

/// Optional chaining over a member lookup.
pub open spec fn oget(j: Option<JsonV>, key: Seq<char>) -> Option<JsonV> {
    match j {
        Some(v) => jget(v, key),
        None => None,
    }
}

pub open spec fn ostr(j: Option<JsonV>) -> Option<Seq<char>> {
    match j {
        Some(v) => jstr(v),
        None => None,
    }
}

pub open spec fn ou64(j: Option<JsonV>) -> Option<u64> {
    match j {
        Some(v) => ju64(v),
        None => None,
    }
}

pub open spec fn obool(j: Option<JsonV>) -> Option<bool> {
    match j {
        Some(v) => jbool(v),
        None => None,
    }
}

pub open spec fn oarr(j: Option<JsonV>) -> Option<Seq<JsonV>> {
    match j {
        Some(v) => jarr(v),
        None => None,
    }
}

/// Replace the first entry with `key`, or append one (`map.insert`).
pub open spec fn obj_insert(e: Seq<(Seq<char>, JsonV)>, key: Seq<char>, v: JsonV) -> Seq<
    (Seq<char>, JsonV),
> {
    match obj_find(e, key, 0) {
        Some(i) => e.update(i, (key, v)),
        None => e.push((key, v)),
    }
}

/// `value[key] = v` (`IndexMut` with a string key): null becomes an object first;
/// defined on objects and null only.
pub open spec fn jset(j: JsonV, key: Seq<char>, v: JsonV) -> JsonV {
    match j {
        JsonV::Object(e) => JsonV::Object(obj_insert(e, key, v)),
        _ => JsonV::Object(seq![(key, v)]),
    }
}

/// Whether `value[key] = v` is defined (it panics on booleans, numbers, strings and arrays).
pub open spec fn settable(j: JsonV) -> bool {
    j is Object || j is Null
}

impl Json {
    pub proof fn lemma_items_view(s: Seq<Json>)
        ensures
            Self::items_view(s).len() == s.len(),
            forall|i: int| 0 <= i < s.len() ==> #[trigger] Self::items_view(s)[i] == s[i]@,
        decreases s.len(),
    {
        if s.len() > 0 {
            Self::lemma_items_view(s.drop_first());
            assert forall|i: int| 0 <= i < s.len() implies #[trigger] Self::items_view(s)[i]
                == s[i]@ by {
                if i > 0 {
                    assert(s.drop_first()[i - 1] == s[i]);
                }
            }
        }
    }

    pub proof fn lemma_entries_view(s: Seq<(String, Json)>)
        ensures
            Self::entries_view(s).len() == s.len(),
            forall|i: int|
                0 <= i < s.len() ==> #[trigger] Self::entries_view(s)[i] == (s[i].0@, s[i].1@),
        decreases s.len(),
    {
        if s.len() > 0 {
            Self::lemma_entries_view(s.drop_first());
            assert forall|i: int| 0 <= i < s.len() implies #[trigger] Self::entries_view(s)[i]
                == (s[i].0@, s[i].1@) by {
                if i > 0 {
                    assert(s.drop_first()[i - 1] == s[i]);
                }
            }
        }
    }

    /// `Value::get` with a string key.
    pub fn get(&self, key: &str) -> (r: Option<&Json>)
        ensures
            match r {
                Some(x) => jget(self@, key@) == Some(x@),
                None => jget(self@, key@) is None,
            },
    {
        match self {
            Json::Object(entries) => {
                proof {
                    Self::lemma_entries_view(entries@);
                }
                let k = String::from_str(key);
                let ghost ev = Self::entries_view(entries@);
                assert(self@ == JsonV::Object(ev));
                let mut i: usize = 0;
                while i < entries.len()
                    invariant
                        i <= entries.len(),
                        ev == Self::entries_view(entries@),
                        self@ == JsonV::Object(ev),
                        ev.len() == entries.len(),
                        forall|j: int|
                            0 <= j < entries.len() ==> #[trigger] ev[j] == (
                                entries@[j].0@,
                                entries@[j].1@,
                            ),
                        k@ == key@,
                        obj_find(ev, key@, 0) == obj_find(ev, key@, i as int),
                    decreases entries.len() - i,
                {
                    if entries[i].0 == k {
                        assert(obj_find(ev, key@, i as int) == Some(i as int));
                        return Some(&entries[i].1);
                    }
                    i = i + 1;
                }
                None
            },
            _ => None,
        }
    }

    /// `Value::as_str`.
    pub fn as_str(&self) -> (r: Option<&str>)
        ensures
            match r {
                Some(s) => jstr(self@) == Some(s@),
                None => jstr(self@) is None,
            },
    {
        match self {
            Json::Str(s) => Some(s.as_str()),
            _ => None,
        }
    }

    /// `Value::as_u64`.
    pub fn as_u64(&self) -> (r: Option<u64>)
        ensures
            r == ju64(self@),
    {
        match self {
            Json::Number(JsonNumber::PosInt(u)) => Some(*u),
            _ => None,
        }
    }

    /// `Value::as_bool`.
    pub fn as_bool(&self) -> (r: Option<bool>)
        ensures
            r == jbool(self@),
    {
        match self {
            Json::Bool(b) => Some(*b),
            _ => None,
        }
    }

    /// `Value::as_array`.
    pub fn as_array(&self) -> (r: Option<&Vec<Json>>)
        ensures
            match r {
                Some(v) => jarr(self@) == Some(Self::items_view(v@)),
                None => jarr(self@) is None,
            },
    {
        match self {
            Json::Array(v) => Some(v),
            _ => None,
        }
    }

    /// `Value::is_null`.
    pub fn is_null(&self) -> (r: bool)
        ensures
            r == (self@ is Null),
    {
        match self {
            Json::Null => true,
            _ => false,
        }
    }

    /// A JSON string.
    pub fn string(s: &str) -> (r: Json)
        ensures
            r@ == JsonV::Str(s@),
    {
        Json::Str(String::from_str(s))
    }

    /// A non-negative JSON integer.
    pub fn uint(u: u64) -> (r: Json)
        ensures
            r@ == JsonV::Number(JsonNumberV::PosInt(u)),
    {
        Json::Number(JsonNumber::PosInt(u))
    }

    /// An empty JSON object.
    pub fn empty_object() -> (r: Json)
        ensures
            r@ == JsonV::Object(seq![]),
    {
        Json::Object(Vec::new())
    }

    /// An empty JSON array.
    pub fn empty_array() -> (r: Json)
        ensures
            r@ == JsonV::Array(seq![]),
    {
        Json::Array(Vec::new())
    }
}

} // verus!

verus! {

/// Index of the first entry whose key is `key`.
pub fn find_key(entries: &Vec<(String, Json)>, key: &str) -> (r: Option<usize>)
    ensures
        match r {
            Some(i) => obj_find(Json::entries_view(entries@), key@, 0) == Some(i as int) && i
                < entries.len(),
            None => obj_find(Json::entries_view(entries@), key@, 0) is None,
        },
{
    proof {
        Json::lemma_entries_view(entries@);
    }
    let k = String::from_str(key);
    let ghost ev = Json::entries_view(entries@);
    let mut i: usize = 0;
    while i < entries.len()
        invariant
            i <= entries.len(),
            ev == Json::entries_view(entries@),
            ev.len() == entries.len(),
            forall|j: int|
                0 <= j < entries.len() ==> #[trigger] ev[j] == (entries@[j].0@, entries@[j].1@),
            k@ == key@,
            obj_find(ev, key@, 0) == obj_find(ev, key@, i as int),
        decreases entries.len() - i,
    {
        if entries[i].0 == k {
            return Some(i);
        }
        i = i + 1;
    }
    None
}

/// Insert or replace a member of an entry list (`Map::insert`).
pub fn entries_insert(entries: &mut Vec<(String, Json)>, key: &str, v: Json)
    ensures
        Json::entries_view(final(entries)@) == obj_insert(
            Json::entries_view(old(entries)@),
            key@,
            v@,
        ),
{
    proof {
        Json::lemma_entries_view(entries@);
    }
    let ghost v_view = v@;
    match find_key(entries, key) {
        Some(i) => {
            entries.set(i, (String::from_str(key), v));
            proof {
                Json::lemma_entries_view(entries@);
                assert(Json::entries_view(entries@) =~= Json::entries_view(old(entries)@).update(
                    i as int,
                    (key@, v_view),
                ));
            }
        },
        None => {
            entries.push((String::from_str(key), v));
            proof {
                Json::lemma_entries_view(entries@);
                assert(Json::entries_view(entries@) =~= Json::entries_view(old(entries)@).push(
                    (key@, v_view),
                ));
            }
        },
    }
}

impl Json {
    /// `value[key] = v`: sets a member of an object, turning null into an object first.
    pub fn set(&mut self, key: &str, v: Json)
        requires
            settable(old(self)@),
        ensures
            final(self)@ == jset(old(self)@, key@, v@),
    {
        let mut cur = Json::Null;
        std::mem::swap(&mut cur, self);
        let ghost v_view = v@;
        match cur {
            Json::Object(mut entries) => {
                entries_insert(&mut entries, key, v);
                *self = Json::Object(entries);
            },
            _ => {
                let mut entries: Vec<(String, Json)> = Vec::new();
                entries.push((String::from_str(key), v));
                proof {
                    Json::lemma_entries_view(entries@);
                    assert(Json::entries_view(entries@) =~= seq![(key@, v_view)]);
                }
                *self = Json::Object(entries);
            },
        }
    }

    /// An object built from `(key, value)` members in order (later keys replace earlier ones).
    pub fn object_of(members: Vec<(String, Json)>) -> (r: Json)
        ensures
            r@ == JsonV::Object(Json::entries_view(members@)),
    {
        Json::Object(members)
    }
}

} // verus!

verus! {

impl Json {
    /// A copy of the document.
    pub fn deep_clone(&self) -> (r: Json)
        ensures
            r@ == self@,
        decreases self,
    {
        match self {
            Json::Null => Json::Null,
            Json::Bool(b) => Json::Bool(*b),
            Json::Number(JsonNumber::PosInt(u)) => Json::Number(JsonNumber::PosInt(*u)),
            Json::Number(JsonNumber::NegInt(i)) => Json::Number(JsonNumber::NegInt(*i)),
            Json::Number(JsonNumber::Float(s)) => Json::Number(JsonNumber::Float(s.clone())),
            Json::Str(s) => Json::Str(s.clone()),
            Json::Array(v) => {
                let mut out: Vec<Json> = Vec::new();
                let mut i: usize = 0;
                proof {
                    Json::lemma_items_view(v@);
                }
                while i < v.len()
                    invariant
                        i <= v.len(),
                        out.len() == i,
                        forall|j: int| 0 <= j < i ==> #[trigger] out@[j]@ == v@[j]@,
                        *self == Json::Array(*v),
                    decreases v.len() - i,
                {
                    proof {
                        assert(decreases_to!(*self => (*self)->Array_0));
                        assert(decreases_to!(*v => v@));
                        assert(decreases_to!(v@ => v@[i as int]));
                    }
                    let c = v[i].deep_clone();
                    out.push(c);
                    i = i + 1;
                }
                proof {
                    Json::lemma_items_view(out@);
                    assert(Json::items_view(out@) =~= Json::items_view(v@));
                }
                Json::Array(out)
            },
            Json::Object(v) => {
                let mut out: Vec<(String, Json)> = Vec::new();
                let mut i: usize = 0;
                proof {
                    Json::lemma_entries_view(v@);
                }
                while i < v.len()
                    invariant
                        i <= v.len(),
                        out.len() == i,
                        forall|j: int|
                            0 <= j < i ==> #[trigger] out@[j].0@ == v@[j].0@ && out@[j].1@
                                == v@[j].1@,
                        *self == Json::Object(*v),
                    decreases v.len() - i,
                {
                    proof {
                        assert(decreases_to!(*self => (*self)->Object_0));
                        assert(decreases_to!(*v => v@));
                        assert(decreases_to!(v@ => v@[i as int]));
                        assert(decreases_to!(v@[i as int] => v@[i as int].1));
                    }
                    let c = v[i].1.deep_clone();
                    out.push((v[i].0.clone(), c));
                    i = i + 1;
                }
                proof {
                    Json::lemma_entries_view(out@);
                    assert(Json::entries_view(out@) =~= Json::entries_view(v@));
                }
                Json::Object(out)
            },
        }
    }
}

} // verus!

verus! {

/// What a successful lookup tells: the entry at the found position has the key, and no
/// entry before it (from `k` on) does.
pub proof fn lemma_obj_find_some(e: Seq<(Seq<char>, JsonV)>, key: Seq<char>, k: int, i: int)
    requires
        obj_find(e, key, k) == Some(i),
    ensures
        0 <= k <= i < e.len(),
        e[i].0 == key,
        forall|j: int| k <= j < i ==> #[trigger] e[j].0 != key,
    decreases e.len() - k,
{
    if e[k].0 != key {
        lemma_obj_find_some(e, key, k + 1, i);
    }
}

proof fn lemma_obj_find_update(e: Seq<(Seq<char>, JsonV)>, key: Seq<char>, i: int, k: int, v: JsonV)
    requires
        obj_find(e, key, k) == Some(i),
    ensures
        obj_find(e.update(i, (key, v)), key, k) == Some(i),
    decreases i - k,
{
    lemma_obj_find_some(e, key, k, i);
    let e2 = e.update(i, (key, v));
    if k < i {
        assert(e2[k] == e[k]);
        assert(e[k].0 != key);
        lemma_obj_find_update(e, key, i, k + 1, v);
    } else {
        assert(e2[i].0 == key);
    }
}

/// Setting a member twice keeps only the second value.
pub proof fn lemma_jset_jset(j: JsonV, key: Seq<char>, a: JsonV, b: JsonV)
    requires
        settable(j),
    ensures
        jset(jset(j, key, a), key, b) == jset(j, key, b),
{
    match j {
        JsonV::Object(e) => {
            match obj_find(e, key, 0) {
                Some(i) => {
                    lemma_obj_find_some(e, key, 0, i);
                    lemma_obj_find_update(e, key, i, 0, a);
                    assert(e.update(i, (key, a)).update(i, (key, b)) =~= e.update(i, (key, b)));
                },
                None => {
                    lemma_obj_find_push(e, key, a, 0);
                    assert(e.push((key, a)).update(e.len() as int, (key, b)) =~= e.push((key, b)));
                },
            }
        },
        _ => {
            let e0: Seq<(Seq<char>, JsonV)> = seq![(key, a)];
            assert(obj_find(e0, key, 0) == Some(0int));
            assert(e0.update(0, (key, b)) =~= seq![(key, b)]);
        },
    }
}

/// Reading a member just set gives the value set.
pub proof fn law_jget_after_jset(o: JsonV, key: Seq<char>, v: JsonV)
    requires
        settable(o),
    ensures
        jget(jset(o, key, v), key) == Some(v),
{
    match o {
        JsonV::Object(e) => {
            match obj_find(e, key, 0) {
                Some(i) => {
                    lemma_obj_find_some(e, key, 0, i);
                    lemma_obj_find_update(e, key, i, 0, v);
                },
                None => {
                    lemma_obj_find_push(e, key, v, 0);
                },
            }
        },
        _ => {
            let e0: Seq<(Seq<char>, JsonV)> = seq![(key, v)];
            assert(obj_find(e0, key, 0) == Some(0int));
        },
    }
}

proof fn lemma_obj_find_push(e: Seq<(Seq<char>, JsonV)>, key: Seq<char>, a: JsonV, k: int)
    requires
        obj_find(e, key, k) is None,
        0 <= k <= e.len(),
    ensures
        obj_find(e.push((key, a)), key, k) == Some(e.len() as int),
    decreases e.len() - k,
{
    if k < e.len() {
        assert(e.push((key, a))[k] == e[k]);
        lemma_obj_find_push(e, key, a, k + 1);
    }
}

impl Json {
    /// Move the value of member `key` out of an object, leaving null in its place.
    pub fn take_member(&mut self, key: &str) -> (r: Option<Json>)
        ensures
            match r {
                Some(v) => jget(old(self)@, key@) == Some(v@) && final(self)@ == jset(
                    old(self)@,
                    key@,
                    JsonV::Null,
                ),
                None => jget(old(self)@, key@) is None && final(self)@ == old(self)@,
            },
    {
        let mut cur = Json::Null;
        std::mem::swap(&mut cur, self);
        match cur {
            Json::Object(mut entries) => {
                proof {
                    Json::lemma_entries_view(entries@);
                }
                let ghost before = entries@;
                match find_key(&entries, key) {
                    Some(i) => {
                        let (k, v) = entries.remove(i);
                        entries.insert(i, (k, Json::Null));
                        proof {
                            Json::lemma_entries_view(entries@);
                            assert(entries@ =~= before.update(i as int, (k, Json::Null)));
                            lemma_obj_find_some(Json::entries_view(before), key@, 0, i as int);
                            assert(k@ == key@);
                            assert(Json::entries_view(entries@) =~= Json::entries_view(
                                before,
                            ).update(i as int, (key@, JsonV::Null)));
                        }
                        *self = Json::Object(entries);
                        Some(v)
                    },
                    None => {
                        *self = Json::Object(entries);
                        None
                    },
                }
            },
            other => {
                *self = other;
                None
            },
        }
    }

    /// Number of elements of an array, or `None` for other values.
    pub fn array_len(&self) -> (r: Option<usize>)
        ensures
            match r {
                Some(n) => self@ is Array && n == self@->Array_0.len(),
                None => !(self@ is Array),
            },
    {
        match self {
            Json::Array(v) => {
                proof {
                    Json::lemma_items_view(v@);
                }
                Some(v.len())
            },
            _ => None,
        }
    }
}

} // verus!

verus! {

impl Json {
    /// Whether members can be set on the value (objects, and null, which becomes one).
    pub fn is_settable(&self) -> (r: bool)
        ensures
            r == settable(self@),
    {
        match self {
            Json::Object(_) => true,
            Json::Null => true,
            _ => false,
        }
    }

    /// `Value::is_object`.
    pub fn is_object(&self) -> (r: bool)
        ensures
            r == (self@ is Object),
    {
        match self {
            Json::Object(_) => true,
            _ => false,
        }
    }
}

/// The document that `serde_json::from_str::<serde_json::Value>` reads from a text, or
/// nothing when the text is not JSON.
pub uninterp spec fn spec_parse_json(text: Seq<char>) -> Option<JsonV>;

#[verifier::external_type_specification]
#[verifier::external_body]
pub struct ExValue(Value);

#[verifier::external_type_specification]
#[verifier::external_body]
pub struct ExNumber(serde_json::Number);

/// Carries a `serde_json::Number` over: integers that fit `u64` or `i64` stay integers,
/// other numbers keep serde_json's decimal text.
#[verifier::external_body]
fn number_of(n: serde_json::Number) -> JsonNumber {
    match (n.as_u64(), n.as_i64()) {
        (Some(u), _) => JsonNumber::PosInt(u),
        (None, Some(i)) => JsonNumber::NegInt(i),
        (None, None) => JsonNumber::Float(n.to_string()),
    }
}

/// Carries a `serde_json::Value` over into this library's document type, variant by
/// variant; object members keep the order in which serde_json yields them.
#[verifier::external_body]
fn json_of_value(v: Value) -> Json {
    match v {
        Value::Null => Json::Null,
        Value::Bool(b) => Json::Bool(b),
        Value::Number(n) => Json::Number(number_of(n)),
        Value::String(s) => Json::Str(s),
        Value::Array(a) => Json::Array(a.into_iter().map(json_of_value).collect()),
        Value::Object(o) => Json::Object(o.into_iter().map(|(k, x)| (k, json_of_value(x))).collect()),
    }
}

/// Reads a JSON text with `serde_json::from_str::<serde_json::Value>`. The contract claims
/// only that the outcome is a function of the text: the same text always gives the same
/// document, or always fails.
#[verifier::external_body]
pub fn parse_json(text: &str) -> (r: Option<Json>)
    ensures
        match r {
            Some(j) => spec_parse_json(text@) == Some(j@),
            None => spec_parse_json(text@) is None,
        },
{
    match serde_json::from_str::<serde_json::Value>(text) {
        Ok(v) => Some(json_of_value(v)),
        Err(_) => None,
    }
}


/// The document `serde_json::from_slice::<serde_json::Value>` reads from bytes, or nothing
/// when it fails.
pub uninterp spec fn spec_parse_json_bytes(bytes: Seq<u8>) -> Option<JsonV>;

/// Reads a JSON document from bytes with `serde_json::from_slice::<serde_json::Value>`. The
/// contract claims only that the outcome is a function of the bytes.
#[verifier::external_body]
pub(crate) fn parse_json_bytes(bytes: &[u8]) -> (r: Option<Json>)
    ensures
        match r {
            Some(j) => spec_parse_json_bytes(bytes@) == Some(j@),
            None => spec_parse_json_bytes(bytes@) is None,
        },
{
    match serde_json::from_slice::<serde_json::Value>(bytes) {
        Ok(v) => Some(json_of_value(v)),
        Err(_) => None,
    }
}

} // verus!

verus! {

proof fn lemma_obj_find_other(
    e: Seq<(Seq<char>, JsonV)>,
    e2: Seq<(Seq<char>, JsonV)>,
    k1: Seq<char>,
    k2: Seq<char>,
    j: int,
)
    requires
        k1 != k2,
        0 <= j,
        e.len() <= e2.len(),
        forall|x: int| 0 <= x < e.len() ==> (#[trigger] e2[x]).0 == e[x].0 || (e2[x].0 == k1
            && e[x].0 == k1),
        forall|x: int| 0 <= x < e.len() ==> e[x].0 == k2 ==> #[trigger] e2[x] == e[x],
        forall|x: int| e.len() <= x < e2.len() ==> (#[trigger] e2[x]).0 == k1,
    ensures
        obj_find(e2, k2, j) == obj_find(e, k2, j),
        obj_find(e2, k2, j) matches Some(i) ==> e2[i] == e[i],
    decreases e2.len() - j,
{
    if j < e2.len() {
        lemma_obj_find_other(e, e2, k1, k2, j + 1);
    }
}

/// Setting one member leaves every other member as it was.
pub proof fn lemma_jget_jset_other(o: JsonV, k1: Seq<char>, v: JsonV, k2: Seq<char>)
    requires
        k1 != k2,
    ensures
        jget(jset(o, k1, v), k2) == jget(o, k2),
{
    match o {
        JsonV::Object(e) => {
            let e2 = obj_insert(e, k1, v);
            match obj_find(e, k1, 0) {
                Some(i) => {
                    lemma_obj_find_some(e, k1, 0, i);
                },
                None => {},
            }
            lemma_obj_find_other(e, e2, k1, k2, 0);
        },
        _ => {
            let e2: Seq<(Seq<char>, JsonV)> = seq![(k1, v)];
            assert(obj_find(e2, k2, 1) is None);
        },
    }
}

} // verus!

verus! {

/// The JSON number of a signed integer, as `serde_json` makes it: non-negative values are
/// unsigned integers.
pub open spec fn int_view(i: i64) -> JsonV {
    if i >= 0 {
        JsonV::Number(JsonNumberV::PosInt(i as u64))
    } else {
        JsonV::Number(JsonNumberV::NegInt(i))
    }
}

impl Json {
    /// A signed JSON integer.
    pub fn signed(i: i64) -> (r: Json)
        ensures
            r@ == int_view(i),
    {
        if i >= 0 {
            Json::Number(JsonNumber::PosInt(i as u64))
        } else {
            Json::Number(JsonNumber::NegInt(i))
        }
    }
}

/// The text `serde_json::to_string` writes for a document, or nothing when it fails.
pub uninterp spec fn spec_json_text(j: JsonV) -> Option<Seq<char>>;

/// Carries a number over into a `serde_json::Number`; a number kept as text is read back
/// with serde_json's number parser (`None` if it refuses it).
#[verifier::external_body]
fn value_number(n: &JsonNumber) -> Option<serde_json::Number> {
    match n {
        JsonNumber::PosInt(u) => Some(serde_json::Number::from(*u)),
        JsonNumber::NegInt(i) => Some(serde_json::Number::from(*i)),
        JsonNumber::Float(s) => s.parse::<serde_json::Number>().ok(),
    }
}

/// Carries a document over into a `serde_json::Value`, variant by variant (the inverse of
/// `json_of_value`); a number that serde_json cannot read back becomes JSON null.
#[verifier::external_body]
fn value_of_json(j: &Json) -> Value {
    match j {
        Json::Null => Value::Null,
        Json::Bool(b) => Value::Bool(*b),
        Json::Number(n) => value_number(n).map_or(Value::Null, Value::Number),
        Json::Str(s) => Value::String(s.clone()),
        Json::Array(a) => Value::Array(a.iter().map(value_of_json).collect()),
        Json::Object(o) => Value::Object(o.iter().map(|(k, x)| (k.clone(), value_of_json(x))).collect()),
    }
}

/// Writes a document as JSON text with `serde_json::to_string`; `None` when it reports an
/// error. The contract claims only that the outcome is a function of the document.
#[verifier::external_body]
pub fn json_text(j: &Json) -> (r: Option<String>)
    ensures
        match r {
            Some(t) => spec_json_text(j@) == Some(t@),
            None => spec_json_text(j@) is None,
        },
{
    match serde_json::to_string(&value_of_json(j)) {
        Ok(s) => Some(s),
        Err(_) => None,
    }
}

/// The text `serde_json::to_string_pretty` writes for a document, or nothing when it fails.
pub uninterp spec fn spec_json_pretty_text(j: JsonV) -> Option<Seq<char>>;

/// Writes a document as indented JSON text with `serde_json::to_string_pretty`; `None` when
/// it reports an error. The contract claims only that the outcome is a function of the
/// document.
#[verifier::external_body]
pub(crate) fn json_pretty_text(j: &Json) -> (r: Option<String>)
    ensures
        match r {
            Some(t) => spec_json_pretty_text(j@) == Some(t@),
            None => spec_json_pretty_text(j@) is None,
        },
{
    match serde_json::to_string_pretty(&value_of_json(j)) {
        Ok(s) => Some(s),
        Err(_) => None,
    }
}

} // verus!

verus! {

/// `Value::as_i64`.
pub open spec fn ji64(j: JsonV) -> Option<i64> {
    match j {
        JsonV::Number(JsonNumberV::PosInt(u)) => if u <= i64::MAX {
            Some(u as i64)
        } else {
            None
        },
        JsonV::Number(JsonNumberV::NegInt(i)) => Some(i),
        _ => None,
    }
}

impl Json {
    /// `Value::as_i64`.
    pub fn as_i64(&self) -> (r: Option<i64>)
        ensures
            r == ji64(self@),
    {
        match self {
            Json::Number(JsonNumber::PosInt(u)) => {
                if *u <= i64::MAX as u64 {
                    Some(*u as i64)
                } else {
                    None
                }
            },
            Json::Number(JsonNumber::NegInt(i)) => Some(*i),
            _ => None,
        }
    }
}

} // verus!

verus! {

/// An object with two members, in the order given.
pub fn object2(k1: &str, v1: Json, k2: &str, v2: Json) -> (r: Json)
    ensures
        r@ == JsonV::Object(seq![(k1@, v1@), (k2@, v2@)]),
{
    let ghost (a, b) = (v1@, v2@);
    let mut e: Vec<(String, Json)> = Vec::new();
    e.push((String::from_str(k1), v1));
    e.push((String::from_str(k2), v2));
    proof {
        Json::lemma_entries_view(e@);
        assert(Json::entries_view(e@) =~= seq![(k1@, a), (k2@, b)]);
    }
    Json::object_of(e)
}

/// An object with three members, in the order given.
pub fn object3(k1: &str, v1: Json, k2: &str, v2: Json, k3: &str, v3: Json) -> (r: Json)
    ensures
        r@ == JsonV::Object(seq![(k1@, v1@), (k2@, v2@), (k3@, v3@)]),
{
    let ghost (a, b, c) = (v1@, v2@, v3@);
    let mut e: Vec<(String, Json)> = Vec::new();
    e.push((String::from_str(k1), v1));
    e.push((String::from_str(k2), v2));
    e.push((String::from_str(k3), v3));
    proof {
        Json::lemma_entries_view(e@);
        assert(Json::entries_view(e@) =~= seq![(k1@, a), (k2@, b), (k3@, c)]);
    }
    Json::object_of(e)
}

/// An object with four members, in the order given.
pub fn object4(k1: &str, v1: Json, k2: &str, v2: Json, k3: &str, v3: Json, k4: &str, v4: Json) -> (r: Json)
    ensures
        r@ == JsonV::Object(seq![(k1@, v1@), (k2@, v2@), (k3@, v3@), (k4@, v4@)]),
{
    let ghost (a, b, c, d) = (v1@, v2@, v3@, v4@);
    let mut e: Vec<(String, Json)> = Vec::new();
    e.push((String::from_str(k1), v1));
    e.push((String::from_str(k2), v2));
    e.push((String::from_str(k3), v3));
    e.push((String::from_str(k4), v4));
    proof {
        Json::lemma_entries_view(e@);
        assert(Json::entries_view(e@) =~= seq![(k1@, a), (k2@, b), (k3@, c), (k4@, d)]);
    }
    Json::object_of(e)
}


} // verus!
