//! JSON values as the library reads and builds them.
//!
//! An object keeps its members in order; reading a member takes the first
//! one with the key, and the builders keep keys unique.

use vstd::prelude::*;
use crate::text::{first_index, lemma_first_index_prefix, lemma_first_index_push, str_eq, decimal_string, u128_to_decimal, string_push_str};

verus! {

/// A JSON number: a non-negative integer, a negative integer, or any other
/// number by its decimal text.
pub enum JsonNumber {
    PosInt(u64),
    NegInt(i64),
    Float(String),
}

/// A JSON value.
pub enum Json {
    Null,
    Bool(bool),
    Number(JsonNumber),
    Str(String),
    Array(Vec<Json>),
    Object(Vec<(String, Json)>),
}

/// A JSON number by value.
pub enum NumberView {
    PosInt(u64),
    NegInt(i64),
    Float(Seq<char>),
}

/// A JSON value by value.
pub enum JsonView {
    Null,
    Bool(bool),
    Number(NumberView),
    Str(Seq<char>),
    Array(Seq<JsonView>),
    Object(Seq<(Seq<char>, JsonView)>),
}

impl JsonNumber {
    pub open spec fn view(&self) -> NumberView {
        match self {
            JsonNumber::PosInt(n) => NumberView::PosInt(*n),
            JsonNumber::NegInt(n) => NumberView::NegInt(*n),
            JsonNumber::Float(s) => NumberView::Float(s@),
        }
    }
}

impl Json {
    pub open spec fn view(&self) -> JsonView
        decreases self,
    {
        match self {
            Json::Null => JsonView::Null,
            Json::Bool(b) => JsonView::Bool(*b),
            Json::Number(n) => JsonView::Number(n.view()),
            Json::Str(s) => JsonView::Str(s@),
            Json::Array(v) => JsonView::Array(views(v@)),
            Json::Object(m) => JsonView::Object(member_views(m@)),
        }
    }
}

pub open spec fn views(s: Seq<Json>) -> Seq<JsonView>
    decreases s,
{
    if s.len() == 0 {
        Seq::empty()
    } else {
        views(s.drop_last()).push(s.last().view())
    }
}

pub open spec fn member_views(s: Seq<(String, Json)>) -> Seq<(Seq<char>, JsonView)>
    decreases s,
{
    if s.len() == 0 {
        Seq::empty()
    } else {
        member_views(s.drop_last()).push((s.last().0@, s.last().1.view()))
    }
}

pub proof fn lemma_views(s: Seq<Json>)
    ensures
        views(s).len() == s.len(),
        forall|i: int| 0 <= i < s.len() ==> #[trigger] views(s)[i] == s[i].view(),
    decreases s.len(),
{
    if s.len() > 0 {
        lemma_views(s.drop_last());
        assert forall|i: int| 0 <= i < s.len() implies #[trigger] views(s)[i] == s[i].view() by {
            if i < s.len() - 1 {
                assert(s.drop_last()[i] == s[i]);
            }
        }
    }
}

pub proof fn lemma_member_views(s: Seq<(String, Json)>)
    ensures
        member_views(s).len() == s.len(),
        forall|i: int| 0 <= i < s.len() ==> #[trigger] member_views(s)[i] == (s[i].0@, s[i].1.view()),
    decreases s.len(),
{
    if s.len() > 0 {
        lemma_member_views(s.drop_last());
        assert forall|i: int| 0 <= i < s.len() implies #[trigger] member_views(s)[i] == (s[i].0@, s[i].1.view()) by {
            if i < s.len() - 1 {
                assert(s.drop_last()[i] == s[i]);
            }
        }
    }
}

pub proof fn lemma_views_push(s: Seq<Json>, j: Json)
    ensures
        views(s.push(j)) == views(s).push(j.view()),
{
    assert(s.push(j).drop_last() =~= s);
}

pub proof fn lemma_member_views_push(s: Seq<(String, Json)>, m: (String, Json))
    ensures
        member_views(s.push(m)) == member_views(s).push((m.0@, m.1.view())),
{
    assert(s.push(m).drop_last() =~= s);
}

// ---------------------------------------------------------------------------
// Reading values
// ---------------------------------------------------------------------------

/// A member named `key`.
pub open spec fn keyed(key: Seq<char>) -> spec_fn((Seq<char>, JsonView)) -> bool {
    |e: (Seq<char>, JsonView)| e.0 == key
}

/// The first member `key` of an object; none for anything else.
pub open spec fn jget(j: JsonView, key: Seq<char>) -> Option<JsonView> {
    match j {
        JsonView::Object(m) => match first_index(m, keyed(key)) {
            Some(i) => Some(m[i].1),
            None => None,
        },
        _ => None,
    }
}

/// The text of a string value.
pub open spec fn jstr(j: JsonView) -> Option<Seq<char>> {
    match j {
        JsonView::Str(s) => Some(s),
        _ => None,
    }
}

/// A non-negative integer value.
pub open spec fn ju64(j: JsonView) -> Option<u64> {
    match j {
        JsonView::Number(NumberView::PosInt(n)) => Some(n),
        _ => None,
    }
}

/// A boolean value.
pub open spec fn jbool(j: JsonView) -> Option<bool> {
    match j {
        JsonView::Bool(b) => Some(b),
        _ => None,
    }
}

/// The elements of an array value.
pub open spec fn jarr(j: JsonView) -> Option<Seq<JsonView>> {
    match j {
        JsonView::Array(a) => Some(a),
        _ => None,
    }
}

/// The text of member `key`, where it is a string.
pub open spec fn get_str(j: JsonView, key: Seq<char>) -> Option<Seq<char>> {
    match jget(j, key) {
        Some(v) => jstr(v),
        None => None,
    }
}

/// Member `key`, where it is a non-negative integer.
pub open spec fn get_u64(j: JsonView, key: Seq<char>) -> Option<u64> {
    match jget(j, key) {
        Some(v) => ju64(v),
        None => None,
    }
}

/// Member `key`, where it is a boolean.
pub open spec fn get_bool(j: JsonView, key: Seq<char>) -> Option<bool> {
    match jget(j, key) {
        Some(v) => jbool(v),
        None => None,
    }
}

/// The elements of member `key`, where it is an array.
pub open spec fn get_arr(j: JsonView, key: Seq<char>) -> Option<Seq<JsonView>> {
    match jget(j, key) {
        Some(v) => jarr(v),
        None => None,
    }
}

/// An optional reference to a value, by value.
pub open spec fn opt_json(r: Option<&Json>) -> Option<JsonView> {
    match r {
        Some(j) => Some(j.view()),
        None => None,
    }
}

/// An optional string slice, by value.
pub open spec fn opt_text(r: Option<&str>) -> Option<Seq<char>> {
    match r {
        Some(s) => Some(s@),
        None => None,
    }
}

impl Json {
    /// Member `key` of an object.
    pub fn get(&self, key: &str) -> (r: Option<&Json>)
        ensures
            opt_json(r) == jget(self.view(), key@),
    {
        match self {
            Json::Object(m) => {
                let ghost mv = member_views(m@);
                proof {
                    lemma_member_views(m@);
                }
                let mut i: usize = 0;
                assert(mv.subrange(0, 0) =~= Seq::<(Seq<char>, JsonView)>::empty());
                while i < m.len()
                    invariant
                        i <= m@.len(),
                        mv == member_views(m@),
                        self.view() == JsonView::Object(mv),
                        mv.len() == m@.len(),
                        forall|k: int| 0 <= k < m@.len() ==> #[trigger] mv[k] == (m@[k].0@, m@[k].1.view()),
                        first_index(mv.subrange(0, i as int), keyed(key@)) == None::<int>,
                    decreases m.len() - i,
                {
                    proof {
                        lemma_first_index_push(mv, keyed(key@), i as int);
                    }
                    if str_eq(m[i].0.as_str(), key) {
                        proof {
                            assert(keyed(key@)(mv[i as int]));
                            lemma_first_index_prefix(mv, keyed(key@), i as int + 1);
                            assert(first_index(mv, keyed(key@)) == Some(i as int));
                        }
                        return Some(&m[i].1);
                    }
                    i = i + 1;
                }
                assert(mv.subrange(0, mv.len() as int) =~= mv);
                None
            },
            _ => None,
        }
    }

    /// The text of a string value.
    pub fn as_str(&self) -> (r: Option<&str>)
        ensures
            opt_text(r) == jstr(self.view()),
    {
        match self {
            Json::Str(s) => Some(s.as_str()),
            _ => None,
        }
    }

    /// A non-negative integer value.
    pub fn as_u64(&self) -> (r: Option<u64>)
        ensures
            r == ju64(self.view()),
    {
        match self {
            Json::Number(JsonNumber::PosInt(n)) => Some(*n),
            _ => None,
        }
    }

    /// A boolean value.
    pub fn as_bool(&self) -> (r: Option<bool>)
        ensures
            r == jbool(self.view()),
    {
        match self {
            Json::Bool(b) => Some(*b),
            _ => None,
        }
    }

    /// The elements of an array value.
    pub fn as_array(&self) -> (r: Option<&Vec<Json>>)
        ensures
            match r {
                Some(v) => jarr(self.view()) == Some(views(v@)),
                None => jarr(self.view()) is None,
            },
    {
        match self {
            Json::Array(v) => Some(v),
            _ => None,
        }
    }

    /// The text of member `key`, where it is a string.
    pub fn get_str(&self, key: &str) -> (r: Option<&str>)
        ensures
            opt_text(r) == get_str(self.view(), key@),
    {
        match self.get(key) {
            Some(v) => v.as_str(),
            None => None,
        }
    }

    /// Member `key`, where it is a non-negative integer.
    pub fn get_u64(&self, key: &str) -> (r: Option<u64>)
        ensures
            r == get_u64(self.view(), key@),
    {
        match self.get(key) {
            Some(v) => v.as_u64(),
            None => None,
        }
    }

    /// Member `key`, where it is a boolean.
    pub fn get_bool(&self, key: &str) -> (r: Option<bool>)
        ensures
            r == get_bool(self.view(), key@),
    {
        match self.get(key) {
            Some(v) => v.as_bool(),
            None => None,
        }
    }

    /// The elements of member `key`, where it is an array.
    pub fn get_array(&self, key: &str) -> (r: Option<&Vec<Json>>)
        ensures
            match r {
                Some(v) => get_arr(self.view(), key@) == Some(views(v@)),
                None => get_arr(self.view(), key@) is None,
            },
    {
        match self.get(key) {
            Some(v) => v.as_array(),
            None => None,
        }
    }
}

// ---------------------------------------------------------------------------
// Building values
// ---------------------------------------------------------------------------

/// `m` with member `key` set to `val`: the first member with that key is
/// replaced in place, else the member is appended.
pub open spec fn minsert(m: Seq<(Seq<char>, JsonView)>, key: Seq<char>, val: JsonView) -> Seq<(Seq<char>, JsonView)> {
    match first_index(m, keyed(key)) {
        Some(i) => m.update(i, (key, val)),
        None => m.push((key, val)),
    }
}

/// Set member `key` of an object under construction to `value`.
pub fn obj_insert(m: &mut Vec<(String, Json)>, key: &str, value: Json)
    ensures
        member_views(final(m)@) == minsert(member_views(old(m)@), key@, value.view()),
{
    let ghost mv = member_views(m@);
    proof {
        lemma_member_views(m@);
        crate::text::lemma_first_index_bounds(mv, keyed(key@));
    }
    let mut i: usize = 0;
    assert(mv.subrange(0, 0) =~= Seq::<(Seq<char>, JsonView)>::empty());
    while i < m.len()
        invariant
            i <= m@.len(),
            m@ == old(m)@,
            mv == member_views(m@),
            mv.len() == m@.len(),
            forall|k: int| 0 <= k < m@.len() ==> #[trigger] mv[k] == (m@[k].0@, m@[k].1.view()),
            first_index(mv.subrange(0, i as int), keyed(key@)) == None::<int>,
        decreases m.len() - i,
    {
        proof {
            lemma_first_index_push(mv, keyed(key@), i as int);
        }
        if str_eq(m[i].0.as_str(), key) {
            proof {
                assert(keyed(key@)(mv[i as int]));
                lemma_first_index_prefix(mv, keyed(key@), i as int + 1);
            }
            let ghost before = m@;
            m.set(i, (key.to_owned(), value));
            proof {
                lemma_member_views(m@);
                assert(member_views(m@) =~= mv.update(i as int, (key@, m@[i as int].1.view())));
            }
            return;
        }
        i = i + 1;
    }
    assert(mv.subrange(0, mv.len() as int) =~= mv);
    let ghost before = m@;
    let ghost vv = value.view();
    m.push((key.to_owned(), value));
    proof {
        lemma_member_views_push(before, m@.last());
        assert(m@ == before.push(m@.last()));
    }
}

/// Append member `key` to an object under construction.
pub fn push_member(m: &mut Vec<(String, Json)>, key: &str, value: Json)
    ensures
        member_views(final(m)@) == member_views(old(m)@).push((key@, value.view())),
{
    let ghost before = m@;
    m.push((key.to_owned(), value));
    proof {
        lemma_member_views_push(before, m@.last());
        assert(m@ == before.push(m@.last()));
    }
}

/// Append an element to an array under construction.
pub fn push_element(v: &mut Vec<Json>, value: Json)
    ensures
        views(final(v)@) == views(old(v)@).push(value.view()),
{
    let ghost before = v@;
    let ghost vv = value.view();
    v.push(value);
    proof {
        lemma_views_push(before, v@.last());
        assert(v@ == before.push(v@.last()));
    }
}

/// Copies of the elements of a list, in order.
pub fn clone_elements(v: &Vec<Json>) -> (r: Vec<Json>)
    ensures
        views(r@) == views(v@),
{
    proof {
        lemma_views(v@);
    }
    let ghost a = views(v@);
    let mut out: Vec<Json> = Vec::new();
    let mut i: usize = 0;
    assert(views(out@) =~= a.subrange(0, 0));
    while i < v.len()
        invariant
            i <= v@.len(),
            a == views(v@),
            a.len() == v@.len(),
            forall|k: int| 0 <= k < v@.len() ==> #[trigger] a[k] == v@[k].view(),
            views(out@) == a.subrange(0, i as int),
        decreases v.len() - i,
    {
        push_element(&mut out, v[i].deep_clone());
        i = i + 1;
        assert(views(out@) =~= a.subrange(0, i as int));
    }
    assert(a.subrange(0, a.len() as int) =~= a);
    out
}

impl Json {
    /// A string value.
    pub fn string(s: &str) -> (r: Json)
        ensures
            r.view() == JsonView::Str(s@),
    {
        Json::Str(s.to_owned())
    }

    /// A non-negative integer value.
    pub fn unsigned(n: u64) -> (r: Json)
        ensures
            r.view() == JsonView::Number(NumberView::PosInt(n)),
    {
        Json::Number(JsonNumber::PosInt(n))
    }

    /// An object with exactly these members, in order.
    pub fn object(m: Vec<(String, Json)>) -> (r: Json)
        ensures
            r.view() == JsonView::Object(member_views(m@)),
    {
        Json::Object(m)
    }

    /// An array with exactly these elements, in order.
    pub fn array(v: Vec<Json>) -> (r: Json)
        ensures
            r.view() == JsonView::Array(views(v@)),
    {
        Json::Array(v)
    }

    /// A copy with the same value.
    pub fn deep_clone(&self) -> (r: Json)
        ensures
            r.view() == self.view(),
        decreases self,
    {
        match self {
            Json::Null => Json::Null,
            Json::Bool(b) => Json::Bool(*b),
            Json::Number(n) => Json::Number(match n {
                JsonNumber::PosInt(x) => JsonNumber::PosInt(*x),
                JsonNumber::NegInt(x) => JsonNumber::NegInt(*x),
                JsonNumber::Float(t) => JsonNumber::Float(t.clone()),
            }),
            Json::Str(t) => Json::Str(t.clone()),
            Json::Array(v) => {
                let mut out: Vec<Json> = Vec::new();
                let mut i: usize = 0;
                proof {
                    lemma_views(v@);
                }
                while i < v.len()
                    invariant
                        i <= v@.len(),
                        self.view() == JsonView::Array(views(v@)),
                        *self == Json::Array(*v),
                        views(v@).len() == v@.len(),
                        forall|k: int| 0 <= k < v@.len() ==> #[trigger] views(v@)[k] == v@[k].view(),
                        views(out@) == views(v@).subrange(0, i as int),
                    decreases v.len() - i,
                {
                    assert(decreases_to!(*self => *v));
                    assert(decreases_to!(*v => v@));
                    assert(decreases_to!(v@ => v@[i as int]));
                    let c = v[i].deep_clone();
                    let ghost before = out@;
                    out.push(c);
                    proof {
                        lemma_views_push(before, c);
                        assert(views(out@) =~= views(v@).subrange(0, i + 1));
                    }
                    i = i + 1;
                }
                assert(views(v@).subrange(0, v@.len() as int) =~= views(v@));
                Json::Array(out)
            },
            Json::Object(m) => {
                let mut out: Vec<(String, Json)> = Vec::new();
                let mut i: usize = 0;
                proof {
                    lemma_member_views(m@);
                }
                while i < m.len()
                    invariant
                        i <= m@.len(),
                        self.view() == JsonView::Object(member_views(m@)),
                        *self == Json::Object(*m),
                        member_views(m@).len() == m@.len(),
                        forall|k: int| 0 <= k < m@.len() ==> #[trigger] member_views(m@)[k] == (m@[k].0@, m@[k].1.view()),
                        member_views(out@) == member_views(m@).subrange(0, i as int),
                    decreases m.len() - i,
                {
                    assert(decreases_to!(*self => *m));
                    assert(decreases_to!(*m => m@));
                    assert(decreases_to!(m@ => m@[i as int]));
                    assert(decreases_to!(m@[i as int] => m@[i as int].1));
                    let c = m[i].1.deep_clone();
                    let k = m[i].0.clone();
                    let ghost before = out@;
                    out.push((k, c));
                    proof {
                        lemma_member_views_push(before, out@.last());
                        assert(out@ == before.push(out@.last()));
                        assert(member_views(out@) =~= member_views(m@).subrange(0, i + 1));
                    }
                    i = i + 1;
                }
                assert(member_views(m@).subrange(0, m@.len() as int) =~= member_views(m@));
                Json::Object(out)
            },
        }
    }
}

// ---------------------------------------------------------------------------
// Parsing text
// ---------------------------------------------------------------------------

#[verifier::external_type_specification]
#[verifier::external_body]
pub struct ExJsonValue(serde_json::Value);

#[verifier::external_type_specification]
#[verifier::external_body]
pub struct ExJsonNumber(serde_json::Number);

/// What `serde_json::from_str::<serde_json::Value>` reads from a text; none
/// when the text is not one JSON value.
pub uninterp spec fn json_parse(text: Seq<char>) -> Option<JsonView>;

/// An optional owned value, by value.
pub open spec fn opt_owned(r: Option<Json>) -> Option<JsonView> {
    match r {
        Some(j) => Some(j.view()),
        None => None,
    }
}

/// `serde_json::from_str::<serde_json::Value>`, with the value it reads.
#[verifier::external_body]
pub(crate) fn parse_json(text: &str) -> (r: Option<Json>)
    ensures
        opt_owned(r) == json_parse(text@),
{
    serde_json::from_str::<serde_json::Value>(text).ok().map(from_serde)
}

/// What `serde_json::from_slice::<serde_json::Value>` reads from bytes;
/// none when they are not one UTF-8 JSON value.
pub uninterp spec fn json_parse_bytes(bytes: Seq<u8>) -> Option<JsonView>;

/// `serde_json::from_slice::<serde_json::Value>`, with the value it reads.
#[verifier::external_body]
pub(crate) fn parse_json_bytes(bytes: &[u8]) -> (r: Option<Json>)
    ensures
        opt_owned(r) == json_parse_bytes(bytes@),
{
    serde_json::from_slice::<serde_json::Value>(bytes).ok().map(from_serde)
}

/// A `serde_json::Value` as a value of this library, member for member.
#[verifier::external_body]
fn from_serde(v: serde_json::Value) -> Json {
    match v {
        serde_json::Value::Null => Json::Null,
        serde_json::Value::Bool(b) => Json::Bool(b),
        serde_json::Value::Number(n) => Json::Number(number_from_serde(n)),
        serde_json::Value::String(s) => Json::Str(s),
        serde_json::Value::Array(a) => Json::Array(a.into_iter().map(from_serde).collect()),
        serde_json::Value::Object(m) => Json::Object(m.into_iter().map(|(k, x)| (k, from_serde(x))).collect()),
    }
}

/// A `serde_json::Number` as a number of this library: its integer kind, or
/// its text.
#[verifier::external_body]
fn number_from_serde(n: serde_json::Number) -> JsonNumber {
    match (n.as_u64(), n.as_i64()) {
        (Some(u), _) => JsonNumber::PosInt(u),
        (None, Some(i)) => JsonNumber::NegInt(i),
        (None, None) => JsonNumber::Float(n.to_string()),
    }
}

// ---------------------------------------------------------------------------
// Numbers as floats, and serialized text
// ---------------------------------------------------------------------------

/// The decimal text of a number.
pub open spec fn number_text(n: NumberView) -> Seq<char> {
    match n {
        NumberView::PosInt(u) => decimal_string(u as nat),
        NumberView::NegInt(i) => if i < 0 { "-"@ + decimal_string((-i) as nat) } else { decimal_string(i as nat) },
        NumberView::Float(t) => t,
    }
}

/// The text a number is carried as once read as a floating-point number:
/// an integer gains a `.0` fraction (so that it is parsed, and written, as
/// an `f64`); a float keeps its text.
pub open spec fn float_text(n: NumberView) -> Seq<char> {
    match n {
        NumberView::Float(t) => t,
        _ => number_text(n) + ".0"@,
    }
}

/// A value read as a floating-point number: any number, carried as float
/// text.
pub open spec fn jfloat(j: JsonView) -> Option<NumberView> {
    match j {
        JsonView::Number(n) => Some(NumberView::Float(float_text(n))),
        _ => None,
    }
}

/// Member `key` read as a floating-point number.
pub open spec fn get_float(j: JsonView, key: Seq<char>) -> Option<NumberView> {
    match jget(j, key) {
        Some(v) => jfloat(v),
        None => None,
    }
}

impl JsonNumber {
    /// The number as a float: an integer's decimal text with a `.0`
    /// fraction, so that `1` is written `1.0` as an `f64` is; a float as it
    /// is.
    pub fn to_float(&self) -> (r: JsonNumber)
        ensures
            r.view() == NumberView::Float(float_text(self.view())),
    {
        let mut t = match self {
            JsonNumber::PosInt(u) => u128_to_decimal(*u as u128),
            JsonNumber::NegInt(i) => {
                if *i < 0 {
                    let mut t = "-".to_owned();
                    let mag: i128 = -(*i as i128);
                    let d = u128_to_decimal(mag as u128);
                    string_push_str(&mut t, d.as_str());
                    t
                } else {
                    u128_to_decimal(*i as u128)
                }
            },
            JsonNumber::Float(t) => return JsonNumber::Float(t.clone()),
        };
        string_push_str(&mut t, ".0");
        JsonNumber::Float(t)
    }
}

impl Json {
    /// Member `key` read as a floating-point number.
    pub fn get_float(&self, key: &str) -> (r: Option<Json>)
        ensures
            match r {
                Some(v) => get_float(self.view(), key@) matches Some(n) && v.view() == JsonView::Number(n),
                None => get_float(self.view(), key@) is None,
            },
    {
        match self.get(key) {
            Some(Json::Number(n)) => Some(Json::Number(n.to_float())),
            _ => None,
        }
    }
}

/// The compact text `serde_json` writes for a value.
pub uninterp spec fn json_serialize(v: JsonView) -> Seq<char>;

/// `serde_json::Value::to_string` of a value: its compact JSON text.
#[verifier::external_body]
pub(crate) fn json_to_text(v: &Json) -> (r: String)
    ensures
        r@ == json_serialize(v.view()),
{
    to_serde(v).to_string()
}

/// A value of this library as a `serde_json::Value`, member for member.
#[verifier::external_body]
fn to_serde(v: &Json) -> serde_json::Value {
    match v {
        Json::Null => serde_json::Value::Null,
        Json::Bool(b) => serde_json::Value::Bool(*b),
        Json::Number(n) => number_to_serde(n),
        Json::Str(s) => serde_json::Value::String(s.clone()),
        Json::Array(a) => serde_json::Value::Array(a.iter().map(to_serde).collect()),
        Json::Object(m) => serde_json::Value::Object(m.iter().map(|(k, x)| (k.clone(), to_serde(x))).collect()),
    }
}

/// A number of this library as a `serde_json::Value`; a number by its text
/// is read back by `serde_json`.
#[verifier::external_body]
fn number_to_serde(n: &JsonNumber) -> serde_json::Value {
    match n {
        JsonNumber::PosInt(u) => serde_json::Value::from(*u),
        JsonNumber::NegInt(i) => serde_json::Value::from(*i),
        JsonNumber::Float(t) => t.parse::<serde_json::Number>().map(serde_json::Value::Number).unwrap_or(serde_json::Value::Null),
    }
}

// ---------------------------------------------------------------------------
// Synthesized tool-call ids
// ---------------------------------------------------------------------------

/// How many ids were minted per function name so far.
pub struct ToolCallCounts {
    entries: Vec<(String, usize)>,
}

/// An entry for function `name`.
pub open spec fn entry_named(name: Seq<char>) -> spec_fn((Seq<char>, usize)) -> bool {
    |e: (Seq<char>, usize)| e.0 == name
}

/// The count recorded for `name` in a list of entries: the first entry with
/// that name, else zero.
pub open spec fn count_in(entries: Seq<(Seq<char>, usize)>, name: Seq<char>) -> usize {
    match first_index(entries, entry_named(name)) {
        Some(i) => entries[i].1,
        None => 0,
    }
}

/// `n + 1`, saturating at `usize::MAX`.
pub open spec fn sat_inc(n: usize) -> usize {
    if n == usize::MAX { n } else { (n + 1) as usize }
}

/// The id minted for the `n`-th call of function `name`.
pub open spec fn tool_call_id(name: Seq<char>, n: usize) -> Seq<char> {
    "call_"@ + name + "_"@ + decimal_string(n as nat)
}

impl ToolCallCounts {
    pub closed spec fn entries_view(&self) -> Seq<(Seq<char>, usize)> {
        self.entries@.map_values(|e: (String, usize)| (e.0@, e.1))
    }

    /// How many ids were minted for `name`.
    pub open spec fn count(&self, name: Seq<char>) -> usize {
        count_in(self.entries_view(), name)
    }

    /// No ids minted yet.
    pub fn new() -> (c: Self)
        ensures
            forall|n: Seq<char>| #[trigger] c.count(n) == 0,
    {
        let c = ToolCallCounts { entries: Vec::new() };
        assert(c.entries_view() =~= Seq::empty());
        c
    }

    /// Mint the next id for a call of function `name`: `call_{name}_{n}` for
    /// the `n`-th call, counting from zero.
    pub fn next_tool_call_id(&mut self, name: &str) -> (r: String)
        ensures
            r@ == tool_call_id(name@, old(self).count(name@)),
            forall|n: Seq<char>| #[trigger] final(self).count(n) == if n == name@ {
                sat_inc(old(self).count(name@))
            } else {
                old(self).count(n)
            },
    {
        let ghost ev = self.entries_view();
        let ghost f = entry_named(name@);
        let mut i: usize = 0;
        assert(ev.subrange(0, 0) =~= Seq::<(Seq<char>, usize)>::empty());
        while i < self.entries.len()
            invariant
                i <= self.entries@.len(),
                ev == self.entries_view(),
                ev == old(self).entries_view(),
                ev.len() == self.entries@.len(),
                f == entry_named(name@),
                first_index(ev.subrange(0, i as int), f) == None::<int>,
            decreases self.entries.len() - i,
        {
            proof {
                lemma_first_index_push(ev, f, i as int);
            }
            assert(ev[i as int] == (self.entries@[i as int].0@, self.entries@[i as int].1));
            if str_eq(self.entries[i].0.as_str(), name) {
                proof {
                    lemma_first_index_prefix(ev, f, i as int + 1);
                }
                let n = self.entries[i].1;
                let mut id = "call_".to_owned();
                string_push_str(&mut id, name);
                string_push_str(&mut id, "_");
                let d = u128_to_decimal(n as u128);
                string_push_str(&mut id, d.as_str());
                assert(id@ =~= tool_call_id(name@, n));
                let next = n.saturating_add(1);
                let ghost old_entries = self.entries@;
                self.entries.set(i, (self.entries[i].0.clone(), next));
                proof {
                    let nv = self.entries_view();
                    assert(nv =~= ev.update(i as int, (name@, next)));
                    assert forall|m: Seq<char>| #[trigger] count_in(nv, m) == if m == name@ {
                        sat_inc(count_in(ev, name@))
                    } else {
                        count_in(ev, m)
                    } by {
                        lemma_count_update(ev, i as int, name@, next, m);
                    }
                }
                return id;
            }
            i = i + 1;
        }
        assert(ev.subrange(0, ev.len() as int) =~= ev);
        let mut id = "call_".to_owned();
        string_push_str(&mut id, name);
        string_push_str(&mut id, "_0");
        proof {
            reveal_strlit("_0");
            reveal_strlit("_");
            assert(decimal_string(0) =~= seq!['0']);
            assert("_0"@ =~= "_"@ + decimal_string(0));
        }
        self.entries.push((name.to_owned(), 1));
        proof {
            let nv = self.entries_view();
            assert(nv =~= ev.push((name@, 1usize)));
            assert forall|m: Seq<char>| #[trigger] count_in(nv, m) == if m == name@ {
                sat_inc(count_in(ev, name@))
            } else {
                count_in(ev, m)
            } by {
                lemma_count_push(ev, name@, m);
            }
        }
        id
    }
}

proof fn lemma_count_update(ev: Seq<(Seq<char>, usize)>, i: int, name: Seq<char>, next: usize, m: Seq<char>)
    requires
        0 <= i < ev.len(),
        ev[i].0 == name,
        first_index(ev, entry_named(name)) == Some(i),
        next == sat_inc(ev[i].1),
    ensures
        count_in(ev.update(i, (name, next)), m) == if m == name { sat_inc(count_in(ev, name)) } else { count_in(ev, m) },
{
    let nv = ev.update(i, (name, next));
    lemma_first_index_same_keys(ev, nv, m);
    crate::text::lemma_first_index_bounds(ev, entry_named(m));
}

proof fn lemma_first_index_same_keys(a: Seq<(Seq<char>, usize)>, b: Seq<(Seq<char>, usize)>, m: Seq<char>)
    requires
        a.len() == b.len(),
        forall|k: int| 0 <= k < a.len() ==> #[trigger] a[k].0 == b[k].0,
    ensures
        first_index(a, entry_named(m)) == first_index(b, entry_named(m)),
    decreases a.len(),
{
    if a.len() > 0 {
        assert forall|k: int| 0 <= k < a.drop_last().len() implies #[trigger] a.drop_last()[k].0 == b.drop_last()[k].0 by {
            assert(a.drop_last()[k] == a[k]);
            assert(b.drop_last()[k] == b[k]);
        }
        lemma_first_index_same_keys(a.drop_last(), b.drop_last(), m);
        assert(a.last().0 == b.last().0);
    }
}

proof fn lemma_count_push(ev: Seq<(Seq<char>, usize)>, name: Seq<char>, m: Seq<char>)
    requires
        first_index(ev, entry_named(name)) == None::<int>,
    ensures
        count_in(ev.push((name, 1usize)), m) == if m == name { sat_inc(count_in(ev, name)) } else { count_in(ev, m) },
{
    let nv = ev.push((name, 1usize));
    assert(nv.drop_last() =~= ev);
    crate::text::lemma_first_index_bounds(ev, entry_named(m));
}

} // verus!
