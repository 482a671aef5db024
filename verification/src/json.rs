//! JSON values as the components read them.
//!
//! Text is turned into values, and values into text, by `serde_json`. What the
//! components do with a value is stated over [`Json`] itself.

use vstd::prelude::*;

use serde_json::Value;

use crate::text::{dec, dec_int, dec_int_of, dec_of, same};
use crate::types::{zero_rect, Rect};

verus! {

/// A number: a non-negative integer, a negative integer, or any other number in
/// its decimal text.
#[derive(Debug, PartialEq, Eq)]
pub enum JsonNumber {
    Pos(u64),
    Neg(i64),
    Float(String),
}

/// A JSON value. The members of an object are kept in a list; of two members
/// with the same name the first one counts.
#[derive(Debug, PartialEq, Eq)]
pub enum Json {
    Null,
    Bool(bool),
    Number(JsonNumber),
    Str(String),
    Arr(Vec<Json>),
    Obj(Vec<(String, Json)>),
}

/// `serde_json::Value`, carried from parsing to conversion and from conversion
/// to printing.
#[verifier::external_type_specification]
#[verifier::external_body]
pub struct ExValue(serde_json::Value);

/// What `serde_json::from_str` makes of a text: the value, or the text of the
/// error.
pub uninterp spec fn value_of_text(text: Seq<char>) -> Result<serde_json::Value, Seq<char>>;

/// The content of a `serde_json::Value`.
pub uninterp spec fn json_of_value(v: serde_json::Value) -> Json;

/// The `serde_json::Value` with a given content.
pub uninterp spec fn value_of_json(j: Json) -> serde_json::Value;

/// The compact text of a `serde_json::Value`.
pub uninterp spec fn text_of_value(v: serde_json::Value) -> Seq<char>;

/// `serde_json::from_str` into a `serde_json::Value`. The outcome depends on the
/// text alone; an error is handed on as its own text.
#[verifier::external_body]
fn parse_value(text: &str) -> (r: Result<serde_json::Value, String>)
    ensures
        match r {
            Ok(v) => value_of_text(text@) == Ok::<serde_json::Value, Seq<char>>(v),
            Err(e) => value_of_text(text@) == Err::<serde_json::Value, Seq<char>>(e@),
        },
{
    serde_json::from_str::<serde_json::Value>(text).map_err(|e| e.to_string())
}

/// Takes a `serde_json::Value` apart, variant by variant. A number goes by
/// `Number::as_u64`, `Number::as_i64` and, where both decline, its text. The
/// members of an object come in the order in which `serde_json::Map` keeps them.
#[verifier::external_body]
fn json_of(v: &serde_json::Value) -> (r: Json)
    ensures
        r == json_of_value(*v),
{
    match v {
        Value::Null => Json::Null,
        Value::Bool(b) => Json::Bool(*b),
        Value::Number(n) => Json::Number(match (n.as_u64(), n.as_i64()) {
            (Some(u), _) => JsonNumber::Pos(u),
            (None, Some(i)) => JsonNumber::Neg(i),
            (None, None) => JsonNumber::Float(n.to_string()),
        }),
        Value::String(s) => Json::Str(s.clone()),
        Value::Array(a) => Json::Arr(a.iter().map(json_of).collect()),
        Value::Object(m) => Json::Obj(
            m.iter().map(|(k, x)| (k.clone(), json_of(x))).collect(),
        ),
    }
}

/// Puts a `serde_json::Value` together, variant by variant. The text of a number
/// that is no integer goes through `serde_json::from_str`, so it becomes whatever
/// value it denotes, and null where it denotes none.
#[verifier::external_body]
fn value_of(j: &Json) -> (r: serde_json::Value)
    ensures
        r == value_of_json(*j),
{
    match j {
        Json::Null => Value::Null,
        Json::Bool(b) => Value::Bool(*b),
        Json::Number(JsonNumber::Pos(u)) => Value::from(*u),
        Json::Number(JsonNumber::Neg(i)) => Value::from(*i),
        Json::Number(JsonNumber::Float(t)) => serde_json::from_str(t).unwrap_or_default(),
        Json::Str(s) => Value::String(s.clone()),
        Json::Arr(a) => Value::Array(a.iter().map(value_of).collect()),
        Json::Obj(m) => Value::Object(
            m.iter().map(|p| (p.0.clone(), value_of(&p.1))).collect(),
        ),
    }
}

/// `serde_json::Value::to_string`: the compact JSON text of the value.
#[verifier::external_body]
fn value_text(v: &serde_json::Value) -> (r: String)
    ensures
        r@ == text_of_value(*v),
{
    v.to_string()
}

/// What a text denotes as JSON: the value, or the text of the parse error.
pub open spec fn parsed(text: Seq<char>) -> Result<Json, Seq<char>> {
    match value_of_text(text) {
        Ok(v) => Ok(json_of_value(v)),
        Err(e) => Err(e),
    }
}

/// The compact JSON text of a value.
pub open spec fn printed(j: Json) -> Seq<char> {
    text_of_value(value_of_json(j))
}

/// Parses a JSON text.
pub fn parse(text: &str) -> (r: Result<Json, String>)
    ensures
        match r {
            Ok(j) => parsed(text@) == Ok::<Json, Seq<char>>(j),
            Err(e) => parsed(text@) == Err::<Json, Seq<char>>(e@),
        },
{
    match parse_value(text) {
        Ok(v) => Ok(json_of(&v)),
        Err(e) => Err(e),
    }
}

/// The compact JSON text of a value.
pub fn print(j: &Json) -> (r: String)
    ensures
        r@ == printed(*j),
{
    let v = value_of(j);
    value_text(&v)
}

impl JsonNumber {
    /// The number as an `i64`, where it is an integer in range.
    pub open spec fn integer(self) -> Option<i64> {
        match self {
            JsonNumber::Pos(u) => if u <= i64::MAX {
                Some(u as i64)
            } else {
                None
            },
            JsonNumber::Neg(i) => Some(i),
            JsonNumber::Float(_) => None,
        }
    }

    /// The number as a `u64`, where it is a non-negative integer.
    pub open spec fn natural(self) -> Option<u64> {
        match self {
            JsonNumber::Pos(u) => Some(u),
            JsonNumber::Neg(_) => None,
            JsonNumber::Float(_) => None,
        }
    }

    /// The decimal text of the number.
    pub open spec fn text(self) -> Seq<char> {
        match self {
            JsonNumber::Pos(u) => dec(u as nat),
            JsonNumber::Neg(i) => dec_int(i as int),
            JsonNumber::Float(t) => t@,
        }
    }

    /// The number as an `i64`, where it is an integer in range.
    pub fn as_i64(&self) -> (r: Option<i64>)
        ensures
            r == self.integer(),
    {
        match self {
            JsonNumber::Pos(u) => if *u <= 0x7FFF_FFFF_FFFF_FFFF {
                Some(*u as i64)
            } else {
                None
            },
            JsonNumber::Neg(i) => Some(*i),
            JsonNumber::Float(_) => None,
        }
    }

    /// The number as a `u64`, where it is a non-negative integer.
    pub fn as_u64(&self) -> (r: Option<u64>)
        ensures
            r == self.natural(),
    {
        match self {
            JsonNumber::Pos(u) => Some(*u),
            JsonNumber::Neg(_) => None,
            JsonNumber::Float(_) => None,
        }
    }

    /// The decimal text of the number.
    pub fn to_text(&self) -> (r: String)
        ensures
            r@ == self.text(),
    {
        match self {
            JsonNumber::Pos(u) => dec_of(*u),
            JsonNumber::Neg(i) => dec_int_of(*i),
            JsonNumber::Float(t) => t.clone(),
        }
    }
}

/// The first member called `key`.
pub open spec fn member(m: Seq<(String, Json)>, key: Seq<char>) -> Option<Json>
    decreases m.len(),
{
    if m.len() == 0 {
        None
    } else if m[0].0@ == key {
        Some(m[0].1)
    } else {
        member(m.skip(1), key)
    }
}

impl Json {
    /// The member of an object called `key`; nothing else has members.
    pub open spec fn at(self, key: Seq<char>) -> Option<Json> {
        match self {
            Json::Obj(m) => member(m@, key),
            _ => None,
        }
    }

    pub open spec fn str(self) -> Option<Seq<char>> {
        match self {
            Json::Str(s) => Some(s@),
            _ => None,
        }
    }

    pub open spec fn integer(self) -> Option<i64> {
        match self {
            Json::Number(n) => n.integer(),
            _ => None,
        }
    }

    pub open spec fn natural(self) -> Option<u64> {
        match self {
            Json::Number(n) => n.natural(),
            _ => None,
        }
    }

    pub open spec fn number(self) -> Option<Seq<char>> {
        match self {
            Json::Number(n) => Some(n.text()),
            _ => None,
        }
    }

    pub open spec fn boolean(self) -> Option<bool> {
        match self {
            Json::Bool(b) => Some(b),
            _ => None,
        }
    }

    pub open spec fn items(self) -> Option<Seq<Json>> {
        match self {
            Json::Arr(a) => Some(a@),
            _ => None,
        }
    }

    /// The string member called `key`.
    pub open spec fn str_of(self, key: Seq<char>) -> Option<Seq<char>> {
        match self.at(key) {
            Some(j) => j.str(),
            None => None,
        }
    }

    /// The integer member called `key`.
    pub open spec fn int_of(self, key: Seq<char>) -> Option<i64> {
        match self.at(key) {
            Some(j) => j.integer(),
            None => None,
        }
    }

    /// The non-negative integer member called `key`.
    pub open spec fn uint_of(self, key: Seq<char>) -> Option<u64> {
        match self.at(key) {
            Some(j) => j.natural(),
            None => None,
        }
    }

    /// The text of the numeric member called `key`.
    pub open spec fn number_of(self, key: Seq<char>) -> Option<Seq<char>> {
        match self.at(key) {
            Some(j) => j.number(),
            None => None,
        }
    }

    /// The boolean member called `key`.
    pub open spec fn bool_of(self, key: Seq<char>) -> Option<bool> {
        match self.at(key) {
            Some(j) => j.boolean(),
            None => None,
        }
    }

    /// The items of the array member called `key`.
    pub open spec fn items_of(self, key: Seq<char>) -> Option<Seq<Json>> {
        match self.at(key) {
            Some(j) => j.items(),
            None => None,
        }
    }

    /// The member of an object called `key`.
    pub fn get(&self, key: &str) -> (r: Option<&Json>)
        ensures
            match r {
                Some(j) => self.at(key@) == Some(*j),
                None => self.at(key@) is None,
            },
    {
        match self {
            Json::Obj(m) => {
                let mut i: usize = 0;
                assert(m@.skip(0) =~= m@);
                while i < m.len()
                    invariant
                        i <= m.len(),
                        self.at(key@) == member(m@.skip(i as int), key@),
                    decreases m.len() - i,
                {
                    if same(m[i].0.as_str(), key) {
                        return Some(&m[i].1);
                    }
                    assert(m@.skip(i as int).skip(1) =~= m@.skip(i as int + 1));
                    i = i + 1;
                }
                None
            },
            _ => None,
        }
    }

    pub fn as_str(&self) -> (r: Option<&str>)
        ensures
            match r {
                Some(s) => self.str() == Some(s@),
                None => self.str() is None,
            },
    {
        match self {
            Json::Str(s) => Some(s.as_str()),
            _ => None,
        }
    }

    pub fn as_i64(&self) -> (r: Option<i64>)
        ensures
            r == self.integer(),
    {
        match self {
            Json::Number(n) => n.as_i64(),
            _ => None,
        }
    }

    pub fn as_u64(&self) -> (r: Option<u64>)
        ensures
            r == self.natural(),
    {
        match self {
            Json::Number(n) => n.as_u64(),
            _ => None,
        }
    }

    pub fn as_bool(&self) -> (r: Option<bool>)
        ensures
            r == self.boolean(),
    {
        match self {
            Json::Bool(b) => Some(*b),
            _ => None,
        }
    }

    pub fn as_array(&self) -> (r: Option<&Vec<Json>>)
        ensures
            match r {
                Some(a) => self.items() == Some(a@) && *self == Json::Arr(*a),
                None => self.items() is None,
            },
    {
        match self {
            Json::Arr(a) => Some(a),
            _ => None,
        }
    }

    /// The string member called `key`.
    pub fn get_str(&self, key: &str) -> (r: Option<&str>)
        ensures
            match r {
                Some(s) => self.str_of(key@) == Some(s@),
                None => self.str_of(key@) is None,
            },
    {
        match self.get(key) {
            Some(j) => j.as_str(),
            None => None,
        }
    }

    /// The integer member called `key`.
    pub fn get_i64(&self, key: &str) -> (r: Option<i64>)
        ensures
            r == self.int_of(key@),
    {
        match self.get(key) {
            Some(j) => j.as_i64(),
            None => None,
        }
    }

    /// The non-negative integer member called `key`.
    pub fn get_u64(&self, key: &str) -> (r: Option<u64>)
        ensures
            r == self.uint_of(key@),
    {
        match self.get(key) {
            Some(j) => j.as_u64(),
            None => None,
        }
    }

    /// The boolean member called `key`.
    pub fn get_bool(&self, key: &str) -> (r: Option<bool>)
        ensures
            r == self.bool_of(key@),
    {
        match self.get(key) {
            Some(j) => j.as_bool(),
            None => None,
        }
    }

    /// The text of the numeric member called `key`.
    pub fn get_number(&self, key: &str) -> (r: Option<String>)
        ensures
            match r {
                Some(s) => self.number_of(key@) == Some(s@),
                None => self.number_of(key@) is None,
            },
    {
        match self.get(key) {
            Some(Json::Number(n)) => Some(n.to_text()),
            _ => None,
        }
    }

    /// The items of the array member called `key`.
    pub fn get_array(&self, key: &str) -> (r: Option<&Vec<Json>>)
        ensures
            match r {
                Some(a) => self.items_of(key@) == Some(a@) && self.at(key@) == Some(Json::Arr(*a)),
                None => self.items_of(key@) is None,
            },
    {
        match self.get(key) {
            Some(j) => j.as_array(),
            None => None,
        }
    }
}

/// An integer as a JSON value.
pub open spec fn int_value(i: i64) -> Json {
    if i >= 0 {
        Json::Number(JsonNumber::Pos(i as u64))
    } else {
        Json::Number(JsonNumber::Neg(i))
    }
}

/// An integer as a JSON value.
pub fn int_json(i: i64) -> (r: Json)
    ensures
        r == int_value(i),
{
    if i >= 0 {
        Json::Number(JsonNumber::Pos(i as u64))
    } else {
        Json::Number(JsonNumber::Neg(i))
    }
}

/// A text as a JSON value.
pub fn text_json(s: &str) -> (r: Json)
    ensures
        r matches Json::Str(t) && t@ == s@,
{
    Json::Str(crate::text::owned(s))
}

/// The rectangle in the members `x`, `y`, `width` and `height`. What is missing
/// is zero, and larger numbers are cut down to 32 bits.
pub open spec fn rect_in(o: Option<Json>) -> Rect {
    match o {
        None => zero_rect(),
        Some(j) => Rect {
            x: low_i32(j.int_of("x"@)),
            y: low_i32(j.int_of("y"@)),
            width: low_i32(j.int_of("width"@)),
            height: low_i32(j.int_of("height"@)),
        },
    }
}

/// The rectangle in the members `x`, `y`, `width` and `height`.
pub fn read_rect(o: Option<&Json>) -> (r: Rect)
    ensures
        match o {
            Some(j) => r == rect_in(Some(*j)),
            None => r == rect_in(None),
        },
{
    match o {
        None => Rect { x: 0, y: 0, width: 0, height: 0 },
        Some(j) => Rect {
            x: i32_or_zero(j.get_i64("x")),
            y: i32_or_zero(j.get_i64("y")),
            width: i32_or_zero(j.get_i64("width")),
            height: i32_or_zero(j.get_i64("height")),
        },
    }
}

/// `o`, or the empty text.
pub open spec fn or_empty(o: Option<Seq<char>>) -> Seq<char> {
    match o {
        Some(s) => s,
        None => Seq::empty(),
    }
}

/// `o`, or the empty text.
pub fn or_blank(o: Option<&str>) -> (r: String)
    ensures
        r@ == or_empty(match o {
            Some(s) => Some(s@),
            None => None,
        }),
{
    match o {
        Some(s) => crate::text::owned(s),
        None => String::new(),
    }
}

/// `o` cut down to 32 bits, or zero.
pub open spec fn low_i32(o: Option<i64>) -> i32 {
    match o {
        Some(n) => n as i32,
        None => 0,
    }
}

/// `o` cut down to 32 bits, or zero.
pub open spec fn low_u32(o: Option<u64>) -> u32 {
    match o {
        Some(n) => n as u32,
        None => 0,
    }
}

/// `o` cut down to 32 bits, or zero.
pub fn i32_or_zero(o: Option<i64>) -> (r: i32)
    ensures
        r == low_i32(o),
{
    match o {
        Some(n) => #[verifier::truncate] (n as i32),
        None => 0,
    }
}

/// `o` cut down to 32 bits, or zero.
pub fn u32_or_zero(o: Option<u64>) -> (r: u32)
    ensures
        r == low_u32(o),
{
    match o {
        Some(n) => #[verifier::truncate] (n as u32),
        None => 0,
    }
}

// ---------------------------------------------------------------------------
// Laws
// ---------------------------------------------------------------------------
/// Whether a member is there and is the integer `n`.
pub open spec fn is_int(o: Option<Json>, n: int) -> bool {
    if n >= 0 {
        n <= u64::MAX && o == Some(Json::Number(JsonNumber::Pos(n as u64)))
    } else {
        n >= i64::MIN && o == Some(Json::Number(JsonNumber::Neg(n as i64)))
    }
}

/// Whether a member is there and is the text `t`.
pub open spec fn is_text(o: Option<Json>, t: Seq<char>) -> bool {
    o matches Some(Json::Str(s)) && s@ == t
}

/// Whether a member is there and is the boolean `b`.
pub open spec fn is_bool(o: Option<Json>, b: bool) -> bool {
    o == Some(Json::Bool(b))
}

/// Of the members with a name the first one counts.
pub proof fn law_first_member_counts(members: Vec<(String, Json)>, i: int, key: Seq<char>)
    requires
        0 <= i < members@.len(),
        members@[i].0@ == key,
        forall|j: int| 0 <= j < i ==> members@[j].0@ != key,
    ensures
        Json::Obj(members).at(key) == Some(members@[i].1),
{
    lemma_first_member(members@, i, key);
}

proof fn lemma_first_member(m: Seq<(String, Json)>, i: int, key: Seq<char>)
    requires
        0 <= i < m.len(),
        m[i].0@ == key,
        forall|j: int| 0 <= j < i ==> m[j].0@ != key,
    ensures
        member(m, key) == Some(m[i].1),
    decreases i,
{
    if i > 0 {
        assert(m[0].0@ != key);
        assert forall|j: int| 0 <= j < i - 1 implies m.skip(1)[j].0@ != key by {
            assert(m.skip(1)[j] == m[j + 1]);
        }
        lemma_first_member(m.skip(1), i - 1, key);
    }
}

/// What no member is called is not there, and only objects have members.
pub proof fn law_missing_member_is_missing(j: Json, key: Seq<char>)
    requires
        j matches Json::Obj(members) ==> forall|i: int|
            0 <= i < members@.len() ==> (#[trigger] members@[i]).0@ != key,
    ensures
        j.at(key) is None,
{
    if let Json::Obj(members) = j {
        lemma_missing_member(members@, key);
    }
}

proof fn lemma_missing_member(m: Seq<(String, Json)>, key: Seq<char>)
    requires
        forall|i: int| 0 <= i < m.len() ==> (#[trigger] m[i]).0@ != key,
    ensures
        member(m, key) is None,
    decreases m.len(),
{
    if m.len() > 0 {
        assert(m[0].0@ != key);
        assert forall|i: int| 0 <= i < m.skip(1).len() implies (#[trigger] m.skip(1)[i]).0@
            != key by {
            assert(m.skip(1)[i] == m[i + 1]);
        }
        lemma_missing_member(m.skip(1), key);
    }
}

/// A value is read as what it is: integers by their value and within their range,
/// texts and booleans as they are. Nothing is read as something else.
pub proof fn law_values_are_read_as_they_are(j: Json, key: Seq<char>)
    ensures
        forall|n: int| #[trigger]
            is_int(j.at(key), n) ==> j.int_of(key) == (if n <= i64::MAX {
                Some(n as i64)
            } else {
                None
            }) && j.uint_of(key) == (if n >= 0 {
                Some(n as u64)
            } else {
                None
            }) && j.number_of(key) == Some(dec_int(n)),
        forall|t: Seq<char>| is_text(j.at(key), t) <==> #[trigger] j.str_of(key) == Some(t),
        forall|b: bool| is_bool(j.at(key), b) <==> #[trigger] j.bool_of(key) == Some(b),
        j.int_of(key) matches Some(n) ==> j.at(key) is Some && j.at(key)->0 is Number,
        j.uint_of(key) matches Some(n) ==> is_int(j.at(key), n as int),
        j.items_of(key) is Some <==> (j.at(key) is Some && j.at(key)->0 is Arr),
        forall|a: Vec<Json>| j.at(key) == Some(Json::Arr(a)) ==> #[trigger] j.items_of(key)
            == Some(a@),
{
}

/// A rectangle has its members in the fields of the same names.
pub proof fn law_rect_has_its_members(j: Json, x: i32, y: i32, width: i32, height: i32)
    requires
        is_int(j.at("x"@), x as int),
        is_int(j.at("y"@), y as int),
        is_int(j.at("width"@), width as int),
        is_int(j.at("height"@), height as int),
    ensures
        rect_in(Some(j)) == (Rect { x, y, width, height }),
{
}

/// What a rectangle lacks is zero.
pub proof fn law_missing_side_is_zero(j: Json)
    ensures
        rect_in(None) == (Rect { x: 0, y: 0, width: 0, height: 0 }),
        j.at("x"@) is None ==> rect_in(Some(j)).x == 0,
        j.at("y"@) is None ==> rect_in(Some(j)).y == 0,
        j.at("width"@) is None ==> rect_in(Some(j)).width == 0,
        j.at("height"@) is None ==> rect_in(Some(j)).height == 0,
{
}

/// An integer that becomes a value is that integer in it.
pub proof fn law_integer_value_is_the_integer(i: i64)
    ensures
        is_int(Some(int_value(i)), i as int),
        int_value(i).integer() == Some(i),
{
}

} // verus!
