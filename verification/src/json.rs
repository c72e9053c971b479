//! JSON values as the library reads and writes them.
//!
//! `Json` holds what `serde_json` reads from a text; `JsonV` is its model. The
//! members of an object are kept in ascending order of their names, as
//! `serde_json` keeps them.
use vstd::arithmetic::power2::pow2;
use vstd::prelude::*;

use crate::records::{is_laid_out, MAX_PART_NESTING};
use crate::text::{chars_of, digits_value, opt_view, same};

verus! {

/// A JSON number: an unsigned integer, a negative integer, or a double by its
/// bit pattern.
pub enum Num {
    PosInt(u64),
    NegInt(i64),
    Float(u64),
}

/// The model of a JSON value.
pub enum JsonV {
    Null,
    Bool(bool),
    Num(Num),
    Text(Seq<char>),
    Array(Seq<JsonV>),
    Object(Seq<(Seq<char>, JsonV)>),
}

impl JsonV {
    pub open spec fn as_bool(self) -> Option<bool> {
        match self {
            JsonV::Bool(b) => Some(b),
            _ => None,
        }
    }

    pub open spec fn as_str(self) -> Option<Seq<char>> {
        match self {
            JsonV::Text(s) => Some(s),
            _ => None,
        }
    }

    pub open spec fn as_u64(self) -> Option<u64> {
        match self {
            JsonV::Num(Num::PosInt(n)) => Some(n),
            _ => None,
        }
    }

    /// The bits of the double that a number stands for.
    pub open spec fn as_double(self) -> Option<u64> {
        match self {
            JsonV::Num(n) => Some(number_as_double(n)),
            _ => None,
        }
    }

    pub open spec fn as_array(self) -> Option<Seq<JsonV>> {
        match self {
            JsonV::Array(items) => Some(items),
            _ => None,
        }
    }

    pub open spec fn as_object(self) -> Option<Seq<(Seq<char>, JsonV)>> {
        match self {
            JsonV::Object(members) => Some(members),
            _ => None,
        }
    }

    /// The value of the member `key` of an object.
    pub open spec fn get(self, key: Seq<char>) -> Option<JsonV> {
        match self {
            JsonV::Object(members) => member(members, key),
            _ => None,
        }
    }

    /// The text of the member `key`, where it holds a string.
    pub open spec fn get_str(self, key: Seq<char>) -> Option<Seq<char>> {
        match self.get(key) {
            Some(v) => v.as_str(),
            None => None,
        }
    }
}

/// The value that stands under `key`.
pub open spec fn member(members: Seq<(Seq<char>, JsonV)>, key: Seq<char>) -> Option<JsonV>
    decreases members.len(),
{
    if members.len() == 0 {
        None
    } else if members.last().0 == key {
        Some(members.last().1)
    } else {
        member(members.drop_last(), key)
    }
}

/// Alphabetical order of names, character by character.
pub open spec fn precedes(a: Seq<char>, b: Seq<char>) -> bool
    decreases a.len(),
{
    if b.len() == 0 {
        false
    } else if a.len() == 0 {
        true
    } else if a[0] != b[0] {
        a[0] < b[0]
    } else {
        precedes(a.drop_first(), b.drop_first())
    }
}

/// Each name stands before every later one.
pub open spec fn ascending<T>(members: Seq<(Seq<char>, T)>) -> bool {
    forall|i: int, j: int|
        0 <= i < j < members.len() ==> precedes(#[trigger] members[i].0, #[trigger] members[j].0)
}

/// The members with `key` set to `value`: in the place of the old value, or in
/// order between the others.
pub open spec fn with_member(
    members: Seq<(Seq<char>, JsonV)>,
    key: Seq<char>,
    value: JsonV,
) -> Seq<(Seq<char>, JsonV)>
    decreases members.len(),
{
    if members.len() == 0 {
        seq![(key, value)]
    } else if members.last().0 == key {
        members.drop_last().push((key, value))
    } else if precedes(members.last().0, key) {
        members.push((key, value))
    } else {
        with_member(members.drop_last(), key, value).push(members.last())
    }
}

/// The magnitude part of a double: its bits without the sign.
pub open spec fn magnitude(bits: u64) -> int {
    bits as int % 0x8000_0000_0000_0000
}

/// The double is neither infinite nor not-a-number.
pub open spec fn is_finite(bits: u64) -> bool {
    magnitude(bits) < 0x7ff0_0000_0000_0000
}

/// The double is the whole number `n`: its exponent and its fraction, which is
/// counted from 2^52, give `n` exactly.
pub open spec fn is_whole(bits: u64, n: u64) -> bool {
    if n == 0 {
        bits == 0
    } else {
        let exponent = bits / 0x10_0000_0000_0000;
        let fraction = bits % 0x10_0000_0000_0000;
        &&& 1023 <= exponent <= 1075
        &&& 0x10_0000_0000_0000 + fraction == n * pow2((1075 - exponent) as nat)
    }
}

/// An integer by which finite doubles are ordered; both zeros have 0.
pub open spec fn rank(bits: u64) -> int {
    if bits >= 0x8000_0000_0000_0000 {
        -magnitude(bits)
    } else {
        magnitude(bits)
    }
}

// ---------------------------------------------------------------------------
// serde_json
// ---------------------------------------------------------------------------

/// Outside type: a JSON value of `serde_json`.
#[verifier::external_type_specification]
#[verifier::external_body]
pub struct ExValue(serde_json::Value);

/// Outside type: a JSON number of `serde_json`.
#[verifier::external_type_specification]
#[verifier::external_body]
pub struct ExNumber(serde_json::Number);

/// What a `serde_json::Value` holds.
pub uninterp spec fn value_model(v: serde_json::Value) -> JsonV;

/// What a `serde_json::Number` holds.
pub uninterp spec fn number_model(n: serde_json::Number) -> Num;

/// What `serde_json::from_str` makes of a text: the value, or the message of
/// its error.
pub uninterp spec fn json_parsed(text: Seq<char>) -> Result<JsonV, Seq<char>>;

/// What `serde_json::from_str` says against a text that it reads to its end
/// without keeping anything, as `serde::de::IgnoredAny`.
pub uninterp spec fn json_ignored(text: Seq<char>) -> Option<Seq<char>>;

/// The compact text that `serde_json::to_string` writes for a value.
pub uninterp spec fn json_text(v: JsonV) -> Seq<char>;

/// The indented text that `serde_json::to_string_pretty` writes for a value.
pub uninterp spec fn json_pretty(v: JsonV) -> Seq<char>;

/// The text is read as the value.
pub open spec fn reads_as(text: Seq<char>, v: JsonV) -> bool {
    json_parsed(text) == Ok::<JsonV, Seq<char>>(v)
}

/// Up to here a whole number is sure to be read as the double that was written:
/// ten times as much is still exact.
pub const MAX_SURE_WHOLE: u64 = 100_000_000_000_000;

/// The double is a whole number that is not large.
pub open spec fn is_small_whole(bits: u64) -> bool {
    exists|n: u64| n <= MAX_SURE_WHOLE && #[trigger] is_whole(bits, n)
}

/// The double is written as a text that is read as the same double. It is so of
/// whole numbers that are not large.
pub open spec fn double_survives(bits: u64) -> bool {
    ||| is_small_whole(bits)
    ||| reads_as(json_pretty(JsonV::Num(Num::Float(bits))), JsonV::Num(Num::Float(bits)))
}

/// The value's lists and objects are nested at most `depth` deep, and each of
/// its doubles survives being written and read.
pub open spec fn survives(v: JsonV, depth: nat) -> bool
    decreases depth,
{
    match v {
        JsonV::Num(Num::Float(bits)) => double_survives(bits),
        JsonV::Array(items) => depth > 0 && forall|i: int|
            0 <= i < items.len() ==> survives(#[trigger] items[i], (depth - 1) as nat),
        JsonV::Object(members) => depth > 0 && forall|i: int|
            0 <= i < members.len() ==> survives((#[trigger] members[i]).1, (depth - 1) as nat),
        _ => true,
    }
}

/// The same value but for its doubles.
pub open spec fn alike(a: JsonV, b: JsonV) -> bool
    decreases a,
{
    match (a, b) {
        (JsonV::Num(Num::Float(_)), JsonV::Num(Num::Float(_))) => true,
        (JsonV::Array(x), JsonV::Array(y)) => x.len() == y.len() && forall|i: int|
            0 <= i < x.len() ==> alike(#[trigger] x[i], y[i]),
        (JsonV::Object(x), JsonV::Object(y)) => x.len() == y.len() && forall|i: int|
            0 <= i < x.len() ==> (#[trigger] x[i]).0 == y[i].0 && alike(x[i].1, y[i].1),
        _ => a == b,
    }
}

/// Every double in the value is finite.
pub open spec fn all_finite(v: JsonV) -> bool
    decreases v,
{
    match v {
        JsonV::Num(Num::Float(bits)) => is_finite(bits),
        JsonV::Array(items) => forall|i: int|
            0 <= i < items.len() ==> all_finite(#[trigger] items[i]),
        JsonV::Object(members) => forall|i: int|
            0 <= i < members.len() ==> all_finite((#[trigger] members[i]).1),
        _ => true,
    }
}

/// The text is read as the value, but for the last digits of its doubles.
pub open spec fn reads_alike(text: Seq<char>, v: JsonV) -> bool {
    json_parsed(text) matches Ok(found) && alike(found, v) && all_finite(found)
}

/// The double is less than half of what a double can be, so that one that is a
/// little greater is still finite.
pub open spec fn is_moderate(bits: u64) -> bool {
    magnitude(bits) < 0x7fe0_0000_0000_0000
}

/// The value's lists and objects are nested at most `depth` deep, and none of
/// its doubles is close to the greatest there is.
pub open spec fn readable(v: JsonV, depth: nat) -> bool
    decreases depth,
{
    match v {
        JsonV::Num(Num::Float(bits)) => is_moderate(bits),
        JsonV::Array(items) => depth > 0 && forall|i: int|
            0 <= i < items.len() ==> readable(#[trigger] items[i], (depth - 1) as nat),
        JsonV::Object(members) => depth > 0 && forall|i: int|
            0 <= i < members.len() ==> readable((#[trigger] members[i]).1, (depth - 1) as nat),
        _ => true,
    }
}

/// The value is a number, and not close to the greatest double.
pub open spec fn is_moderate_number(v: JsonV) -> bool {
    v.as_double() matches Some(bits) && is_moderate(bits)
}

/// How deep `serde_json::from_str` follows lists and objects.
pub const MAX_NESTING: usize = 127;

/// The bits of the double that `serde_json::Number::as_f64` gives for an
/// integer.
pub uninterp spec fn integer_as_double(n: int) -> u64;

/// The bits of the double that a number stands for.
pub open spec fn number_as_double(n: Num) -> u64 {
    match n {
        Num::PosInt(value) => integer_as_double(value as int),
        Num::NegInt(value) => integer_as_double(value as int),
        Num::Float(bits) => bits,
    }
}

/// The bits of the finite double that a text denotes as a Rust number.
pub uninterp spec fn text_as_double(text: Seq<char>) -> Option<u64>;

/// What `serde_json::from_value` says against a value that is to be a string.
pub uninterp spec fn not_a_string(v: JsonV) -> Seq<char>;

/// What `serde_json::from_value` says against a value that is to be an unsigned
/// number of 32 bits.
pub uninterp spec fn not_a_u32(v: JsonV) -> Seq<char>;

/// One layer of a `serde_json::Value`.
pub enum Layer<'a> {
    Null,
    Bool(bool),
    Num(&'a serde_json::Number),
    Text(&'a String),
    Array(&'a Vec<serde_json::Value>),
    Object(Vec<(&'a String, &'a serde_json::Value)>),
}

/// One layer of a `serde_json::Value` that is being made.
pub enum Part {
    Null,
    Bool(bool),
    Num(serde_json::Number),
    Text(String),
    Array(Vec<serde_json::Value>),
    Object(Vec<(String, serde_json::Value)>),
}

/// Outside function: `serde_json::from_str`. The result, or the message of the
/// error, is what `json_parsed` names.
#[verifier::external_body]
fn serde_parse(text: &str) -> (r: Result<serde_json::Value, String>)
    ensures
        match r {
            Ok(v) => json_parsed(text@) == Ok::<JsonV, Seq<char>>(value_model(v)),
            Err(message) => json_parsed(text@) == Err::<JsonV, Seq<char>>(message@),
        },
{
    serde_json::from_str(text).map_err(|error| error.to_string())
}

/// Outside function: `serde_json::from_str` at `serde::de::IgnoredAny`. It says
/// whether the text is JSON, of which it keeps nothing; the message of its error
/// is named.
#[verifier::external_body]
fn serde_skim(text: &str) -> (r: Option<String>)
    ensures
        opt_view(r) == json_ignored(text@),
{
    let skimmed: Result<serde::de::IgnoredAny, serde_json::Error> = serde_json::from_str(text);
    skimmed.err().map(|error| error.to_string())
}

/// Outside function: `serde_json::to_string`, which does not fail on a
/// `serde_json::Value`. It writes no space between tokens and escapes every
/// control character of a string, so that the text is one line.
#[verifier::external_body]
fn serde_text(v: &serde_json::Value) -> (r: String)
    ensures
        r@ == json_text(value_model(*v)),
        !r@.contains('\n'),
{
    serde_json::to_string(v).unwrap_or_default()
}

/// Outside function: `serde_json::to_string_pretty`, which does not fail on a
/// `serde_json::Value`. `serde_json::from_str` reads the text back as the value,
/// as far as it follows nested lists and objects. The last digits of a double may
/// come back otherwise: it is read as a whole number times or over a power of
/// ten, each rounded. A double that is close to the greatest may then not be read
/// at all. A whole number that is not large comes back as it was. The text holds
/// each item and each member of the value once, between commas and colons, in
/// order, and each of these parts reads back in the same way.
#[verifier::external_body]
fn serde_pretty(v: &serde_json::Value) -> (r: String)
    ensures
        r@ == json_pretty(value_model(*v)),
        survives(value_model(*v), MAX_NESTING as nat) ==> reads_as(r@, value_model(*v)),
        readable(value_model(*v), MAX_NESTING as nat) ==> reads_alike(r@, value_model(*v)),
        survives(value_model(*v), MAX_PART_NESTING as nat) ==> is_laid_out(r@, value_model(*v)),
{
    serde_json::to_string_pretty(v).unwrap_or_default()
}

/// Outside type `serde_json::Value`, read: the variants are told apart and
/// their fields handed on. The members of an object come in ascending order of
/// their names, for `serde_json::Map` is a `BTreeMap`.
#[verifier::external_body]
fn serde_open<'a>(v: &'a serde_json::Value) -> (r: Layer<'a>)
    ensures
        match r {
            Layer::Null => value_model(*v) == JsonV::Null,
            Layer::Bool(b) => value_model(*v) == JsonV::Bool(b),
            Layer::Num(n) => value_model(*v) == JsonV::Num(number_model(*n)),
            Layer::Text(s) => value_model(*v) == JsonV::Text(s@),
            Layer::Array(items) => value_model(*v) == JsonV::Array(
                items@.map_values(|x: serde_json::Value| value_model(x)),
            ),
            Layer::Object(members) => {
                let model = members@.map_values(
                    |m: (&String, &serde_json::Value)| (m.0@, value_model(*m.1)),
                );
                value_model(*v) == JsonV::Object(model) && ascending(model)
            },
        },
{
    match v {
        serde_json::Value::Null => Layer::Null,
        serde_json::Value::Bool(b) => Layer::Bool(*b),
        serde_json::Value::Number(n) => Layer::Num(n),
        serde_json::Value::String(s) => Layer::Text(s),
        serde_json::Value::Array(items) => Layer::Array(items),
        serde_json::Value::Object(members) => Layer::Object(members.iter().collect()),
    }
}

/// Outside type `serde_json::Value`, made from one layer. Members that come in
/// ascending order of their names are kept as they are.
#[verifier::external_body]
fn serde_close(part: Part) -> (v: serde_json::Value)
    ensures
        match part {
            Part::Null => value_model(v) == JsonV::Null,
            Part::Bool(b) => value_model(v) == JsonV::Bool(b),
            Part::Num(n) => value_model(v) == JsonV::Num(number_model(n)),
            Part::Text(s) => value_model(v) == JsonV::Text(s@),
            Part::Array(items) => value_model(v) == JsonV::Array(
                items@.map_values(|x: serde_json::Value| value_model(x)),
            ),
            Part::Object(members) => {
                let model = members@.map_values(
                    |m: (String, serde_json::Value)| (m.0@, value_model(m.1)),
                );
                ascending(model) ==> value_model(v) == JsonV::Object(model)
            },
        },
{
    match part {
        Part::Null => serde_json::Value::Null,
        Part::Bool(b) => serde_json::Value::Bool(b),
        Part::Num(n) => serde_json::Value::Number(n),
        Part::Text(s) => serde_json::Value::String(s),
        Part::Array(items) => serde_json::Value::Array(items),
        Part::Object(members) => serde_json::Value::Object(members.into_iter().collect()),
    }
}

/// Outside function: `serde_json::Number::as_u64`.
#[verifier::external_body]
fn serde_as_unsigned(n: &serde_json::Number) -> (r: Option<u64>)
    ensures
        r == (match number_model(*n) {
            Num::PosInt(value) => Some(value),
            _ => None,
        }),
{
    n.as_u64()
}

/// Outside function: `serde_json::Number::as_i64`. A number that is kept as a
/// negative integer is below zero.
#[verifier::external_body]
fn serde_as_signed(n: &serde_json::Number) -> (r: Option<i64>)
    ensures
        match number_model(*n) {
            Num::NegInt(value) => r == Some(value) && value < 0,
            Num::PosInt(value) => r is Some <==> value <= i64::MAX,
            Num::Float(_) => r is None,
        },
{
    n.as_i64()
}

/// Outside function: `serde_json::Number::as_f64`. An integer becomes the
/// double nearest to it, which is the integer itself where 53 bits hold it; a
/// double stays what it is. Every number of `serde_json` is finite.
#[verifier::external_body]
fn serde_as_bits(n: &serde_json::Number) -> (r: u64)
    ensures
        match number_model(*n) {
            Num::PosInt(value) => r == integer_as_double(value as int),
            Num::NegInt(value) => r == integer_as_double(value as int),
            Num::Float(bits) => r == bits,
        },
        is_finite(r),
        number_model(*n) matches Num::PosInt(value) ==> value < 0x20_0000_0000_0000 ==> is_whole(
            r,
            value,
        ),
{
    n.as_f64().map_or(0, |x| x.to_bits())
}

/// Outside function: `serde_json::Number::from_f64`, applied to the double
/// that `as_f64` gives for `n`.
#[verifier::external_body]
fn serde_to_float(n: &serde_json::Number) -> (r: serde_json::Number)
    ensures
        number_model(r) == Num::Float(number_as_double(number_model(*n))),
{
    n.as_f64().and_then(serde_json::Number::from_f64).unwrap_or_else(|| n.clone())
}

/// Outside function: `From<u64>` of `serde_json::Number`.
#[verifier::external_body]
fn serde_from_unsigned(value: u64) -> (r: serde_json::Number)
    ensures
        number_model(r) == Num::PosInt(value),
{
    serde_json::Number::from(value)
}

/// Outside function: `From<i64>` of `serde_json::Number`, on negative integers.
#[verifier::external_body]
fn serde_from_signed(value: i64) -> (r: serde_json::Number)
    requires
        value < 0,
    ensures
        number_model(r) == Num::NegInt(value),
{
    serde_json::Number::from(value)
}

/// A number in digits with a point between them, of 300 characters at most.
pub open spec fn is_plain_decimal(text: Seq<char>) -> bool {
    text.len() <= 300 && exists|point: int| #[trigger] has_point_at(text, point)
}

/// The text is made of digits but for a point, which stands between them.
pub open spec fn has_point_at(text: Seq<char>, point: int) -> bool {
    &&& 0 < point < text.len() - 1
    &&& text[point] == '.'
    &&& forall|i: int| 0 <= i < text.len() && i != point ==> '0' <= #[trigger] text[i] <= '9'
}

/// The double lies between the whole number `n` and the next.
pub open spec fn lies_from(bits: u64, n: nat) -> bool {
    forall|edge: u64, k: u64| #[trigger]
        is_whole(edge, k) ==> if k <= n {
            rank(edge) <= rank(bits)
        } else {
            rank(bits) <= rank(edge)
        }
}

/// What is read from a text: from a plain decimal a number that is not close to
/// the greatest double and lies between the whole number before the point and the
/// next.
pub open spec fn reads_plain(text: Seq<char>, read: Option<Num>) -> bool {
    forall|point: int|
        text.len() <= 300 && #[trigger] has_point_at(text, point) ==> (read matches Some(n)
            && is_moderate(number_as_double(n)) && lies_from(
            number_as_double(n),
            digits_value(text.take(point)),
        ))
}

/// Outside function: `str::parse` to a double, of which a finite result
/// becomes a number of `serde_json`. It reads a plain decimal, which is less than
/// 10 to the power of its length, as the double closest to it; a whole number that
/// is a double itself stays on its side of that.
#[verifier::external_body]
fn serde_number_of_text(text: &str) -> (r: Option<serde_json::Number>)
    ensures
        match r {
            Some(n) => text_as_double(text@) is Some && number_model(n) == Num::Float(
                text_as_double(text@)->0,
            ),
            None => text_as_double(text@) is None,
        },
        reads_plain(text@, match r {
            Some(n) => Some(number_model(n)),
            None => None,
        }),
{
    text.parse().ok().and_then(serde_json::Number::from_f64)
}

/// Outside function: `serde_json::from_value` at `String`. It takes a JSON
/// string and nothing else; the message of its error is what `not_a_string`
/// names.
#[verifier::external_body]
fn serde_string(v: serde_json::Value) -> (r: Result<String, String>)
    ensures
        match r {
            Ok(text) => value_model(v) == JsonV::Text(text@),
            Err(message) => !(value_model(v) is Text) && message@ == not_a_string(value_model(v)),
        },
{
    serde_json::from_value(v).map_err(|error| error.to_string())
}

/// Outside function: `serde_json::from_value` at `u32`. It takes an unsigned
/// integer that 32 bits hold and nothing else; the message of its error is what
/// `not_a_u32` names.
#[verifier::external_body]
fn serde_u32(v: serde_json::Value) -> (r: Result<u32, String>)
    ensures
        match r {
            Ok(n) => value_model(v) == JsonV::Num(Num::PosInt(n as u64)),
            Err(message) => message@ == not_a_u32(value_model(v)) && (value_model(
                v,
            ).as_u64() matches Some(n) ==> n > u32::MAX),
        },
{
    serde_json::from_value(v).map_err(|error| error.to_string())
}

// ---------------------------------------------------------------------------
// Numbers
// ---------------------------------------------------------------------------

/// A finite double.
pub struct Double {
    bits: u64,
    number: serde_json::Number,
}

impl View for Double {
    type V = u64;

    closed spec fn view(&self) -> u64 {
        self.bits
    }
}

impl Double {
    #[verifier::type_invariant]
    closed spec fn holds_bits(self) -> bool {
        number_model(self.number) == Num::Float(self.bits) && is_finite(self.bits)
    }

    /// The bit pattern of the double.
    pub fn bits(&self) -> (r: u64)
        ensures
            r == self@,
            is_finite(r),
    {
        proof {
            use_type_invariant(self);
        }
        self.bits
    }

    fn of_serde(n: &serde_json::Number) -> (r: Double)
        ensures
            r@ == number_as_double(number_model(*n)),
            is_finite(r@),
            number_model(*n) matches Num::PosInt(value) ==> value < 0x20_0000_0000_0000
                ==> is_whole(r@, value),
    {
        let bits = serde_as_bits(n);
        let number = serde_to_float(n);
        Double { bits, number }
    }

    /// The double that a number stands for.
    pub fn of_number(n: &JsonNumber) -> (r: Double)
        ensures
            r@ == number_as_double(n@),
            is_finite(r@),
            n@ matches Num::PosInt(value) ==> value < 0x20_0000_0000_0000 ==> is_whole(r@, value),
    {
        match n {
            JsonNumber::PosInt(value) => Double::of_serde(&serde_from_unsigned(*value)),
            JsonNumber::NegInt(value) => Double::of_serde(&serde_from_signed(value.value())),
            JsonNumber::Float(d) => {
                proof {
                    use_type_invariant(d);
                }
                Double::of_serde(&d.number)
            },
        }
    }

    /// The finite double that a text denotes.
    pub fn parse(text: &str) -> (r: Option<Double>)
        ensures
            match r {
                Some(d) => text_as_double(text@) == Some(d@) && is_finite(d@),
                None => text_as_double(text@) is None,
            },
            is_plain_decimal(text@) ==> r is Some && is_moderate(text_as_double(text@)->0),
            forall|point: int|
                text@.len() <= 300 && #[trigger] has_point_at(text@, point) ==> lies_from(
                    text_as_double(text@)->0,
                    digits_value(text@.take(point)),
                ),
    {
        match serde_number_of_text(text) {
            Some(n) => {
                let bits = serde_as_bits(&n);
                Some(Double { bits, number: n })
            },
            None => None,
        }
    }

    pub fn copy(&self) -> (r: Double)
        ensures
            r@ == self@,
            is_finite(r@),
    {
        proof {
            use_type_invariant(self);
        }
        Double::of_serde(&self.number)
    }

    fn to_serde(&self) -> (r: serde_json::Number)
        ensures
            number_model(r) == Num::Float(self@),
    {
        proof {
            use_type_invariant(self);
        }
        serde_to_float(&self.number)
    }

    /// Whether this double is less than another.
    pub fn less(&self, other: &Double) -> (r: bool)
        ensures
            r == (rank(self@) < rank(other@)),
    {
        let a = split_double(self.bits());
        let b = split_double(other.bits());
        if a.0 && b.0 {
            a.1 > b.1
        } else if a.0 {
            a.1 != 0 || b.1 != 0
        } else if b.0 {
            false
        } else {
            a.1 < b.1
        }
    }
}

/// Sign and magnitude of a double.
fn split_double(bits: u64) -> (r: (bool, u64))
    ensures
        r.0 == (bits >= 0x8000_0000_0000_0000),
        r.1 == magnitude(bits),
{
    (bits >= 0x8000_0000_0000_0000, bits % 0x8000_0000_0000_0000)
}

/// An integer below zero.
pub struct Negative {
    value: i64,
}

impl Negative {
    #[verifier::type_invariant]
    closed spec fn below_zero(self) -> bool {
        self.value < 0
    }

    pub closed spec fn spec_value(self) -> i64 {
        self.value
    }

    pub fn value(&self) -> (r: i64)
        ensures
            r == self.spec_value(),
            r < 0,
    {
        proof {
            use_type_invariant(self);
        }
        self.value
    }

    /// The integer, if it is below zero.
    pub fn new(value: i64) -> (r: Option<Negative>)
        ensures
            match r {
                Some(n) => n.spec_value() == value && value < 0,
                None => value >= 0,
            },
    {
        if value < 0 {
            Some(Negative { value })
        } else {
            None
        }
    }
}

/// A JSON number.
pub enum JsonNumber {
    PosInt(u64),
    NegInt(Negative),
    Float(Double),
}

impl View for JsonNumber {
    type V = Num;

    open spec fn view(&self) -> Num {
        match self {
            JsonNumber::PosInt(n) => Num::PosInt(*n),
            JsonNumber::NegInt(n) => Num::NegInt(n.spec_value()),
            JsonNumber::Float(d) => Num::Float(d@),
        }
    }
}

impl JsonNumber {
    pub fn copy(&self) -> (r: JsonNumber)
        ensures
            r@ == self@,
    {
        match self {
            JsonNumber::PosInt(n) => JsonNumber::PosInt(*n),
            JsonNumber::NegInt(n) => {
                let value = n.value();
                JsonNumber::NegInt(Negative { value })
            },
            JsonNumber::Float(d) => JsonNumber::Float(d.copy()),
        }
    }
}

// ---------------------------------------------------------------------------
// Values
// ---------------------------------------------------------------------------

/// A JSON value.
pub enum Json {
    Null,
    Bool(bool),
    Num(JsonNumber),
    Text(String),
    Array(Vec<Json>),
    Object(Members),
}

/// The members of an object, in ascending order of their names.
pub struct Members {
    entries: Vec<(String, Json)>,
}

/// The names of the members in `s`.
spec fn names(s: Seq<(String, Json)>) -> Seq<(Seq<char>, Json)> {
    s.map_values(|m: (String, Json)| (m.0@, m.1))
}

pub open spec fn values_view(s: Seq<Json>) -> Seq<JsonV>
    decreases s,
{
    if s.len() == 0 {
        Seq::empty()
    } else {
        values_view(s.drop_last()).push(json_view(s.last()))
    }
}

closed spec fn entries_view(s: Seq<(String, Json)>) -> Seq<(Seq<char>, JsonV)>
    decreases s,
{
    if s.len() == 0 {
        Seq::empty()
    } else {
        entries_view(s.drop_last()).push((s.last().0@, json_view(s.last().1)))
    }
}

pub closed spec fn members_view(m: Members) -> Seq<(Seq<char>, JsonV)>
    decreases m,
{
    entries_view(m.entries@)
}

pub open spec fn json_view(j: Json) -> JsonV
    decreases j,
{
    match j {
        Json::Null => JsonV::Null,
        Json::Bool(b) => JsonV::Bool(b),
        Json::Num(n) => JsonV::Num(n@),
        Json::Text(s) => JsonV::Text(s@),
        Json::Array(items) => JsonV::Array(values_view(items@)),
        Json::Object(members) => JsonV::Object(members_view(members)),
    }
}

impl View for Json {
    type V = JsonV;

    open spec fn view(&self) -> JsonV {
        json_view(*self)
    }
}

impl View for Members {
    type V = Seq<(Seq<char>, JsonV)>;

    open spec fn view(&self) -> Seq<(Seq<char>, JsonV)> {
        members_view(*self)
    }
}

/// The model of an optional value.
pub open spec fn opt_json(j: Option<&Json>) -> Option<JsonV> {
    match j {
        Some(value) => Some(value@),
        None => None,
    }
}

pub proof fn lemma_values_view(s: Seq<Json>)
    ensures
        values_view(s).len() == s.len(),
        forall|i: int| 0 <= i < s.len() ==> #[trigger] values_view(s)[i] == s[i]@,
    decreases s.len(),
{
    if s.len() > 0 {
        lemma_values_view(s.drop_last());
        assert forall|i: int| 0 <= i < s.len() implies #[trigger] values_view(s)[i]
            == s[i]@ by {
            if i < s.len() - 1 {
                assert(values_view(s.drop_last())[i] == s.drop_last()[i]@);
            }
        }
    }
}

proof fn lemma_entries_view(s: Seq<(String, Json)>)
    ensures
        entries_view(s).len() == s.len(),
        forall|i: int|
            0 <= i < s.len() ==> (#[trigger] entries_view(s)[i]) == (s[i].0@, s[i].1@),
    decreases s.len(),
{
    if s.len() > 0 {
        lemma_entries_view(s.drop_last());
        assert forall|i: int| 0 <= i < s.len() implies (#[trigger] entries_view(s)[i]) == (
            s[i].0@,
            s[i].1@,
        ) by {
            if i < s.len() - 1 {
                assert(entries_view(s.drop_last())[i] == (
                    s.drop_last()[i].0@,
                    s.drop_last()[i].1@,
                ));
            }
        }
    }
}

impl Members {
    #[verifier::type_invariant]
    closed spec fn in_order(self) -> bool {
        ascending(names(self.entries@))
    }

    pub fn new() -> (r: Members)
        ensures
            r@ == Seq::<(Seq<char>, JsonV)>::empty(),
    {
        Members { entries: Vec::new() }
    }

    pub fn len(&self) -> (r: usize)
        ensures
            r == self@.len(),
            ascending(self@),
    {
        proof {
            use_type_invariant(self);
            lemma_entries_view(self.entries@);
            lemma_names_ascend(self.entries@);
        }
        self.entries.len()
    }

    /// The name of the member at `i`.
    pub fn key(&self, i: usize) -> (r: &String)
        requires
            i < self@.len(),
        ensures
            r@ == self@[i as int].0,
    {
        proof {
            lemma_entries_view(self.entries@);
        }
        &self.entries[i].0
    }

    /// The value of the member at `i`.
    pub fn value(&self, i: usize) -> (r: &Json)
        requires
            i < self@.len(),
        ensures
            r@ == self@[i as int].1,
    {
        proof {
            lemma_entries_view(self.entries@);
        }
        &self.entries[i].1
    }

    /// The value of the member `key`.
    pub fn get(&self, key: &str) -> (r: Option<&Json>)
        ensures
            opt_json(r) == member(self@, key@),
    {
        proof {
            lemma_entries_view(self.entries@);
        }
        let mut i: usize = self.entries.len();
        assert(self@.take(i as int) == self@);
        while i > 0
            invariant
                i <= self.entries.len(),
                self@ == entries_view(self.entries@),
                self@.len() == self.entries.len(),
                forall|k: int|
                    0 <= k < self@.len() ==> (#[trigger] self@[k]) == (
                        self.entries@[k].0@,
                        self.entries@[k].1@,
                    ),
                member(self@.take(i as int), key@) == member(self@, key@),
            decreases i,
        {
            assert(self@.take(i as int).drop_last() == self@.take(i - 1));
            assert(self@.take(i as int).last() == self@[i - 1]);
            if same(self.entries[i - 1].0.as_str(), key) {
                return Some(&self.entries[i - 1].1);
            }
            i -= 1;
        }
        None
    }
}

// ---------------------------------------------------------------------------
// Order of names
// ---------------------------------------------------------------------------

pub proof fn lemma_precedes_not_itself(a: Seq<char>)
    ensures
        !precedes(a, a),
    decreases a.len(),
{
    if a.len() > 0 {
        lemma_precedes_not_itself(a.drop_first());
    }
}

pub proof fn lemma_precedes_transitive(a: Seq<char>, b: Seq<char>, c: Seq<char>)
    requires
        precedes(a, b),
        precedes(b, c),
    ensures
        precedes(a, c),
    decreases a.len(),
{
    if a.len() > 0 && a[0] == b[0] && b[0] == c[0] {
        lemma_precedes_transitive(a.drop_first(), b.drop_first(), c.drop_first());
    }
}

pub proof fn lemma_precedes_total(a: Seq<char>, b: Seq<char>)
    ensures
        a == b || precedes(a, b) || precedes(b, a),
    decreases a.len(),
{
    if a.len() > 0 && b.len() > 0 && a[0] == b[0] {
        lemma_precedes_total(a.drop_first(), b.drop_first());
        if a.drop_first() == b.drop_first() {
            assert(a =~= seq![a[0]] + a.drop_first());
            assert(b =~= seq![b[0]] + b.drop_first());
        }
    } else if a.len() == 0 && b.len() == 0 {
        assert(a =~= b);
    }
}

/// Whether one name stands before another.
pub fn before(a: &str, b: &str) -> (r: bool)
    ensures
        r == precedes(a@, b@),
{
    let left = chars_of(a);
    let right = chars_of(b);
    let mut i: usize = 0;
    assert(left@.skip(0) == left@);
    assert(right@.skip(0) == right@);
    while i < left.len() && i < right.len()
        invariant
            left@ == a@,
            right@ == b@,
            i <= left.len(),
            i <= right.len(),
            precedes(left@.skip(i as int), right@.skip(i as int)) == precedes(a@, b@),
        decreases left.len() - i,
    {
        assert(left@.skip(i as int).drop_first() == left@.skip(i + 1));
        assert(right@.skip(i as int).drop_first() == right@.skip(i + 1));
        if left[i] != right[i] {
            return left[i] < right[i];
        }
        i += 1;
    }
    i < right.len()
}

proof fn lemma_with_member_names(
    members: Seq<(Seq<char>, JsonV)>,
    key: Seq<char>,
    value: JsonV,
)
    ensures
        forall|i: int|
            0 <= i < with_member(members, key, value).len() ==> {
                let name = (#[trigger] with_member(members, key, value)[i]).0;
                name == key || exists|j: int| 0 <= j < members.len() && members[j].0 == name
            },
    decreases members.len(),
{
    if members.len() > 0 {
        let rest = members.drop_last();
        lemma_with_member_names(rest, key, value);
        let after = with_member(members, key, value);
        assert forall|i: int| 0 <= i < after.len() implies {
            let name = (#[trigger] after[i]).0;
            name == key || exists|j: int| 0 <= j < members.len() && members[j].0 == name
        } by {
            let name = after[i].0;
            if members.last().0 != key && !precedes(members.last().0, key) {
                if i < after.len() - 1 {
                    let inner = with_member(rest, key, value);
                    assert(inner[i].0 == name);
                    if name != key {
                        let j = choose|j: int| 0 <= j < rest.len() && rest[j].0 == name;
                        assert(members[j].0 == name);
                    }
                } else {
                    assert(members[members.len() - 1].0 == name);
                }
            } else if i < after.len() - 1 {
                assert(members[i].0 == name);
            }
        }
    }
}

/// Setting a member keeps the names in ascending order, so that no name
/// occurs twice.
pub proof fn with_member_keeps_order(
    members: Seq<(Seq<char>, JsonV)>,
    key: Seq<char>,
    value: JsonV,
)
    requires
        ascending(members),
    ensures
        ascending(with_member(members, key, value)),
    decreases members.len(),
{
    if members.len() > 0 {
        let rest = members.drop_last();
        let last = members.last();
        let after = with_member(members, key, value);
        assert forall|i: int, j: int| 0 <= i < j < rest.len() implies precedes(
            #[trigger] rest[i].0,
            #[trigger] rest[j].0,
        ) by {
            assert(rest[i] == members[i] && rest[j] == members[j]);
        }
        with_member_keeps_order(rest, key, value);
        assert forall|i: int, j: int| 0 <= i < j < after.len() implies precedes(
            #[trigger] after[i].0,
            #[trigger] after[j].0,
        ) by {
            if last.0 == key {
                assert(after[i].0 == members[i].0);
                assert(after[j].0 == members[j].0);
            } else if precedes(last.0, key) {
                assert(after[i] == members[i]);
                if j < members.len() {
                    assert(after[j] == members[j]);
                } else if i < members.len() - 1 {
                    assert(members[members.len() - 1] == last);
                    lemma_precedes_transitive(members[i].0, last.0, key);
                }
            } else {
                let inner = with_member(rest, key, value);
                assert(after[i] == inner[i]);
                if j < inner.len() {
                    assert(after[j] == inner[j]);
                } else {
                    lemma_with_member_names(rest, key, value);
                    lemma_precedes_total(last.0, key);
                    if inner[i].0 != key {
                        let k = choose|k: int| 0 <= k < rest.len() && rest[k].0 == inner[i].0;
                        assert(members[k] == rest[k]);
                        assert(members[members.len() - 1] == last);
                    }
                }
            }
        }
    }
}

/// A member that was set reads back its value, and no other member changes.
pub proof fn with_member_reads_back(
    members: Seq<(Seq<char>, JsonV)>,
    key: Seq<char>,
    value: JsonV,
    other: Seq<char>,
)
    ensures
        member(with_member(members, key, value), key) == Some(value),
        other != key ==> member(with_member(members, key, value), other) == member(members, other),
    decreases members.len(),
{
    let after = with_member(members, key, value);
    if members.len() == 0 {
        assert(after.drop_last() =~= members);
    } else {
        with_member_reads_back(members.drop_last(), key, value, other);
        if members.last().0 == key {
            assert(after.drop_last() =~= members.drop_last());
        } else if precedes(members.last().0, key) {
            assert(after.drop_last() =~= members);
        } else {
            assert(after.drop_last() =~= with_member(members.drop_last(), key, value));
        }
    }
}

proof fn lemma_names_ascend(s: Seq<(String, Json)>)
    ensures
        ascending(names(s)) <==> ascending(entries_view(s)),
{
    lemma_entries_view(s);
    let a = names(s);
    let b = entries_view(s);
    assert forall|i: int| 0 <= i < s.len() implies #[trigger] a[i].0 == b[i].0 by {}
    if ascending(a) {
        assert forall|i: int, j: int| 0 <= i < j < b.len() implies precedes(
            #[trigger] b[i].0,
            #[trigger] b[j].0,
        ) by {
            assert(precedes(a[i].0, a[j].0));
        }
    }
    if ascending(b) {
        assert forall|i: int, j: int| 0 <= i < j < a.len() implies precedes(
            #[trigger] a[i].0,
            #[trigger] a[j].0,
        ) by {
            assert(precedes(b[i].0, b[j].0));
        }
    }
}

proof fn lemma_with_member_split(
    members: Seq<(Seq<char>, JsonV)>,
    at: int,
    key: Seq<char>,
    value: JsonV,
)
    requires
        0 <= at <= members.len(),
        forall|k: int|
            at <= k < members.len() ==> (#[trigger] members[k]).0 != key && !precedes(
                members[k].0,
                key,
            ),
    ensures
        with_member(members, key, value) == with_member(members.take(at), key, value)
            + members.skip(at),
    decreases members.len() - at,
{
    if at < members.len() {
        lemma_with_member_split(members, at + 1, key, value);
        let head = members.take(at + 1);
        assert(head.last() == members[at]);
        assert(head.drop_last() =~= members.take(at));
        assert(with_member(head, key, value) + members.skip(at + 1) =~= with_member(
            members.take(at),
            key,
            value,
        ) + members.skip(at));
    } else {
        assert(members.take(at) =~= members);
        assert(members.skip(at).len() == 0);
        assert(with_member(members, key, value) + members.skip(at) =~= with_member(
            members,
            key,
            value,
        ));
    }
}

impl Members {
    /// Sets the member `key`.
    pub fn insert(&mut self, key: String, value: Json)
        ensures
            final(self)@ == with_member(old(self)@, key@, value@),
    {
        proof {
            use_type_invariant(&*self);
        }
        let ghost model = value@;
        let ghost name = key@;
        let ghost members = self@;
        let mut entries: Vec<(String, Json)> = Vec::new();
        std::mem::swap(&mut entries, &mut self.entries);
        let ghost start = entries@;
        proof {
            lemma_entries_view(start);
            lemma_names_ascend(start);
        }
        let mut at: usize = entries.len();
        while at > 0 && !same(entries[at - 1].0.as_str(), key.as_str()) && !before(
            entries[at - 1].0.as_str(),
            key.as_str(),
        )
            invariant
                at <= entries.len(),
                entries@ == start,
                name == key@,
                members == entries_view(start),
                members.len() == start.len(),
                forall|k: int|
                    0 <= k < members.len() ==> (#[trigger] members[k]) == (
                        start[k].0@,
                        start[k].1@,
                    ),
                forall|k: int|
                    at <= k < members.len() ==> (#[trigger] members[k]).0 != name && !precedes(
                        members[k].0,
                        name,
                    ),
            decreases at,
        {
            assert(members[at - 1].0 == start[at - 1].0@);
            at -= 1;
        }
        proof {
            lemma_with_member_split(members, at as int, name, model);
            if at > 0 {
                assert(members.take(at as int).last() == members[at - 1]);
                assert(members[at - 1].0 == start[at - 1].0@);
            }
        }
        let ghost wanted = with_member(members, name, model);
        if at > 0 && same(entries[at - 1].0.as_str(), key.as_str()) {
            entries[at - 1] = (key, value);
            proof {
                lemma_entries_view(entries@);
                assert(members.take(at as int).drop_last() =~= members.take(at - 1));
                assert(entries_view(entries@) =~= wanted);
            }
        } else {
            entries.insert(at, (key, value));
            proof {
                lemma_entries_view(entries@);
                assert(entries_view(entries@) =~= wanted);
            }
        }
        proof {
            with_member_keeps_order(members, name, model);
            lemma_names_ascend(entries@);
        }
        self.entries = entries;
    }
}

impl Json {
    pub fn copy(&self) -> (r: Json)
        ensures
            r@ == self@,
        decreases self,
    {
        match self {
            Json::Null => Json::Null,
            Json::Bool(b) => Json::Bool(*b),
            Json::Num(n) => Json::Num(n.copy()),
            Json::Text(s) => Json::Text(s.clone()),
            Json::Array(items) => {
                let mut out: Vec<Json> = Vec::new();
                let mut i: usize = 0;
                while i < items.len()
                    invariant
                        i <= items.len(),
                        self matches Json::Array(list) && list == items,
                        out@.len() == i,
                        forall|k: int| 0 <= k < i ==> (#[trigger] out@[k])@ == items@[k]@,
                    decreases items.len() - i,
                {
                    let item = items[i].copy();
                    out.push(item);
                    i += 1;
                }
                proof {
                    lemma_values_view(items@);
                    lemma_values_view(out@);
                    assert(values_view(out@) =~= values_view(items@));
                }
                Json::Array(out)
            },
            Json::Object(members) => Json::Object(members.copy()),
        }
    }
}

impl Members {
    pub fn copy(&self) -> (r: Members)
        ensures
            r@ == self@,
        decreases self,
    {
        proof {
            use_type_invariant(self);
        }
        let mut entries: Vec<(String, Json)> = Vec::new();
        let mut i: usize = 0;
        while i < self.entries.len()
            invariant
                i <= self.entries.len(),
                entries@.len() == i,
                forall|k: int|
                    0 <= k < i ==> (#[trigger] entries@[k]).0@ == self.entries@[k].0@
                        && entries@[k].1@ == self.entries@[k].1@,
            decreases self.entries.len() - i,
        {
            let value = self.entries[i].1.copy();
            entries.push((self.entries[i].0.clone(), value));
            i += 1;
        }
        proof {
            lemma_entries_view(entries@);
            lemma_entries_view(self.entries@);
            assert(entries_view(entries@) =~= entries_view(self.entries@));
            lemma_names_ascend(entries@);
            lemma_names_ascend(self.entries@);
        }
        Members { entries }
    }
}

// ---------------------------------------------------------------------------
// Reading and writing
// ---------------------------------------------------------------------------

fn number_of(n: &serde_json::Number) -> (r: JsonNumber)
    ensures
        r@ == number_model(*n),
{
    match serde_as_unsigned(n) {
        Some(value) => JsonNumber::PosInt(value),
        None => {
            if let Some(value) = serde_as_signed(n) {
                if let Some(negative) = Negative::new(value) {
                    return JsonNumber::NegInt(negative);
                }
            }
            JsonNumber::Float(Double::of_serde(n))
        },
    }
}

fn value_of(v: &serde_json::Value) -> (r: Json)
    ensures
        r@ == value_model(*v),
    decreases value_model(*v),
{
    match serde_open(v) {
        Layer::Null => Json::Null,
        Layer::Bool(b) => Json::Bool(b),
        Layer::Num(n) => Json::Num(number_of(n)),
        Layer::Text(s) => Json::Text(s.clone()),
        Layer::Array(items) => {
            let ghost model = items@.map_values(|x: serde_json::Value| value_model(x));
            let mut out: Vec<Json> = Vec::new();
            let mut i: usize = 0;
            while i < items.len()
                invariant
                    i <= items.len(),
                    model == items@.map_values(|x: serde_json::Value| value_model(x)),
                    value_model(*v) == JsonV::Array(model),
                    out@.len() == i,
                    forall|k: int| 0 <= k < i ==> (#[trigger] out@[k])@ == model[k],
                decreases items.len() - i,
            {
                assert(model[i as int] == value_model(items@[i as int]));
                assert(decreases_to!(value_model(*v) => value_model(*v)->Array_0));
                assert(decreases_to!(model => model[i as int]));
                let item = value_of(&items[i]);
                out.push(item);
                i += 1;
            }
            proof {
                lemma_values_view(out@);
                assert(values_view(out@) =~= model);
            }
            Json::Array(out)
        },
        Layer::Object(members) => {
            let ghost model = members@.map_values(
                |m: (&String, &serde_json::Value)| (m.0@, value_model(*m.1)),
            );
            let mut entries: Vec<(String, Json)> = Vec::new();
            let mut i: usize = 0;
            while i < members.len()
                invariant
                    i <= members.len(),
                    model == members@.map_values(
                        |m: (&String, &serde_json::Value)| (m.0@, value_model(*m.1)),
                    ),
                    value_model(*v) == JsonV::Object(model),
                    entries@.len() == i,
                    forall|k: int|
                        0 <= k < i ==> (#[trigger] entries@[k]).0@ == model[k].0
                            && entries@[k].1@ == model[k].1,
                decreases members.len() - i,
            {
                let pair = members[i];
                assert(model[i as int] == (pair.0@, value_model(*pair.1)));
                assert(decreases_to!(value_model(*v) => value_model(*v)->Object_0));
                assert(decreases_to!(model => model[i as int]));
                assert(decreases_to!(model[i as int] => model[i as int].1));
                let value = value_of(pair.1);
                entries.push((pair.0.clone(), value));
                i += 1;
            }
            proof {
                lemma_entries_view(entries@);
                assert(entries_view(entries@) =~= model);
                lemma_names_ascend(entries@);
            }
            Json::Object(Members { entries })
        },
    }
}

fn serde_of(j: &Json) -> (r: serde_json::Value)
    ensures
        value_model(r) == j@,
    decreases j,
{
    match j {
        Json::Null => serde_close(Part::Null),
        Json::Bool(b) => serde_close(Part::Bool(*b)),
        Json::Num(n) => serde_close(
            Part::Num(
                match n {
                    JsonNumber::PosInt(value) => serde_from_unsigned(*value),
                    JsonNumber::NegInt(value) => serde_from_signed(value.value()),
                    JsonNumber::Float(d) => d.to_serde(),
                },
            ),
        ),
        Json::Text(s) => serde_close(Part::Text(s.clone())),
        Json::Array(items) => {
            let mut out: Vec<serde_json::Value> = Vec::new();
            let mut i: usize = 0;
            while i < items.len()
                invariant
                    i <= items.len(),
                    j matches Json::Array(list) && list == items,
                    out@.len() == i,
                    forall|k: int| 0 <= k < i ==> value_model(#[trigger] out@[k]) == items@[k]@,
                decreases items.len() - i,
            {
                let item = serde_of(&items[i]);
                out.push(item);
                i += 1;
            }
            proof {
                lemma_values_view(items@);
                assert(out@.map_values(|x: serde_json::Value| value_model(x)) =~= values_view(
                    items@,
                ));
            }
            serde_close(Part::Array(out))
        },
        Json::Object(members) => members.to_serde(),
    }
}

impl Members {
    fn to_serde(&self) -> (r: serde_json::Value)
        ensures
            value_model(r) == JsonV::Object(self@),
        decreases self,
    {
        proof {
            use_type_invariant(self);
        }
        let mut out: Vec<(String, serde_json::Value)> = Vec::new();
        let mut i: usize = 0;
        while i < self.entries.len()
            invariant
                i <= self.entries.len(),
                out@.len() == i,
                forall|k: int|
                    0 <= k < i ==> (#[trigger] out@[k]).0@ == self.entries@[k].0@ && value_model(
                        out@[k].1,
                    ) == self.entries@[k].1@,
            decreases self.entries.len() - i,
        {
            let value = serde_of(&self.entries[i].1);
            out.push((self.entries[i].0.clone(), value));
            i += 1;
        }
        proof {
            lemma_entries_view(self.entries@);
            lemma_names_ascend(self.entries@);
            assert(out@.map_values(|m: (String, serde_json::Value)| (m.0@, value_model(m.1)))
                =~= self@);
        }
        serde_close(Part::Object(out))
    }
}

/// Reads a JSON text.
pub fn parse_json(text: &str) -> (r: Result<Json, String>)
    ensures
        match r {
            Ok(j) => json_parsed(text@) == Ok::<JsonV, Seq<char>>(j@),
            Err(message) => json_parsed(text@) == Err::<JsonV, Seq<char>>(message@),
        },
{
    match serde_parse(text) {
        Ok(v) => Ok(value_of(&v)),
        Err(message) => Err(message),
    }
}

/// Says what is wrong with a text that is to be JSON.
pub fn skim_json(text: &str) -> (r: Option<String>)
    ensures
        opt_view(r) == json_ignored(text@),
{
    serde_skim(text)
}

/// Writes the compact JSON text of a value, which is one line.
pub fn write_json(j: &Json) -> (r: String)
    ensures
        r@ == json_text(j@),
        !r@.contains('\n'),
{
    serde_text(&serde_of(j))
}

/// Writes the indented JSON text of a value, as it is kept in a file. It reads
/// back as the value, but for the last digits of doubles.
pub fn write_pretty(j: &Json) -> (r: String)
    ensures
        r@ == json_pretty(j@),
        survives(j@, MAX_NESTING as nat) ==> reads_as(r@, j@),
        readable(j@, MAX_NESTING as nat) ==> reads_alike(r@, j@),
        survives(j@, MAX_PART_NESTING as nat) ==> is_laid_out(r@, j@),
{
    serde_pretty(&serde_of(j))
}

impl Json {
    pub fn as_bool(&self) -> (r: Option<bool>)
        ensures
            r == self@.as_bool(),
    {
        match self {
            Json::Bool(b) => Some(*b),
            _ => None,
        }
    }

    pub fn as_str(&self) -> (r: Option<&String>)
        ensures
            match r {
                Some(s) => self@.as_str() == Some(s@),
                None => self@.as_str() is None,
            },
    {
        match self {
            Json::Text(s) => Some(s),
            _ => None,
        }
    }

    pub fn as_u64(&self) -> (r: Option<u64>)
        ensures
            r == self@.as_u64(),
    {
        match self {
            Json::Num(JsonNumber::PosInt(n)) => Some(*n),
            _ => None,
        }
    }

    pub fn as_double(&self) -> (r: Option<Double>)
        ensures
            match r {
                Some(d) => self@.as_double() == Some(d@) && is_finite(d@),
                None => self@.as_double() is None,
            },
    {
        match self {
            Json::Num(n) => Some(Double::of_number(n)),
            _ => None,
        }
    }

    pub fn as_array(&self) -> (r: Option<&Vec<Json>>)
        ensures
            match r {
                Some(items) => self@.as_array() == Some(values_view(items@)),
                None => self@.as_array() is None,
            },
    {
        match self {
            Json::Array(items) => Some(items),
            _ => None,
        }
    }

    pub fn as_object(&self) -> (r: Option<&Members>)
        ensures
            match r {
                Some(members) => self@.as_object() == Some(members@),
                None => self@.as_object() is None,
            },
    {
        match self {
            Json::Object(members) => Some(members),
            _ => None,
        }
    }

    /// The value of the member `key` of an object.
    pub fn get(&self, key: &str) -> (r: Option<&Json>)
        ensures
            opt_json(r) == self@.get(key@),
    {
        match self {
            Json::Object(members) => members.get(key),
            _ => None,
        }
    }

    /// The text of the member `key`, where it holds a string.
    pub fn get_str(&self, key: &str) -> (r: Option<&String>)
        ensures
            match r {
                Some(s) => self@.get_str(key@) == Some(s@),
                None => self@.get_str(key@) is None,
            },
    {
        match self.get(key) {
            Some(value) => value.as_str(),
            None => None,
        }
    }
}

/// Equality of JSON numbers: of the same kind and equal, both zeros alike.
pub open spec fn same_num(a: Num, b: Num) -> bool {
    match (a, b) {
        (Num::PosInt(x), Num::PosInt(y)) => x == y,
        (Num::NegInt(x), Num::NegInt(y)) => x == y,
        (Num::Float(x), Num::Float(y)) => rank(x) == rank(y),
        _ => false,
    }
}

/// Equality of JSON values, item by item and member by member.
pub open spec fn same_json(a: JsonV, b: JsonV) -> bool
    decreases a,
{
    match (a, b) {
        (JsonV::Null, JsonV::Null) => true,
        (JsonV::Bool(x), JsonV::Bool(y)) => x == y,
        (JsonV::Num(x), JsonV::Num(y)) => same_num(x, y),
        (JsonV::Text(x), JsonV::Text(y)) => x == y,
        (JsonV::Array(x), JsonV::Array(y)) => same_items(x, y),
        (JsonV::Object(x), JsonV::Object(y)) => same_members(x, y),
        _ => false,
    }
}

pub open spec fn same_items(a: Seq<JsonV>, b: Seq<JsonV>) -> bool
    decreases a,
{
    if a.len() == 0 || b.len() == 0 {
        a.len() == b.len()
    } else {
        same_items(a.drop_last(), b.drop_last()) && same_json(a.last(), b.last())
    }
}

pub open spec fn same_members(
    a: Seq<(Seq<char>, JsonV)>,
    b: Seq<(Seq<char>, JsonV)>,
) -> bool
    decreases a,
{
    if a.len() == 0 || b.len() == 0 {
        a.len() == b.len()
    } else {
        same_members(a.drop_last(), b.drop_last()) && a.last().0 == b.last().0 && same_json(
            a.last().1,
            b.last().1,
        )
    }
}

proof fn lemma_same_items(a: Seq<JsonV>, b: Seq<JsonV>)
    ensures
        same_items(a, b) <==> a.len() == b.len() && forall|i: int|
            0 <= i < a.len() ==> same_json(#[trigger] a[i], b[i]),
    decreases a.len(),
{
    if a.len() > 0 && b.len() > 0 {
        lemma_same_items(a.drop_last(), b.drop_last());
        if a.len() == b.len() && (forall|i: int|
            0 <= i < a.len() ==> same_json(#[trigger] a[i], b[i])) {
            assert forall|i: int| 0 <= i < a.drop_last().len() implies same_json(
                #[trigger] a.drop_last()[i],
                b.drop_last()[i],
            ) by {
                assert(same_json(a[i], b[i]));
            }
            assert(same_json(a[a.len() - 1], b[a.len() - 1]));
        }
        if same_items(a, b) {
            assert forall|i: int| 0 <= i < a.len() implies same_json(#[trigger] a[i], b[i]) by {
                if i < a.len() - 1 {
                    assert(same_json(a.drop_last()[i], b.drop_last()[i]));
                }
            }
        }
    }
}

proof fn lemma_same_members(a: Seq<(Seq<char>, JsonV)>, b: Seq<(Seq<char>, JsonV)>)
    ensures
        same_members(a, b) <==> a.len() == b.len() && forall|i: int|
            0 <= i < a.len() ==> (#[trigger] a[i]).0 == b[i].0 && same_json(a[i].1, b[i].1),
    decreases a.len(),
{
    if a.len() > 0 && b.len() > 0 {
        lemma_same_members(a.drop_last(), b.drop_last());
        if a.len() == b.len() && (forall|i: int|
            0 <= i < a.len() ==> (#[trigger] a[i]).0 == b[i].0 && same_json(a[i].1, b[i].1)) {
            assert forall|i: int| 0 <= i < a.drop_last().len() implies (
            #[trigger] a.drop_last()[i]).0 == b.drop_last()[i].0 && same_json(
                a.drop_last()[i].1,
                b.drop_last()[i].1,
            ) by {
                assert(a[i].0 == b[i].0);
            }
            assert(a[a.len() - 1].0 == b[a.len() - 1].0);
        }
        if same_members(a, b) {
            assert forall|i: int| 0 <= i < a.len() implies (#[trigger] a[i]).0 == b[i].0
                && same_json(a[i].1, b[i].1) by {
                if i < a.len() - 1 {
                    assert(a.drop_last()[i].0 == b.drop_last()[i].0);
                }
            }
        }
    }
}

/// Equality of JSON values.
pub fn equal_json(a: &Json, b: &Json) -> (r: bool)
    ensures
        r == same_json(a@, b@),
    decreases a,
{
    match (a, b) {
        (Json::Null, Json::Null) => true,
        (Json::Bool(x), Json::Bool(y)) => *x == *y,
        (Json::Num(JsonNumber::PosInt(x)), Json::Num(JsonNumber::PosInt(y))) => *x == *y,
        (Json::Num(JsonNumber::NegInt(x)), Json::Num(JsonNumber::NegInt(y))) => x.value()
            == y.value(),
        (Json::Num(JsonNumber::Float(x)), Json::Num(JsonNumber::Float(y))) => !x.less(y)
            && !y.less(x),
        (Json::Text(x), Json::Text(y)) => same(x.as_str(), y.as_str()),
        (Json::Array(x), Json::Array(y)) => {
            proof {
                lemma_values_view(x@);
                lemma_values_view(y@);
                lemma_same_items(values_view(x@), values_view(y@));
            }
            if x.len() != y.len() {
                return false;
            }
            let mut i: usize = 0;
            while i < x.len()
                invariant
                    i <= x.len(),
                    x.len() == y.len(),
                    a matches Json::Array(list) && list == x,
                    a@ == JsonV::Array(values_view(x@)),
                    b@ == JsonV::Array(values_view(y@)),
                    values_view(x@).len() == x@.len(),
                    values_view(y@).len() == y@.len(),
                    forall|k: int| 0 <= k < x.len() ==> #[trigger] values_view(x@)[k] == x@[k]@,
                    forall|k: int| 0 <= k < y.len() ==> #[trigger] values_view(y@)[k] == y@[k]@,
                    same_items(values_view(x@), values_view(y@)) <==> forall|k: int|
                        0 <= k < x@.len() ==> same_json(
                            #[trigger] values_view(x@)[k],
                            values_view(y@)[k],
                        ),
                    forall|k: int|
                        0 <= k < i ==> same_json(#[trigger] values_view(x@)[k], values_view(y@)[k]),
                decreases x.len() - i,
            {
                if !equal_json(&x[i], &y[i]) {
                    assert(!same_json(values_view(x@)[i as int], values_view(y@)[i as int]));
                    return false;
                }
                i += 1;
            }
            true
        },
        (Json::Object(x), Json::Object(y)) => x.equal(y),
        _ => false,
    }
}

impl Members {
    fn equal(&self, other: &Members) -> (r: bool)
        ensures
            r == same_members(self@, other@),
        decreases self,
    {
        proof {
            lemma_entries_view(self.entries@);
            lemma_entries_view(other.entries@);
            lemma_same_members(self@, other@);
        }
        if self.entries.len() != other.entries.len() {
            return false;
        }
        let mut i: usize = 0;
        while i < self.entries.len()
            invariant
                i <= self.entries.len(),
                self.entries.len() == other.entries.len(),
                self@.len() == self.entries@.len(),
                other@.len() == other.entries@.len(),
                forall|k: int|
                    0 <= k < self.entries@.len() ==> (#[trigger] self@[k]) == (
                        self.entries@[k].0@,
                        self.entries@[k].1@,
                    ),
                forall|k: int|
                    0 <= k < other.entries@.len() ==> (#[trigger] other@[k]) == (
                        other.entries@[k].0@,
                        other.entries@[k].1@,
                    ),
                same_members(self@, other@) <==> forall|k: int|
                    0 <= k < self@.len() ==> (#[trigger] self@[k]).0 == other@[k].0 && same_json(
                        self@[k].1,
                        other@[k].1,
                    ),
                forall|k: int|
                    0 <= k < i ==> (#[trigger] self@[k]).0 == other@[k].0 && same_json(
                        self@[k].1,
                        other@[k].1,
                    ),
            decreases self.entries.len() - i,
        {
            assert(self@[i as int].0 == self.entries@[i as int].0@);
            assert(other@[i as int].0 == other.entries@[i as int].0@);
            if !same(self.entries[i].0.as_str(), other.entries[i].0.as_str()) {
                return false;
            }
            if !equal_json(&self.entries[i].1, &other.entries[i].1) {
                return false;
            }
            i += 1;
        }
        true
    }
}

/// The field of a stored record, which is an object, or a list of its fields in
/// order: what stands under `key` in the one, or at `at` in the other.
pub open spec fn record_field(value: JsonV, key: Seq<char>, at: int) -> Option<JsonV> {
    match value {
        JsonV::Array(items) => if at < items.len() {
            Some(items[at])
        } else {
            None
        },
        _ => value.get(key),
    }
}

pub fn get_record_field<'a>(value: &'a Json, key: &str, at: usize) -> (r: Option<&'a Json>)
    ensures
        opt_json(r) == record_field(value@, key@, at as int),
{
    match value {
        Json::Array(items) => {
            proof {
                lemma_values_view(items@);
            }
            if at < items.len() {
                Some(&items[at])
            } else {
                None
            }
        },
        _ => value.get(key),
    }
}

/// A record is an object, or a list of some number of fields.
pub open spec fn is_record(value: JsonV, least: int, most: int) -> bool {
    match value {
        JsonV::Object(_) => true,
        JsonV::Array(items) => least <= items.len() <= most,
        _ => false,
    }
}

pub fn check_record(value: &Json, least: usize, most: usize) -> (r: bool)
    ensures
        r == is_record(value@, least as int, most as int),
{
    match value {
        Json::Object(_) => true,
        Json::Array(items) => {
            proof {
                lemma_values_view(items@);
            }
            least <= items.len() && items.len() <= most
        },
        _ => false,
    }
}

/// The members that a list of pairs makes; a later pair replaces an earlier
/// one of the same name.
pub open spec fn collected(pairs: Seq<(Seq<char>, JsonV)>) -> Seq<(Seq<char>, JsonV)>
    decreases pairs.len(),
{
    if pairs.len() == 0 {
        Seq::empty()
    } else {
        with_member(collected(pairs.drop_last()), pairs.last().0, pairs.last().1)
    }
}

/// Every value of the list survives being written and read.
pub open spec fn all_survive(pairs: Seq<(Seq<char>, JsonV)>, depth: nat) -> bool {
    forall|i: int| 0 <= i < pairs.len() ==> survives((#[trigger] pairs[i]).1, depth)
}

proof fn lemma_with_member_survives(
    members: Seq<(Seq<char>, JsonV)>,
    key: Seq<char>,
    value: JsonV,
    depth: nat,
)
    requires
        all_survive(members, depth),
        survives(value, depth),
    ensures
        all_survive(with_member(members, key, value), depth),
    decreases members.len(),
{
    if members.len() > 0 {
        assert(all_survive(members.drop_last(), depth));
        lemma_with_member_survives(members.drop_last(), key, value, depth);
    }
}

/// An object made of values that survive does so too.
pub proof fn lemma_collected_survives(pairs: Seq<(Seq<char>, JsonV)>, depth: nat)
    requires
        all_survive(pairs, depth),
    ensures
        all_survive(collected(pairs), depth),
        survives(JsonV::Object(collected(pairs)), depth + 1),
    decreases pairs.len(),
{
    if pairs.len() > 0 {
        assert(all_survive(pairs.drop_last(), depth));
        lemma_collected_survives(pairs.drop_last(), depth);
        lemma_with_member_survives(
            collected(pairs.drop_last()),
            pairs.last().0,
            pairs.last().1,
            depth,
        );
    }
}

/// Every value of the list can be read once it is written.
pub open spec fn all_readable(pairs: Seq<(Seq<char>, JsonV)>, depth: nat) -> bool {
    forall|i: int| 0 <= i < pairs.len() ==> readable((#[trigger] pairs[i]).1, depth)
}

proof fn lemma_with_member_readable(
    members: Seq<(Seq<char>, JsonV)>,
    key: Seq<char>,
    value: JsonV,
    depth: nat,
)
    requires
        all_readable(members, depth),
        readable(value, depth),
    ensures
        all_readable(with_member(members, key, value), depth),
    decreases members.len(),
{
    if members.len() > 0 {
        assert(all_readable(members.drop_last(), depth));
        lemma_with_member_readable(members.drop_last(), key, value, depth);
    }
}

/// An object made of values that can be read can be read too.
pub proof fn lemma_collected_readable(pairs: Seq<(Seq<char>, JsonV)>, depth: nat)
    requires
        all_readable(pairs, depth),
    ensures
        all_readable(collected(pairs), depth),
        readable(JsonV::Object(collected(pairs)), depth + 1),
    decreases pairs.len(),
{
    if pairs.len() > 0 {
        assert(all_readable(pairs.drop_last(), depth));
        lemma_collected_readable(pairs.drop_last(), depth);
        lemma_with_member_readable(
            collected(pairs.drop_last()),
            pairs.last().0,
            pairs.last().1,
            depth,
        );
    }
}

/// The members have the same names in the same places, and values that are
/// alike.
pub open spec fn alike_members(a: Seq<(Seq<char>, JsonV)>, b: Seq<(Seq<char>, JsonV)>) -> bool {
    a.len() == b.len() && forall|i: int|
        0 <= i < a.len() ==> (#[trigger] a[i]).0 == b[i].0 && alike(a[i].1, b[i].1)
}

/// What stands under a name on both sides, or on neither, is alike.
pub open spec fn alike_found(a: Option<JsonV>, b: Option<JsonV>) -> bool {
    match (a, b) {
        (Some(x), Some(y)) => alike(x, y),
        (None, None) => true,
        _ => false,
    }
}

pub proof fn lemma_alike_itself(a: JsonV)
    ensures
        alike(a, a),
    decreases a,
{
    match a {
        JsonV::Array(items) => {
            assert forall|i: int| 0 <= i < items.len() implies alike(#[trigger] items[i], items[i]) by {
                lemma_alike_itself(items[i]);
            }
        },
        JsonV::Object(members) => {
            assert forall|i: int| 0 <= i < members.len() implies alike(
                (#[trigger] members[i]).1,
                members[i].1,
            ) by {
                lemma_alike_itself(members[i].1);
            }
        },
        _ => {},
    }
}

pub proof fn lemma_alike_member(
    a: Seq<(Seq<char>, JsonV)>,
    b: Seq<(Seq<char>, JsonV)>,
    key: Seq<char>,
)
    requires
        alike_members(a, b),
    ensures
        alike_found(member(a, key), member(b, key)),
    decreases a.len(),
{
    if a.len() > 0 {
        assert(a[a.len() - 1].0 == b[a.len() - 1].0);
        assert forall|i: int| 0 <= i < a.drop_last().len() implies (
        #[trigger] a.drop_last()[i]).0 == b.drop_last()[i].0 && alike(
            a.drop_last()[i].1,
            b.drop_last()[i].1,
        ) by {
            assert(a[i].0 == b[i].0);
        }
        lemma_alike_member(a.drop_last(), b.drop_last(), key);
    }
}

pub proof fn lemma_alike_with_member(
    a: Seq<(Seq<char>, JsonV)>,
    b: Seq<(Seq<char>, JsonV)>,
    key: Seq<char>,
    x: JsonV,
    y: JsonV,
)
    requires
        alike_members(a, b),
        alike(x, y),
    ensures
        alike_members(with_member(a, key, x), with_member(b, key, y)),
    decreases a.len(),
{
    if a.len() > 0 {
        assert(a[a.len() - 1].0 == b[a.len() - 1].0);
        assert forall|i: int| 0 <= i < a.drop_last().len() implies (
        #[trigger] a.drop_last()[i]).0 == b.drop_last()[i].0 && alike(
            a.drop_last()[i].1,
            b.drop_last()[i].1,
        ) by {
            assert(a[i].0 == b[i].0);
        }
        lemma_alike_with_member(a.drop_last(), b.drop_last(), key, x, y);
    }
}

/// The pairs of a list.
pub open spec fn pairs_view(pairs: Seq<(&str, Json)>) -> Seq<(Seq<char>, JsonV)> {
    pairs.map_values(|pair: (&str, Json)| (pair.0@, pair.1@))
}

/// An object with the given members.
pub fn object_of(pairs: Vec<(&str, Json)>) -> (r: Json)
    ensures
        r@ == JsonV::Object(collected(pairs_view(pairs@))),
{
    let mut members = Members::new();
    let mut i: usize = 0;
    assert(pairs_view(pairs@).take(0).len() == 0);
    while i < pairs.len()
        invariant
            i <= pairs.len(),
            members@ == collected(pairs_view(pairs@).take(i as int)),
        decreases pairs.len() - i,
    {
        members.insert(pairs[i].0.to_string(), pairs[i].1.copy());
        proof {
            let seen = pairs_view(pairs@).take(i + 1);
            assert(seen.drop_last() == pairs_view(pairs@).take(i as int));
            assert(seen.last() == (pairs@[i as int].0@, pairs@[i as int].1@));
        }
        i += 1;
    }
    assert(pairs_view(pairs@).take(i as int) == pairs_view(pairs@));
    Json::Object(members)
}

/// A JSON string.
pub fn text_json(s: &str) -> (r: Json)
    ensures
        r@ == JsonV::Text(s@),
{
    Json::Text(s.to_string())
}

/// A JSON unsigned integer.
pub fn int_json(n: u64) -> (r: Json)
    ensures
        r@ == JsonV::Num(Num::PosInt(n)),
{
    Json::Num(JsonNumber::PosInt(n))
}

/// A value that is to be a string.
pub open spec fn string_of(v: JsonV) -> Result<Seq<char>, Seq<char>> {
    match v {
        JsonV::Text(text) => Ok(text),
        _ => Err(not_a_string(v)),
    }
}

/// A value that is to be an unsigned number of 32 bits.
pub open spec fn u32_of(v: JsonV) -> Result<u32, Seq<char>> {
    match v {
        JsonV::Num(Num::PosInt(n)) => if n <= u32::MAX {
            Ok(n as u32)
        } else {
            Err(not_a_u32(v))
        },
        _ => Err(not_a_u32(v)),
    }
}

/// Reads a value that is to be a string.
pub fn read_string(j: &Json) -> (r: Result<String, String>)
    ensures
        match r {
            Ok(text) => string_of(j@) == Ok::<Seq<char>, Seq<char>>(text@),
            Err(message) => string_of(j@) == Err::<Seq<char>, Seq<char>>(message@),
        },
{
    serde_string(serde_of(j))
}

/// Reads a value that is to be an unsigned number of 32 bits.
pub fn read_u32(j: &Json) -> (r: Result<u32, String>)
    ensures
        match r {
            Ok(n) => u32_of(j@) == Ok::<u32, Seq<char>>(n),
            Err(message) => u32_of(j@) == Err::<u32, Seq<char>>(message@),
        },
{
    serde_u32(serde_of(j))
}

/// The number that a text denotes.
pub open spec fn decimal_value(text: Seq<char>) -> JsonV {
    match text_as_double(text) {
        Some(bits) => JsonV::Num(Num::Float(bits)),
        None => JsonV::Null,
    }
}

/// A JSON number with a point, written as a text.
pub fn decimal_json(text: &str) -> (r: Json)
    ensures
        r@ == decimal_value(text@),
        is_plain_decimal(text@) ==> is_moderate_number(r@),
        forall|point: int|
            text@.len() <= 300 && #[trigger] has_point_at(text@, point) ==> lies_from(
                text_as_double(text@)->0,
                digits_value(text@.take(point)),
            ),
{
    match Double::parse(text) {
        Some(d) => Json::Num(JsonNumber::Float(d)),
        None => Json::Null,
    }
}

/// Members whose names ascend do not move when one with a later name follows.
pub proof fn lemma_with_member_after(
    members: Seq<(Seq<char>, JsonV)>,
    key: Seq<char>,
    value: JsonV,
)
    requires
        members.len() > 0 ==> precedes(members.last().0, key),
    ensures
        with_member(members, key, value) == members.push((key, value)),
{
    if members.len() > 0 {
        lemma_precedes_not_itself(key);
    }
}

/// A member of a list whose names ascend is found under its name.
pub proof fn lemma_member_at(members: Seq<(Seq<char>, JsonV)>, i: int)
    requires
        ascending(members),
        0 <= i < members.len(),
    ensures
        member(members, members[i].0) == Some(members[i].1),
    decreases members.len(),
{
    if i < members.len() - 1 {
        let rest = members.drop_last();
        assert(rest[i] == members[i]);
        assert(precedes(members[i].0, members.last().0));
        lemma_precedes_not_itself(members[i].0);
        assert forall|a: int, b: int| 0 <= a < b < rest.len() implies precedes(
            #[trigger] rest[a].0,
            #[trigger] rest[b].0,
        ) by {
            assert(rest[a] == members[a] && rest[b] == members[b]);
        }
        lemma_member_at(rest, i);
    }
}

/// A name under which something is found is the name of a member.
pub proof fn lemma_member_found(members: Seq<(Seq<char>, JsonV)>, key: Seq<char>)
    requires
        member(members, key) is Some,
    ensures
        exists|i: int|
            0 <= i < members.len() && #[trigger] members[i].0 == key && members[i].1 == member(
                members,
                key,
            )->0,
    decreases members.len(),
{
    if members.last().0 != key {
        lemma_member_found(members.drop_last(), key);
        let i = choose|i: int|
            0 <= i < members.drop_last().len() && #[trigger] members.drop_last()[i].0 == key
                && members.drop_last()[i].1 == member(members.drop_last(), key)->0;
        assert(members[i].0 == key);
    } else {
        assert(members[members.len() - 1].0 == key);
    }
}

/// A name that is new adds one member.
pub proof fn lemma_new_member_counts(
    members: Seq<(Seq<char>, JsonV)>,
    key: Seq<char>,
    value: JsonV,
)
    requires
        member(members, key) is None,
    ensures
        with_member(members, key, value).len() == members.len() + 1,
    decreases members.len(),
{
    if members.len() > 0 {
        lemma_new_member_counts(members.drop_last(), key, value);
    }
}

/// Members in order that are all found among others are not more than those.
pub proof fn lemma_not_more_members(a: Seq<(Seq<char>, JsonV)>, b: Seq<(Seq<char>, JsonV)>)
    requires
        ascending(a),
        ascending(b),
        forall|key: Seq<char>| #[trigger] member(a, key) is Some ==> member(b, key) is Some,
    ensures
        a.len() <= b.len(),
    decreases b.len(),
{
    if a.len() > 0 {
        let first = a.drop_last();
        let rest = b.drop_last();
        let name = a.last().0;
        assert(member(a, name) is Some);
        lemma_member_found(b, name);
        assert(ascending(first)) by {
            assert forall|i: int, j: int| 0 <= i < j < first.len() implies precedes(
                #[trigger] first[i].0,
                #[trigger] first[j].0,
            ) by {
                assert(first[i] == a[i] && first[j] == a[j]);
            }
        }
        assert(ascending(rest)) by {
            assert forall|i: int, j: int| 0 <= i < j < rest.len() implies precedes(
                #[trigger] rest[i].0,
                #[trigger] rest[j].0,
            ) by {
                assert(rest[i] == b[i] && rest[j] == b[j]);
            }
        }
        assert forall|key: Seq<char>| #[trigger] member(first, key) is Some implies member(
            rest,
            key,
        ) is Some by {
            lemma_member_found(first, key);
            let i = choose|i: int| 0 <= i < first.len() && #[trigger] first[i].0 == key;
            assert(a[i].0 == key);
            lemma_member_at(a, i);
            if b.last().0 == key {
                let at = choose|at: int| 0 <= at < b.len() && #[trigger] b[at].0 == name;
                assert(precedes(a[i].0, a[a.len() - 1].0));
                lemma_precedes_not_itself(key);
                if at < b.len() - 1 {
                    assert(precedes(b[at].0, b[b.len() - 1].0));
                    lemma_precedes_transitive(key, name, key);
                }
            }
        }
        lemma_not_more_members(first, rest);
    }
}

/// Members in order are the same where every name finds the same.
pub proof fn lemma_equal_members(a: Seq<(Seq<char>, JsonV)>, b: Seq<(Seq<char>, JsonV)>)
    requires
        ascending(a),
        ascending(b),
        forall|key: Seq<char>| #[trigger] member(a, key) == member(b, key),
    ensures
        a == b,
    decreases a.len(),
{
    if a.len() == 0 {
        if b.len() > 0 {
            lemma_member_at(b, b.len() - 1);
            assert(member(a, b.last().0) is None);
        }
        assert(a =~= b);
    } else {
        let first = a.drop_last();
        let rest = b.drop_last();
        let name = a.last().0;
        assert(member(a, name) is Some);
        lemma_member_found(b, name);
        let at = choose|at: int| 0 <= at < b.len() && #[trigger] b[at].0 == name;
        if at < b.len() - 1 {
            let other = b.last().0;
            assert(precedes(b[at].0, b[b.len() - 1].0));
            lemma_precedes_not_itself(name);
            assert(member(b, other) is Some);
            assert(member(a, other) is Some);
            lemma_member_found(a, other);
            let from = choose|from: int| 0 <= from < a.len() && #[trigger] a[from].0 == other;
            assert(precedes(a[from].0, a[a.len() - 1].0));
            lemma_precedes_transitive(name, other, name);
        }
        assert(b.last().0 == name);
        assert(a.last() == b.last());
        assert forall|i: int, j: int| 0 <= i < j < first.len() implies precedes(
            #[trigger] first[i].0,
            #[trigger] first[j].0,
        ) by {
            assert(first[i] == a[i] && first[j] == a[j]);
        }
        assert forall|i: int, j: int| 0 <= i < j < rest.len() implies precedes(
            #[trigger] rest[i].0,
            #[trigger] rest[j].0,
        ) by {
            assert(rest[i] == b[i] && rest[j] == b[j]);
        }
        assert forall|key: Seq<char>| #[trigger] member(first, key) == member(rest, key) by {
            assert(member(a, key) == member(b, key));
            if key == name {
                lemma_precedes_not_itself(name);
                if member(first, key) is Some {
                    lemma_member_found(first, key);
                    let i = choose|i: int| 0 <= i < first.len() && #[trigger] first[i].0 == key;
                    assert(precedes(a[i].0, a[a.len() - 1].0));
                }
                if member(rest, key) is Some {
                    lemma_member_found(rest, key);
                    let i = choose|i: int| 0 <= i < rest.len() && #[trigger] rest[i].0 == key;
                    assert(precedes(b[i].0, b[b.len() - 1].0));
                }
            }
        }
        lemma_equal_members(first, rest);
        assert(a =~= first.push(a.last()));
        assert(b =~= rest.push(b.last()));
    }
}

/// No name stands twice.
pub open spec fn names_differ(pairs: Seq<(Seq<char>, JsonV)>) -> bool {
    forall|i: int, j: int|
        0 <= i < j < pairs.len() ==> (#[trigger] pairs[i]).0 != (#[trigger] pairs[j]).0
}

/// A pair whose name stands once is found under it.
pub proof fn lemma_pair_found(pairs: Seq<(Seq<char>, JsonV)>, i: int)
    requires
        names_differ(pairs),
        0 <= i < pairs.len(),
    ensures
        member(pairs, pairs[i].0) == Some(pairs[i].1),
    decreases pairs.len(),
{
    if i < pairs.len() - 1 {
        let rest = pairs.drop_last();
        assert(pairs[i].0 != pairs[pairs.len() - 1].0);
        assert forall|a: int, b: int| 0 <= a < b < rest.len() implies (#[trigger] rest[a]).0
            != (#[trigger] rest[b]).0 by {
            assert(pairs[a].0 != pairs[b].0);
        }
        lemma_pair_found(rest, i);
    }
}

/// Nothing is found under a name that no pair has.
pub proof fn lemma_pair_missing(pairs: Seq<(Seq<char>, JsonV)>, key: Seq<char>)
    requires
        forall|i: int| 0 <= i < pairs.len() ==> (#[trigger] pairs[i]).0 != key,
    ensures
        member(pairs, key) is None,
    decreases pairs.len(),
{
    if pairs.len() > 0 {
        let rest = pairs.drop_last();
        assert forall|i: int| 0 <= i < rest.len() implies (#[trigger] rest[i]).0 != key by {
            assert(pairs[i].0 != key);
        }
        assert(pairs[pairs.len() - 1].0 != key);
        lemma_pair_missing(rest, key);
    }
}

/// What is found in collected members is the last pair of that name.
pub proof fn lemma_collected_member(pairs: Seq<(Seq<char>, JsonV)>, key: Seq<char>)
    ensures
        member(collected(pairs), key) == member(pairs, key),
        ascending(collected(pairs)),
    decreases pairs.len(),
{
    if pairs.len() > 0 {
        let rest = pairs.drop_last();
        lemma_collected_member(rest, key);
        with_member_reads_back(collected(rest), pairs.last().0, pairs.last().1, key);
        with_member_keeps_order(collected(rest), pairs.last().0, pairs.last().1);
    }
}

/// The text, or null.
pub open spec fn opt_text(text: Option<Seq<char>>) -> JsonV {
    match text {
        Some(value) => JsonV::Text(value),
        None => JsonV::Null,
    }
}

/// A string, or null.
pub fn opt_text_json(text: &Option<String>) -> (r: Json)
    ensures
        r@ == opt_text(opt_view(*text)),
{
    match text {
        Some(value) => text_json(value.as_str()),
        None => Json::Null,
    }
}

} // verus!
