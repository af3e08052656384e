//! A JSON document as plain values, with the lookups that the runtime
//! diagnostics read from it.
//!
//! Objects keep their members in a list; a lookup takes the first member with
//! the asked key, which is the only one in a document whose keys are unique.

use crate::text::{str_eq, views};
use vstd::prelude::*;

verus! {

/// A JSON number as the document holds it.
#[derive(Clone, Copy, Debug, PartialEq, Eq, Structural)]
pub enum JsonNumber {
    /// A non-negative integer.
    PosInt(u64),
    /// A negative integer.
    NegInt(i64),
    /// A number with a fraction or an exponent, kept as the bits of its `f64`.
    FloatBits(u64),
}

/// One member of a JSON object.
#[derive(Debug)]
pub struct JsonMember {
    pub key: String,
    pub value: JsonValue,
}

/// A JSON value.
#[derive(Debug)]
pub enum JsonValue {
    Null,
    Bool(bool),
    Number(JsonNumber),
    Str(String),
    Array(Vec<JsonValue>),
    Object(Vec<JsonMember>),
}

/// The value of the first member of `members` whose key is `key`.
pub open spec fn lookup(members: Seq<JsonMember>, key: Seq<char>) -> Option<JsonValue>
    decreases members.len(),
{
    if members.len() == 0 {
        None
    } else if members[0].key@ == key {
        Some(members[0].value)
    } else {
        lookup(members.drop_first(), key)
    }
}

/// `value.get(key)`: the member `key` of an object; nothing for other values.
pub open spec fn jget(v: JsonValue, key: Seq<char>) -> Option<JsonValue> {
    match v {
        JsonValue::Object(members) => lookup(members@, key),
        _ => None,
    }
}

/// The member `key` of `v`, or `null` where there is none.
pub open spec fn jget_or_null(v: JsonValue, key: Seq<char>) -> JsonValue {
    match jget(v, key) {
        Some(x) => x,
        None => JsonValue::Null,
    }
}

/// The text of a string value; empty for anything else.
pub open spec fn text_or_empty(o: Option<JsonValue>) -> Seq<char> {
    match o {
        Some(JsonValue::Str(s)) => s@,
        _ => Seq::empty(),
    }
}

/// The text of a string value, if it is one.
pub open spec fn text_of(o: Option<JsonValue>) -> Option<Seq<char>> {
    match o {
        Some(JsonValue::Str(s)) => Some(s@),
        _ => None,
    }
}

/// `as_u64()`: a non-negative integer value.
pub open spec fn u64_of(o: Option<JsonValue>) -> Option<u64> {
    match o {
        Some(JsonValue::Number(JsonNumber::PosInt(n))) => Some(n),
        _ => None,
    }
}

/// A non-negative integer value; zero for anything else.
pub open spec fn u64_or_zero(o: Option<JsonValue>) -> u64 {
    match u64_of(o) {
        Some(n) => n,
        None => 0,
    }
}

/// A boolean value; `false` for anything else.
pub open spec fn bool_or_false(o: Option<JsonValue>) -> bool {
    match o {
        Some(JsonValue::Bool(b)) => b,
        _ => false,
    }
}

/// The items of an array value; none for anything else.
pub open spec fn items_of(o: Option<JsonValue>) -> Seq<JsonValue> {
    match o {
        Some(JsonValue::Array(items)) => items@,
        _ => Seq::empty(),
    }
}

/// The texts of the string items among `items`, in order.
pub open spec fn string_items(items: Seq<JsonValue>) -> Seq<Seq<char>>
    decreases items.len(),
{
    if items.len() == 0 {
        Seq::empty()
    } else {
        let rest = string_items(items.drop_last());
        match items.last() {
            JsonValue::Str(s) => rest.push(s@),
            _ => rest,
        }
    }
}

/// The keys of an object value, in the order of its members; none for
/// anything else.
pub open spec fn keys_of(o: Option<JsonValue>) -> Seq<Seq<char>> {
    match o {
        Some(JsonValue::Object(members)) => members@.map_values(|m: JsonMember| m.key@),
        _ => Seq::empty(),
    }
}

/// `as_f64()` on a value: its number, if it is one.
pub open spec fn number_of(o: Option<JsonValue>) -> Option<JsonNumber> {
    match o {
        Some(JsonValue::Number(n)) => Some(n),
        _ => None,
    }
}

/// `as_array()` on a value: its items, if it is an array.
pub open spec fn array_of(o: Option<JsonValue>) -> Option<Seq<JsonValue>> {
    match o {
        Some(JsonValue::Array(items)) => Some(items@),
        _ => None,
    }
}

/// The `f64` bits `b` without their sign bit.
pub open spec fn magnitude_bits(b: u64) -> int {
    if b >= 0x8000_0000_0000_0000u64 {
        b - 0x8000_0000_0000_0000u64
    } else {
        b as int
    }
}

/// Whether the `f64` bits `b` are a NaN (all exponent bits set, a non-zero
/// fraction).
pub open spec fn is_nan_bits(b: u64) -> bool {
    magnitude_bits(b) > 0x7FF0_0000_0000_0000u64
}

/// Whether the number, read as an `f64`, is at most 1.0 (a NaN is not).
/// Past the sign, IEEE 754 bits order as the values they encode; 1.0 is
/// `0x3FF0_0000_0000_0000`.
pub open spec fn at_most_one(n: JsonNumber) -> bool {
    match n {
        JsonNumber::PosInt(k) => k <= 1,
        JsonNumber::NegInt(k) => k <= 1,
        JsonNumber::FloatBits(b) => !is_nan_bits(b) && (b >= 0x8000_0000_0000_0000u64 || b
            <= 0x3FF0_0000_0000_0000u64),
    }
}

/// Whether the number, read as an `f64`, is above 0.0 (a NaN is not):
/// for bits, a clear sign bit and a non-zero magnitude up to infinity.
pub open spec fn is_positive(n: JsonNumber) -> bool {
    match n {
        JsonNumber::PosInt(k) => k > 0,
        JsonNumber::NegInt(k) => k > 0,
        JsonNumber::FloatBits(b) => 0 < b <= 0x7FF0_0000_0000_0000u64,
    }
}

/// `n.as_f64() <= 1.0`.
pub fn number_at_most_one(n: JsonNumber) -> (r: bool)
    ensures
        r == at_most_one(n),
{
    match n {
        JsonNumber::PosInt(k) => k <= 1,
        JsonNumber::NegInt(k) => k <= 1,
        JsonNumber::FloatBits(b) => {
            let m: u64 = if b >= 0x8000_0000_0000_0000u64 {
                b - 0x8000_0000_0000_0000u64
            } else {
                b
            };
            m <= 0x7FF0_0000_0000_0000u64 && (b >= 0x8000_0000_0000_0000u64 || b
                <= 0x3FF0_0000_0000_0000u64)
        },
    }
}

/// `n.as_f64() > 0.0`.
pub fn number_is_positive(n: JsonNumber) -> (r: bool)
    ensures
        r == is_positive(n),
{
    match n {
        JsonNumber::PosInt(k) => k > 0,
        JsonNumber::NegInt(k) => k > 0,
        JsonNumber::FloatBits(b) => 0 < b && b <= 0x7FF0_0000_0000_0000u64,
    }
}

/// `value.get(key)`.
pub fn get<'a>(v: &'a JsonValue, key: &str) -> (r: Option<&'a JsonValue>)
    ensures
        match r {
            Some(x) => jget(*v, key@) == Some(*x),
            None => jget(*v, key@) is None,
        },
{
    match v {
        JsonValue::Object(members) => {
            let mut i: usize = 0;
            assert(members@.skip(0) =~= members@);
            while i < members.len()
                invariant
                    i <= members@.len(),
                    jget(*v, key@) == lookup(members@, key@),
                    lookup(members@, key@) == lookup(members@.skip(i as int), key@),
                decreases members@.len() - i,
            {
                let ghost rest = members@.skip(i as int);
                assert(rest[0] == members@[i as int]);
                if str_eq(members[i].key.as_str(), key) {
                    assert(rest[0].key@ == key@);
                    assert(lookup(rest, key@) == Some(rest[0].value));
                    assert(jget(*v, key@) == Some(members@[i as int].value));
                    return Some(&members[i].value);
                }
                assert(rest.drop_first() =~= members@.skip(i + 1));
                i = i + 1;
            }
            None
        },
        _ => None,
    }
}

/// `value.get(key).and_then(as_str).unwrap_or_default().to_string()`.
pub fn text_field(v: &JsonValue, key: &str) -> (r: String)
    ensures
        r@ == text_or_empty(jget(*v, key@)),
{
    match get(v, key) {
        Some(JsonValue::Str(s)) => s.clone(),
        _ => String::new(),
    }
}

/// `value.get(key).and_then(as_str).map(to_string)`.
pub fn opt_text_field(v: &JsonValue, key: &str) -> (r: Option<String>)
    ensures
        match r {
            Some(s) => text_of(jget(*v, key@)) == Some(s@),
            None => text_of(jget(*v, key@)) is None,
        },
{
    match get(v, key) {
        Some(JsonValue::Str(s)) => Some(s.clone()),
        _ => None,
    }
}

/// `value.get(key).and_then(as_u64)`.
pub fn opt_u64_field(v: &JsonValue, key: &str) -> (r: Option<u64>)
    ensures
        r == u64_of(jget(*v, key@)),
{
    match get(v, key) {
        Some(JsonValue::Number(JsonNumber::PosInt(n))) => Some(*n),
        _ => None,
    }
}

/// `value.get(key).and_then(as_f64)`, the number kept as written.
pub fn number_field(v: &JsonValue, key: &str) -> (r: Option<JsonNumber>)
    ensures
        r == number_of(jget(*v, key@)),
{
    match get(v, key) {
        Some(JsonValue::Number(n)) => Some(*n),
        _ => None,
    }
}

/// `value.get(key).and_then(as_array)`.
pub fn array_field<'a>(v: &'a JsonValue, key: &str) -> (r: Option<&'a Vec<JsonValue>>)
    ensures
        match r {
            Some(items) => array_of(jget(*v, key@)) == Some(items@),
            None => array_of(jget(*v, key@)) is None,
        },
{
    match get(v, key) {
        Some(JsonValue::Array(items)) => Some(items),
        _ => None,
    }
}

/// `value.get(key).and_then(as_u64).unwrap_or_default()`.
pub fn u64_field(v: &JsonValue, key: &str) -> (r: u64)
    ensures
        r == u64_or_zero(jget(*v, key@)),
{
    match opt_u64_field(v, key) {
        Some(n) => n,
        None => 0,
    }
}

/// `value.get(key).and_then(as_bool).unwrap_or(false)`.
pub fn bool_field(v: &JsonValue, key: &str) -> (r: bool)
    ensures
        r == bool_or_false(jget(*v, key@)),
{
    match get(v, key) {
        Some(JsonValue::Bool(b)) => *b,
        _ => false,
    }
}

/// The texts of the string items of `items`, in order.
pub fn string_items_of(items: &Vec<JsonValue>) -> (r: Vec<String>)
    ensures
        views(r@) == string_items(items@),
{
    let mut out: Vec<String> = Vec::new();
    let mut i: usize = 0;
    while i < items.len()
        invariant
            i <= items@.len(),
            views(out@) == string_items(items@.take(i as int)),
        decreases items@.len() - i,
    {
        let ghost before = items@.take(i as int);
        let ghost after = items@.take(i + 1);
        assert(after.drop_last() =~= before);
        assert(after.last() == items@[i as int]);
        match &items[i] {
            JsonValue::Str(s) => {
                out.push(s.clone());
                assert(views(out@) =~= string_items(before).push(s@));
            },
            _ => {},
        }
        i = i + 1;
    }
    assert(items@.take(items@.len() as int) =~= items@);
    out
}

/// The string items of the array member `key`, in order; none where the
/// member is missing or not an array.
pub fn string_array_field(v: &JsonValue, key: &str) -> (r: Vec<String>)
    ensures
        views(r@) == string_items(items_of(jget(*v, key@))),
{
    match get(v, key) {
        Some(JsonValue::Array(items)) => string_items_of(items),
        _ => {
            let r: Vec<String> = Vec::new();
            assert(views(r@) =~= Seq::<Seq<char>>::empty());
            r
        },
    }
}

/// The keys of the object member `key`, in the order of its members; none
/// where the member is missing or not an object.
pub fn object_keys_field(v: &JsonValue, key: &str) -> (r: Vec<String>)
    ensures
        views(r@) == keys_of(jget(*v, key@)),
{
    let mut out: Vec<String> = Vec::new();
    match get(v, key) {
        Some(JsonValue::Object(members)) => {
            let mut i: usize = 0;
            while i < members.len()
                invariant
                    i <= members@.len(),
                    views(out@) == members@.take(i as int).map_values(|m: JsonMember| m.key@),
                decreases members@.len() - i,
            {
                let ghost prev = out@;
                let k = members[i].key.clone();
                out.push(k);
                assert(out@ == prev.push(k));
                assert(members@.take(i + 1).map_values(|m: JsonMember| m.key@) =~= members@.take(
                    i as int,
                ).map_values(|m: JsonMember| m.key@).push(members@[i as int].key@));
                assert(views(out@) =~= views(prev).push(k@));
                i = i + 1;
            }
            assert(members@.take(members@.len() as int) =~= members@);
        },
        _ => {
            assert(views(out@) =~= Seq::<Seq<char>>::empty());
        },
    }
    out
}

/// The position of the first member of `members` named `key`; -1 where there
/// is none.
pub open spec fn key_index(members: Seq<JsonMember>, key: Seq<char>) -> int
    decreases members.len(),
{
    if members.len() == 0 {
        -1
    } else if members[0].key@ == key {
        0
    } else {
        let r = key_index(members.drop_first(), key);
        if r < 0 {
            -1
        } else {
            r + 1
        }
    }
}

/// The members of an object after `map.insert(key, value)`: the member
/// named `key` takes the new value in its place, else the pair is added at
/// the end.
pub open spec fn inserted(members: Seq<JsonMember>, key: String, value: JsonValue) -> Seq<JsonMember> {
    let i = key_index(members, key@);
    if i >= 0 {
        members.update(i, JsonMember { key, value })
    } else {
        members.push(JsonMember { key, value })
    }
}

/// `key_index` finds the first member with the key, and `lookup` reads its
/// value.
pub proof fn lemma_key_index(members: Seq<JsonMember>, key: Seq<char>)
    ensures
        -1 <= key_index(members, key) < members.len(),
        key_index(members, key) >= 0 ==> members[key_index(members, key)].key@ == key,
        forall|j: int|
            0 <= j < members.len() && (key_index(members, key) < 0 || j < key_index(members, key))
                ==> #[trigger] members[j].key@ != key,
        lookup(members, key) == if key_index(members, key) >= 0 {
            Some(members[key_index(members, key)].value)
        } else {
            None::<JsonValue>
        },
    decreases members.len(),
{
    if members.len() > 0 && members[0].key@ != key {
        let rest = members.drop_first();
        lemma_key_index(rest, key);
        assert forall|j: int|
            0 <= j < members.len() && (key_index(members, key) < 0 || j < key_index(members, key))
                implies #[trigger] members[j].key@ != key by {
            if j > 0 {
                assert(members[j] == rest[j - 1]);
            }
        }
    }
}

/// A lookup of any other key than the one written reads what it read before.
pub proof fn lemma_lookup_other(members: Seq<JsonMember>, i: int, m: JsonMember, k: Seq<char>)
    requires
        0 <= i < members.len(),
        members[i].key@ != k,
        m.key@ != k,
    ensures
        lookup(members.update(i, m), k) == lookup(members, k),
    decreases members.len(),
{
    let u = members.update(i, m);
    if i == 0 {
        assert(u.drop_first() =~= members.drop_first());
    } else {
        assert(u[0] == members[0]);
        if members[0].key@ != k {
            lemma_lookup_other(members.drop_first(), i - 1, m, k);
            assert(u.drop_first() =~= members.drop_first().update(i - 1, m));
        }
    }
}

/// A lookup past a pushed member of another key reads what it read before.
pub proof fn lemma_lookup_push_other(members: Seq<JsonMember>, m: JsonMember, k: Seq<char>)
    requires
        m.key@ != k,
    ensures
        lookup(members.push(m), k) == lookup(members, k),
    decreases members.len(),
{
    let p = members.push(m);
    if members.len() == 0 {
        assert(p[0] == m);
        assert(p.drop_first() =~= Seq::<JsonMember>::empty());
        assert(lookup(p.drop_first(), k) is None);
    } else {
        assert(p[0] == members[0]);
        if members[0].key@ != k {
            lemma_lookup_push_other(members.drop_first(), m, k);
            assert(p.drop_first() =~= members.drop_first().push(m));
        }
    }
}

/// After `map.insert(key, value)`, a read of `key` gives `value` back and a
/// read of any other key gives what it gave before.
pub proof fn law_read_after_insert(members: Seq<JsonMember>, key: String, value: JsonValue, other: Seq<char>)
    requires
        other != key@,
    ensures
        lookup(inserted(members, key, value), key@) == Some(value),
        lookup(inserted(members, key, value), other) == lookup(members, other),
{
    lemma_key_index(members, key@);
    let i = key_index(members, key@);
    let m = JsonMember { key, value };
    let after = inserted(members, key, value);
    lemma_key_index(after, key@);
    let ka = key_index(after, key@);
    let at = if i >= 0 { i } else { members.len() as int };
    assert(after[at] == m);
    assert(after[at].key@ == key@);
    if ka < 0 || ka > at {
        assert(after[at].key@ != key@);
    }
    if 0 <= ka < at {
        assert(after[ka] == members[ka]);
        assert(members[ka].key@ != key@);
    }
    assert(ka == at);
    if i >= 0 {
        lemma_lookup_other(members, i, m, other);
    } else {
        lemma_lookup_push_other(members, m, other);
    }
}

/// `map.insert(key, value)` on the members of an object.
pub fn insert_member(members: &mut Vec<JsonMember>, key: String, value: JsonValue)
    ensures
        final(members)@ == inserted(old(members)@, key, value),
{
    let mut i: usize = 0;
    while i < members.len()
        invariant
            i <= members@.len(),
            members@ == old(members)@,
            forall|j: int| 0 <= j < i ==> #[trigger] members@[j].key@ != key@,
        decreases members@.len() - i,
    {
        if str_eq(members[i].key.as_str(), key.as_str()) {
            proof {
                lemma_key_index(members@, key@);
            }
            members.set(i, JsonMember { key, value });
            return;
        }
        i = i + 1;
    }
    proof {
        lemma_key_index(members@, key@);
    }
    members.push(JsonMember { key, value });
}

/// A lowercase hexadecimal digit.
pub open spec fn hex_digit(n: nat) -> char {
    if n < 10 {
        (48 + n) as char
    } else {
        (87 + n) as char
    }
}

/// How serde_json writes one character inside a string: `"` and `\`
/// escaped with a backslash; backspace, tab, line feed, form feed and
/// carriage return as `\b`, `\t`, `\n`, `\f`, `\r`; any other control
/// character below U+0020 as `\u00` and two lowercase hex digits; every
/// other character as itself.
pub open spec fn json_escape_char(c: char) -> Seq<char> {
    if c == '"' {
        seq!['\\', '"']
    } else if c == '\\' {
        seq!['\\', '\\']
    } else if c == '\u{8}' {
        seq!['\\', 'b']
    } else if c == '\t' {
        seq!['\\', 't']
    } else if c == '\n' {
        seq!['\\', 'n']
    } else if c == '\u{c}' {
        seq!['\\', 'f']
    } else if c == '\r' {
        seq!['\\', 'r']
    } else if (c as u32) < 0x20 {
        seq!['\\', 'u', '0', '0', hex_digit((c as u32 / 16) as nat), hex_digit((c as u32 % 16) as nat)]
    } else {
        seq![c]
    }
}

/// The characters of `s` as serde_json writes them inside a string.
pub open spec fn json_escaped(s: Seq<char>) -> Seq<char>
    decreases s.len(),
{
    if s.len() == 0 {
        Seq::empty()
    } else {
        json_escaped(s.drop_last()) + json_escape_char(s.last())
    }
}

/// The JSON text serde_json prints for the string `s`: the string, escaped,
/// between double quotes.
pub open spec fn json_quoted(s: Seq<char>) -> Seq<char> {
    seq!['"'] + json_escaped(s) + seq!['"']
}

/// The compact JSON text serde_json prints for an object whose one member is
/// `key` with the string value `value`.
pub open spec fn json_single_member_text(key: Seq<char>, value: Seq<char>) -> Seq<char> {
    seq!['{'] + json_quoted(key) + seq![':'] + json_quoted(value) + seq!['}']
}

/// Prints the object `{key: value}` as compact JSON text with serde_json
/// (`Value::to_string`).
#[verifier::external_body]
pub fn single_member_json_text(key: &str, value: &str) -> (r: String)
    ensures
        r@ == json_single_member_text(key@, value@),
{
    let mut map = serde_json::Map::new();
    map.insert(key.to_string(), serde_json::Value::String(value.to_string()));
    serde_json::Value::Object(map).to_string()
}

/// Prints `s` as a JSON string value with serde_json
/// (`Value::String(..).to_string()`).
#[verifier::external_body]
pub fn json_string_text(s: &str) -> (r: String)
    ensures
        r@ == json_quoted(s@),
{
    serde_json::Value::String(s.to_owned()).to_string()
}

/// serde_json's document type, carried only into the conversion below.
#[verifier::external_type_specification]
#[verifier::external_body]
pub struct ExSerdeValue(serde_json::Value);

/// serde_json's number type, carried only into the conversion below.
#[verifier::external_type_specification]
#[verifier::external_body]
pub struct ExSerdeNumber(serde_json::Number);

/// What serde_json reads from `bytes` (`from_slice::<Value>`), as the
/// library's JSON value: nothing where serde_json refuses the text.
pub uninterp spec fn json_parsed(bytes: Seq<u8>) -> Option<JsonValue>;

/// A serde_json number as the library holds it: a non-negative integer, a
/// negative integer, or the bits of the `f64` it holds otherwise.
#[verifier::external_body]
fn json_number_of(n: &serde_json::Number) -> JsonNumber {
    match (n.as_u64(), n.as_i64()) {
        (Some(u), _) => JsonNumber::PosInt(u),
        (None, Some(i)) => JsonNumber::NegInt(i),
        _ => JsonNumber::FloatBits(n.as_f64().map_or(0, |x| x.to_bits())),
    }
}

/// A serde_json document as the library's JSON value, variant by variant
/// (object members in serde_json's order).
#[verifier::external_body]
fn json_value_of(v: &serde_json::Value) -> JsonValue {
    match v {
        serde_json::Value::Null => JsonValue::Null,
        serde_json::Value::Bool(b) => JsonValue::Bool(*b),
        serde_json::Value::Number(n) => JsonValue::Number(json_number_of(n)),
        serde_json::Value::String(s) => JsonValue::Str(s.clone()),
        serde_json::Value::Array(a) => JsonValue::Array(a.iter().map(json_value_of).collect()),
        serde_json::Value::Object(m) => JsonValue::Object(m.iter().map(|(k, x)| JsonMember { key: k.clone(), value: json_value_of(x) }).collect()),
    }
}

/// Reads `bytes` as a JSON document with serde_json
/// (`from_slice::<Value>`); `None` where serde_json refuses them. What
/// serde_json reads is named here without being stated.
#[verifier::external_body]
pub fn parse_json_bytes(bytes: &[u8]) -> (r: Option<JsonValue>)
    ensures
        r == json_parsed(bytes@),
{
    match serde_json::from_slice::<serde_json::Value>(bytes) {
        Ok(v) => Some(json_value_of(&v)),
        Err(_) => None,
    }
}

} // verus!
